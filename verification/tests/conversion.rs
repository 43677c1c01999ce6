//! Conversations and tools in Chat form.
use vg_model_router::codec::parse_json;
use vg_model_router::convert::{
    convert_item, convert_message_content, push_tool_call, reasoning_text, to_chat_messages,
    to_chat_tools,
};
use vg_model_router::items::{content_text, input_items, role, tool_output_to_string};
use vg_model_router::json::Json;

fn json(text: &str) -> Json {
    parse_json(text).unwrap()
}

fn items() -> Vec<Json> {
    vec![
        json(r#"{"type": "message", "role": "user", "content": [{"type": "input_text", "text": "hi"}]}"#),
        json(r#"{"type": "reasoning", "summary": [{"type": "summary_text", "text": "think"}]}"#),
        json(r#"{"type": "function_call", "call_id": "c1", "name": "shell", "arguments": "{}"}"#),
        json(r#"{"type": "custom_tool_call", "call_id": "c2", "name": "apply_patch", "input": "*** Begin"}"#),
        json(r#"{"type": "function_call_output", "call_id": "c1", "output": "ok"}"#),
    ]
}

#[test]
fn items_become_chat_messages() {
    let items = items();
    let m = to_chat_messages(Some("sys"), &items, true);
    assert_eq!(m[0], json(r#"{"role": "system", "content": "sys"}"#));
    assert_eq!(m[1], json(r#"{"role": "user", "content": "hi"}"#));
    assert_eq!(m[2].text_at("reasoning_content"), Some("think"));
    let calls = m[2].array_at("tool_calls").unwrap();
    assert_eq!(calls.len(), 2);
    assert_eq!(
        calls[1].get2("function", "arguments").unwrap().as_str(),
        Some("{\"input\":\"*** Begin\"}")
    );
    assert_eq!(m[3].text_at("role"), Some("tool"));
    assert!(to_chat_messages(None, &items, false)[1].get("reasoning_content").is_none());
}

#[test]
fn no_message_carries_reasoning_by_default() {
    for m in to_chat_messages(Some("sys"), &items(), false) {
        assert!(m.get("reasoning_content").is_none());
    }
}

#[test]
fn empty_instructions_make_no_message() {
    assert_eq!(to_chat_messages(Some(""), &vec![], false).len(), 0);
    assert_eq!(to_chat_messages(None, &vec![], false).len(), 0);
}

#[test]
fn roles_become_chat_roles() {
    for (from, to) in [
        ("developer", "system"),
        ("system", "system"),
        ("assistant", "assistant"),
        ("user", "user"),
        ("critic", "user"),
    ] {
        let item = json(&format!(r#"{{"role": "{from}", "content": "x"}}"#));
        let m = to_chat_messages(None, &vec![item], false);
        assert_eq!(m[0].text_at("role"), Some(to));
    }
}

#[test]
fn calls_in_a_row_share_a_message() {
    let mut messages = Vec::new();
    push_tool_call(&mut messages, "a", "ls", "{}");
    push_tool_call(&mut messages, "b", "cat", "{\"f\":1}");
    assert_eq!(
        messages,
        vec![json(
            r#"{"role":"assistant","content":null,"tool_calls":[
                {"id":"a","type":"function","function":{"name":"ls","arguments":"{}"}},
                {"id":"b","type":"function","function":{"name":"cat","arguments":"{\"f\":1}"}}]}"#
        )]
    );
}

#[test]
fn blank_arguments_become_an_empty_object() {
    let item = json(r#"{"type":"function_call","call_id":"c","name":"n","arguments":" "}"#);
    let m = to_chat_messages(None, &vec![item], false);
    let calls = m[0].array_at("tool_calls").unwrap();
    assert_eq!(calls[0].get2("function", "arguments").unwrap().as_str(), Some("{}"));
}

#[test]
fn an_image_of_the_user_keeps_the_parts() {
    let content = json(
        r#"[{"type":"input_text","text":"see"},{"type":"input_image","image_url":"u","detail":"low"}]"#,
    );
    assert_eq!(
        convert_message_content(Some(&content), "user"),
        json(
            r#"[{"type":"text","text":"see"},{"type":"image_url","image_url":{"url":"u","detail":"low"}}]"#
        )
    );
    assert_eq!(convert_message_content(Some(&content), "assistant"), Json::text("see"));
    assert_eq!(convert_message_content(None, "user"), Json::text(""));
}

#[test]
fn reasoning_prefers_content_over_summary() {
    let both = json(r#"{"content":[{"text":"a"},{"text":"b"}],"summary":[{"text":"s"}]}"#);
    assert_eq!(reasoning_text(&both), "a\nb");
    let summary = json(r#"{"encrypted_content":"x","summary":[{"text":"s"}]}"#);
    assert_eq!(reasoning_text(&summary), "s");
    assert_eq!(reasoning_text(&json(r#"{"encrypted_content":"x"}"#)), "");
}

#[test]
fn reasoning_waits_for_the_next_assistant_message() {
    let items = vec![
        json(r#"{"type":"reasoning","summary":[{"text":"one "}]}"#),
        json(r#"{"type":"reasoning","summary":[{"text":"two"}]}"#),
        json(r#"{"role":"user","content":"q"}"#),
        json(r#"{"role":"assistant","content":"a"}"#),
    ];
    let m = to_chat_messages(None, &items, true);
    assert!(m[0].get("reasoning_content").is_none());
    assert_eq!(m[1].text_at("reasoning_content"), Some("one two"));
}

#[test]
fn calls_that_share_a_message_share_its_reasoning() {
    let items = vec![
        json(r#"{"type":"reasoning","summary":[{"text":"R1"}]}"#),
        json(r#"{"type":"function_call","call_id":"c1","name":"f"}"#),
        json(r#"{"type":"reasoning","summary":[{"text":"R2"}]}"#),
        json(r#"{"type":"function_call","call_id":"c2","name":"g"}"#),
    ];
    let m = to_chat_messages(None, &items, true);
    assert_eq!(m.len(), 1);
    assert_eq!(m[0].text_at("reasoning_content"), Some("R1R2"));
    assert_eq!(m[0].array_at("tool_calls").unwrap().len(), 2);
}

#[test]
fn items_without_chat_form_are_left_out() {
    let mut messages = Vec::new();
    let item = json(r#"{"type":"local_shell_call","call_id":"c"}"#);
    assert_eq!(convert_item(&item, &mut messages, None, true), None);
    assert_eq!(messages.len(), 0);
}

#[test]
fn tools_become_functions() {
    let tools = vec![
        json(r#"{"type":"function","name":"f","description":"d","parameters":{"type":"object"},"strict":true}"#),
        json(r#"{"type":"function","name":"g","strict":null}"#),
        json(r#"{"type":"web_search"}"#),
        json(r#"{"type":"custom","name":"p","description":"D","format":{"syntax":"lark","definition":"G"}}"#),
    ];
    assert_eq!(
        to_chat_tools(&tools),
        vec![
            json(
                r#"{"type":"function","function":{"name":"f","description":"d","parameters":{"type":"object"},"strict":true}}"#
            ),
            json(
                r#"{"type":"function","function":{"name":"g","parameters":{"type":"object","properties":{}}}}"#
            ),
            json(
                r#"{"type":"function","function":{"name":"p",
                    "description":"D\n\nThe `input` argument must be raw text following this lark grammar:\nG",
                    "parameters":{"type":"object","properties":{"input":{"type":"string","description":"Raw tool input"}},"required":["input"]}}}"#
            ),
        ]
    );
}

#[test]
fn tool_outputs_as_text() {
    assert_eq!(tool_output_to_string(None), "");
    assert_eq!(tool_output_to_string(Some(&Json::Null)), "");
    assert_eq!(tool_output_to_string(Some(&Json::text("x"))), "x");
    assert_eq!(tool_output_to_string(Some(&json(r#"[{"text":"a"},{"n":1},{"text":"b"}]"#))), "a\nb");
    assert_eq!(tool_output_to_string(Some(&json(r#"{"n":1}"#))), r#"{"n":1}"#);
}

#[test]
fn messages_tell_who_speaks_and_what() {
    let m = json(
        r#"{"role":"user","content":[{"type":"input_text","text":"a"},{"type":"input_image"},
            {"type":"input_file"},{"type":"refusal","refusal":"no"},{"type":"audio"}]}"#,
    );
    assert_eq!(role(&m), "user");
    assert_eq!(content_text(&m), "a\n[image]\n[file]\nno");
    assert_eq!(role(&json(r#"{"type":"reasoning","role":"user"}"#)), "");
}

#[test]
fn a_text_input_is_one_message() {
    let items = input_items(&json(r#"{"input":"hi"}"#));
    assert_eq!(items, vec![json(r#"{"type":"message","role":"user","content":"hi"}"#)]);
    assert_eq!(input_items(&json("{}")).len(), 0);
}
