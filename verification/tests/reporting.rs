//! The lines of the log.
use vg_model_router::codec::parse_json;
use vg_model_router::json::Json;
use vg_model_router::measure::Elapsed;
use vg_model_router::report::{
    fmt_num, input_items_summary, log, output_summary, req_color, tools_summary,
    user_message_summary, Level, Report, ReqColor, Usage, REQ_COLORS,
};
use vg_model_router::tally::tally;

fn json(text: &str) -> Json {
    parse_json(text).unwrap()
}

#[test]
fn req_color_cycles_every_eight_requests() {
    assert_eq!(req_color("#1 ▶ POST /v1/responses  [stream]"), Some(REQ_COLORS[1]));
    assert_ne!(req_color("#2 ⇢ route"), req_color("#1 ▶ POST"));
    assert_eq!(req_color("#9 ⇢ route"), req_color("#1 ▶ POST"));
    assert_eq!(req_color("vg-model-router listening on http://…"), None);
    assert_eq!(req_color("#nope"), None);
}

#[test]
fn numbers_over_64_bits_have_no_color() {
    assert_eq!(req_color("#18446744073709551615"), Some(REQ_COLORS[7]));
    assert_eq!(req_color("#18446744073709551616"), None);
    assert_eq!(req_color("#"), None);
    assert_eq!(req_color(""), None);
}

#[test]
fn eight_colors_differ() {
    for a in 0..8u64 {
        for b in 0..8u64 {
            let same = req_color(&format!("#{a}")) == req_color(&format!("#{b}"));
            assert_eq!(same, a == b);
        }
    }
}

#[test]
fn colors_are_for_terminals() {
    assert!(ReqColor::new(true, false).ansi);
    assert!(!ReqColor::new(true, true).ansi);
    assert!(!ReqColor::new(false, false).ansi);
}

#[test]
fn lines_with_and_without_color() {
    let plain = ReqColor::new(false, false);
    assert_eq!(plain.level(Level::Info), "  INFO ");
    assert_eq!(plain.message("#1 x"), "#1 x\n");
    let ansi = ReqColor::new(true, false);
    assert_eq!(ansi.level(Level::Error), " \u{1b}[31mERROR\u{1b}[0m ");
    assert_eq!(ansi.level(Level::Warn), " \u{1b}[33m WARN\u{1b}[0m ");
    assert_eq!(ansi.level(Level::Info), " \u{1b}[32m INFO\u{1b}[0m ");
    assert_eq!(ansi.level(Level::Debug), " \u{1b}[34mDEBUG\u{1b}[0m ");
    assert_eq!(ansi.level(Level::Trace), " \u{1b}[35mTRACE\u{1b}[0m ");
    assert_eq!(ansi.message("#1 x\ny"), "\u{1b}[38;5;208m#1 x\ny\u{1b}[0m\n");
    assert_eq!(ansi.message("started"), "started\n");
}

#[test]
fn numbers_are_grouped_by_thousands() {
    for (n, text) in [
        (0, "0"),
        (999, "999"),
        (1000, "1,000"),
        (8029, "8,029"),
        (1_002_003, "1,002,003"),
        (u64::MAX, "18,446,744,073,709,551,615"),
    ] {
        assert_eq!(fmt_num(n), text);
        assert_eq!(fmt_num(n).replace(',', ""), n.to_string());
    }
}

#[test]
fn names_are_counted_in_order() {
    let names: Vec<String> = ["b", "a", "b", "b"].iter().map(|s| s.to_string()).collect();
    assert_eq!(tally(&names), "b ×3, a ×1");
    assert_eq!(tally(&vec![]), "");
}

#[test]
fn outputs_are_counted_by_type() {
    let output = json(r#"[{"type":"reasoning"},{"type":"message"},{"type":"reasoning"},{}]"#);
    assert_eq!(output_summary(Some(&output)), "reasoning ×2, message ×1, ? ×1");
    assert_eq!(output_summary(Some(&json("[]"))), "-");
    assert_eq!(output_summary(Some(&json("1"))), "-");
    assert_eq!(output_summary(None), "-");
}

#[test]
fn usage_of_a_response() {
    let u = json(
        r#"{"input_tokens":8029,"output_tokens":212,"input_tokens_details":{"cached_tokens":6144},
            "output_tokens_details":{"reasoning_tokens":64}}"#,
    );
    assert_eq!(
        Usage::from_response(Some(&u)),
        Some(Usage { input: 8029, output: 212, cached: Some(6144), reasoning: Some(64) })
    );
    assert_eq!(
        Usage::from_response(Some(&json("{}"))),
        Some(Usage { input: 0, output: 0, cached: None, reasoning: None })
    );
    assert_eq!(Usage::from_response(Some(&json("null"))), None);
    assert_eq!(Usage::from_response(None), None);
}

#[test]
fn a_response_that_went_well_takes_one_line() {
    let resp = json(r#"{"model":"gpt-5","status":"completed"}"#);
    let elapsed = Elapsed::new(8, 420_000_000).unwrap();
    let line = log(&Report::new(3, true, elapsed, "asked", Some(&resp), vec![]), "0.0");
    assert!(!line.warn);
    assert_eq!(line.text, "#3 ◀ response  [stream, 8.42s, model=gpt-5 → viv-gpt-5]");
}

#[test]
fn a_response_that_did_not_complete_is_told_in_full() {
    let resp = json(
        r#"{"status":"incomplete","incomplete_details":{"reason":"max_output_tokens"},
            "output":[{"type":"reasoning"},{"type":"function_call"}],
            "usage":{"input_tokens":8029,"output_tokens":212,"input_tokens_details":{"cached_tokens":6144},
            "output_tokens_details":{"reasoning_tokens":64}}}"#,
    );
    let report = Report::new(3, false, Elapsed::zero(), "viv-m", Some(&resp), vec!["odd".to_string()]);
    let line = log(&report, "76.5");
    assert!(line.warn);
    assert_eq!(
        line.text,
        "#3 ◀ response  [non-stream, 0.00s, model=viv-m → viv-m]\n    stop   ▸ status = incomplete  | reason = max_output_tokens\n    output ▸ reasoning ×1, function_call ×1\n    usage  ▸ inp: 8,029, cd-inp: 6,144 (76.5%), opt: 212 (reasoning: 64)\n    note   ▸ odd"
    );
}

#[test]
fn no_input_tokens_means_no_hits() {
    let resp = json(r#"{"status":"failed","error":{"message":"e"},"usage":{"input_tokens_details":{"cached_tokens":1}}}"#);
    let line = log(&Report::new(1, false, Elapsed::zero(), "", Some(&resp), vec![]), "NaN");
    assert_eq!(
        line.text,
        "#1 ◀ response  [non-stream, 0.00s, model= → ]\n    stop   ▸ status = failed  | reason = e\n    output ▸ -\n    usage  ▸ inp: 0, cd-inp: 1 (0.0%), opt: 0 (reasoning: n/a)"
    );
}

#[test]
fn a_note_makes_a_warning_of_a_completed_response() {
    let resp = json(r#"{"status":"completed"}"#);
    assert!(log(&Report::new(1, true, Elapsed::zero(), "m", Some(&resp), vec!["n".to_string()]), "").warn);
}

#[test]
fn the_question_on_one_line() {
    let req = json(r#"{"input":"  two\n\nwords "}"#);
    assert_eq!(user_message_summary(&req), "    ask    ▸ (13 chars) two words");
    assert_eq!(user_message_summary(&json("{}")), "    ask    ▸ <no user message>");
    let long = "x".repeat(1234);
    let req = Json::object().with("input", Json::text(&long));
    assert_eq!(
        user_message_summary(&req),
        format!("    ask    ▸ (1,234 chars) {}…", "x".repeat(200))
    );
}

#[test]
fn injected_messages_are_no_questions() {
    let req = json(
        r#"{"input":[{"role":"user","content":"real"},{"role":"user","content":" <environment_context>x"}]}"#,
    );
    assert_eq!(user_message_summary(&req), "    ask    ▸ (4 chars) real");
}

#[test]
fn tools_of_a_request() {
    let req = json(
        r#"{"tools":[{"type":"function","name":"shell","parameters":{"properties":{"cmd":{},"cwd":{}}}},
                     {"type":"custom","name":"patch"},{"type":"web_search"},{"type":"mcp","name":"x"},{}],
            "parallel_tool_calls":false,
            "input":[{"type":"function_call","call_id":"c1","name":"shell"},
                     {"type":"function_call","call_id":"c2","name":"shell"},
                     {"type":"local_shell_call","call_id":"c3"},
                     {"type":"function_call_output","call_id":"c1"},
                     {"type":"local_shell_call_output","call_id":"c4"}]}"#,
    );
    assert_eq!(
        tools_summary(&req),
        "    tools  ▸ declared (5): shell(cmd, cwd) [function], patch [custom], [web_search], x [mcp], [?]\n             parallel_tool_calls=false\n             in input: 3 calls (shell ×2, local_shell ×1), 2 outputs\n             ⚠ calls without output: c2, c3\n             ⚠ outputs without call: c4"
    );
}

#[test]
fn a_request_without_tools() {
    assert_eq!(
        tools_summary(&json(r#"{"parallel_tool_calls":null,"input":"hi"}"#)),
        "    tools  ▸ declared (0): -\n             parallel_tool_calls=-\n             in input: 0 calls, 0 outputs"
    );
}

#[test]
fn paired_calls_give_no_warning() {
    let req = json(
        r#"{"input":[{"type":"custom_tool_call","call_id":"a","name":"p"},{"type":"custom_tool_call_output","call_id":"a"}]}"#,
    );
    assert!(!tools_summary(&req).contains('⚠'));
}

#[test]
fn items_of_a_request() {
    let req = json(
        r#"{"input":[{"role":"user"},{"type":"message","role":"user"},{"type":"reasoning"},{"x":1},
                     {"type":"message"},{"role":7}]}"#,
    );
    assert_eq!(
        input_items_summary(&req),
        "    items  ▸ message:user ×2, reasoning ×1, <no type> ×1, message ×2"
    );
    assert_eq!(
        input_items_summary(&json(r#"{"input":"x"}"#)),
        "    items  ▸ input is a string (one user message)"
    );
    assert_eq!(input_items_summary(&json("{}")), "    items  ▸ -");
}
