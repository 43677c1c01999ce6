//! Streams that are passed on line by line.
use vg_model_router::codec::parse_json;
use vg_model_router::json::Json;
use vg_model_router::measure::Elapsed;
use vg_model_router::report::log;
use vg_model_router::stream::{
    add_model_prefix, line_data, rewrite_event, rewrite_line, Relay, MODEL_PREFIX,
};

fn json(text: &str) -> Json {
    parse_json(text).unwrap()
}

#[test]
fn prefix_is_added_once() {
    let mut v = json(r#"{ "model": "gpt-5", "response": { "model": "viv-gpt-5" } }"#);
    assert!(add_model_prefix(&mut v));
    assert_eq!(v.text_at("model"), Some("viv-gpt-5"));
    assert_eq!(v.get2("response", "model").unwrap().as_str(), Some("viv-gpt-5"));
    assert!(!add_model_prefix(&mut v));
    assert_eq!(v.text_at("model"), Some("viv-gpt-5"));
}

#[test]
fn prefix_leaves_other_fields_and_empty_models() {
    assert_eq!(MODEL_PREFIX, "viv-");
    let mut v = json(r#"{"model":"","id":1,"response":{"model":"m","x":[1]}}"#);
    assert!(add_model_prefix(&mut v));
    assert_eq!(v, json(r#"{"model":"","id":1,"response":{"model":"viv-m","x":[1]}}"#));
    let mut v = json(r#"{"model":7}"#);
    assert!(!add_model_prefix(&mut v));
    let mut v = json("[1]");
    assert!(!add_model_prefix(&mut v));
    assert_eq!(v, json("[1]"));
}

#[test]
fn rewrite_only_touches_data_lines() {
    assert_eq!(rewrite_line("event: response.created\n").0, "event: response.created\n");
    assert_eq!(rewrite_line("data: [DONE]\n").0, "data: [DONE]\n");
    let delta = "data:{\"type\": \"response.output_text.delta\", \"delta\": \"1.0e-5\"}\n";
    assert_eq!(rewrite_line(delta).0, delta);
    let (out, ev) = rewrite_line("data: {\"type\":\"response.completed\",\"response\":{\"model\":\"m\"}}\r\n");
    assert_eq!(out, "data: {\"type\":\"response.completed\",\"response\":{\"model\":\"viv-m\"}}\r\n");
    assert_eq!(ev.unwrap().get2("response", "model").unwrap().as_str(), Some("m"));
}

#[test]
fn data_of_a_line() {
    assert_eq!(line_data("data:  x\r\n"), Some("x".to_string()));
    assert_eq!(line_data("event: x\n"), None);
    assert_eq!(rewrite_event("data: x\n", None), "data: x\n");
    let ev = json(r#"{"model":"m"}"#);
    assert_eq!(rewrite_event("data: x\n\n", Some(&ev)), "data: {\"model\":\"viv-m\"}\n\n");
}

const STREAM: &str = "event: response.created\n\
data: {\"type\":\"response.created\",\"response\":{\"model\":\"gpt\"}}\n\
\n\
data: {\"type\":\"response.completed\",\"response\":{\"model\":\"gpt\",\"status\":\"completed\",\"note\":\"中\"}}\n\
\n";

const PASSED: &str = "event: response.created\n\
data: {\"type\":\"response.created\",\"response\":{\"model\":\"viv-gpt\"}}\n\
\n\
data: {\"type\":\"response.completed\",\"response\":{\"model\":\"viv-gpt\",\"status\":\"completed\",\"note\":\"中\"}}\n\
\n";

#[test]
fn any_cut_into_chunks_passes_the_same() {
    for size in [1, 2, 7, 64, 4096] {
        let mut relay = Relay::new(1, "asked".to_string(), None);
        let mut out = String::new();
        for chunk in STREAM.as_bytes().chunks(size) {
            out.push_str(&relay.feed(chunk));
        }
        assert_eq!(out, PASSED);
        assert_eq!(relay.flush(), None);
        let end = relay.finish(None, Elapsed::zero(), Elapsed::zero());
        assert_eq!(end.report.notes, Vec::<String>::new());
        assert_eq!(end.report.model, "gpt");
        assert_eq!(end.report.status, Some("completed".to_string()));
        assert_eq!(end.record, None);
    }
}

#[test]
fn a_stream_without_models_passes_unchanged() {
    let text = "event: x\r\ndata: {\"type\":\"d\", \"delta\":\"é中\"}\n\n: comment\ndata: [DONE]";
    for size in [1, 3, 1000] {
        let mut relay = Relay::new(1, "m".to_string(), None);
        let mut out = String::new();
        for chunk in text.as_bytes().chunks(size) {
            out.push_str(&relay.feed(chunk));
        }
        out.push_str(&relay.flush().unwrap());
        assert_eq!(out, text);
    }
}

#[test]
fn the_last_line_needs_no_line_feed() {
    let mut relay = Relay::new(1, "m".to_string(), None);
    assert_eq!(relay.feed(b"data: {\"model\":\"m\"}"), "");
    assert_eq!(relay.flush(), Some("data: {\"model\":\"viv-m\"}".to_string()));
    assert_eq!(relay.flush(), None);
}

#[test]
fn bytes_that_are_no_text_are_replaced() {
    let mut relay = Relay::new(1, "m".to_string(), None);
    assert_eq!(relay.feed(b": \xff\n"), ": \u{fffd}\n");
}

#[test]
fn a_stream_without_end_is_noted() {
    let mut relay = Relay::new(3, "m".to_string(), None);
    relay.feed(b"data: {\"type\":\"x\"}\n");
    let end = relay.finish(None, Elapsed::zero(), Elapsed::zero());
    assert_eq!(
        end.report.notes,
        vec!["ERROR: upstream stream ended without response.completed / incomplete / failed (after 1 events)"]
    );
    assert_eq!(
        log(&end.report, "0.0").text,
        "#3 ◀ response  [stream, 0.00s, model=m → viv-m]\n    stop   ▸ status = <MISSING> (no final response object)\n    output ▸ -\n    usage  ▸ <none> (upstream returned no usage)\n    note   ▸ ERROR: upstream stream ended without response.completed / incomplete / failed (after 1 events)"
    );
}

#[test]
fn error_events_are_noted() {
    for (event, told) in [
        (r#"{"type":"error","message":"boom"}"#, "ERROR: boom"),
        (r#"{"type":"error","error":{"message":"bang"}}"#, "ERROR: bang"),
        (r#"{"type":"error","code":1}"#, r#"ERROR: {"type":"error","code":1}"#),
        (r#"{"type":"error","message":1,"error":{"message":"x"}}"#, r#"ERROR: {"type":"error","message":1,"error":{"message":"x"}}"#),
    ] {
        let mut relay = Relay::new(1, "m".to_string(), None);
        relay.take_event(&json(event));
        let end = relay.finish(None, Elapsed::zero(), Elapsed::zero());
        assert_eq!(end.report.notes, vec![told]);
    }
}

#[test]
fn a_read_error_goes_before_an_error_event() {
    let mut relay = Relay::new(1, "m".to_string(), None);
    relay.take_event(&json(r#"{"type":"error","message":"boom"}"#));
    let end = relay.finish(Some("cut".to_string()), Elapsed::zero(), Elapsed::zero());
    assert_eq!(end.report.notes, vec!["ERROR: cut"]);
}

#[test]
fn a_client_that_left_is_noted() {
    let mut relay = Relay::new(1, "m".to_string(), None);
    relay.feed(b"data: x");
    relay.client_left();
    assert_eq!(relay.flush(), None);
    let end = relay.finish(None, Elapsed::zero(), Elapsed::zero());
    assert_eq!(end.report.notes, vec!["client disconnected before the response finished"]);
}
