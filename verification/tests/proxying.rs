//! The course of a request.
use vg_model_router::codec::parse_json;
use vg_model_router::config::{Config, Mode, RouterConfig};
use vg_model_router::json::Json;
use vg_model_router::measure::{Elapsed, Threshold};
use vg_model_router::report::Level;
use vg_model_router::router::{Decision, LogLine, Source};
use vg_model_router::server::{
    auth_header, dump_sent_request, error_json, forwarded_headers, header, header_text,
    header_text_of, missing_authorization, models_failed, models_reply_log, models_request_log,
    models_url, non_empty, parse_args, router_line, router_section, saved_name, saved_text,
    unknown_route, upstream_headers, Action, Command, Exchange, Header, Refusal, DEFAULT_LISTEN,
    DEFAULT_UPSTREAM, USAGE,
};
use vg_model_router::tier::Tier;

fn json(text: &str) -> Json {
    parse_json(text).unwrap()
}

fn args(words: &[&str]) -> Vec<String> {
    words.iter().map(|w| w.to_string()).collect()
}

#[test]
fn commands() {
    assert!(matches!(parse_args(&args(&[])), Command::Serve(None)));
    match parse_args(&args(&["--config", "x"])) {
        Command::Serve(Some(p)) => assert_eq!(p, "x"),
        _ => panic!("no path"),
    }
    match parse_args(&args(&["export", "sft", "--in"])) {
        Command::Export(rest) => assert_eq!(rest, args(&["sft", "--in"])),
        _ => panic!("no export"),
    }
    assert!(matches!(parse_args(&args(&["--config"])), Command::Help));
    assert!(matches!(parse_args(&args(&["--config", "x", "y"])), Command::Help));
    assert!(matches!(parse_args(&args(&["serve"])), Command::Help));
    assert!(USAGE.starts_with("usage: vg-model-router [--config <path>]          run the proxy"));
}

#[test]
fn addresses() {
    assert_eq!(DEFAULT_LISTEN, "127.0.0.1:33333");
    assert_eq!(models_url(DEFAULT_UPSTREAM), "https://api.vivgrid.com/v1/models");
    assert_eq!(models_url("http://x/other"), "http://x/other");
    assert_eq!(models_url("/responses"), "/models");
}

#[test]
fn empty_settings_count_as_missing() {
    assert_eq!(non_empty(Some("k".to_string())), Some("k".to_string()));
    assert_eq!(non_empty(Some(String::new())), None);
    assert_eq!(non_empty(None), None);
}

fn section() -> RouterConfig {
    RouterConfig {
        small: "s".to_string(),
        medium: "m".to_string(),
        frontier: "f".to_string(),
        include_context: false,
        max_state_chars: 10,
        cheap_threshold: Threshold::Infinite,
        classifier_url: "u".to_string(),
        classifier_model: "c".to_string(),
        timeout_ms: 1,
        log_path: None,
    }
}

#[test]
fn the_router_may_be_on_or_off() {
    assert!(router_section(Config { mode: Mode::Off, model_router: Some(section()) }).is_none());
    assert!(router_section(Config { mode: Mode::ModelRouter, model_router: Some(section()) }).is_some());
    assert_eq!(
        router_line(&section(), None),
        "model router: small=s, medium=m, frontier=f, context=off, log=off"
    );
    let on = RouterConfig { include_context: true, ..section() };
    assert_eq!(
        router_line(&on, Some("p")),
        "model router: small=s, medium=m, frontier=f, context=on, log=p"
    );
}

#[test]
fn replies_of_the_proxy_itself() {
    assert_eq!(
        error_json("a \"b\""),
        r#"{"error":{"message":"a \"b\"","type":"proxy_error"}}"#
    );
}

fn headers(pairs: &[(&str, &str)]) -> Vec<Header> {
    pairs
        .iter()
        .map(|(n, v)| Header { name: n.to_string(), value: v.as_bytes().to_vec() })
        .collect()
}

fn shown(hs: &[Header]) -> Vec<(String, String)> {
    hs.iter()
        .map(|h| (h.name.clone(), String::from_utf8(h.value.clone()).unwrap()))
        .collect()
}

fn pairs(ps: &[(&str, &str)]) -> Vec<(String, String)> {
    ps.iter().map(|(a, b)| (a.to_string(), b.to_string())).collect()
}

#[test]
fn headers_are_found_by_name() {
    let hs = headers(&[("a", "1"), ("b", "2"), ("b", "3")]);
    assert_eq!(header(&hs, "b"), Some(&b"2".to_vec()));
    assert_eq!(header(&hs, "c"), None);
    assert_eq!(header_text_of(&hs, "a"), Some("1".to_string()));
    assert_eq!(header_text_of(&hs, "c"), None);
}

#[test]
fn header_texts_are_visible() {
    assert_eq!(header_text(&b"a\t~ ".to_vec()), Some("a\t~ ".to_string()));
    assert_eq!(header_text(&vec![0x7f]), None);
    assert_eq!(header_text(&vec![0xc3, 0xa9]), None);
    assert_eq!(header_text(&vec![]), Some(String::new()));
    for b in 0..=255u8 {
        let v = axum::http::HeaderValue::from_bytes(&[b]);
        if let Ok(v) = v {
            assert_eq!(header_text(&vec![b]), v.to_str().ok().map(|s| s.to_string()));
        }
    }
}

#[test]
fn the_own_authorization_goes_first() {
    let hs = headers(&[("authorization", "Bearer mine")]);
    assert_eq!(auth_header(&hs, Some("key")), Some(b"Bearer mine".to_vec()));
    assert_eq!(auth_header(&headers(&[]), Some("key")), Some(b"Bearer key".to_vec()));
    assert_eq!(auth_header(&headers(&[]), None), None);
    assert_eq!(auth_header(&headers(&[]), Some("k\ney")), None);
    assert_eq!(auth_header(&headers(&[]), Some("ké")), Some("Bearer ké".as_bytes().to_vec()));
}

#[test]
fn only_some_headers_are_forwarded() {
    let hs = headers(&[
        ("cookie", "c"),
        ("x-codex-turn-metadata", "t"),
        ("session_id", "s"),
        ("user-agent", "ua"),
    ]);
    assert_eq!(
        shown(&forwarded_headers(&hs)),
        pairs(&[("user-agent", "ua"), ("x-viv-meta", "t")])
    );
    assert_eq!(
        shown(&upstream_headers(&headers(&[("cookie", "c")]), &b"Bearer k".to_vec(), true)),
        pairs(&[
            ("authorization", "Bearer k"),
            ("accept", "text/event-stream"),
            ("content-type", "application/json")
        ])
    );
    assert_eq!(
        shown(&upstream_headers(&hs, &b"a".to_vec(), false))[1],
        ("accept".to_string(), "application/json".to_string())
    );
}

fn receive(req_id: u64, path: &str, body: &[u8]) -> Result<(Exchange, LogLine), Refusal> {
    let r = Exchange::receive(req_id, path, body.to_vec(), &headers(&[]), Some("key"));
    let line = r.line;
    r.outcome.map(|(x, auth)| {
        assert_eq!(auth, b"Bearer key".to_vec());
        (x, line.unwrap())
    })
}

fn open(body: &str) -> Exchange {
    receive(2, "/v1/responses", body.as_bytes()).ok().unwrap().0
}

fn refused(r: &Refusal) -> (u16, &str, Level, &str) {
    (r.status, r.message.as_str(), r.level, r.log.as_str())
}

#[test]
fn requests_that_are_refused() {
    let r = receive(1, "/", b"[]").err().unwrap();
    assert_eq!(
        refused(&r),
        (400, "request body must be a JSON object", Level::Error, "#1 ✖ request body is not a JSON object")
    );
    let r = receive(1, "/", b"{").err().unwrap();
    assert_eq!(
        refused(&r),
        (
            400,
            "invalid JSON body: EOF while parsing an object at line 1 column 1",
            Level::Error,
            "#1 ✖ invalid JSON body: EOF while parsing an object at line 1 column 1"
        )
    );
    let r = Exchange::accept(1, "/", vec![], Err("bad".to_string())).err().unwrap();
    assert_eq!(refused(&r).1, "invalid JSON body: bad");
    assert_eq!(
        refused(&missing_authorization(3)),
        (
            401,
            "missing Authorization: Bearer <token>",
            Level::Warn,
            "#3 no Authorization header (and VIVGRID_API_KEY unset)"
        )
    );
    assert_eq!(
        refused(&unknown_route("PUT", "/x")),
        (404, "no route for PUT /x", Level::Warn, "unhandled route: PUT /x")
    );
}

#[test]
fn the_body_is_looked_at_before_the_authorization() {
    let r = Exchange::receive(1, "/", b"[]".to_vec(), &headers(&[]), None);
    assert!(r.line.is_none());
    assert_eq!(r.outcome.err().unwrap().status, 400);
    let r = Exchange::receive(1, "/", b"{}".to_vec(), &headers(&[]), None);
    assert!(r.line.unwrap().text.starts_with("#1 ▶ POST /"));
    assert_eq!(r.outcome.err().unwrap().status, 401);
    let own = headers(&[("authorization", "mine")]);
    let r = Exchange::receive_parsed(1, "/", vec![], Ok(json("{}")), &own, Some("key"));
    assert_eq!(r.outcome.ok().unwrap().1, b"mine".to_vec());
}

fn shown_action(a: Action) -> String {
    match a {
        Action::GiveBack(t) => format!("give back {}", String::from_utf8(t).unwrap()),
        Action::PassOn => "pass on".to_string(),
        Action::ReadWhole => "read".to_string(),
    }
}

#[test]
fn how_a_request_goes_on() {
    let events = b"text/event-stream".to_vec();
    let html = b"text/html".to_vec();
    let x = open(r#"{"stream":true}"#);
    assert_eq!(shown_action(x.next_action(true, Some(&events))), "pass on");
    assert_eq!(shown_action(x.next_action(true, Some(&html))), "read");
    assert_eq!(shown_action(x.next_action(false, Some(&html))), "give back text/html");
    assert_eq!(shown_action(x.next_action(false, None)), "give back application/json");
    assert_eq!(shown_action(open("{}").next_action(true, Some(&events))), "read");
}

#[test]
fn the_lines_on_a_request() {
    let body = r#"{"stream":true,"model":"gpt","input":"hi","tools":[{"type":"custom","name":"p"}]}"#;
    let (x, line) = receive(2, "/v1/responses", body.as_bytes()).ok().unwrap();
    assert!(!line.warn);
    assert_eq!(
        line.text,
        "#2 ▶ POST /v1/responses  [stream, model=gpt, input_items=1, tools=1]\n    ask    ▸ (2 chars) hi"
    );
    assert!(x.is_stream());
    assert_eq!(x.body().as_slice(), body.as_bytes());
    assert_eq!(x.request(), &json(body));
}

#[test]
fn lonely_calls_are_warned_of() {
    let body = r#"{"input":[{"type":"function_call","call_id":"c","name":"f"}]}"#;
    let (_, line) = receive(2, "/r", body.as_bytes()).ok().unwrap();
    assert!(line.warn);
    assert_eq!(
        line.text,
        "#2 ▶ POST /r  [non-stream, model=, input_items=1, tools=0]\n    ask    ▸ <no user message>\n    tools  ▸ declared (0): -\n             parallel_tool_calls=-\n             in input: 1 calls (f ×1), 0 outputs\n             ⚠ calls without output: c\n    items  ▸ function_call ×1"
    );
}

fn decision(source: Source) -> Decision {
    Decision {
        tier: Tier::Medium,
        model: "m".to_string(),
        rule: None,
        session: None,
        new_turn: false,
        source,
    }
}

#[test]
fn routing_changes_the_model_alone() {
    let x = open(r#"{"a":1.5,"model":"gpt","z":[true]}"#);
    let (x, line) = x.route(&decision(Source::Cached { from_req: 1 }), None);
    assert!(!line.warn);
    assert_eq!(
        line.text,
        "#2 ⇢ route  [requested model=gpt]\n    route  ▸ medium → m  (same turn as #1)"
    );
    assert_eq!(x.body().as_slice(), r#"{"a":1.5,"model":"m","z":[true]}"#.as_bytes());
    let (_, line) = open("{}").route(&decision(Source::Fallback("e".to_string())), None);
    assert!(line.warn);
}

#[test]
fn an_upstream_that_cannot_be_reached() {
    let (x, _) = open("{}").route(&decision(Source::Cached { from_req: 1 }), Some(5));
    let f = x.send_failed("down", Elapsed::zero());
    assert_eq!(
        refused(&f.refusal),
        (502, "upstream request failed: down", Level::Error, "#2 ✖ upstream request failed: down")
    );
    let rec = json(&f.record.unwrap());
    assert_eq!(rec.get2("response", "error").unwrap().as_str(), Some("upstream request failed: down"));
    assert!(open("{}").send_failed("down", Elapsed::zero()).record.is_none());
}

#[test]
fn an_upstream_that_refuses() {
    let (x, _) = open("{}").route(&decision(Source::Cached { from_req: 1 }), Some(5));
    let (record, log) =
        x.upstream_error("404 Not Found", "gone", Elapsed::zero(), Elapsed::new(1, 0).unwrap());
    assert_eq!(
        log,
        "#2 ✖ upstream HTTP 404 Not Found (1.00s)\n    stop   ▸ n/a (no response)\n    body   ▸ gone"
    );
    let rec = json(&record.unwrap());
    assert_eq!(rec.get2("response", "error").unwrap().as_str(), Some("upstream HTTP 404 Not Found: gone"));
    assert_eq!(rec.get2("response", "model").unwrap().as_str(), Some("m"));
}

#[test]
fn an_upstream_that_breaks_off() {
    let f = open("{}").read_failed("cut", Elapsed::zero());
    assert_eq!(
        refused(&f.refusal),
        (502, "upstream read failed: cut", Level::Error, "#2 ✖ failed to read upstream body: cut")
    );
    let f = open("{}").reply(b"x", Elapsed::zero(), Elapsed::zero()).err().unwrap();
    assert_eq!(
        refused(&f.refusal),
        (
            502,
            "invalid upstream JSON: expected value at line 1 column 1",
            Level::Error,
            "#2 ✖ invalid upstream JSON: expected value at line 1 column 1"
        )
    );
    let f = open("{}").answer(Err("bad".to_string()), Elapsed::zero(), Elapsed::zero()).err().unwrap();
    assert_eq!(refused(&f.refusal).1, "invalid upstream JSON: bad");
}

#[test]
fn a_reply_in_one_piece() {
    let (x, _) =
        open(r#"{"stream":true}"#).route(&decision(Source::Cached { from_req: 1 }), Some(5));
    assert!(!x.relays(None));
    let reply = x
        .reply(br#"{"model":"gpt","status":"completed"}"#, Elapsed::zero(), Elapsed::zero())
        .ok()
        .unwrap();
    assert_eq!(reply.body, r#"{"model":"viv-gpt","status":"completed"}"#);
    assert_eq!(reply.report.notes, vec!["stream=true but upstream returned a non-SSE response"]);
    assert_eq!(reply.report.model, "gpt");
    let rec = json(&reply.record.unwrap());
    assert_eq!(rec.get2("response", "model").unwrap().as_str(), Some("gpt"));
    let reply = open("{}").reply(b"{}", Elapsed::zero(), Elapsed::zero()).ok().unwrap();
    assert_eq!(reply.report.notes, Vec::<String>::new());
}

#[test]
fn streams_are_relayed() {
    let x = open(r#"{"stream":true,"model":"gpt"}"#);
    assert!(x.relays(Some(&b"text/event-stream; charset=utf-8".to_vec())));
    assert!(!x.relays(Some(&b"application/json".to_vec())));
    assert!(!open("{}").relays(Some(&b"text/event-stream".to_vec())));
    let mut relay = x.into_relay();
    relay.feed(b"data: {\"type\":\"response.completed\",\"response\":{\"status\":\"completed\"}}\n");
    let end = relay.finish(None, Elapsed::zero(), Elapsed::zero());
    assert_eq!((end.report.req_id, end.report.model.as_str()), (2, "gpt"));
}

#[test]
fn a_relay_completes_the_record() {
    let (x, _) =
        open(r#"{"stream":true}"#).route(&decision(Source::Cached { from_req: 1 }), Some(5));
    let mut relay = x.into_relay();
    relay.client_left();
    let end = relay.finish(None, Elapsed::new(0, 7_000_000).unwrap(), Elapsed::zero());
    let rec = json(&end.record.unwrap());
    assert_eq!(rec.get2("response", "error").unwrap().as_str(), Some("client disconnected"));
    assert_eq!(rec.get("latency_ms").unwrap().as_u64(), Some(7));
}

#[test]
fn what_was_sent_is_shown() {
    let body = br#"{"instructions":"i","model":"m","input":[],"n":1}"#;
    assert_eq!(
        dump_sent_request(4, body, &headers(&[("user-agent", "ua"), ("session_id", "s"), ("x-codex-turn-metadata", "t")]), "here"),
        "#4 ✖ request that was sent upstream:\n    body   ▸ {\"n\":1,\"model\":\"m\"}  (+ instructions, input)\n    header ▸ user-agent: ua\n             x-viv-meta: t\n    saved  ▸ here"
    );
    assert_eq!(
        dump_sent_request(4, b"?", &headers(&[]), "here"),
        "#4 ✖ request that was sent upstream:\n    body   ▸ null  (+ -)\n    header ▸ -\n    saved  ▸ here"
    );
}

#[test]
fn saved_bodies() {
    assert_eq!(saved_name(7), "vg-mirror-req-7.json");
    assert_eq!(saved_text("/t/x", "http://u", Some("full")), "<failed to save: full>");
    assert_eq!(
        saved_text("/t/x", "http://u", None),
        "/t/x\n             replay: curl -sS http://u -H \"Authorization: Bearer $VIVGRID_API_KEY\" -H 'content-type: application/json' -d @/t/x"
    );
}

#[test]
fn lists_of_models() {
    assert_eq!(models_request_log(1, "/v1/models", "u"), "#1 ▶ GET /v1/models  [→ u]");
    let line = models_reply_log(1, "/v1/models", 200, true, Elapsed::new(0, 330_000_000).unwrap());
    assert_eq!((line.warn, line.text.as_str()), (false, "#1 ◀ GET /v1/models  [200, 0.33s]"));
    assert!(models_reply_log(1, "/", 404, false, Elapsed::zero()).warn);
    assert_eq!(
        refused(&models_failed(1, "/m", "e")),
        (502, "upstream request failed: e", Level::Warn, "#1 ◀ GET /m  [upstream request failed: e]")
    );
}
