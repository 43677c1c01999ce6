//! The choice of a model: what the classifier sees, and what its answer decides.
use vg_model_router::codec::parse_json;
use vg_model_router::config::{
    config_path, default_classifier_model, default_classifier_url, default_log_path,
    default_max_state_chars, default_timeout_ms, yes, Config, ConfigFile, Mode, RouterConfig,
    DEFAULT_CONFIG,
};
use vg_model_router::json::{Json, JsonNumber};
use vg_model_router::measure::{fmt_opt, Elapsed, Threshold};
use vg_model_router::router::{
    abbrev, answers_digest, questions, read_answers, session_key, Decision, Outcome, Query,
    RouteStep, Router, Source, Verdict,
};
use vg_model_router::sessions::{CachedRoute, Sessions, MAX_SESSIONS};
use vg_model_router::state::{build_state, last_user_text};
use vg_model_router::tier::Tier;

fn json(text: &str) -> Json {
    parse_json(text).unwrap()
}

fn text(role: &str, ty: &str, t: &str) -> Json {
    Json::object()
        .with("type", Json::text("message"))
        .with("role", Json::text(role))
        .with(
            "content",
            Json::array(vec![Json::object().with("type", Json::text(ty)).with("text", Json::text(t))]),
        )
}

fn msgs() -> Vec<Json> {
    vec![
        text("developer", "input_text", "you are codex"),
        text("user", "input_text", "<environment_context>cwd=/x</environment_context>"),
        text("user", "input_text", "fix the bug"),
        json(r#"{"type": "reasoning", "summary": [], "encrypted_content": "xxx"}"#),
        json(r#"{"type": "function_call", "call_id": "c1", "name": "shell", "arguments": "{\"command\":[\"ls\"]}"}"#),
        json(r#"{"type": "function_call_output", "call_id": "c1", "output": "a.rs\nb.rs"}"#),
        text("assistant", "output_text", "found it"),
        text("user", "input_text", "now make it thread-safe"),
    ]
}

fn number(x: f64) -> JsonNumber {
    JsonNumber::from_number(serde_json::Number::from_f64(x).unwrap())
}

fn config() -> RouterConfig {
    RouterConfig {
        small: "s".to_string(),
        medium: "m".to_string(),
        frontier: "f".to_string(),
        include_context: yes(),
        max_state_chars: default_max_state_chars(),
        cheap_threshold: Threshold::Finite(number(0.75)),
        classifier_url: default_classifier_url(),
        classifier_model: default_classifier_model(),
        timeout_ms: default_timeout_ms(),
        log_path: default_log_path(),
    }
}

fn verdict(choice: &str, noul: Option<f64>) -> Verdict {
    Verdict {
        state: String::new(),
        answers: Json::Null,
        classifier_model: String::new(),
        choice: choice.to_string(),
        confidence: None,
        score: None,
        noul: noul.map(number),
        latency: Elapsed::zero(),
    }
}

#[test]
fn state_without_context_is_last_user_message() {
    assert_eq!(build_state(&msgs(), false, 1000), "now make it thread-safe");
}

#[test]
fn state_with_context_skips_system_and_injected() {
    let s = build_state(&msgs(), true, 1000);
    assert!(!s.contains("you are codex"));
    assert!(!s.contains("environment_context"));
    assert!(s.contains("user: fix the bug"));
    assert!(s.contains("assistant tool call: shell("));
    assert!(s.contains("tool output: a.rs"));
    assert!(s.contains("assistant: found it"));
    assert!(s.ends_with("[Current request]\nnow make it thread-safe"));
}

#[test]
fn state_is_truncated_from_the_front() {
    let s = build_state(&msgs(), true, 60);
    assert!(s.chars().count() <= 60);
    assert!(s.ends_with("now make it thread-safe"));
}

#[test]
fn state_never_exceeds_its_bound() {
    for max in 0..200 {
        let s = build_state(&msgs(), true, max);
        assert!(s.chars().count() <= max);
        assert!(s.ends_with(&"now make it thread-safe"[23usize.saturating_sub(max)..]));
    }
}

#[test]
fn state_in_full() {
    let items = vec![
        text("user", "input_text", "go"),
        json(r#"{"type":"function_call","name":"shell","arguments":"{}"}"#),
    ];
    assert_eq!(
        build_state(&items, true, 1000),
        "[Conversation context]\nassistant tool call: shell({})\n\n[Current request]\ngo"
    );
}

#[test]
fn decide_follows_design_rules() {
    let r = Router::new(config());
    assert_eq!(
        r.decide(&verdict("cheap", Some(0.9))),
        (Tier::Small, "cheap, noul 0.90 > 0.75".to_string())
    );
    assert_eq!(
        r.decide(&verdict("cheap", Some(0.75))),
        (Tier::Medium, "cheap but noul 0.75 ≤ 0.75".to_string())
    );
    assert_eq!(r.decide(&verdict("medium", Some(0.1))), (Tier::Medium, "medium".to_string()));
    assert_eq!(r.decide(&verdict("expensive", Some(0.9))), (Tier::Frontier, "expensive".to_string()));
    assert_eq!(r.decide(&verdict("weird", Some(0.9))).0, Tier::Frontier);
}

#[test]
fn decide_without_a_reading_and_on_odd_levels() {
    let r = Router::new(config());
    assert_eq!(
        r.decide(&verdict("cheap", None)),
        (Tier::Medium, "cheap but noul n/a ≤ 0.75".to_string())
    );
    assert_eq!(r.decide(&verdict("a\"b", None)).1, "unknown choice \"a\\\"b\"");
}

#[test]
fn thresholds_beyond_the_numbers() {
    let n = number(0.5);
    assert!(!Threshold::Infinite.is_below(&n));
    assert!(Threshold::NegativeInfinite.is_below(&n));
    assert!(!Threshold::NotANumber.is_below(&n));
    assert!(Threshold::Finite(JsonNumber::Unsigned(0)).is_below(&n));
    assert!(!Threshold::Finite(JsonNumber::Unsigned(1)).is_below(&n));
    assert_eq!(Threshold::Finite(number(0.75)).show(), "0.75");
    assert_eq!(Threshold::Finite(JsonNumber::Unsigned(1)).show(), "1");
    assert_eq!(Threshold::Infinite.show(), "inf");
    assert_eq!(Threshold::NegativeInfinite.show(), "-inf");
    assert_eq!(Threshold::NotANumber.show(), "NaN");
}

#[test]
fn readings_have_two_digits() {
    assert_eq!(fmt_opt(&Some(number(0.125))), format!("{:.2}", 0.125));
    assert_eq!(fmt_opt(&Some(JsonNumber::Unsigned(3))), "3.00");
    assert_eq!(fmt_opt(&Some(number(-1.0))), "-1.00");
    assert_eq!(fmt_opt(&None), "n/a");
}

#[test]
fn elapsed_time() {
    let e = Elapsed::new(2, 345_678_901).unwrap();
    assert_eq!(e.millis(), 2345);
    assert_eq!(e.show(), "2.35");
    assert!(Elapsed::new(0, 1_000_000_000).is_none());
    assert_eq!(Elapsed::zero().millis(), 0);
}

#[test]
fn the_session_of_a_request() {
    let req = json(r#"{"prompt_cache_key":"k"}"#);
    assert_eq!(session_key(&req, Some("s"), Some("c")), Some("k".to_string()));
    let req = json(r#"{"prompt_cache_key":""}"#);
    assert_eq!(session_key(&req, Some("s"), Some("c")), Some("s".to_string()));
    assert_eq!(session_key(&req, Some(""), Some("c")), Some("c".to_string()));
    assert_eq!(session_key(&req, None, None), None);
}

const ANSWER: &str = r#"{"model":"jev-1","usage":{"input_tokens":5,"output_tokens":2},"answers":{
    "difficulty_level":{"choice":"cheap","confidence":1,"probabilities":{"cheap":0.9,"medium":0.1,"expensive":0,"odd":"x"}},
    "difficulty_score":{"score":0.3,"confidence":0.62},"prefer_cheap_model":{"noul":0.94}}}"#;

fn answered(text: &str) -> Outcome {
    Outcome::Answered { success: true, status: "200 OK".to_string(), text: text.to_string() }
}

fn asked(r: RouteStep) -> Query {
    match r {
        RouteStep::Ask(q) => q,
        RouteStep::Decided(_) => panic!("decided"),
    }
}

fn decided(r: RouteStep) -> Decision {
    match r {
        RouteStep::Decided(d) => d,
        RouteStep::Ask(_) => panic!("asked"),
    }
}

#[test]
fn a_turn_keeps_its_decision() {
    let mut r = Router::new(config());
    let first = json(r#"{"prompt_cache_key":"k","input":"hi"}"#);
    let q = asked(r.route(1, &first, None, None));
    assert_eq!((q.req_id, q.attempt, q.new_turn), (1, 1, true));
    assert_eq!(q.state, "[Current request]\nhi");
    let (step, line) = r.answered(q, &answered(ANSWER), Elapsed::new(0, 550_000_000).unwrap());
    let d = decided(step);
    assert_eq!((d.tier, d.model.as_str()), (Tier::Small, "s"));
    assert!(!line.warn);
    assert_eq!(
        line.text,
        "#1 ⇢ jev-1  [0.55s, in 5 / out 2]   answer ▸ (conf 1.00 | chp 0.90, med 0.10, exp 0.00, odd 0.00), scr 0.30 (conf 0.62), noul 0.94"
    );
    assert_eq!(
        d.summary(),
        "    route  ▸ small → s  (classified by jev-1 in 0.55s; cheap, noul 0.94 > 0.75)"
    );
    let later = json(
        r#"{"prompt_cache_key":"k","input":[{"role":"user","content":"hi"},{"type":"function_call_output","output":"x"}]}"#,
    );
    let d = decided(r.route(2, &later, None, None));
    assert_eq!(d.tier, Tier::Small);
    assert_eq!(d.summary(), "    route  ▸ small → s  (same turn as #1)");
    assert!(matches!(d.source, Source::Cached { from_req: 1 }));
    let q = asked(r.route(3, &first, None, None));
    assert!(q.new_turn);
}

#[test]
fn another_session_is_asked_about() {
    let mut r = Router::new(config());
    let q = asked(r.route(1, &json(r#"{"prompt_cache_key":"k","input":"hi"}"#), None, None));
    r.answered(q, &answered(ANSWER), Elapsed::zero());
    let other = json(r#"{"input":[{"role":"assistant","content":"x"}]}"#);
    let q = asked(r.route(2, &other, Some("z"), None));
    assert!(!q.new_turn);
    assert_eq!(q.session, Some("z".to_string()));
}

#[test]
fn a_text_that_is_too_long_is_asked_about_once_more() {
    let mut r = Router::new(config());
    let req = json(r#"{"input":"0123456789"}"#);
    let q = asked(r.route(4, &req, None, None));
    assert_eq!(q.state, "[Current request]\n0123456789");
    let refused = Outcome::Answered {
        success: false,
        status: "400 Bad Request".to_string(),
        text: "max_tokens_exceeded".to_string(),
    };
    let (step, line) = r.answered(q, &refused, Elapsed::new(0, 20_000_000).unwrap());
    assert!(line.warn);
    assert_eq!(
        line.text,
        "#4 ⇢ jev-latest  [0.02s]   answer ▸ ✖ HTTP 400 Bad Request: max_tokens_exceeded"
    );
    let q = asked(step);
    assert_eq!(q.attempt, 2);
    assert_eq!(q.state, "st]\n0123456789");
    let (step, line) = r.answered(q, &refused, Elapsed::zero());
    assert_eq!(
        line.text,
        "#4 ⇢ jev-latest  [0.00s, attempt 2]   answer ▸ ✖ HTTP 400 Bad Request: max_tokens_exceeded"
    );
    let d = decided(step);
    assert_eq!((d.tier, d.model.as_str()), (Tier::Frontier, "f"));
    assert_eq!(
        d.summary(),
        "    route  ▸ frontier → f  (⚠ classifier failed, fallback: HTTP 400 Bad Request: max_tokens_exceeded)"
    );
}

#[test]
fn a_failure_is_not_remembered() {
    let mut r = Router::new(config());
    let req = json(r#"{"prompt_cache_key":"k","input":"hi"}"#);
    let q = asked(r.route(1, &req, None, None));
    let (step, _) = r.answered(q, &Outcome::TimedOut, Elapsed::zero());
    match decided(step).source {
        Source::Fallback(e) => assert_eq!(e, "timeout after 5000ms"),
        _ => panic!("no fallback"),
    }
    let later = json(r#"{"prompt_cache_key":"k","input":[{"role":"assistant","content":"x"}]}"#);
    asked(r.route(2, &later, None, None));
}

#[test]
fn a_failed_turn_does_not_fall_back_to_an_earlier_one() {
    let mut r = Router::new(config());
    let new_turn = json(r#"{"prompt_cache_key":"s","input":"hi"}"#);
    let later = json(r#"{"prompt_cache_key":"s","input":[{"type":"function_call_output","output":"x"}]}"#);
    let q = asked(r.route(1, &new_turn, None, None));
    assert_eq!(decided(r.answered(q, &answered(ANSWER), Elapsed::zero()).0).tier, Tier::Small);
    let q = asked(r.route(2, &new_turn, None, None));
    assert_eq!(decided(r.answered(q, &Outcome::TimedOut, Elapsed::zero()).0).tier, Tier::Frontier);
    let q = asked(r.route(3, &later, None, None));
    assert_eq!((q.req_id, q.new_turn), (3, false));
    let d = decided(r.answered(q, &answered(ANSWER), Elapsed::zero()).0);
    assert!(matches!(d.source, Source::Classified(_)));
    assert!(matches!(decided(r.route(4, &later, None, None)).source, Source::Cached { from_req: 3 }));
}

#[test]
fn sessions_are_forgotten() {
    let c = CachedRoute { req_id: 1, tier: Tier::Small };
    let s = Sessions::new().remember("a", c).remember("b", c).remember("c", c).forget("b").forget("z");
    assert!(s.recall("b").is_none());
    assert!(s.recall("a").is_some() && s.recall("c").is_some());
}

#[test]
fn failures_of_the_classifier() {
    let mut r = Router::new(config());
    for (outcome, told) in [
        (Outcome::Failed("refused".to_string()), "refused"),
        (answered("{}"), "no difficulty_level.choice in response: {}"),
        (answered("["), "invalid JSON (EOF while parsing a list at line 1 column 1): ["),
    ] {
        let q = asked(r.route(1, &json(r#"{"input":"hi"}"#), None, None));
        let (step, line) = r.answered(q, &outcome, Elapsed::zero());
        assert!(line.warn);
        match decided(step).source {
            Source::Fallback(e) => assert_eq!(e, told),
            _ => panic!("no fallback"),
        }
    }
}

#[test]
fn answers_that_have_been_parsed() {
    let (v, usage) =
        read_answers("st", "raw", Ok(json(r#"{"answers":{"difficulty_level":{"choice":"medium"}}}"#)), Elapsed::zero())
            .unwrap();
    assert_eq!((v.state.as_str(), v.choice.as_str(), usage.as_str()), ("st", "medium", "usage n/a"));
    assert_eq!(answers_digest(&v), "(conf n/a | -), scr n/a (conf n/a), noul n/a");
    let long = "y".repeat(301);
    let e = read_answers("st", &long, Err("bad".to_string()), Elapsed::zero()).unwrap_err();
    assert_eq!(e, format!("invalid JSON (bad): {}…", "y".repeat(300)));
}

#[test]
fn the_body_of_a_question() {
    let r = Router::new(config());
    let q = asked(r.route(1, &json(r#"{"input":"hi"}"#), None, None));
    let body = json(&r.query_body(&q));
    assert_eq!(body.text_at("model"), Some("jev-latest"));
    assert_eq!(body.text_at("state"), Some("[Current request]\nhi"));
    assert_eq!(body.get("questions"), Some(&questions()));
    assert_eq!(
        questions().get2("prefer_cheap_model", "type").unwrap().as_str(),
        Some("noul")
    );
    assert_eq!(questions().get2("difficulty_score", "criteria").unwrap().as_array().unwrap().len(), 5);
}

#[test]
fn levels_in_three_letters() {
    assert_eq!(abbrev("cheap"), "chp");
    assert_eq!(abbrev("medium"), "med");
    assert_eq!(abbrev("expensive"), "exp");
    assert_eq!(abbrev("other"), "other");
}

#[test]
fn the_memory_forgets_the_session_written_first() {
    let mut sessions = Sessions::new();
    for i in 0..MAX_SESSIONS {
        sessions = sessions.remember(&format!("s{i}"), CachedRoute { req_id: i as u64, tier: Tier::Small });
    }
    sessions = sessions.remember("s0", CachedRoute { req_id: 9999, tier: Tier::Medium });
    assert_eq!(sessions.recall("s0").unwrap().req_id, 9999);
    assert_eq!(sessions.recall("s1").unwrap().req_id, 1);
    sessions = sessions.remember("new", CachedRoute { req_id: 1, tier: Tier::Frontier });
    assert!(sessions.recall("s0").is_none());
    assert_eq!(sessions.recall("s1").unwrap().tier, Tier::Small);
    assert_eq!(sessions.recall("new").unwrap().tier, Tier::Frontier);
}

#[test]
fn what_the_user_asks() {
    let req = Json::object().with("input", Json::array(msgs()));
    assert_eq!(last_user_text(&req), Some("now make it thread-safe".to_string()));
    assert_eq!(last_user_text(&json(r#"{"input":[]}"#)), None);
}

#[test]
fn settings_are_loaded() {
    assert_eq!(DEFAULT_CONFIG, "vg-mirror.toml");
    assert_eq!(config_path(None), "vg-mirror.toml");
    assert_eq!(config_path(Some("x")), "x");
    let (cfg, from) = Config::load(None, ConfigFile::Missing("gone".to_string())).unwrap();
    assert_eq!((cfg.mode, from), (Mode::Off, None));
    assert_eq!(
        Config::load(Some("x"), ConfigFile::Missing("gone".to_string())).unwrap_err(),
        "read x: gone"
    );
    assert_eq!(
        Config::load(None, ConfigFile::Unreadable("no".to_string())).unwrap_err(),
        "read vg-mirror.toml: no"
    );
    assert_eq!(
        Config::load(Some("x"), ConfigFile::Malformed("bad".to_string())).unwrap_err(),
        "parse x: bad"
    );
    assert_eq!(
        Config::load(Some("x"), ConfigFile::Parsed(Config { mode: Mode::ModelRouter, model_router: None }))
            .unwrap_err(),
        "x: mode = \"model-router\" requires a [model-router] section"
    );
    let cfg = Config { mode: Mode::ModelRouter, model_router: Some(config()) };
    let (cfg, from) = Config::load(Some("x"), ConfigFile::Parsed(cfg)).unwrap();
    assert_eq!((cfg.mode, from), (Mode::ModelRouter, Some("x".to_string())));
    assert_eq!(cfg.model_router.unwrap().frontier, "f");
}

#[test]
fn tiers_have_names() {
    assert_eq!(Tier::Small.as_str(), "small");
    assert_eq!(Tier::Medium.as_str(), "medium");
    assert_eq!(Tier::Frontier.as_str(), "frontier");
}

#[test]
fn defaults_of_the_settings() {
    assert!(yes());
    assert_eq!(default_max_state_chars(), 24_000);
    assert_eq!(default_classifier_url(), "https://api.typesafe.ai/v1/systemone");
    assert_eq!(default_classifier_model(), "jev-latest");
    assert_eq!(default_timeout_ms(), 5_000);
    assert_eq!(default_log_path(), Some("vg-mirror-router.jsonl".to_string()));
}
