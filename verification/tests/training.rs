//! Training data: records and samples.
use vg_model_router::codec::parse_json;
use vg_model_router::json::{Json, JsonNumber};
use vg_model_router::measure::Elapsed;
use vg_model_router::router::{Decision, Source, Verdict};
use vg_model_router::tier::Tier;
use vg_model_router::trainlog::{
    export, router_sample, sft_sample, ExportJob, ExportKind, Pending, Progress, EXPORT_USAGE, ROUTER_SYSTEM,
};

fn json(text: &str) -> Json {
    parse_json(text).unwrap()
}

fn record(tier: &str, status: &str) -> Json {
    json(&format!(
        r#"{{
            "tier": "{tier}",
            "classifier": {{ "state": "hi", "answers": {{
                "difficulty_level": {{ "choice": "cheap" }},
                "difficulty_score": {{ "score": 0.3 }},
                "prefer_cheap_model": {{ "noul": 0.9 }}
            }}}},
            "request": {{ "instructions": "sys", "input": "hi", "tools": [] }},
            "response": {{
                "status": "{status}", "error": null,
                "output": [
                    {{ "type": "reasoning", "summary": [{{ "type": "summary_text", "text": "think" }}] }},
                    {{ "type": "message", "role": "assistant", "content": [{{ "type": "output_text", "text": "hello" }}] }}
                ]
            }}
        }}"#
    ))
}

fn messages(sample: &Json) -> &Vec<Json> {
    sample.array_at("messages").unwrap()
}

#[test]
fn router_sample_has_label() {
    let s = router_sample(&record("small", "completed")).unwrap();
    let label = json(messages(&s)[2].text_at("content").unwrap());
    assert_eq!(label.text_at("difficulty_level"), Some("cheap"));
    let noul = JsonNumber::from_number(serde_json::Number::from_f64(0.9).unwrap());
    assert_eq!(label.get("prefer_cheap_model"), Some(&Json::Number(noul)));
}

#[test]
fn router_sample_in_full() {
    let s = router_sample(&record("small", "completed")).unwrap();
    assert_eq!(messages(&s)[0].text_at("role"), Some("system"));
    assert_eq!(messages(&s)[0].text_at("content"), Some(ROUTER_SYSTEM));
    assert_eq!(
        ROUTER_SYSTEM,
        "Classify the difficulty of the AI request for model routing. Reply with JSON: {\"difficulty_level\": \"cheap\"|\"medium\"|\"expensive\", \"difficulty_score\": 0-4, \"prefer_cheap_model\": 0-1}."
    );
    assert_eq!(messages(&s)[1], json(r#"{"role":"user","content":"hi"}"#));
    assert_eq!(
        messages(&s)[2].text_at("content"),
        Some(r#"{"difficulty_level":"cheap","difficulty_score":0.3,"prefer_cheap_model":0.9}"#)
    );
}

#[test]
fn records_without_a_verdict_teach_nothing() {
    for rec in [
        "{}",
        r#"{"classifier":null}"#,
        r#"{"classifier":{"answers":{"difficulty_level":{"choice":"cheap"}}}}"#,
        r#"{"classifier":{"state":"x"}}"#,
        r#"{"classifier":{"state":"x","answers":{}}}"#,
    ] {
        assert!(router_sample(&json(rec)).is_none());
    }
}

#[test]
fn sft_sample_filters_and_strips_reasoning() {
    assert!(sft_sample(&record("small", "completed"), "frontier", false).is_none());
    assert!(sft_sample(&record("frontier", "incomplete"), "frontier", false).is_none());
    let s = sft_sample(&record("frontier", "completed"), "frontier", false).unwrap();
    assert_eq!(messages(&s)[0].text_at("role"), Some("system"));
    assert_eq!(messages(&s)[1].text_at("content"), Some("hi"));
    assert_eq!(messages(&s)[2].text_at("content"), Some("hello"));
    assert!(messages(&s)[2].get("reasoning_content").is_none());
    assert!(s.get("tools").is_none());
    let s = sft_sample(&record("frontier", "completed"), "frontier", true).unwrap();
    assert_eq!(messages(&s)[2].text_at("reasoning_content"), Some("think"));
}

#[test]
fn all_tiers_may_be_distilled() {
    assert!(sft_sample(&record("small", "completed"), "all", false).is_some());
    assert!(sft_sample(&json("{}"), "all", false).is_none());
}

#[test]
fn records_with_an_error_are_not_distilled() {
    let rec = json(r#"{"tier":"small","request":{"input":"x"},"response":{"status":"completed","error":"e","output":[{"role":"assistant","content":"y"}]}}"#);
    assert!(sft_sample(&rec, "small", false).is_none());
    let rec = json(r#"{"tier":"small","request":{"input":1},"response":{"status":"completed","output":[{"role":"assistant","content":"y"}]}}"#);
    assert!(sft_sample(&rec, "small", false).is_none());
    let rec = json(r#"{"tier":"small","request":{"input":"x"},"response":{"status":"completed","output":[]}}"#);
    assert!(sft_sample(&rec, "small", false).is_none());
}

#[test]
fn tools_go_into_the_sample() {
    let rec = json(
        r#"{"tier":"small","request":{"input":[{"role":"user","content":"q"}],"tools":[{"type":"function","name":"f"}]},
            "response":{"status":"completed","output":[{"role":"assistant","content":"y"}]}}"#,
    );
    let s = sft_sample(&rec, "small", false).unwrap();
    assert_eq!(s.array_at("tools").unwrap().len(), 1);
    assert_eq!(messages(&s).len(), 2);
}

fn decision(source: Source) -> Decision {
    Decision {
        tier: Tier::Frontier,
        model: "f".to_string(),
        rule: None,
        session: Some("k".to_string()),
        new_turn: true,
        source,
    }
}

#[test]
fn a_record_in_full() {
    let req = json(r#"{"instructions":"sys","input":"q","model":"asked","stream":true}"#);
    let p = Pending::new(7, 1, "asked", &decision(Source::Cached { from_req: 3 }), &req);
    let resp = json(r#"{"model":"gpt","status":"completed","output":[1],"usage":{"input_tokens":1}}"#);
    assert_eq!(
        p.finish("f", Some(&resp), None, Elapsed::new(1, 2_000_000).unwrap()),
        "{\"ts\":7,\"req_id\":1,\"session\":\"k\",\"new_turn\":true,\"requested_model\":\"asked\",\"routed_model\":\"f\",\"tier\":\"frontier\",\
         \"route\":{\"type\":\"cached\",\"from_req\":3},\"classifier\":null,\"request\":{\"instructions\":\"sys\",\"input\":\"q\",\"tools\":[]},\
         \"response\":{\"model\":\"gpt\",\"status\":\"completed\",\"output\":[1],\"incomplete_details\":null,\"usage\":{\"input_tokens\":1},\"error\":null},\"latency_ms\":1002}\n"
    );
}

#[test]
fn a_record_of_a_failure() {
    let p = Pending::new(7, 1, "a", &decision(Source::Fallback("e".to_string())), &json("{}"));
    let line = p.finish("f", None, Some("cut\nshort"), Elapsed::zero());
    assert_eq!(line.matches('\n').count(), 1);
    let rec = json(&line);
    assert_eq!(rec.get("route"), Some(&json(r#"{"type":"fallback","error":"e"}"#)));
    assert_eq!(
        rec.get("response"),
        Some(&json(
            r#"{"model":"f","status":null,"output":[],"incomplete_details":null,"usage":null,"error":"cut\nshort"}"#
        ))
    );
    assert_eq!(rec.get("request"), Some(&json(r#"{"instructions":null,"input":[],"tools":[]}"#)));
}

#[test]
fn a_judged_request_teaches_the_router() {
    let verdict = Verdict {
        state: "the state".to_string(),
        answers: json(r#"{"difficulty_level":{"choice":"medium"}}"#),
        classifier_model: "jev".to_string(),
        choice: "medium".to_string(),
        confidence: None,
        score: None,
        noul: None,
        latency: Elapsed::new(0, 5_000_000).unwrap(),
    };
    let p = Pending::new(7, 1, "a", &decision(Source::Classified(verdict)), &json("{}"));
    let line = p.finish("f", None, None, Elapsed::zero());
    let rec = json(&line);
    assert_eq!(
        rec.get("classifier"),
        Some(&json(
            r#"{"model":"jev","state":"the state","answers":{"difficulty_level":{"choice":"medium"}},"latency_ms":5}"#
        ))
    );
    let s = router_sample(&rec).unwrap();
    assert_eq!(messages(&s)[1].text_at("content"), Some("the state"));
    assert_eq!(
        messages(&s)[2].text_at("content"),
        Some(r#"{"difficulty_level":"medium","difficulty_score":null,"prefer_cheap_model":null}"#)
    );
}

fn args(words: &[&str]) -> Vec<String> {
    words.iter().map(|w| w.to_string()).collect()
}

#[test]
fn arguments_of_an_export() {
    let job = export(&args(&["sft", "--in", "a", "--out", "b", "--tier", "all", "--with-reasoning"])).ok().unwrap();
    assert_eq!(
        (job.kind.as_str(), job.input.as_str(), job.output.as_str(), job.tier.as_str(), job.with_reasoning),
        ("sft", "a", "b", "all", true)
    );
    let job = export(&args(&["router", "--out", "b", "--in", "a"])).ok().unwrap();
    assert_eq!((job.tier.as_str(), job.with_reasoning), ("frontier", false));
}

#[test]
fn arguments_that_are_refused() {
    for words in [
        &[][..],
        &["sft"],
        &["sft", "--in", "a"],
        &["sft", "--out", "b", "--in"],
        &["sft", "--in", "a", "--out", "b", "--tier"],
    ] {
        assert_eq!(export(&args(words)).err().unwrap(), EXPORT_USAGE);
    }
    assert_eq!(
        export(&args(&["sft", "--fast"])).err().unwrap(),
        format!("unknown argument: --fast\n\n{EXPORT_USAGE}")
    );
    assert!(EXPORT_USAGE.starts_with("usage: vg-model-router export router --in <log.jsonl> --out <data.jsonl>\n       vg-model-router export sft    --in"));
}

fn job(kind: ExportKind) -> ExportJob {
    ExportJob {
        kind,
        input: "in".to_string(),
        output: "out".to_string(),
        tier: "frontier".to_string(),
        with_reasoning: false,
    }
}

#[test]
fn an_export_line_by_line() {
    let job = job(ExportKind::Sft);
    let mut p = Progress::new();
    let good = record("frontier", "completed").to_text();
    let other = record("small", "completed").to_text();
    let mut written = Vec::new();
    for line in ["", " \t", "no json", good.as_str(), other.as_str(), good.as_str()] {
        let (next, made) = p.after_line(&job, line);
        p = next;
        if let Some(s) = made {
            written.push(s);
        }
    }
    assert_eq!(written.len(), 2);
    assert!(written[0].ends_with("]}\n"));
    assert_eq!((p.read(), p.bad(), p.written()), (4, 1, 2));
    assert_eq!(p.summary(&job), "sft: read 4 records (1 unparseable), wrote 2 samples → out");
}

#[test]
fn an_unknown_kind_is_refused() {
    assert_eq!(export(&args(&["bogus", "--in", "a", "--out", "b"])).err().unwrap(), EXPORT_USAGE);
    assert_eq!(export(&args(&["bogus"])).err().unwrap(), EXPORT_USAGE);
    for words in [&["bogus", "--x"][..], &["--in", "--x", "--out", "b"]] {
        assert_eq!(
            export(&args(words)).err().unwrap(),
            format!("unknown argument: --x\n\n{EXPORT_USAGE}")
        );
    }
}

#[test]
fn a_record_is_exported_as_it_was_logged() {
    let verdict = Verdict {
        state: "st".to_string(),
        answers: json(r#"{"difficulty_level":{"choice":"cheap"},"difficulty_score":{"score":0.3}}"#),
        classifier_model: String::new(),
        choice: "cheap".to_string(),
        confidence: None,
        score: None,
        noul: None,
        latency: Elapsed::zero(),
    };
    let p = Pending::new(7, 1, "a", &decision(Source::Classified(verdict)), &json("{}"));
    let line = p.finish("f", None, None, Elapsed::zero());
    let (_, made) = Progress::new().after_line(&job(ExportKind::Router), line.trim_end());
    assert!(made.unwrap().contains(r#"\"difficulty_score\":0.3"#));
}

#[test]
fn a_line_that_has_been_parsed() {
    let (p, made) = Progress::new().after_parsed(&job(ExportKind::Router), "x", Ok(record("small", "failed")));
    assert!(made.unwrap().starts_with("{\"messages\":[{\"role\":\"system\""));
    assert_eq!((p.read(), p.bad(), p.written()), (1, 0, 1));
}
