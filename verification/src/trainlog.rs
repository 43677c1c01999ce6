//! Training data: the record of each routed request, and its export as fine-tuning samples.
use crate::codec::{json_of_text, legible, parse_json, readable, rendered, same_but_numbers};
use crate::convert::{
    chat_messages, chat_tools, fixed, law_later_items_come_after, law_message_adds_one_message,
    to_chat_messages, to_chat_tools, txt,
};
use crate::items::{
    clone_items, law_text_is_a_user_message, speaks_as, user_message, user_message_of,
};
use crate::json::{
    field, field_of, key_at, law_with_then_get, lemma_key_at, lemma_key_at_unique, lemma_with_gets_all,
    opt_tree, or_text, text_in, trees, Json, JsonNumber, JsonV,
};
use crate::measure::Elapsed;
use crate::router::{answers_of, choice_of, is_verdict, parsed_view, Decision, Source, Verdict};
use crate::text::{
    blank, decimal, decimal_of, is_blank, opt_string_view, opt_view, same, views,
};
use vstd::prelude::*;

verus! {

/// A non-negative integer as a value.
pub open spec fn whole(n: u64) -> JsonV {
    JsonV::Number(JsonNumber::Unsigned(n))
}

/// A text that may be missing, as a value.
pub open spec fn text_or_null(s: Option<Seq<char>>) -> JsonV {
    match s {
        Some(s) => txt(s),
        None => JsonV::Null,
    }
}

/// `v`, or `d` where there is none.
pub open spec fn or_value(v: Option<JsonV>, d: JsonV) -> JsonV {
    match v {
        Some(v) => v,
        None => d,
    }
}

/// An array without items.
pub open spec fn no_items() -> JsonV {
    JsonV::Array(Seq::empty())
}

/// How the tier was found, in the record.
pub open spec fn route_tree(source: Source) -> JsonV {
    match source {
        Source::Classified(_) => JsonV::object().with("type"@, txt("classified"@)),
        Source::Cached { from_req } => JsonV::object().with("type"@, txt("cached"@)).with(
            "from_req"@,
            whole(from_req),
        ),
        Source::Fallback(e) => JsonV::object().with("type"@, txt("fallback"@)).with(
            "error"@,
            txt(e@),
        ),
    }
}

/// What the classifier saw and said, in the record; null where it was not asked.
pub open spec fn classifier_tree(source: Source) -> JsonV {
    match source {
        Source::Classified(v) => JsonV::object().with("model"@, txt(v.classifier_model@)).with(
            "state"@,
            txt(v.state@),
        ).with("answers"@, v.answers@).with("latency_ms"@, whole(v.latency.spec_millis() as u64)),
        _ => JsonV::Null,
    }
}

/// The parts of a request that the record keeps.
pub open spec fn request_tree(req: JsonV) -> JsonV {
    JsonV::object().with("instructions"@, or_value(req.get("instructions"@), JsonV::Null)).with(
        "input"@,
        or_value(req.get("input"@), no_items()),
    ).with("tools"@, or_value(req.get("tools"@), no_items()))
}

/// The record of a request that has no response yet.
pub open spec fn record_tree(
    ts: u64,
    req_id: u64,
    requested_model: Seq<char>,
    decision: Decision,
    req: JsonV,
) -> JsonV {
    JsonV::object().with("ts"@, whole(ts)).with("req_id"@, whole(req_id)).with(
        "session"@,
        text_or_null(opt_string_view(decision.session)),
    ).with("new_turn"@, JsonV::Bool(decision.new_turn)).with(
        "requested_model"@,
        txt(requested_model),
    ).with("routed_model"@, txt(decision.model@)).with("tier"@, txt(decision.tier.name())).with(
        "route"@,
        route_tree(decision.source),
    ).with("classifier"@, classifier_tree(decision.source)).with("request"@, request_tree(req))
}

/// The response in the record. An error that the proxy saw goes before that of the response.
pub open spec fn response_tree(
    model: Seq<char>,
    resp: Option<JsonV>,
    error: Option<Seq<char>>,
) -> JsonV {
    JsonV::object().with("model"@, txt(or_text(text_in(field(resp, "model"@)), model))).with(
        "status"@,
        or_value(field(resp, "status"@), JsonV::Null),
    ).with("output"@, or_value(field(resp, "output"@), no_items())).with(
        "incomplete_details"@,
        or_value(field(resp, "incomplete_details"@), JsonV::Null),
    ).with("usage"@, or_value(field(resp, "usage"@), JsonV::Null)).with(
        "error"@,
        match error {
            Some(e) => txt(e),
            None => or_value(field(resp, "error"@), JsonV::Null),
        },
    )
}

/// The record with its response.
pub open spec fn finished_tree(record: JsonV, response: JsonV, latency: Elapsed) -> JsonV {
    record.with("response"@, response).with("latency_ms"@, whole(latency.spec_millis() as u64))
}

/// The line of the log for a record with its response.
pub open spec fn record_line(record: JsonV, response: JsonV, latency: Elapsed) -> Seq<char> {
    rendered(finished_tree(record, response, latency)).push('\n')
}

fn number(n: u64) -> (r: Json)
    ensures
        r@ == whole(n),
{
    Json::Number(JsonNumber::Unsigned(n))
}

fn empty_array() -> (r: Json)
    ensures
        r@ == no_items(),
{
    let items: Vec<Json> = Vec::new();
    assert(trees(items@) =~= Seq::<JsonV>::empty());
    Json::array(items)
}

fn copy_or(v: Option<&Json>, d: Json) -> (r: Json)
    ensures
        r@ == or_value(opt_tree(v), d@),
{
    match v {
        Some(v) => v.clone(),
        None => d,
    }
}

/// A record that waits for its response.
pub struct Pending {
    record: Json,
}

impl View for Pending {
    type V = JsonV;

    closed spec fn view(&self) -> JsonV {
        self.record@
    }
}

impl Pending {
    /// The record of a request at the time `ts`: the decision, what the classifier saw and said,
    /// and what is sent upstream.
    pub fn new(ts: u64, req_id: u64, requested_model: &str, decision: &Decision, req: &Json) -> (r:
        Pending)
        ensures
            r@ == record_tree(ts, req_id, requested_model@, *decision, req@),
    {
        let (route, classifier) = match &decision.source {
            Source::Classified(v) => (
                Json::object().with("type", Json::text("classified")),
                Json::object().with("model", Json::text(v.classifier_model.as_str())).with(
                    "state",
                    Json::text(v.state.as_str()),
                ).with("answers", v.answers.clone()).with("latency_ms", number(v.latency.millis())),
            ),
            Source::Cached { from_req } => (
                Json::object().with("type", Json::text("cached")).with("from_req", number(*from_req)),
                Json::Null,
            ),
            Source::Fallback(e) => (
                Json::object().with("type", Json::text("fallback")).with(
                    "error",
                    Json::text(e.as_str()),
                ),
                Json::Null,
            ),
        };
        let session = match &decision.session {
            Some(s) => Json::text(s.as_str()),
            None => Json::Null,
        };
        let request = Json::object().with(
            "instructions",
            copy_or(req.get("instructions"), Json::Null),
        ).with("input", copy_or(req.get("input"), empty_array())).with(
            "tools",
            copy_or(req.get("tools"), empty_array()),
        );
        let record = Json::object().with("ts", number(ts)).with("req_id", number(req_id)).with(
            "session",
            session,
        ).with("new_turn", Json::Bool(decision.new_turn)).with(
            "requested_model",
            Json::text(requested_model),
        ).with("routed_model", Json::text(decision.model.as_str())).with(
            "tier",
            Json::text(decision.tier.as_str()),
        ).with("route", route).with("classifier", classifier).with("request", request);
        Pending { record }
    }

    /// The line of the log for this record with its response: one JSON document, and a line feed.
    /// A record that the reader takes is read back as it was written, but for its fractions, and
    /// the export makes of the line what it makes of the record.
    pub fn finish(
        self,
        model: &str,
        resp: Option<&Json>,
        error: Option<&str>,
        latency: Elapsed,
    ) -> (r: String)
        ensures
            ({
                let response = response_tree(model@, opt_tree(resp), opt_view(error));
                let doc = finished_tree(self@, response, latency);
                &&& r@ == record_line(self@, response, latency)
                &&& !rendered(doc).contains('\n')
                &&& !is_blank(rendered(doc))
                &&& readable(doc) ==> json_of_text(rendered(doc)) == Ok::<JsonV, Seq<char>>(doc)
                &&& legible(doc) ==> json_of_text(rendered(doc)) is Ok && same_but_numbers(
                    doc,
                    json_of_text(rendered(doc))->Ok_0,
                )
                &&& readable(doc) ==> forall|job: ExportJob| #[trigger]
                    line_made(job, rendered(doc), json_of_text(rendered(doc))) == exported(job, doc)
                &&& legible(doc) ==> forall|job: ExportJob|
                    (#[trigger] line_made(job, rendered(doc), json_of_text(rendered(doc))) is Some
                        <==> exported(job, doc) is Some)
            }),
    {
        let shown = match field_of(resp, "model") {
            Some(m) => match m.as_str() {
                Some(m) => m,
                None => model,
            },
            None => model,
        };
        let fault = match error {
            Some(e) => Json::text(e),
            None => copy_or(field_of(resp, "error"), Json::Null),
        };
        let response = Json::object().with("model", Json::text(shown)).with(
            "status",
            copy_or(field_of(resp, "status"), Json::Null),
        ).with("output", copy_or(field_of(resp, "output"), empty_array())).with(
            "incomplete_details",
            copy_or(field_of(resp, "incomplete_details"), Json::Null),
        ).with("usage", copy_or(field_of(resp, "usage"), Json::Null)).with("error", fault);
        let doc = self.record.with("response", response).with(
            "latency_ms",
            number(latency.millis()),
        );
        let mut line = doc.to_text();
        proof {
            if legible(doc@) {
                assert forall|job: ExportJob|
                    (#[trigger] line_made(job, rendered(doc@), json_of_text(rendered(doc@))) is Some
                        <==> exported(job, doc@) is Some) by {
                    law_numbers_do_not_decide_the_export(
                        job,
                        doc@,
                        json_of_text(rendered(doc@))->Ok_0,
                    );
                }
            }
        }
        line.push('\n');
        line
    }
}

/// How the export is called.
pub const EXPORT_USAGE: &'static str = "\
usage: vg-model-router export router --in <log.jsonl> --out <data.jsonl>
       vg-model-router export sft    --in <log.jsonl> --out <data.jsonl> [--tier frontier|medium|small|all] [--with-reasoning]

  router  one sample per classified request: classifier input → classifier answer
  sft     one sample per completed request, in Chat format: messages + tools → model output
          (--tier defaults to frontier; reasoning is dropped unless --with-reasoning)";

/// The system message of a sample for the router.
pub const ROUTER_SYSTEM: &'static str = "Classify the difficulty of the AI request for model routing. \
Reply with JSON: {\"difficulty_level\": \"cheap\"|\"medium\"|\"expensive\", \
\"difficulty_score\": 0-4, \"prefer_cheap_model\": 0-1}.";

/// A Chat message.
pub open spec fn chat_message(role: Seq<char>, content: Seq<char>) -> JsonV {
    JsonV::object().with("role"@, txt(role)).with("content"@, txt(content))
}

/// The answers that a router is to learn.
pub open spec fn label_tree(level: JsonV, answers: JsonV) -> JsonV {
    JsonV::object().with("difficulty_level"@, level).with(
        "difficulty_score"@,
        or_value(answers.get2("difficulty_score"@, "score"@), JsonV::Null),
    ).with(
        "prefer_cheap_model"@,
        or_value(answers.get2("prefer_cheap_model"@, "noul"@), JsonV::Null),
    )
}

/// The sample that teaches a router: what the classifier saw, and what it answered.
pub open spec fn router_messages(state: Seq<char>, level: JsonV, answers: JsonV) -> JsonV {
    JsonV::object().with(
        "messages"@,
        JsonV::Array(
            seq![
                chat_message("system"@, ROUTER_SYSTEM@),
                chat_message("user"@, state),
                chat_message("assistant"@, rendered(label_tree(level, answers))),
            ],
        ),
    )
}

/// The sample for the router that a record makes: one where the classifier was asked and named
/// a level.
pub open spec fn router_sample_of(rec: JsonV) -> Option<JsonV> {
    match rec.get("classifier"@) {
        Some(c) => match (
            c.text_at("state"@),
            c.get("answers"@),
            field(c.get("answers"@), "difficulty_level"@),
        ) {
            (Some(state), Some(answers), Some(level)) => match level.get("choice"@) {
                Some(choice) => Some(router_messages(state, choice, answers)),
                None => None,
            },
            _ => None,
        },
        None => None,
    }
}

/// A record that is fit for distillation: of the tier, completed, without an error, with output.
pub open spec fn is_distilled(rec: JsonV, tier: Seq<char>) -> bool {
    &&& tier == "all"@ || rec.text_at("tier"@) == Some(tier)
    &&& rec.get("response"@) matches Some(resp)
    &&& resp.get("error"@) is None || resp.get("error"@) == Some(JsonV::Null)
    &&& resp.text_at("status"@) == Some("completed"@)
    &&& resp.items_at("output"@).len() > 0
}

/// The conversation of a record: the input, where a text stands for one message of the user,
/// and then the output. There is none where the input is neither text nor list.
pub open spec fn recorded_items(rec: JsonV) -> Option<Seq<JsonV>> {
    let output = match rec.get("response"@) {
        Some(resp) => resp.items_at("output"@),
        None => Seq::empty(),
    };
    match rec.get2("request"@, "input"@) {
        Some(JsonV::Text(s)) => Some(seq![user_message(s)] + output),
        Some(JsonV::Array(items)) => Some(items + output),
        _ => None,
    }
}

/// The sample for distillation that a record makes, in Chat form.
pub open spec fn sft_sample_of(rec: JsonV, tier: Seq<char>, with_reasoning: bool) -> Option<JsonV> {
    if !is_distilled(rec, tier) {
        None
    } else {
        match recorded_items(rec) {
            Some(items) => {
                let req = or_value(rec.get("request"@), JsonV::Null);
                let sample = JsonV::object().with(
                    "messages"@,
                    JsonV::Array(
                        chat_messages(req.text_at("instructions"@), items, with_reasoning),
                    ),
                );
                let tools = chat_tools(req.items_at("tools"@));
                if tools.len() > 0 {
                    Some(sample.with("tools"@, JsonV::Array(tools)))
                } else {
                    Some(sample)
                }
            },
            None => None,
        }
    }
}

fn message(role: &str, content: &str) -> (r: Json)
    ensures
        r@ == chat_message(role@, content@),
{
    Json::object().with("role", Json::text(role)).with("content", Json::text(content))
}

/// The tree of an optional document that is owned.
pub open spec fn owned_tree(v: Option<Json>) -> Option<JsonV> {
    match v {
        Some(j) => Some(j@),
        None => None,
    }
}

/// The sample for the router that a record makes: the text that the classifier saw, and its
/// answer as JSON.
pub fn router_sample(rec: &Json) -> (r: Option<Json>)
    ensures
        owned_tree(r) == router_sample_of(rec@),
{
    let c = match rec.get("classifier") {
        Some(c) => c,
        None => {
            return None;
        },
    };
    let state = match c.text_at("state") {
        Some(s) => s,
        None => {
            return None;
        },
    };
    let answers = match c.get("answers") {
        Some(a) => a,
        None => {
            return None;
        },
    };
    let choice = match answers.get2("difficulty_level", "choice") {
        Some(l) => l,
        None => {
            return None;
        },
    };
    let label = Json::object().with("difficulty_level", choice.clone()).with(
        "difficulty_score",
        copy_or(answers.get2("difficulty_score", "score"), Json::Null),
    ).with(
        "prefer_cheap_model",
        copy_or(answers.get2("prefer_cheap_model", "noul"), Json::Null),
    );
    let mut messages: Vec<Json> = Vec::new();
    messages.push(message("system", ROUTER_SYSTEM));
    messages.push(message("user", state));
    messages.push(message("assistant", label.to_text().as_str()));
    assert(trees(messages@) =~= seq![
        chat_message("system"@, ROUTER_SYSTEM@),
        chat_message("user"@, state@),
        chat_message("assistant"@, rendered(label_tree(choice@, answers@))),
    ]);
    Some(Json::object().with("messages", Json::array(messages)))
}

fn distilled(rec: &Json, tier: &str) -> (r: bool)
    ensures
        r == is_distilled(rec@, tier@),
{
    if !same(tier, "all") {
        match rec.text_at("tier") {
            Some(t) => {
                if !same(t, tier) {
                    return false;
                }
            },
            None => {
                return false;
            },
        }
    }
    let resp = match rec.get("response") {
        Some(r) => r,
        None => {
            return false;
        },
    };
    match resp.get("error") {
        Some(e) => {
            if !e.is_null() {
                return false;
            }
        },
        None => {},
    }
    let completed = match resp.text_at("status") {
        Some(s) => same(s, "completed"),
        None => false,
    };
    let output = match resp.array_at("output") {
        Some(o) => o.len() > 0,
        None => false,
    };
    completed && output
}

fn conversation(rec: &Json) -> (r: Option<Vec<Json>>)
    ensures
        match r {
            Some(items) => recorded_items(rec@) == Some(trees(items@)),
            None => recorded_items(rec@) is None,
        },
{
    let mut items = match rec.get2("request", "input") {
        Some(Json::Text(s)) => {
            let mut one: Vec<Json> = Vec::new();
            one.push(user_message_of(s.as_str()));
            assert(trees(one@) =~= seq![user_message(s@)]);
            one
        },
        Some(v) => match v.as_array() {
            Some(a) => clone_items(a),
            None => {
                return None;
            },
        },
        None => {
            return None;
        },
    };
    let ghost input = trees(items@);
    let mut output = match rec.get("response") {
        Some(resp) => match resp.array_at("output") {
            Some(o) => clone_items(o),
            None => Vec::new(),
        },
        None => Vec::new(),
    };
    let ghost out = trees(output@);
    assert(rec@.get("response"@) is None ==> out =~= Seq::empty());
    assert(rec@.get("response"@) matches Some(resp) ==> out =~= resp.items_at("output"@));
    items.append(&mut output);
    assert(trees(items@) =~= input + out);
    Some(items)
}

/// The sample for distillation that a record makes: its conversation and output in Chat form,
/// with the tools. Records of another tier, and those that did not complete, make none.
pub fn sft_sample(rec: &Json, tier: &str, with_reasoning: bool) -> (r: Option<Json>)
    ensures
        owned_tree(r) == sft_sample_of(rec@, tier@, with_reasoning),
{
    if !distilled(rec, tier) {
        return None;
    }
    let items = match conversation(rec) {
        Some(items) => items,
        None => {
            return None;
        },
    };
    let req = match rec.get("request") {
        Some(req) => req,
        None => {
            return None;
        },
    };
    let sample = Json::object().with(
        "messages",
        Json::array(to_chat_messages(req.text_at("instructions"), &items, with_reasoning)),
    );
    let tools = match req.array_at("tools") {
        Some(t) => to_chat_tools(t),
        None => Vec::new(),
    };
    assert(req@.items_at("tools"@).len() == 0 ==> trees(tools@) =~= Seq::empty());
    assert(trees(tools@) =~= chat_tools(req@.items_at("tools"@)));
    if tools.len() > 0 {
        Some(sample.with("tools", Json::array(tools)))
    } else {
        Some(sample)
    }
}

/// What the arguments of an export ask for, as far as they have been read.
pub ghost struct OptionsV {
    pub input: Option<Seq<char>>,
    pub output: Option<Seq<char>>,
    pub tier: Seq<char>,
    pub with_reasoning: bool,
}

/// What an export does where no option says otherwise.
pub open spec fn default_options() -> OptionsV {
    OptionsV { input: None, output: None, tier: "frontier"@, with_reasoning: false }
}

/// The argument behind the first one.
pub open spec fn second(args: Seq<Seq<char>>) -> Option<Seq<char>> {
    if args.len() > 1 {
        Some(args[1])
    } else {
        None
    }
}

/// What follows an option and its value.
pub open spec fn after_value(args: Seq<Seq<char>>) -> Seq<Seq<char>> {
    if args.len() > 1 {
        args.skip(2)
    } else {
        Seq::empty()
    }
}

/// What the arguments behind the kind ask for, or what is wrong with them.
pub open spec fn export_options(args: Seq<Seq<char>>, o: OptionsV) -> Result<OptionsV, Seq<char>>
    decreases args.len(),
{
    if args.len() == 0 {
        Ok(o)
    } else if args[0] == "--in"@ {
        export_options(after_value(args), OptionsV { input: second(args), ..o })
    } else if args[0] == "--out"@ {
        export_options(after_value(args), OptionsV { output: second(args), ..o })
    } else if args[0] == "--tier"@ {
        match second(args) {
            Some(t) => export_options(after_value(args), OptionsV { tier: t, ..o }),
            None => Err(EXPORT_USAGE@),
        }
    } else if args[0] == "--with-reasoning"@ {
        export_options(args.skip(1), OptionsV { with_reasoning: true, ..o })
    } else {
        Err("unknown argument: "@ + args[0] + "\n\n"@ + EXPORT_USAGE@)
    }
}

/// Which samples an export makes.
#[derive(Debug, Clone, Copy, PartialEq, Eq, Structural)]
pub enum ExportKind {
    /// Samples that teach a router.
    Router,
    /// Samples for distillation.
    Sft,
}

impl ExportKind {
    /// The name of the kind.
    pub open spec fn name(self) -> Seq<char> {
        match self {
            ExportKind::Router => "router"@,
            ExportKind::Sft => "sft"@,
        }
    }

    /// The name of the kind.
    pub fn as_str(self) -> (r: &'static str)
        ensures
            r@ == self.name(),
    {
        match self {
            ExportKind::Router => "router",
            ExportKind::Sft => "sft",
        }
    }
}

/// An export: what is read and written, and which samples.
pub struct ExportJob {
    pub kind: ExportKind,
    pub input: String,
    pub output: String,
    /// The tier whose records are distilled, or `all`.
    pub tier: String,
    pub with_reasoning: bool,
}

/// The export that the arguments ask for is `job`.
pub open spec fn is_job(args: Seq<Seq<char>>, job: ExportJob) -> bool {
    &&& args.len() > 0
    &&& job.kind.name() == args[0]
    &&& export_options(args.skip(1), default_options()) == Ok::<OptionsV, Seq<char>>(
        OptionsV {
            input: Some(job.input@),
            output: Some(job.output@),
            tier: job.tier@,
            with_reasoning: job.with_reasoning,
        },
    )
}

/// What is wrong with the arguments of an export: an option that is unknown or lacks its tier,
/// else a kind that is neither of the two, or no source or target; nothing where all is in order.
pub open spec fn export_fault(args: Seq<Seq<char>>) -> Option<Seq<char>> {
    if args.len() == 0 {
        Some(EXPORT_USAGE@)
    } else {
        match export_options(args.skip(1), default_options()) {
            Err(e) => Some(e),
            Ok(o) => if (args[0] != "router"@ && args[0] != "sft"@) || o.input is None || o.output
                is None {
                Some(EXPORT_USAGE@)
            } else {
                None
            },
        }
    }
}

fn value_at(args: &Vec<String>, i: usize) -> (r: Option<String>)
    ensures
        opt_string_view(r) == (if i < args@.len() {
            Some(args@[i as int]@)
        } else {
            None
        }),
{
    if i < args.len() {
        Some(args[i].clone())
    } else {
        None
    }
}

/// The export that the arguments ask for: `router` or `sft`, `--in` and `--out` with a path each, and the
/// options of distillation.
pub fn export(args: &Vec<String>) -> (r: Result<ExportJob, String>)
    ensures
        match r {
            Ok(job) => export_fault(views(args@)) is None && is_job(views(args@), job),
            Err(e) => export_fault(views(args@)) == Some(e@),
        },
{
    if args.len() == 0 {
        return Err(EXPORT_USAGE.to_owned());
    }
    let mut input: Option<String> = None;
    let mut output: Option<String> = None;
    let mut tier = "frontier".to_owned();
    let mut with_reasoning = false;
    let ghost all = views(args@);
    let mut i: usize = 1;
    while i < args.len()
        invariant
            1 <= i <= args@.len(),
            all == views(args@),
            export_options(all.skip(1), default_options()) == export_options(
                all.skip(i as int),
                OptionsV {
                    input: opt_string_view(input),
                    output: opt_string_view(output),
                    tier: tier@,
                    with_reasoning,
                },
            ),
        decreases args.len() - i,
    {
        let ghost rest = all.skip(i as int);
        let left: usize = args.len() - i;
        proof {
            assert(rest[0] == args@[i as int]@);
            assert(left > 1 ==> rest[1] == args@[i + 1]@);
            assert(left > 1 ==> after_value(rest) =~= all.skip(i + 2));
            assert(left == 1 ==> after_value(rest) =~= all.skip(i + 1));
            assert(rest.skip(1) =~= all.skip(i + 1));
        }
        let step: usize = if left > 1 {
            2
        } else {
            1
        };
        let a = args[i].as_str();
        if same(a, "--in") {
            input = value_at(args, i + 1);
            i = i + step;
        } else if same(a, "--out") {
            output = value_at(args, i + 1);
            i = i + step;
        } else if same(a, "--tier") {
            tier = match value_at(args, i + 1) {
                Some(t) => t,
                None => {
                    return Err(EXPORT_USAGE.to_owned());
                },
            };
            i = i + step;
        } else if same(a, "--with-reasoning") {
            with_reasoning = true;
            i = i + 1;
        } else {
            let mut e = "unknown argument: ".to_owned();
            e.push_str(a);
            e.push_str("\n\n");
            e.push_str(EXPORT_USAGE);
            return Err(e);
        }
    }
    let kind = if same(args[0].as_str(), "router") {
        ExportKind::Router
    } else if same(args[0].as_str(), "sft") {
        ExportKind::Sft
    } else {
        return Err(EXPORT_USAGE.to_owned());
    };
    match (input, output) {
        (Some(input), Some(output)) => Ok(ExportJob { kind, input, output, tier, with_reasoning }),
        _ => Err(EXPORT_USAGE.to_owned()),
    }
}

/// What an export makes of one record: a line for its sample, nothing where it makes none.
pub open spec fn exported(job: ExportJob, rec: JsonV) -> Option<Seq<char>> {
    match job.kind {
        ExportKind::Router => sample_line(router_sample_of(rec)),
        ExportKind::Sft => sample_line(sft_sample_of(rec, job.tier@, job.with_reasoning)),
    }
}

/// The line of the target that holds a sample.
pub open spec fn sample_line(sample: Option<JsonV>) -> Option<Seq<char>> {
    match sample {
        Some(s) => Some(rendered(s).push('\n')),
        None => None,
    }
}

impl ExportJob {
    /// What this export makes of one record.
    pub fn sample(&self, rec: &Json) -> (r: Option<String>)
        ensures
            opt_string_view(r) == exported(*self, rec@),
    {
        let sample = match self.kind {
            ExportKind::Router => router_sample(rec),
            ExportKind::Sft => sft_sample(rec, self.tier.as_str(), self.with_reasoning),
        };
        match sample {
            Some(s) => {
                let mut line = s.to_text();
                line.push('\n');
                Some(line)
            },
            None => None,
        }
    }
}

/// How far an export has come: lines that hold something, lines that hold no JSON, samples.
#[derive(Debug, Clone, Copy, PartialEq, Eq)]
pub struct Progress {
    read: u64,
    bad: u64,
    written: u64,
}

/// What an export makes of one line, where its text parses to `parsed`.
pub open spec fn line_made(
    job: ExportJob,
    line: Seq<char>,
    parsed: Result<JsonV, Seq<char>>,
) -> Option<Seq<char>> {
    if is_blank(line) {
        None
    } else {
        match parsed {
            Err(_) => None,
            Ok(rec) => exported(job, rec),
        }
    }
}

impl Progress {
    #[verifier::type_invariant]
    spec fn wf(self) -> bool {
        self.bad + self.written <= self.read
    }

    /// The lines that hold something.
    pub closed spec fn spec_read(self) -> int {
        self.read as int
    }

    /// The lines that hold no JSON.
    pub closed spec fn spec_bad(self) -> int {
        self.bad as int
    }

    /// The samples.
    pub closed spec fn spec_written(self) -> int {
        self.written as int
    }

    /// Nothing read yet.
    pub fn new() -> (r: Progress)
        ensures
            r.spec_read() == 0,
            r.spec_bad() == 0,
            r.spec_written() == 0,
    {
        Progress { read: 0, bad: 0, written: 0 }
    }

    /// The lines that hold something. No sample comes from nothing: the samples and the lines
    /// that hold no JSON are no more than these.
    pub fn read(&self) -> (r: u64)
        ensures
            r == self.spec_read(),
            self.spec_bad() + self.spec_written() <= r,
    {
        proof {
            use_type_invariant(self);
        }
        self.read
    }

    /// The lines that hold no JSON.
    pub fn bad(&self) -> (r: u64)
        ensures
            r == self.spec_bad(),
    {
        self.bad
    }

    /// The samples.
    pub fn written(&self) -> (r: u64)
        ensures
            r == self.spec_written(),
    {
        self.written
    }

    /// The progress after one line, and what the export makes of it, where its text has been
    /// parsed. Blank lines are passed over; lines that hold no JSON are counted.
    pub fn after_parsed(self, job: &ExportJob, line: &str, parsed: Result<Json, String>) -> (r: (
        Progress,
        Option<String>,
    ))
        requires
            self.spec_read() < u64::MAX,
        ensures
            ({
                let made = line_made(*job, line@, parsed_view(parsed));
                let content = !is_blank(line@);
                &&& opt_string_view(r.1) == made
                &&& r.0.spec_read() == self.spec_read() + (if content { 1int } else { 0 })
                &&& r.0.spec_bad() == self.spec_bad() + (if content && parsed is Err { 1int } else { 0 })
                &&& r.0.spec_written() == self.spec_written() + (if made is Some {
                    1int
                } else {
                    0
                })
            }),
    {
        proof {
            use_type_invariant(&self);
        }
        if blank(line) {
            return (self, None);
        }
        match parsed {
            Err(_) => (
                Progress { read: self.read + 1, bad: self.bad + 1, written: self.written },
                None,
            ),
            Ok(rec) => {
                let made = job.sample(&rec);
                let written: u64 = if made.is_some() {
                    self.written + 1
                } else {
                    self.written
                };
                (Progress { read: self.read + 1, bad: self.bad, written }, made)
            },
        }
    }

    /// The progress after one line, and what the export makes of it.
    pub fn after_line(self, job: &ExportJob, line: &str) -> (r: (
        Progress,
        Option<String>,
    ))
        requires
            self.spec_read() < u64::MAX,
        ensures
            ({
                let made = line_made(*job, line@, json_of_text(line@));
                let content = !is_blank(line@);
                &&& opt_string_view(r.1) == made
                &&& r.0.spec_read() == self.spec_read() + (if content { 1int } else { 0 })
                &&& r.0.spec_bad() == self.spec_bad() + (if content && json_of_text(line@) is Err {
                    1int
                } else {
                    0
                })
                &&& r.0.spec_written() == self.spec_written() + (if made is Some {
                    1int
                } else {
                    0
                })
            }),
    {
        self.after_parsed(job, line, parse_json(line))
    }

    /// The closing words of an export.
    pub fn summary(&self, job: &ExportJob) -> (r: String)
        ensures
            r@ == job.kind.name() + ": read "@ + decimal_of(self.spec_read() as nat) + " records ("@
                + decimal_of(self.spec_bad() as nat) + " unparseable), wrote "@ + decimal_of(
                self.spec_written() as nat,
            ) + " samples → "@ + job.output@,
    {
        let mut s = job.kind.as_str().to_owned();
        s.push_str(": read ");
        s.push_str(decimal(self.read).as_str());
        s.push_str(" records (");
        s.push_str(decimal(self.bad).as_str());
        s.push_str(" unparseable), wrote ");
        s.push_str(decimal(self.written).as_str());
        s.push_str(" samples → ");
        s.push_str(job.output.as_str());
        s
    }
}

/// The fields of a finished record that the export reads.
proof fn lemma_finished_fields(
    ts: u64,
    req_id: u64,
    requested_model: Seq<char>,
    decision: Decision,
    req: JsonV,
    response: JsonV,
    latency: Elapsed,
)
    ensures
        ({
            let rec = finished_tree(
                record_tree(ts, req_id, requested_model, decision, req),
                response,
                latency,
            );
            &&& rec.get("tier"@) == Some(txt(decision.tier.name()))
            &&& rec.get("classifier"@) == Some(classifier_tree(decision.source))
            &&& rec.get("request"@) == Some(request_tree(req))
            &&& rec.get("response"@) == Some(response)
        }),
{
    reveal_strlit("tier");
    reveal_strlit("route");
    reveal_strlit("classifier");
    reveal_strlit("request");
    reveal_strlit("response");
    reveal_strlit("latency_ms");
    let routed = JsonV::object().with("ts"@, whole(ts)).with("req_id"@, whole(req_id)).with(
        "session"@,
        text_or_null(opt_string_view(decision.session)),
    ).with("new_turn"@, JsonV::Bool(decision.new_turn)).with(
        "requested_model"@,
        txt(requested_model),
    ).with("routed_model"@, txt(decision.model@));
    let tier = txt(decision.tier.name());
    let a = routed.with("tier"@, tier);
    let route = route_tree(decision.source);
    let b = a.with("route"@, route);
    let classifier = classifier_tree(decision.source);
    let c = b.with("classifier"@, classifier);
    let request = request_tree(req);
    let d = c.with("request"@, request);
    let e = d.with("response"@, response);
    let ms = whole(latency.spec_millis() as u64);
    assert("classifier"@[0] == 'c' && "latency_ms"@[0] == 'l');
    let qs = seq!["tier"@, "classifier"@, "request"@, "response"@];
    assert forall|i: int| 0 <= i < 4 implies #[trigger] qs[i] != "latency_ms"@ by {
        assert(qs[i].len() != "latency_ms"@.len() || qs[i][0] == 'c');
    }
    assert(qs[0] == "tier"@ && qs[1] == "classifier"@ && qs[2] == "request"@ && qs[3] == "response"@);
    law_with_then_get(routed, "tier"@, tier, "tier"@);
    law_with_then_get(a, "route"@, route, "tier"@);
    law_with_then_get(b, "classifier"@, classifier, "tier"@);
    law_with_then_get(c, "request"@, request, "tier"@);
    law_with_then_get(d, "response"@, response, "tier"@);
    law_with_then_get(e, "latency_ms"@, ms, "tier"@);
    law_with_then_get(b, "classifier"@, classifier, "classifier"@);
    law_with_then_get(c, "request"@, request, "classifier"@);
    law_with_then_get(d, "response"@, response, "classifier"@);
    law_with_then_get(e, "latency_ms"@, ms, "classifier"@);
    law_with_then_get(c, "request"@, request, "request"@);
    law_with_then_get(d, "response"@, response, "request"@);
    law_with_then_get(e, "latency_ms"@, ms, "request"@);
    law_with_then_get(d, "response"@, response, "response"@);
    law_with_then_get(e, "latency_ms"@, ms, "response"@);
}

/// Every request that the classifier judged makes a sample for the router: what the classifier
/// saw, and the level that it named.
pub proof fn law_judged_requests_teach_the_router(
    ts: u64,
    req_id: u64,
    requested_model: Seq<char>,
    decision: Decision,
    req: JsonV,
    response: JsonV,
    latency: Elapsed,
    v: Verdict,
    state: Seq<char>,
    doc: JsonV,
)
    requires
        decision.source == Source::Classified(v),
        is_verdict(v, state, doc, v.latency),
        choice_of(doc) is Some,
    ensures
        router_sample_of(
            finished_tree(
                record_tree(ts, req_id, requested_model, decision, req),
                response,
                latency,
            ),
        ) == Some(router_messages(state, txt(v.choice@), answers_of(doc))),
{
    lemma_finished_fields(ts, req_id, requested_model, decision, req, response, latency);
    reveal_strlit("model");
    reveal_strlit("state");
    reveal_strlit("answers");
    reveal_strlit("latency_ms");
    let a = JsonV::object().with("model"@, txt(v.classifier_model@));
    let b = a.with("state"@, txt(v.state@));
    let c = b.with("answers"@, v.answers@);
    let ms = whole(v.latency.spec_millis() as u64);
    assert("state"@.len() == 5 && "answers"@.len() == 7 && "latency_ms"@.len() == 10);
    law_with_then_get(a, "state"@, txt(v.state@), "state"@);
    law_with_then_get(b, "answers"@, v.answers@, "state"@);
    law_with_then_get(c, "latency_ms"@, ms, "state"@);
    law_with_then_get(b, "answers"@, v.answers@, "answers"@);
    law_with_then_get(c, "latency_ms"@, ms, "answers"@);
    let seen = classifier_tree(decision.source);
    assert(seen.text_at("state"@) == Some(state));
    assert(seen.get("answers"@) == Some(answers_of(doc)));
    let level = answers_of(doc).get("difficulty_level"@);
    assert(level is Some);
    assert(level->0.get("choice"@) == Some(txt(v.choice@)));
}

/// A request that the classifier did not judge makes no sample for the router.
pub proof fn law_unjudged_requests_teach_nothing(
    ts: u64,
    req_id: u64,
    requested_model: Seq<char>,
    decision: Decision,
    req: JsonV,
    response: JsonV,
    latency: Elapsed,
)
    requires
        !(decision.source is Classified),
    ensures
        router_sample_of(
            finished_tree(
                record_tree(ts, req_id, requested_model, decision, req),
                response,
                latency,
            ),
        ) is None,
{
    lemma_finished_fields(ts, req_id, requested_model, decision, req, response, latency);
}

/// A request makes a sample for distillation only where it went to the tier that is distilled
/// and no error was seen.
pub proof fn law_only_clean_requests_of_the_tier_are_distilled(
    ts: u64,
    req_id: u64,
    requested_model: Seq<char>,
    decision: Decision,
    req: JsonV,
    model: Seq<char>,
    resp: Option<JsonV>,
    error: Option<Seq<char>>,
    latency: Elapsed,
    tier: Seq<char>,
    with_reasoning: bool,
)
    ensures
        sft_sample_of(
            finished_tree(
                record_tree(ts, req_id, requested_model, decision, req),
                response_tree(model, resp, error),
                latency,
            ),
            tier,
            with_reasoning,
        ) is Some ==> error is None && (tier == "all"@ || tier == decision.tier.name()),
{
    let response = response_tree(model, resp, error);
    lemma_finished_fields(ts, req_id, requested_model, decision, req, response, latency);
    let before = JsonV::object().with(
        "model"@,
        txt(or_text(text_in(field(resp, "model"@)), model)),
    ).with("status"@, or_value(field(resp, "status"@), JsonV::Null)).with(
        "output"@,
        or_value(field(resp, "output"@), no_items()),
    ).with(
        "incomplete_details"@,
        or_value(field(resp, "incomplete_details"@), JsonV::Null),
    ).with("usage"@, or_value(field(resp, "usage"@), JsonV::Null));
    let fault = match error {
        Some(e) => txt(e),
        None => or_value(field(resp, "error"@), JsonV::Null),
    };
    law_with_then_get(before, "error"@, fault, "error"@);
}

proof fn lemma_same_fields(a: JsonV, b: JsonV, k: Seq<char>)
    requires
        same_but_numbers(a, b),
    ensures
        a.get(k) is Some <==> b.get(k) is Some,
        a.get(k) is Some ==> same_but_numbers(a.get(k)->0, b.get(k)->0),
        a.text_at(k) == b.text_at(k),
        a.items_at(k).len() == b.items_at(k).len(),
{
    reveal_with_fuel(same_but_numbers, 2);
    match (a, b) {
        (JsonV::Object(xs), JsonV::Object(ys)) => {
            lemma_key_at(xs, k);
            let at = key_at(xs, k);
            assert(at < xs.len() ==> xs[at].0 == ys[at].0);
            assert forall|j: int| 0 <= j < at implies (#[trigger] ys[j]).0 != k by {
                assert(xs[j].0 != k);
            }
            lemma_key_at_unique(ys, k, at);
        },
        _ => {},
    }
}

/// Whether a record makes a sample does not depend on its numbers.
pub proof fn law_numbers_do_not_decide_the_export(job: ExportJob, a: JsonV, b: JsonV)
    requires
        same_but_numbers(a, b),
    ensures
        exported(job, a) is Some <==> exported(job, b) is Some,
{
    lemma_same_fields(a, b, "classifier"@);
    lemma_same_fields(a, b, "tier"@);
    lemma_same_fields(a, b, "response"@);
    lemma_same_fields(a, b, "request"@);
    if a.get("classifier"@) is Some {
        let (c, d) = (a.get("classifier"@)->0, b.get("classifier"@)->0);
        lemma_same_fields(c, d, "state"@);
        lemma_same_fields(c, d, "answers"@);
        if c.get("answers"@) is Some {
            let (x, y) = (c.get("answers"@)->0, d.get("answers"@)->0);
            lemma_same_fields(x, y, "difficulty_level"@);
            if x.get("difficulty_level"@) is Some {
                lemma_same_fields(
                    x.get("difficulty_level"@)->0,
                    y.get("difficulty_level"@)->0,
                    "choice"@,
                );
            }
        }
    }
    if a.get("response"@) is Some {
        let (c, d) = (a.get("response"@)->0, b.get("response"@)->0);
        lemma_same_fields(c, d, "error"@);
        lemma_same_fields(c, d, "status"@);
        lemma_same_fields(c, d, "output"@);
    }
    if a.get("request"@) is Some {
        lemma_same_fields(a.get("request"@)->0, b.get("request"@)->0, "input"@);
    }
}

proof fn lemma_record_names()
    ensures
        "ts"@.len() == 2,
        "req_id"@.len() == 6,
        "session"@.len() == 7,
        "new_turn"@.len() == 8,
        "requested_model"@.len() == 15,
        "routed_model"@.len() == 12,
        "tier"@.len() == 4,
        "route"@.len() == 5,
        "classifier"@.len() == 10,
        "request"@.len() == 7,
        "response"@.len() == 8,
        "latency_ms"@.len() == 10,
        "session"@ != "request"@,
        "new_turn"@ != "response"@,
        "classifier"@ != "latency_ms"@,
{
    reveal_strlit("ts");
    reveal_strlit("req_id");
    reveal_strlit("session");
    reveal_strlit("new_turn");
    reveal_strlit("requested_model");
    reveal_strlit("routed_model");
    reveal_strlit("tier");
    reveal_strlit("route");
    reveal_strlit("classifier");
    reveal_strlit("request");
    reveal_strlit("response");
    reveal_strlit("latency_ms");
    assert("session"@[0] == 's' && "request"@[0] == 'r');
    assert("new_turn"@[0] == 'n' && "response"@[0] == 'r');
    assert("classifier"@[0] == 'c' && "latency_ms"@[0] == 'l');
}

/// The record keeps the request: where the request has instructions, an input or tools, the
/// field of that name under `request` in the finished record is equal to it. Missing
/// instructions are null, a missing input and missing tools are empty lists.
pub proof fn law_record_keeps_the_request(
    ts: u64,
    req_id: u64,
    requested_model: Seq<char>,
    decision: Decision,
    req: JsonV,
    response: JsonV,
    latency: Elapsed,
    k: Seq<char>,
)
    requires
        k == "instructions"@ || k == "input"@ || k == "tools"@,
    ensures
        ({
            let rec = finished_tree(
                record_tree(ts, req_id, requested_model, decision, req),
                response,
                latency,
            );
            &&& req.get(k) is Some ==> rec.get2("request"@, k) == req.get(k)
            &&& req.get(k) is None && k == "instructions"@ ==> rec.get2("request"@, k) == Some(
                JsonV::Null,
            )
            &&& req.get(k) is None && k != "instructions"@ ==> rec.get2("request"@, k) == Some(
                JsonV::Array(Seq::empty()),
            )
        }),
{
    lemma_finished_fields(ts, req_id, requested_model, decision, req, response, latency);
    reveal_strlit("instructions");
    reveal_strlit("input");
    reveal_strlit("tools");
    assert("instructions"@.len() == 12 && "input"@.len() == 5 && "tools"@.len() == 5);
    assert("input"@[0] == 'i' && "tools"@[0] == 't');
    lemma_with_gets_all();
}

/// The record keeps the decision: when and for which request it was made, in which session and
/// whether it began a turn, which model was asked for, which model and tier were chosen, and how
/// long the response took.
pub proof fn law_record_keeps_the_decision(
    ts: u64,
    req_id: u64,
    requested_model: Seq<char>,
    decision: Decision,
    req: JsonV,
    response: JsonV,
    latency: Elapsed,
)
    ensures
        ({
            let rec = finished_tree(
                record_tree(ts, req_id, requested_model, decision, req),
                response,
                latency,
            );
            &&& rec.get("ts"@) == Some(JsonV::Number(JsonNumber::Unsigned(ts)))
            &&& rec.get("req_id"@) == Some(JsonV::Number(JsonNumber::Unsigned(req_id)))
            &&& rec.get("session"@) == Some(
                match decision.session {
                    Some(s) => JsonV::Text(s@),
                    None => JsonV::Null,
                },
            )
            &&& rec.get("new_turn"@) == Some(JsonV::Bool(decision.new_turn))
            &&& rec.text_at("requested_model"@) == Some(requested_model)
            &&& rec.text_at("routed_model"@) == Some(decision.model@)
            &&& rec.text_at("tier"@) == Some(decision.tier.name())
            &&& rec.get("response"@) == Some(response)
            &&& rec.get("latency_ms"@) == Some(
                JsonV::Number(JsonNumber::Unsigned(latency.spec_millis() as u64)),
            )
        }),
{
    lemma_record_names();
    lemma_with_gets_all();
}

/// The record tells how the tier was found: that the classifier was asked, with what it saw, what
/// it answered, its version and how long it took; or the request whose decision was kept; or why
/// the classifier failed.
pub proof fn law_record_tells_how_the_tier_was_found(
    ts: u64,
    req_id: u64,
    requested_model: Seq<char>,
    decision: Decision,
    req: JsonV,
    response: JsonV,
    latency: Elapsed,
)
    ensures
        ({
            let rec = finished_tree(
                record_tree(ts, req_id, requested_model, decision, req),
                response,
                latency,
            );
            let found = text_in(rec.get2("route"@, "type"@));
            match decision.source {
                Source::Classified(v) => {
                    &&& found == Some("classified"@)
                    &&& rec.get2("classifier"@, "model"@) == Some(JsonV::Text(v.classifier_model@))
                    &&& rec.get2("classifier"@, "state"@) == Some(JsonV::Text(v.state@))
                    &&& rec.get2("classifier"@, "answers"@) == Some(v.answers@)
                    &&& rec.get2("classifier"@, "latency_ms"@) == Some(
                        JsonV::Number(JsonNumber::Unsigned(v.latency.spec_millis() as u64)),
                    )
                },
                Source::Cached { from_req } => {
                    &&& found == Some("cached"@)
                    &&& rec.get2("route"@, "from_req"@) == Some(
                        JsonV::Number(JsonNumber::Unsigned(from_req)),
                    )
                    &&& rec.get("classifier"@) == Some(JsonV::Null)
                },
                Source::Fallback(e) => {
                    &&& found == Some("fallback"@)
                    &&& rec.get2("route"@, "error"@) == Some(JsonV::Text(e@))
                    &&& rec.get("classifier"@) == Some(JsonV::Null)
                },
            }
        }),
{
    lemma_record_names();
    lemma_with_gets_all();
    let rec = finished_tree(
        record_tree(ts, req_id, requested_model, decision, req),
        response,
        latency,
    );
    assert(rec.get("route"@) == Some(route_tree(decision.source)));
    assert(rec.get("classifier"@) == Some(classifier_tree(decision.source)));
    reveal_strlit("type");
    reveal_strlit("from_req");
    reveal_strlit("error");
    reveal_strlit("model");
    reveal_strlit("state");
    reveal_strlit("answers");
    assert("type"@.len() == 4 && "from_req"@.len() == 8 && "error"@.len() == 5);
    assert("model"@.len() == 5 && "state"@.len() == 5 && "answers"@.len() == 7);
    assert("model"@[0] == 'm' && "state"@[0] == 's');
}

/// The record keeps the response: its status, its output, why it is incomplete and what it used,
/// as far as it has them; the model that it names, else the one that was asked; and the error
/// that the proxy saw, else its own.
pub proof fn law_record_keeps_the_response(
    record: JsonV,
    model: Seq<char>,
    resp: JsonV,
    error: Option<Seq<char>>,
    latency: Elapsed,
    k: Seq<char>,
)
    requires
        record is Object,
        k == "status"@ || k == "output"@ || k == "incomplete_details"@ || k == "usage"@,
    ensures
        ({
            let rec = finished_tree(record, response_tree(model, Some(resp), error), latency);
            &&& resp.get(k) is Some ==> rec.get2("response"@, k) == resp.get(k)
            &&& resp.get(k) is None && k != "output"@ ==> rec.get2("response"@, k) == Some(JsonV::Null)
            &&& resp.text_at("model"@) is Some ==> rec.get2("response"@, "model"@) == resp.get(
                "model"@,
            )
            &&& resp.text_at("model"@) is None ==> rec.get2("response"@, "model"@) == Some(
                JsonV::Text(model),
            )
            &&& error is Some ==> rec.get2("response"@, "error"@) == Some(JsonV::Text(error->0))
            &&& error is None && resp.get("error"@) is Some ==> rec.get2("response"@, "error"@)
                == resp.get("error"@)
            &&& error is None && resp.get("error"@) is None ==> rec.get2("response"@, "error"@)
                == Some(JsonV::Null)
        }),
{
    lemma_record_names();
    lemma_response_names();
    lemma_with_gets_all();
    let rec = finished_tree(record, response_tree(model, Some(resp), error), latency);
    assert(rec.get("response"@) == Some(response_tree(model, Some(resp), error)));
    assert(resp.text_at("model"@) is Some ==> resp.get("model"@) == Some(
        JsonV::Text(resp.text_at("model"@)->0),
    ));
}

proof fn lemma_response_names()
    ensures
        "model"@.len() == 5,
        "status"@.len() == 6,
        "output"@.len() == 6,
        "incomplete_details"@.len() == 18,
        "usage"@.len() == 5,
        "error"@.len() == 5,
        "model"@ != "usage"@,
        "model"@ != "error"@,
        "usage"@ != "error"@,
        "status"@ != "output"@,
{
    reveal_strlit("model");
    reveal_strlit("status");
    reveal_strlit("output");
    reveal_strlit("incomplete_details");
    reveal_strlit("usage");
    reveal_strlit("error");
    assert("model"@[0] == 'm' && "usage"@[0] == 'u' && "error"@[0] == 'e');
    assert("status"@[0] == 's' && "output"@[0] == 'o');
}

/// The items that stand for an input: a text is a message of the user, a list is itself.
pub open spec fn stands_for(input: JsonV, items: Seq<JsonV>) -> bool {
    match input {
        JsonV::Text(s) => items.len() == 1 && speaks_as(items[0], "user"@) && items[0].text_at(
            "content"@,
        ) == Some(s),
        JsonV::Array(list) => items == list,
        _ => false,
    }
}

/// A sample for distillation holds the conversation of the record: its messages are those of the
/// recorded input, text or list, followed by those of the recorded output, under the recorded
/// instructions. What the input alone makes stands first, unchanged, but for a message of the
/// assistant that it ends with, which the output may join; where it ends with a message of the
/// user, all that the input makes is a prefix. The tools are the recorded ones.
pub proof fn law_sample_begins_with_the_input(
    rec: JsonV,
    tier: Seq<char>,
    with_reasoning: bool,
    input: Seq<JsonV>,
)
    requires
        rec.get2("request"@, "input"@) is Some,
        rec.get2("request"@, "input"@)->0 is Text ==> input == seq![
            user_message(rec.get2("request"@, "input"@)->0->Text_0),
        ],
        rec.get2("request"@, "input"@)->0 is Array ==> input == rec.get2(
            "request"@,
            "input"@,
        )->0->Array_0,
        sft_sample_of(rec, tier, with_reasoning) is Some,
    ensures
        stands_for(rec.get2("request"@, "input"@)->0, input),
        rec.get("response"@) is Some,
        ({
            let sample = sft_sample_of(rec, tier, with_reasoning)->0;
            let instructions = text_in(rec.get2("request"@, "instructions"@));
            let output = rec.get("response"@)->0.items_at("output"@);
            let messages = sample.items_at("messages"@);
            let asked = chat_messages(instructions, input, with_reasoning);
            let tools = chat_tools(rec.get("request"@)->0.items_at("tools"@));
            &&& sample.get("messages"@) == Some(JsonV::Array(messages))
            &&& messages == chat_messages(instructions, input + output, with_reasoning)
            &&& asked.len() <= messages.len()
            &&& forall|i: int| 0 <= i < fixed(asked) ==> #[trigger] messages[i] == asked[i]
            &&& input.len() > 0 && speaks_as(input.last(), "user"@) ==> asked
                == messages.take(asked.len() as int) && asked.last().text_at("role"@) == Some("user"@)
            &&& sample.items_at("tools"@) == tools
            &&& tools.len() == 0 ==> sample.get("tools"@) is None
        }),
{
    reveal_strlit("messages");
    reveal_strlit("tools");
    reveal_strlit("user");
    reveal_strlit("assistant");
    reveal_strlit("developer");
    reveal_strlit("system");
    assert("messages"@.len() == 8 && "tools"@.len() == 5);
    assert("user"@.len() == 4 && "assistant"@.len() == 9 && "developer"@.len() == 9
        && "system"@.len() == 6);
    lemma_with_gets_all();
    let instructions = text_in(rec.get2("request"@, "instructions"@));
    let output = rec.get("response"@)->0.items_at("output"@);
    let asked = chat_messages(instructions, input, with_reasoning);
    let messages = chat_messages(instructions, input + output, with_reasoning);
    assert(JsonV::object().get("tools"@) is None);
    if rec.get2("request"@, "input"@)->0 is Text {
        law_text_is_a_user_message(rec.get2("request"@, "input"@)->0->Text_0);
    }
    law_later_items_come_after(instructions, input, output, with_reasoning);
    if input.len() > 0 && speaks_as(input.last(), "user"@) {
        law_message_adds_one_message(
            instructions,
            input.drop_last(),
            input.last(),
            with_reasoning,
            "user"@,
        );
        assert(input.drop_last().push(input.last()) =~= input);
        assert(fixed(asked) == asked.len());
        assert(asked =~= messages.take(asked.len() as int));
    }
    let tools = chat_tools(rec.get("request"@)->0.items_at("tools"@));
    if tools.len() == 0 {
        assert(tools =~= Seq::<JsonV>::empty());
    }
}

/// Every request that went to the tier, was completed without an error and gave an output makes a
/// sample, as long as its input is a text or a list.
pub proof fn law_completed_requests_are_distilled(
    ts: u64,
    req_id: u64,
    requested_model: Seq<char>,
    decision: Decision,
    req: JsonV,
    model: Seq<char>,
    resp: JsonV,
    latency: Elapsed,
    tier: Seq<char>,
    with_reasoning: bool,
)
    requires
        tier == "all"@ || tier == decision.tier.name(),
        resp.text_at("status"@) == Some("completed"@),
        resp.get("error"@) is None || resp.get("error"@) == Some(JsonV::Null),
        resp.items_at("output"@).len() > 0,
        req.get("input"@) is Some,
        req.get("input"@)->0 is Text || req.get("input"@)->0 is Array,
    ensures
        sft_sample_of(
            finished_tree(
                record_tree(ts, req_id, requested_model, decision, req),
                response_tree(model, Some(resp), None),
                latency,
            ),
            tier,
            with_reasoning,
        ) is Some,
{
    let response = response_tree(model, Some(resp), None);
    let record = record_tree(ts, req_id, requested_model, decision, req);
    lemma_finished_fields(ts, req_id, requested_model, decision, req, response, latency);
    law_record_keeps_the_request(
        ts,
        req_id,
        requested_model,
        decision,
        req,
        response,
        latency,
        "input"@,
    );
    law_record_keeps_the_response(record, model, resp, None, latency, "status"@);
    law_record_keeps_the_response(record, model, resp, None, latency, "output"@);
}

/// A sample for the router asks what the classifier saw and answers with the level that it named,
/// its score and its preference.
pub proof fn law_router_sample_repeats_the_classifier(
    rec: JsonV,
    state: Seq<char>,
    answers: JsonV,
    choice: JsonV,
)
    requires
        rec.get2("classifier"@, "state"@) == Some(JsonV::Text(state)),
        rec.get2("classifier"@, "answers"@) == Some(answers),
        answers.get2("difficulty_level"@, "choice"@) == Some(choice),
    ensures
        router_sample_of(rec) is Some,
        ({
            let messages = router_sample_of(rec)->0.items_at("messages"@);
            let label = label_tree(choice, answers);
            &&& messages.len() == 3
            &&& messages[0].text_at("role"@) == Some("system"@)
            &&& messages[0].text_at("content"@) == Some(ROUTER_SYSTEM@)
            &&& messages[1].text_at("role"@) == Some("user"@)
            &&& messages[1].text_at("content"@) == Some(state)
            &&& messages[2].text_at("role"@) == Some("assistant"@)
            &&& messages[2].text_at("content"@) == Some(rendered(label))
            &&& label.get("difficulty_level"@) == Some(choice)
            &&& answers.get2("difficulty_score"@, "score"@) is Some ==> label.get("difficulty_score"@)
                == answers.get2("difficulty_score"@, "score"@)
            &&& answers.get2("prefer_cheap_model"@, "noul"@) is Some ==> label.get(
                "prefer_cheap_model"@,
            ) == answers.get2("prefer_cheap_model"@, "noul"@)
        }),
{
    reveal_strlit("role");
    reveal_strlit("content");
    reveal_strlit("difficulty_level");
    reveal_strlit("difficulty_score");
    reveal_strlit("prefer_cheap_model");
    assert("role"@.len() == 4 && "content"@.len() == 7);
    assert("difficulty_level"@.len() == 16 && "difficulty_score"@.len() == 16
        && "prefer_cheap_model"@.len() == 18);
    assert("difficulty_level"@[11] == 'l' && "difficulty_score"@[11] == 's');
    lemma_with_gets_all();
}

/// A record that waits for its response already tells the decision and the request.
pub proof fn law_begun_record(
    ts: u64,
    req_id: u64,
    requested_model: Seq<char>,
    decision: Decision,
    req: JsonV,
    k: Seq<char>,
)
    requires
        k == "instructions"@ || k == "input"@ || k == "tools"@,
    ensures
        ({
            let record = record_tree(ts, req_id, requested_model, decision, req);
            &&& record is Object
            &&& record.get("ts"@) == Some(JsonV::Number(JsonNumber::Unsigned(ts)))
            &&& record.get("req_id"@) == Some(JsonV::Number(JsonNumber::Unsigned(req_id)))
            &&& record.text_at("requested_model"@) == Some(requested_model)
            &&& record.text_at("routed_model"@) == Some(decision.model@)
            &&& record.text_at("tier"@) == Some(decision.tier.name())
            &&& req.get(k) is Some ==> record.get2("request"@, k) == req.get(k)
        }),
{
    lemma_record_names();
    lemma_with_gets_all();
    reveal_strlit("instructions");
    reveal_strlit("input");
    reveal_strlit("tools");
    assert("instructions"@.len() == 12 && "input"@.len() == 5 && "tools"@.len() == 5);
    assert("input"@[0] == 'i' && "tools"@[0] == 't');
    let record = record_tree(ts, req_id, requested_model, decision, req);
    assert(record.get("request"@) == Some(request_tree(req)));
}

/// The response completes a record and leaves the rest of it as it was.
pub proof fn law_finishing_keeps_the_record(
    record: JsonV,
    response: JsonV,
    latency: Elapsed,
    q: Seq<char>,
)
    requires
        record is Object,
    ensures
        q != "response"@ && q != "latency_ms"@ ==> finished_tree(record, response, latency).get(q)
            == record.get(q),
        finished_tree(record, response, latency).get("response"@) == Some(response),
        finished_tree(record, response, latency).get("latency_ms"@) == Some(
            JsonV::Number(JsonNumber::Unsigned(latency.spec_millis() as u64)),
        ),
{
    lemma_record_names();
    lemma_with_gets_all();
}

/// Where no response came, the record tells the error, the model that was asked, and no output.
pub proof fn law_record_without_response(
    record: JsonV,
    model: Seq<char>,
    error: Seq<char>,
    latency: Elapsed,
)
    requires
        record is Object,
    ensures
        ({
            let rec = finished_tree(record, response_tree(model, None, Some(error)), latency);
            &&& rec.get2("response"@, "error"@) == Some(JsonV::Text(error))
            &&& rec.get2("response"@, "model"@) == Some(JsonV::Text(model))
            &&& rec.get2("response"@, "status"@) == Some(JsonV::Null)
            &&& rec.get2("response"@, "output"@) == Some(JsonV::Array(Seq::empty()))
        }),
{
    lemma_record_names();
    lemma_response_names();
    lemma_with_gets_all();
    let rec = finished_tree(record, response_tree(model, None, Some(error)), latency);
    assert(rec.get("response"@) == Some(response_tree(model, None, Some(error))));
}

/// The options of an export are read one after the other: each sets what it names and nothing
/// else, so that the last one of a name counts.
pub proof fn law_options_are_read_in_turn(
    option: Seq<char>,
    value: Seq<char>,
    rest: Seq<Seq<char>>,
    o: OptionsV,
)
    ensures
        option == "--in"@ ==> export_options(seq![option, value] + rest, o) == export_options(
            rest,
            OptionsV { input: Some(value), ..o },
        ),
        option == "--out"@ ==> export_options(seq![option, value] + rest, o) == export_options(
            rest,
            OptionsV { output: Some(value), ..o },
        ),
        option == "--tier"@ ==> export_options(seq![option, value] + rest, o) == export_options(
            rest,
            OptionsV { tier: value, ..o },
        ),
        option == "--with-reasoning"@ ==> export_options(seq![option] + rest, o) == export_options(
            rest,
            OptionsV { with_reasoning: true, ..o },
        ),
        option != "--in"@ && option != "--out"@ && option != "--tier"@ && option
            != "--with-reasoning"@ ==> export_options(seq![option] + rest, o) is Err,
        export_options(Seq::empty(), o) == Ok::<OptionsV, Seq<char>>(o),
{
    reveal_strlit("--in");
    reveal_strlit("--out");
    reveal_strlit("--tier");
    reveal_strlit("--with-reasoning");
    assert("--in"@.len() == 4 && "--out"@.len() == 5 && "--tier"@.len() == 6
        && "--with-reasoning"@.len() == 16);
    let two = seq![option, value] + rest;
    let one = seq![option] + rest;
    assert(two[0] == option && two[1] == value);
    assert(two.skip(2) =~= rest);
    assert(one[0] == option);
    assert(one.skip(1) =~= rest);
}

/// An export of router samples writes a line for each record that has one, and an export for
/// distillation a line for each record of its tier that has one, with reasoning where it is
/// wanted; each line is the sample and a line feed. Blank lines and lines without JSON make none.
pub proof fn law_export_writes_samples(job: ExportJob, line: Seq<char>, rec: JsonV, e: Seq<char>)
    ensures
        job.kind is Router && !is_blank(line) ==> line_made(job, line, Ok(rec)) == (
        match router_sample_of(rec) {
            Some(s) => Some(rendered(s) + seq!['\n']),
            None => None,
        }),
        job.kind is Sft && !is_blank(line) ==> line_made(job, line, Ok(rec)) == (
        match sft_sample_of(rec, job.tier@, job.with_reasoning) {
            Some(s) => Some(rendered(s) + seq!['\n']),
            None => None,
        }),
        line_made(job, line, Err(e)) is None,
        is_blank(line) ==> line_made(job, line, Ok(rec)) is None,
{
    if router_sample_of(rec) is Some {
        let t = rendered(router_sample_of(rec)->0);
        assert(t.push('\n') =~= t + seq!['\n']);
    }
    if sft_sample_of(rec, job.tier@, job.with_reasoning) is Some {
        let t = rendered(sft_sample_of(rec, job.tier@, job.with_reasoning)->0);
        assert(t.push('\n') =~= t + seq!['\n']);
    }
}

/// An export is refused exactly where its kind is none of the two, an option is unknown or lacks its
/// tier, or its source or its target is not named.
pub proof fn law_which_exports_are_refused(kind: Seq<char>, rest: Seq<Seq<char>>)
    ensures
        export_fault(seq![kind] + rest) is None <==> (kind == "router"@ || kind == "sft"@)
            && export_options(rest, default_options()) is Ok && export_options(
            rest,
            default_options(),
        )->Ok_0.input is Some && export_options(rest, default_options())->Ok_0.output is Some,
        export_fault(Seq::empty()) is Some,
        default_options().tier == "frontier"@ && !default_options().with_reasoning
            && default_options().input is None && default_options().output is None,
{
    let args = seq![kind] + rest;
    assert(args[0] == kind);
    assert(args.skip(1) =~= rest);
}

/// A record makes a sample for distillation only where its response was completed, gave an output
/// and tells of no error, its tier is the one that is distilled or all are, and its input is a text
/// or a list.
pub proof fn law_what_a_sample_needs(rec: JsonV, tier: Seq<char>, with_reasoning: bool)
    requires
        sft_sample_of(rec, tier, with_reasoning) is Some,
    ensures
        text_in(rec.get2("response"@, "status"@)) == Some("completed"@),
        rec.get("response"@) is Some && rec.get("response"@)->0.items_at("output"@).len() > 0,
        rec.get2("response"@, "error"@) is None || rec.get2("response"@, "error"@) == Some(
            JsonV::Null,
        ),
        tier == "all"@ || rec.text_at("tier"@) == Some(tier),
        rec.get2("request"@, "input"@) is Some,
        rec.get2("request"@, "input"@)->0 is Text || rec.get2("request"@, "input"@)->0 is Array,
{
}

/// The job of an export is what its arguments name: the kind, where it reads and writes, and the
/// tier and the reasoning as the last options of their names say, else the default ones.
pub proof fn law_job_is_what_was_asked_for(
    kind: Seq<char>,
    rest: Seq<Seq<char>>,
    job: ExportJob,
    source: Seq<char>,
    target: Seq<char>,
    tier: Seq<char>,
)
    requires
        is_job(seq![kind] + rest, job),
    ensures
        kind == "router"@ ==> job.kind is Router,
        kind == "sft"@ ==> job.kind is Sft,
        rest == seq!["--in"@, source, "--out"@, target] ==> job.input@ == source && job.output@
            == target && job.tier@ == "frontier"@ && !job.with_reasoning,
        rest == seq!["--in"@, source, "--out"@, target, "--tier"@, tier] ==> job.input@ == source
            && job.output@ == target && job.tier@ == tier && !job.with_reasoning,
        rest == seq!["--in"@, source, "--out"@, target, "--with-reasoning"@] ==> job.input@ == source
            && job.output@ == target && job.tier@ == "frontier"@ && job.with_reasoning,
{
    reveal_strlit("router");
    reveal_strlit("sft");
    assert("router"@.len() == 6 && "sft"@.len() == 3);
    let args = seq![kind] + rest;
    assert(args[0] == kind);
    assert(args.skip(1) =~= rest);
    let none = Seq::<Seq<char>>::empty();
    let o1 = OptionsV { input: Some(source), ..default_options() };
    let o2 = OptionsV { output: Some(target), ..o1 };
    let o3 = OptionsV { tier, ..o2 };
    let o4 = OptionsV { with_reasoning: true, ..o2 };
    let pair = seq!["--out"@, target];
    assert(seq!["--in"@, source, "--out"@, target] =~= seq!["--in"@, source] + pair);
    assert(pair =~= pair + none);
    law_options_are_read_in_turn("--in"@, source, pair, default_options());
    law_options_are_read_in_turn("--out"@, target, none, o1);
    law_options_are_read_in_turn("--out"@, target, none, o2);
    let tiered = seq!["--tier"@, tier];
    assert(seq!["--in"@, source, "--out"@, target, "--tier"@, tier] =~= seq!["--in"@, source] + (pair
        + tiered));
    law_options_are_read_in_turn("--in"@, source, pair + tiered, default_options());
    law_options_are_read_in_turn("--out"@, target, tiered, o1);
    assert(tiered =~= tiered + none);
    law_options_are_read_in_turn("--tier"@, tier, none, o2);
    law_options_are_read_in_turn("--tier"@, tier, none, o3);
    let flagged = seq!["--with-reasoning"@];
    assert(seq!["--in"@, source, "--out"@, target, "--with-reasoning"@] =~= seq!["--in"@, source] + (
    pair + flagged));
    law_options_are_read_in_turn("--in"@, source, pair + flagged, default_options());
    law_options_are_read_in_turn("--out"@, target, flagged, o1);
    assert(flagged =~= flagged + none);
    law_options_are_read_in_turn("--with-reasoning"@, tier, none, o2);
    law_options_are_read_in_turn("--with-reasoning"@, tier, none, o4);
}

} // verus!
