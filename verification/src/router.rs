//! The model router: what the classifier is asked, how its answer decides the tier, and one
//! decision for each turn of a conversation.
use crate::codec::{json_of_text, parse_json, rendered};
use crate::config::RouterConfig;
use crate::convert::txt;
use crate::items::{
    input_items, item_role, law_roles, law_text_is_a_user_message, request_items, role, speaks_as,
    user_message,
};
use crate::json::{lemma_with_gets_all, text_in, trees, unsigned_in, Json, JsonNumber, JsonV};
use crate::measure::{
    above, fmt_opt, number_in, shown_reading, shown_threshold, two_decimals, two_decimals_of,
    Elapsed, Threshold,
};
use crate::outside::{quote, quoted};
use crate::sessions::{
    after_events, distinct_sessions, forgotten, law_forget_then_recall, law_remember_then_recall,
    law_turn_keeps_its_decision, newcomers, recalled, remembered, younger, CachedRoute, MemoryEvents, SessionList, Sessions,
    MAX_SESSIONS,
};
use crate::state::{build_state, state_text};
use crate::text::{
    contains, contains_text, count, decimal, decimal_of, ends_with, join, join_all,
    law_join_of_two_lists, law_parts_of_a_text, opt_string_view, opt_view, same, starts_with, tail, tail_chars, truncate, truncated, views,
};
use crate::tier::Tier;
use vstd::prelude::*;

verus! {

/// What the classifier said about a request.
#[derive(Debug)]
pub struct Verdict {
    /// The text that the classifier saw.
    pub state: String,
    /// Its answers, as they came.
    pub answers: Json,
    /// The version of the classifier that answered; empty where it did not say.
    pub classifier_model: String,
    pub choice: String,
    pub confidence: Option<JsonNumber>,
    pub score: Option<JsonNumber>,
    pub noul: Option<JsonNumber>,
    pub latency: Elapsed,
}

/// Where a decision comes from.
#[derive(Debug)]
pub enum Source {
    /// The classifier was asked for this request.
    Classified(Verdict),
    /// A later request of a turn, which keeps the decision of the request `from_req`.
    Cached { from_req: u64 },
    /// The classifier failed, so the strongest tier serves.
    Fallback(String),
}

/// Which model serves a request, and why.
#[derive(Debug)]
pub struct Decision {
    pub tier: Tier,
    pub model: String,
    /// The reason for the tier, where the classifier was asked.
    pub rule: Option<String>,
    pub session: Option<String>,
    pub new_turn: bool,
    pub source: Source,
}

/// How a decision came about, in words.
pub open spec fn how(source: Source) -> Seq<char> {
    match source {
        Source::Classified(v) => "classified by "@ + (if v.classifier_model@.len() == 0 {
            "classifier"@
        } else {
            v.classifier_model@
        }) + " in "@ + v.latency.shown() + "s"@,
        Source::Cached { from_req } => "same turn as #"@ + decimal_of(from_req as nat),
        Source::Fallback(e) => "⚠ classifier failed, fallback: "@ + e@,
    }
}

/// The reason for a tier, as it follows the words on how it came about.
pub open spec fn why(rule: Option<String>) -> Seq<char> {
    match rule {
        Some(r) => "; "@ + r@,
        None => Seq::empty(),
    }
}

/// The decision as a line of the log.
pub open spec fn summary_text(d: Decision) -> Seq<char> {
    "    route  ▸ "@ + d.tier.name() + " → "@ + d.model@ + "  ("@ + how(d.source) + why(d.rule)
        + ")"@
}

impl Decision {
    /// The decision as a line of the log.
    pub fn summary(&self) -> (r: String)
        ensures
            r@ == summary_text(*self),
    {
        let how_text = match &self.source {
            Source::Classified(v) => {
                let mut h = "classified by ".to_owned();
                if v.classifier_model.as_str().is_empty() {
                    h.push_str("classifier");
                } else {
                    h.push_str(v.classifier_model.as_str());
                }
                h.push_str(" in ");
                h.push_str(v.latency.show().as_str());
                h.push_str("s");
                h
            },
            Source::Cached { from_req } => {
                let mut h = "same turn as #".to_owned();
                h.push_str(decimal(*from_req).as_str());
                h
            },
            Source::Fallback(e) => {
                let mut h = "⚠ classifier failed, fallback: ".to_owned();
                h.push_str(e.as_str());
                h
            },
        };
        let why_text = match &self.rule {
            Some(r) => {
                let mut w = "; ".to_owned();
                w.push_str(r.as_str());
                w
            },
            None => String::new(),
        };
        let mut s = "    route  ▸ ".to_owned();
        s.push_str(self.tier.as_str());
        s.push_str(" → ");
        s.push_str(self.model.as_str());
        s.push_str("  (");
        s.push_str(how_text.as_str());
        s.push_str(why_text.as_str());
        s.push_str(")");
        s
    }
}

/// The model of a tier.
pub open spec fn model_of(cfg: RouterConfig, tier: Tier) -> Seq<char> {
    match tier {
        Tier::Small => cfg.small@,
        Tier::Medium => cfg.medium@,
        Tier::Frontier => cfg.frontier@,
    }
}

/// The tier for an answer: small for a cheap request that is surely safe with a small model,
/// medium for any other cheap request and for a medium one, frontier for the rest.
pub open spec fn tier_of(choice: Seq<char>, noul: Option<JsonNumber>, threshold: Threshold) -> Tier {
    if choice == "cheap"@ {
        match noul {
            Some(n) => if above(n, threshold) {
                Tier::Small
            } else {
                Tier::Medium
            },
            None => Tier::Medium,
        }
    } else if choice == "medium"@ {
        Tier::Medium
    } else {
        Tier::Frontier
    }
}

/// The reason for the tier, as the log shows it.
pub open spec fn rule_of(choice: Seq<char>, noul: Option<JsonNumber>, threshold: Threshold) -> Seq<
    char,
> {
    if choice == "cheap"@ {
        if tier_of(choice, noul, threshold) == Tier::Small {
            "cheap, noul "@ + shown_reading(noul) + " > "@ + shown_threshold(threshold)
        } else {
            "cheap but noul "@ + shown_reading(noul) + " ≤ "@ + shown_threshold(threshold)
        }
    } else if choice == "medium"@ {
        "medium"@
    } else if choice == "expensive"@ {
        "expensive"@
    } else {
        "unknown choice "@ + quoted(choice)
    }
}

/// The small model serves only a cheap request that is surely safe with it; the strongest one
/// serves whatever is neither cheap nor medium, also where the level is unknown.
pub proof fn law_tiers(choice: Seq<char>, noul: Option<JsonNumber>, threshold: Threshold)
    ensures
        tier_of(choice, noul, threshold) == Tier::Small <==> choice == "cheap"@ && noul is Some
            && above(noul->0, threshold),
        tier_of(choice, noul, threshold) == Tier::Frontier <==> choice != "cheap"@ && choice
            != "medium"@,
{
}

/// The session that a request belongs to: the cache key of its conversation, else the session
/// header, else the conversation header; none where all are missing or empty.
pub open spec fn session_of(
    req: JsonV,
    session_id: Option<Seq<char>>,
    conversation_id: Option<Seq<char>>,
) -> Option<Seq<char>> {
    let key = req.text_at("prompt_cache_key"@);
    if key is Some && key->0.len() > 0 {
        key
    } else if session_id is Some && session_id->0.len() > 0 {
        session_id
    } else if conversation_id is Some && conversation_id->0.len() > 0 {
        conversation_id
    } else {
        None
    }
}

/// The last item is a message of the user, so that a new turn begins.
pub open spec fn starts_turn(items: Seq<JsonV>) -> bool {
    items.len() > 0 && item_role(items.last()) == "user"@
}

/// The decision that a request keeps: that of its turn, where its session is remembered. A
/// request that begins a turn keeps none.
pub open spec fn kept_decision(
    list: SessionList,
    session: Option<Seq<char>>,
    items: Seq<JsonV>,
) -> Option<CachedRoute> {
    match session {
        Some(s) => if starts_turn(items) {
            None
        } else {
            recalled(list, s)
        },
        None => None,
    }
}

/// The memory after a question about the request `req_id` has come to its end: with the tier
/// that was chosen, or with none where the classifier failed. What was remembered of an earlier
/// turn does not outlive the failure of a new one.
pub open spec fn settled(
    list: SessionList,
    session: Option<Seq<char>>,
    new_turn: bool,
    req_id: u64,
    tier: Option<Tier>,
) -> SessionList {
    match (session, tier) {
        (Some(s), Some(tier)) => remembered(list, s, CachedRoute { req_id, tier }),
        (Some(s), None) => if new_turn {
            forgotten(list, s)
        } else {
            list
        },
        (None, _) => list,
    }
}

/// The later requests of a turn keep the decision that was made when it began, whatever happens
/// to other sessions, until as many sessions as the memory holds have been newly written.
pub proof fn law_turn_is_classified_once(
    list: SessionList,
    s: Seq<char>,
    new_turn: bool,
    req_id: u64,
    tier: Tier,
    events: MemoryEvents,
    items: Seq<JsonV>,
)
    requires
        distinct_sessions(list),
        list.len() <= MAX_SESSIONS,
        forall|i: int| 0 <= i < events.len() ==> (#[trigger] events[i]).0 != s,
        ({
            let begun = settled(list, Some(s), new_turn, req_id, Some(tier));
            younger(begun, s) + newcomers(begun, events) < MAX_SESSIONS
        }),
        !starts_turn(items),
    ensures
        kept_decision(
            after_events(settled(list, Some(s), new_turn, req_id, Some(tier)), events),
            Some(s),
            items,
        ) == Some(CachedRoute { req_id, tier }),
{
    law_turn_keeps_its_decision(list, s, CachedRoute { req_id, tier }, events);
}

/// A turn whose classification failed is asked about again: its next request keeps no decision,
/// neither of this turn nor of an earlier one.
pub proof fn law_failed_turn_is_asked_about_again(
    list: SessionList,
    s: Seq<char>,
    req_id: u64,
    items: Seq<JsonV>,
)
    requires
        distinct_sessions(list),
    ensures
        kept_decision(settled(list, Some(s), true, req_id, None), Some(s), items) is None,
{
    law_forget_then_recall(list, s, s);
}

/// The questions that the classifier is asked.
pub open spec fn questions_tree() -> JsonV {
    JsonV::object().with(
        "difficulty_level"@,
        JsonV::object().with("type"@, txt("choice"@)).with(
            "instructions"@,
            txt("Classify the overall difficulty of this AI request for model routing"@),
        ).with(
            "criteria"@,
            JsonV::object().with(
                "cheap"@,
                txt("Simple factual questions, short summaries, basic rewriting, or easy classification. Can be handled by a small/cheap model."@),
            ).with(
                "medium"@,
                txt("Moderate reasoning, code explanation, medium-length context, or multi-step but not highly complex tasks."@),
            ).with(
                "expensive"@,
                txt("Complex reasoning, advanced code optimization, debugging concurrency issues, long context, or tasks requiring strong intelligence."@),
            ),
        ),
    ).with(
        "difficulty_score"@,
        JsonV::object().with("type"@, txt("score"@)).with(
            "instructions"@,
            txt("Rate the difficulty from 0 (easiest) to 4 (hardest)"@),
        ).with(
            "criteria"@,
            JsonV::Array(
                seq![
                    txt("Very easy - simple facts or short tasks"@),
                    txt("Easy - light reasoning or short code changes"@),
                    txt("Medium - solid reasoning or multi-step work"@),
                    txt("Hard - complex analysis, optimization, or debugging"@),
                    txt("Very hard - deep reasoning, concurrency, or advanced engineering"@),
                ],
            ),
        ),
    ).with(
        "prefer_cheap_model"@,
        JsonV::object().with("type"@, txt("noul"@)).with(
            "instructions"@,
            txt("Is it safe and high-quality enough to route this request to a cheap/small model?"@),
        ),
    )
}

/// The questions that the classifier is asked: how hard the request is by level and by score,
/// and whether a small model is good enough.
pub fn questions() -> (r: Json)
    ensures
        r@ == questions_tree(),
{
    let levels = Json::object().with(
        "cheap",
        Json::text(
            "Simple factual questions, short summaries, basic rewriting, or easy classification. Can be handled by a small/cheap model.",
        ),
    ).with(
        "medium",
        Json::text(
            "Moderate reasoning, code explanation, medium-length context, or multi-step but not highly complex tasks.",
        ),
    ).with(
        "expensive",
        Json::text(
            "Complex reasoning, advanced code optimization, debugging concurrency issues, long context, or tasks requiring strong intelligence.",
        ),
    );
    let mut scores: Vec<Json> = Vec::new();
    scores.push(Json::text("Very easy - simple facts or short tasks"));
    scores.push(Json::text("Easy - light reasoning or short code changes"));
    scores.push(Json::text("Medium - solid reasoning or multi-step work"));
    scores.push(Json::text("Hard - complex analysis, optimization, or debugging"));
    scores.push(Json::text("Very hard - deep reasoning, concurrency, or advanced engineering"));
    assert(trees(scores@) =~= seq![
        txt("Very easy - simple facts or short tasks"@),
        txt("Easy - light reasoning or short code changes"@),
        txt("Medium - solid reasoning or multi-step work"@),
        txt("Hard - complex analysis, optimization, or debugging"@),
        txt("Very hard - deep reasoning, concurrency, or advanced engineering"@),
    ]);
    Json::object().with(
        "difficulty_level",
        Json::object().with("type", Json::text("choice")).with(
            "instructions",
            Json::text("Classify the overall difficulty of this AI request for model routing"),
        ).with("criteria", levels),
    ).with(
        "difficulty_score",
        Json::object().with("type", Json::text("score")).with(
            "instructions",
            Json::text("Rate the difficulty from 0 (easiest) to 4 (hardest)"),
        ).with("criteria", Json::array(scores)),
    ).with(
        "prefer_cheap_model",
        Json::object().with("type", Json::text("noul")).with(
            "instructions",
            Json::text(
                "Is it safe and high-quality enough to route this request to a cheap/small model?",
            ),
        ),
    )
}

/// A level of difficulty in three letters; any other name as it stands.
pub open spec fn abbreviated(choice: Seq<char>) -> Seq<char> {
    if choice == "cheap"@ {
        "chp"@
    } else if choice == "medium"@ {
        "med"@
    } else if choice == "expensive"@ {
        "exp"@
    } else {
        choice
    }
}

/// A level of difficulty in three letters.
pub fn abbrev(choice: &str) -> (r: &str)
    ensures
        r@ == abbreviated(choice@),
{
    if same(choice, "cheap") {
        "chp"
    } else if same(choice, "medium") {
        "med"
    } else if same(choice, "expensive") {
        "exp"
    } else {
        choice
    }
}

/// The session that a request belongs to.
pub fn session_key(req: &Json, session_id: Option<&str>, conversation_id: Option<&str>) -> (r: Option<
    String,
>)
    ensures
        opt_string_view(r) == session_of(req@, opt_view(session_id), opt_view(conversation_id)),
{
    match req.text_at("prompt_cache_key") {
        Some(k) => {
            if !k.is_empty() {
                return Some(k.to_owned());
            }
        },
        None => {},
    }
    match session_id {
        Some(k) => {
            if !k.is_empty() {
                return Some(k.to_owned());
            }
        },
        None => {},
    }
    match conversation_id {
        Some(k) => {
            if !k.is_empty() {
                return Some(k.to_owned());
            }
        },
        None => {},
    }
    None
}

/// What came of asking the classifier.
pub enum Outcome {
    /// It did not answer in time.
    TimedOut,
    /// The exchange failed.
    Failed(String),
    /// It answered, with a status that the text `status` shows.
    Answered { success: bool, status: String, text: String },
}

/// The answers in a reply.
pub open spec fn answers_of(doc: JsonV) -> JsonV {
    match doc.get("answers"@) {
        Some(a) => a,
        None => JsonV::Null,
    }
}

/// The level of difficulty in a reply.
pub open spec fn choice_of(doc: JsonV) -> Option<Seq<char>> {
    text_in(answers_of(doc).get2("difficulty_level"@, "choice"@))
}

/// What is wrong with a reply of the classifier; nothing where it names a level.
pub open spec fn answer_error(text: Seq<char>, parsed: Result<JsonV, Seq<char>>) -> Option<Seq<char>> {
    match parsed {
        Err(e) => Some("invalid JSON ("@ + e + "): "@ + truncated(text, 300)),
        Ok(doc) => if choice_of(doc) is None {
            Some("no difficulty_level.choice in response: "@ + truncated(text, 300))
        } else {
            None
        },
    }
}

/// Why asking the classifier failed; nothing where it gave a verdict.
pub open spec fn outcome_error(outcome: Outcome, timeout_ms: u64) -> Option<Seq<char>> {
    match outcome {
        Outcome::TimedOut => Some("timeout after "@ + decimal_of(timeout_ms as nat) + "ms"@),
        Outcome::Failed(e) => Some(e@),
        Outcome::Answered { success, status, text } => if !success {
            Some("HTTP "@ + status@ + ": "@ + truncated(text@, 300))
        } else {
            answer_error(text@, json_of_text(text@))
        },
    }
}

/// The verdict that a reply gives on the text `state`.
pub open spec fn is_verdict(v: Verdict, state: Seq<char>, doc: JsonV, latency: Elapsed) -> bool {
    let answers = answers_of(doc);
    &&& v.state@ == state
    &&& v.answers@ == answers
    &&& v.classifier_model@ == doc.text_or("model"@, ""@)
    &&& Some(v.choice@) == choice_of(doc)
    &&& v.confidence == number_in(answers.get2("difficulty_level"@, "confidence"@))
    &&& v.score == number_in(answers.get2("difficulty_score"@, "score"@))
    &&& v.noul == number_in(answers.get2("prefer_cheap_model"@, "noul"@))
    &&& v.latency == latency
}

/// The tokens that the classifier used, as the log shows them.
pub open spec fn usage_text(doc: JsonV) -> Seq<char> {
    match doc.get("usage"@) {
        Some(u) => "in "@ + decimal_of(tokens(u, "input_tokens"@)) + " / out "@ + decimal_of(
            tokens(u, "output_tokens"@),
        ),
        None => "usage n/a"@,
    }
}

/// A number of tokens, none where it is missing.
pub open spec fn tokens(usage: JsonV, k: Seq<char>) -> nat {
    match unsigned_in(usage.get(k)) {
        Some(n) => n as nat,
        None => 0,
    }
}

fn token_count(usage: &Json, k: &str) -> (r: u64)
    ensures
        r == tokens(usage@, k@),
{
    match usage.get(k) {
        Some(n) => match n.as_u64() {
            Some(n) => n,
            None => 0,
        },
        None => 0,
    }
}

fn reading(answers: &Json, a: &str, b: &str) -> (r: Option<JsonNumber>)
    ensures
        r == number_in(answers@.get2(a@, b@)),
{
    match answers.get2(a, b) {
        Some(Json::Number(n)) => Some(n.clone()),
        _ => None,
    }
}

fn prefixed_cut(label: &str, text: &str) -> (r: String)
    ensures
        r@ == label@ + truncated(text@, 300),
{
    let mut s = label.to_owned();
    s.push_str(truncate(text, 300).as_str());
    s
}

/// The view of a parsed document.
pub open spec fn parsed_view(p: Result<Json, String>) -> Result<JsonV, Seq<char>> {
    match p {
        Ok(j) => Ok(j@),
        Err(e) => Err(e@),
    }
}

/// Reads the verdict, and the tokens that were used, from a reply that has been parsed.
pub fn read_answers(
    state: &str,
    text: &str,
    parsed: Result<Json, String>,
    latency: Elapsed,
) -> (r: Result<(Verdict, String), String>)
    ensures
        match r {
            Err(e) => answer_error(text@, parsed_view(parsed)) == Some(e@),
            Ok((v, usage)) => {
                &&& answer_error(text@, parsed_view(parsed)) is None
                &&& parsed matches Ok(doc)
                &&& is_verdict(v, state@, doc@, latency)
                &&& usage@ == usage_text(doc@)
            },
        },
{
    let doc = match parsed {
        Ok(doc) => doc,
        Err(e) => {
            let mut s = "invalid JSON (".to_owned();
            s.push_str(e.as_str());
            s.push_str("): ");
            s.push_str(truncate(text, 300).as_str());
            return Err(s);
        },
    };
    let answers = match doc.get("answers") {
        Some(a) => a.clone(),
        None => Json::Null,
    };
    let choice = match answers.get2("difficulty_level", "choice") {
        Some(c) => match c.as_str() {
            Some(c) => c.to_owned(),
            None => {
                return Err(prefixed_cut("no difficulty_level.choice in response: ", text));
            },
        },
        None => {
            return Err(prefixed_cut("no difficulty_level.choice in response: ", text));
        },
    };
    let usage = match doc.get("usage") {
        Some(u) => {
            let mut s = "in ".to_owned();
            s.push_str(decimal(token_count(u, "input_tokens")).as_str());
            s.push_str(" / out ");
            s.push_str(decimal(token_count(u, "output_tokens")).as_str());
            s
        },
        None => "usage n/a".to_owned(),
    };
    let verdict = Verdict {
        state: state.to_owned(),
        classifier_model: doc.text_or("model", "").to_owned(),
        choice,
        confidence: reading(&answers, "difficulty_level", "confidence"),
        score: reading(&answers, "difficulty_score", "score"),
        noul: reading(&answers, "prefer_cheap_model", "noul"),
        answers,
        latency,
    };
    Ok((verdict, usage))
}

/// Reads the verdict from what came of asking the classifier.
pub fn read_outcome(state: &str, outcome: &Outcome, timeout_ms: u64, latency: Elapsed) -> (r: Result<
    (Verdict, String),
    String,
>)
    ensures
        match r {
            Err(e) => outcome_error(*outcome, timeout_ms) == Some(e@),
            Ok((v, usage)) => {
                &&& outcome_error(*outcome, timeout_ms) is None
                &&& outcome matches Outcome::Answered { success, status, text }
                &&& json_of_text(text@) matches Ok(doc)
                &&& is_verdict(v, state@, doc, latency)
                &&& usage@ == usage_text(doc)
            },
        },
{
    match outcome {
        Outcome::TimedOut => {
            let mut s = "timeout after ".to_owned();
            s.push_str(decimal(timeout_ms).as_str());
            s.push_str("ms");
            Err(s)
        },
        Outcome::Failed(e) => Err(e.clone()),
        Outcome::Answered { success, status, text } => {
            if !*success {
                let mut s = "HTTP ".to_owned();
                s.push_str(status.as_str());
                s.push_str(": ");
                s.push_str(truncate(text.as_str(), 300).as_str());
                return Err(s);
            }
            read_answers(state, text.as_str(), parse_json(text.as_str()), latency)
        },
    }
}

/// One level with its probability.
pub open spec fn probability(k: Seq<char>, p: JsonV) -> Seq<char> {
    abbreviated(k) + " "@ + (match p {
        JsonV::Number(n) => two_decimals_of(n),
        _ => "0.00"@,
    })
}

/// The levels with their probabilities, in the order of the reply; a dash where it gives none.
pub open spec fn probabilities(answers: JsonV) -> Seq<char> {
    match answers.get2("difficulty_level"@, "probabilities"@) {
        Some(JsonV::Object(fields)) => join(
            fields.map_values(|f: (Seq<char>, JsonV)| probability(f.0, f.1)),
            ", "@,
        ),
        _ => "-"@,
    }
}

/// The answers of the classifier on one line.
pub open spec fn digest(v: Verdict) -> Seq<char> {
    "(conf "@ + shown_reading(v.confidence) + " | "@ + probabilities(v.answers@) + "), scr "@
        + shown_reading(v.score) + " (conf "@ + shown_reading(
        number_in(v.answers@.get2("difficulty_score"@, "confidence"@)),
    ) + "), noul "@ + shown_reading(v.noul)
}

fn probability_texts(answers: &Json) -> (r: String)
    ensures
        r@ == probabilities(answers@),
{
    match answers.get2("difficulty_level", "probabilities") {
        Some(Json::Object(o)) => {
            let mut out: Vec<String> = Vec::new();
            let mut i: usize = 0;
            while i < o.len()
                invariant
                    0 <= i <= o@.len(),
                    out@.len() == i,
                    forall|j: int|
                        0 <= j < i ==> (#[trigger] out@[j])@ == probability(o@[j].0, o@[j].1),
                decreases o@.len() - i,
            {
                let mut s = abbrev(o.key(i)).to_owned();
                s.push_str(" ");
                match o.value(i) {
                    Json::Number(n) => {
                        s.push_str(two_decimals(n).as_str());
                    },
                    _ => {
                        s.push_str("0.00");
                    },
                }
                out.push(s);
                i = i + 1;
            }
            assert(views(out@) =~= o@.map_values(
                |f: (Seq<char>, JsonV)| probability(f.0, f.1),
            ));
            join_all(&out, ", ")
        },
        _ => "-".to_owned(),
    }
}

/// The answers of the classifier on one line: the levels with their probabilities, the score,
/// and whether a small model is good enough.
pub fn answers_digest(v: &Verdict) -> (r: String)
    ensures
        r@ == digest(*v),
{
    let score_confidence = reading(&v.answers, "difficulty_score", "confidence");
    let mut s = "(conf ".to_owned();
    s.push_str(fmt_opt(&v.confidence).as_str());
    s.push_str(" | ");
    s.push_str(probability_texts(&v.answers).as_str());
    s.push_str("), scr ");
    s.push_str(fmt_opt(&v.score).as_str());
    s.push_str(" (conf ");
    s.push_str(fmt_opt(&score_confidence).as_str());
    s.push_str("), noul ");
    s.push_str(fmt_opt(&v.noul).as_str());
    s
}

/// A question to the classifier that is under way.
pub struct Query {
    pub req_id: u64,
    /// The first or the second attempt.
    pub attempt: u32,
    /// The text that the classifier sees.
    pub state: String,
    pub session: Option<String>,
    pub new_turn: bool,
}

/// How a request goes on: decided, or by asking the classifier.
pub enum RouteStep {
    Decided(Decision),
    Ask(Query),
}

/// A line of the log, and whether it is a warning.
pub struct LogLine {
    pub warn: bool,
    pub text: String,
}

/// The number of the attempt, shown from the second one on.
pub open spec fn attempt_text(attempt: u32) -> Seq<char> {
    if attempt > 1 {
        ", attempt "@ + decimal_of(attempt as nat)
    } else {
        Seq::empty()
    }
}

/// The line on a question that was answered.
pub open spec fn answered_line(cfg: RouterConfig, q: Query, v: Verdict, usage: Seq<char>) -> Seq<char> {
    "#"@ + decimal_of(q.req_id as nat) + " ⇢ "@ + (if v.classifier_model@.len() == 0 {
        cfg.classifier_model@
    } else {
        v.classifier_model@
    }) + "  ["@ + v.latency.shown() + "s, "@ + usage + attempt_text(q.attempt)
        + "]   answer ▸ "@ + digest(v)
}

/// The line on a question that failed.
pub open spec fn failed_line(cfg: RouterConfig, q: Query, e: Seq<char>, elapsed: Elapsed) -> Seq<char> {
    "#"@ + decimal_of(q.req_id as nat) + " ⇢ "@ + cfg.classifier_model@ + "  ["@ + elapsed.shown()
        + "s"@ + attempt_text(q.attempt) + "]   answer ▸ ✖ "@ + e
}

/// The failure says that the text was too long for the classifier.
pub open spec fn too_long(e: Seq<char>) -> bool {
    contains_text(e, "max_tokens_exceeded"@)
}

/// The router: its settings, and the decisions of the current turns.
pub struct Router {
    pub cfg: RouterConfig,
    pub sessions: Sessions,
}

impl Router {
    /// A router that remembers no session.
    pub fn new(cfg: RouterConfig) -> (r: Router)
        ensures
            r.cfg == cfg,
            r.sessions.list() == SessionList::empty(),
    {
        Router { cfg, sessions: Sessions::new() }
    }

    /// The model of a tier.
    pub fn model_for(&self, tier: Tier) -> (r: &str)
        ensures
            r@ == model_of(self.cfg, tier),
    {
        match tier {
            Tier::Small => self.cfg.small.as_str(),
            Tier::Medium => self.cfg.medium.as_str(),
            Tier::Frontier => self.cfg.frontier.as_str(),
        }
    }

    /// The tier for a verdict, and the reason for it. A reading that only reaches the bound is
    /// not above it.
    pub fn decide(&self, v: &Verdict) -> (r: (Tier, String))
        ensures
            r.0 == tier_of(v.choice@, v.noul, self.cfg.cheap_threshold),
            r.1@ == rule_of(v.choice@, v.noul, self.cfg.cheap_threshold),
            v.noul matches Some(n) && self.cfg.cheap_threshold == Threshold::Finite(n) ==> r.0
                != Tier::Small,
    {
        let choice = v.choice.as_str();
        if same(choice, "cheap") {
            let safe = match &v.noul {
                Some(n) => self.cfg.cheap_threshold.is_below(n),
                None => false,
            };
            let mut s = if safe {
                "cheap, noul ".to_owned()
            } else {
                "cheap but noul ".to_owned()
            };
            s.push_str(fmt_opt(&v.noul).as_str());
            if safe {
                s.push_str(" > ");
            } else {
                s.push_str(" ≤ ");
            }
            s.push_str(self.cfg.cheap_threshold.show().as_str());
            (if safe { Tier::Small } else { Tier::Medium }, s)
        } else if same(choice, "medium") {
            (Tier::Medium, "medium".to_owned())
        } else if same(choice, "expensive") {
            (Tier::Frontier, "expensive".to_owned())
        } else {
            let mut s = "unknown choice ".to_owned();
            s.push_str(quote(choice).as_str());
            (Tier::Frontier, s)
        }
    }

    /// Begins to route a request. A later request of a turn whose session is remembered keeps
    /// the decision of the turn; for any other the classifier is to be asked.
    pub fn route(
        &self,
        req_id: u64,
        req: &Json,
        session_id: Option<&str>,
        conversation_id: Option<&str>,
    ) -> (r: RouteStep)
        ensures
            ({
                let session = session_of(req@, opt_view(session_id), opt_view(conversation_id));
                let items = request_items(req@);
                let kept = kept_decision(self.sessions.list(), session, items);
                match r {
                    RouteStep::Decided(d) => {
                        &&& kept matches Some(c)
                        &&& d.tier == c.tier
                        &&& d.model@ == model_of(self.cfg, c.tier)
                        &&& d.rule is None
                        &&& opt_string_view(d.session) == session
                        &&& !d.new_turn
                        &&& d.source == (Source::Cached { from_req: c.req_id })
                    },
                    RouteStep::Ask(q) => {
                        &&& kept is None
                        &&& q.req_id == req_id
                        &&& q.attempt == 1
                        &&& q.state@ == state_text(
                            items,
                            self.cfg.include_context,
                            self.cfg.max_state_chars as nat,
                        )
                        &&& opt_string_view(q.session) == session
                        &&& q.new_turn == starts_turn(items)
                    },
                }
            }),
            (req@.get("input"@) matches Some(JsonV::Array(items)) && items.len() > 0 && speaks_as(
                items.last(),
                "user"@,
            )) ==> (r matches RouteStep::Ask(q) && q.new_turn),
    {
        proof {
            if let Some(JsonV::Array(items)) = req@.get("input"@) {
                if items.len() > 0 && speaks_as(items.last(), "user"@) {
                    assert(items.drop_last().push(items.last()) =~= items);
                    law_user_message_begins_a_turn(
                        req@,
                        items.drop_last(),
                        items.last(),
                        Seq::empty(),
                        self.sessions.list(),
                        session_of(req@, opt_view(session_id), opt_view(conversation_id)),
                    );
                }
            }
        }
        let session = session_key(req, session_id, conversation_id);
        let input = input_items(req);
        let new_turn = if input.len() > 0 {
            let last = &input[input.len() - 1];
            assert(trees(input@).last() == last@);
            same(role(last), "user")
        } else {
            false
        };
        if !new_turn {
            let kept = match &session {
                Some(s) => self.sessions.recall(s.as_str()),
                None => None,
            };
            match kept {
                Some(c) => {
                    return RouteStep::Decided(
                        Decision {
                            tier: c.tier,
                            model: self.model_for(c.tier).to_owned(),
                            rule: None,
                            session,
                            new_turn,
                            source: Source::Cached { from_req: c.req_id },
                        },
                    );
                },
                None => {},
            }
        }
        let state = build_state(&input, self.cfg.include_context, self.cfg.max_state_chars);
        RouteStep::Ask(Query { req_id, attempt: 1, state, session, new_turn })
    }

    /// The body of a question to the classifier.
    pub fn query_body(&self, q: &Query) -> (r: String)
        ensures
            r@ == rendered(
                JsonV::object().with("model"@, txt(self.cfg.classifier_model@)).with(
                    "state"@,
                    txt(q.state@),
                ).with("questions"@, questions_tree()),
            ),
    {
        Json::object().with("model", Json::text(self.cfg.classifier_model.as_str())).with(
            "state",
            Json::text(q.state.as_str()),
        ).with("questions", questions()).to_text()
    }

    fn line_for(
        &self,
        q: &Query,
        result: &Result<(Verdict, String), String>,
        elapsed: Elapsed,
    ) -> (r: LogLine)
        ensures
            r.warn == (result is Err),
            match result {
                Ok((v, usage)) => r.text@ == answered_line(self.cfg, *q, *v, usage@),
                Err(e) => r.text@ == failed_line(self.cfg, *q, e@, elapsed),
            },
    {
        let retry = if q.attempt > 1 {
            let mut t = ", attempt ".to_owned();
            t.push_str(decimal(q.attempt as u64).as_str());
            t
        } else {
            String::new()
        };
        let mut s = "#".to_owned();
        s.push_str(decimal(q.req_id).as_str());
        s.push_str(" ⇢ ");
        match result {
            Ok((v, usage)) => {
                if v.classifier_model.as_str().is_empty() {
                    s.push_str(self.cfg.classifier_model.as_str());
                } else {
                    s.push_str(v.classifier_model.as_str());
                }
                s.push_str("  [");
                s.push_str(v.latency.show().as_str());
                s.push_str("s, ");
                s.push_str(usage.as_str());
                s.push_str(retry.as_str());
                s.push_str("]   answer ▸ ");
                s.push_str(answers_digest(v).as_str());
                LogLine { warn: false, text: s }
            },
            Err(e) => {
                s.push_str(self.cfg.classifier_model.as_str());
                s.push_str("  [");
                s.push_str(elapsed.show().as_str());
                s.push_str("s");
                s.push_str(retry.as_str());
                s.push_str("]   answer ▸ ✖ ");
                s.push_str(e.as_str());
                LogLine { warn: true, text: s }
            },
        }
    }

    /// Goes on with a question once it is known what came of it. A text that was too long is
    /// asked about once more, by its second half. A verdict decides the tier, which the session
    /// keeps for this turn. A failure leaves the strongest tier; the session then keeps no
    /// decision for a turn that it begins, so that the next request is asked about again.
    pub fn answered(&mut self, q: Query, outcome: &Outcome, elapsed: Elapsed) -> (r: (
        RouteStep,
        LogLine,
    ))
        ensures
            final(self).cfg == old(self).cfg,
            ({
                let cfg = old(self).cfg;
                let before = old(self).sessions.list();
                let after = final(self).sessions.list();
                match outcome_error(*outcome, cfg.timeout_ms) {
                    Some(e) => {
                        &&& r.1.warn
                        &&& r.1.text@ == failed_line(cfg, q, e, elapsed)
                        &&& if q.attempt == 1 && too_long(e) {
                            &&& after == before
                            &&& r.0 matches RouteStep::Ask(next)
                            &&& next.req_id == q.req_id
                            &&& next.attempt == 2
                            &&& next.state@ == tail(q.state@, q.state@.len() / 2)
                            &&& next.session == q.session
                            &&& next.new_turn == q.new_turn
                        } else {
                            &&& after == settled(
                                before,
                                opt_string_view(q.session),
                                q.new_turn,
                                q.req_id,
                                None,
                            )
                            &&& r.0 matches RouteStep::Decided(d)
                            &&& d.tier == Tier::Frontier
                            &&& d.model@ == model_of(cfg, Tier::Frontier)
                            &&& d.rule is None
                            &&& d.session == q.session
                            &&& d.new_turn == q.new_turn
                            &&& d.source matches Source::Fallback(why)
                            &&& why@ == e
                        }
                    },
                    None => {
                        &&& outcome matches Outcome::Answered { success, status, text }
                        &&& json_of_text(text@) matches Ok(doc)
                        &&& r.0 matches RouteStep::Decided(d)
                        &&& d.source matches Source::Classified(v)
                        &&& is_verdict(v, q.state@, doc, elapsed)
                        &&& !r.1.warn
                        &&& r.1.text@ == answered_line(cfg, q, v, usage_text(doc))
                        &&& d.tier == tier_of(v.choice@, v.noul, cfg.cheap_threshold)
                        &&& d.rule matches Some(rule)
                        &&& rule@ == rule_of(v.choice@, v.noul, cfg.cheap_threshold)
                        &&& d.model@ == model_of(cfg, d.tier)
                        &&& d.session == q.session
                        &&& d.new_turn == q.new_turn
                        &&& after == settled(
                            before,
                            opt_string_view(q.session),
                            q.new_turn,
                            q.req_id,
                            Some(d.tier),
                        )
                    },
                }
            }),
    {
        let result = read_outcome(q.state.as_str(), outcome, self.cfg.timeout_ms, elapsed);
        let line = self.line_for(&q, &result, elapsed);
        match result {
            Ok((v, _)) => {
                let (tier, rule) = self.decide(&v);
                match &q.session {
                    Some(s) => {
                        let mut sessions = Sessions::new();
                        std::mem::swap(&mut sessions, &mut self.sessions);
                        self.sessions = sessions.remember(
                            s.as_str(),
                            CachedRoute { req_id: q.req_id, tier },
                        );
                    },
                    None => {},
                }
                let model = self.model_for(tier).to_owned();
                (
                    RouteStep::Decided(
                        Decision {
                            tier,
                            model,
                            rule: Some(rule),
                            session: q.session,
                            new_turn: q.new_turn,
                            source: Source::Classified(v),
                        },
                    ),
                    line,
                )
            },
            Err(e) => {
                if q.attempt == 1 && contains(e.as_str(), "max_tokens_exceeded") {
                    let half: usize = count(q.state.as_str()) / 2;
                    let state = tail_chars(q.state.as_str(), half);
                    return (
                        RouteStep::Ask(
                            Query {
                                req_id: q.req_id,
                                attempt: 2,
                                state,
                                session: q.session,
                                new_turn: q.new_turn,
                            },
                        ),
                        line,
                    );
                }
                match &q.session {
                    Some(s) => {
                        if q.new_turn {
                            let mut sessions = Sessions::new();
                            std::mem::swap(&mut sessions, &mut self.sessions);
                            self.sessions = sessions.forget(s.as_str());
                        }
                    },
                    None => {},
                }
                let model = self.model_for(Tier::Frontier).to_owned();
                (
                    RouteStep::Decided(
                        Decision {
                            tier: Tier::Frontier,
                            model,
                            rule: None,
                            session: q.session,
                            new_turn: q.new_turn,
                            source: Source::Fallback(e),
                        },
                    ),
                    line,
                )
            },
        }
    }
}

/// A request whose list ends with a message of the user begins a turn, whatever stands before
/// that message: no decision is kept for it, in whatever session and whatever is remembered, so
/// that the classifier is asked. So does a request whose input is a text.
pub proof fn law_user_message_begins_a_turn(
    req: JsonV,
    a: Seq<JsonV>,
    m: JsonV,
    text: Seq<char>,
    list: SessionList,
    session: Option<Seq<char>>,
)
    requires
        req.get("input"@) == Some(JsonV::Array(a.push(m))) && speaks_as(m, "user"@) || req.get(
            "input"@,
        ) == Some(JsonV::Text(text)),
    ensures
        starts_turn(request_items(req)),
        kept_decision(list, session, request_items(req)) is None,
{
    reveal_strlit("user");
    assert("user"@.len() == 4);
    if req.get("input"@) == Some(JsonV::Text(text)) {
        law_text_is_a_user_message(text);
        law_roles(user_message(text), "user"@);
    } else {
        assert(a.push(m).last() == m);
        law_roles(m, "user"@);
    }
}

/// A request whose list ends with anything but a message of the user, or is empty, begins no
/// turn: what its session remembers is kept.
pub proof fn law_other_items_continue_the_turn(
    req: JsonV,
    items: Seq<JsonV>,
    list: SessionList,
    s: Seq<char>,
)
    requires
        req.get("input"@) == Some(JsonV::Array(items)),
        items.len() > 0 ==> !speaks_as(items.last(), "user"@),
    ensures
        !starts_turn(request_items(req)),
        kept_decision(list, Some(s), request_items(req)) == recalled(list, s),
        kept_decision(list, None, request_items(req)) is None,
{
    reveal_strlit("user");
    assert("user"@.len() == 4);
    if items.len() > 0 {
        law_roles(items.last(), "user"@);
    }
}

/// The session of a request is the first of these that is there and not empty: its cache key,
/// the session that the client names, the conversation that it names.
pub proof fn law_session_is_the_first_named(
    req: JsonV,
    key: Seq<char>,
    session_id: Option<Seq<char>>,
    conversation_id: Option<Seq<char>>,
)
    requires
        key.len() > 0,
    ensures
        req.text_at("prompt_cache_key"@) == Some(key) ==> session_of(req, session_id, conversation_id)
            == Some(key),
        req.text_at("prompt_cache_key"@) is None && session_id == Some(key) ==> session_of(
            req,
            session_id,
            conversation_id,
        ) == Some(key),
        req.text_at("prompt_cache_key"@) is None && (session_id is None || session_id->0.len() == 0)
            && conversation_id == Some(key) ==> session_of(req, session_id, conversation_id) == Some(
            key,
        ),
        session_of(req, session_id, conversation_id) matches Some(s) ==> s.len() > 0,
{
}

/// Each tier has the model that the settings name for it.
pub proof fn law_models_of_the_tiers(cfg: RouterConfig)
    ensures
        model_of(cfg, Tier::Small) == cfg.small@,
        model_of(cfg, Tier::Medium) == cfg.medium@,
        model_of(cfg, Tier::Frontier) == cfg.frontier@,
{
}

/// An answer is taken only where the classifier succeeded, its reply is JSON, and the reply
/// names a level; whatever fails says why.
pub proof fn law_an_answer_names_a_level(success: bool, status: String, text: String, timeout_ms: u64)
    ensures
        outcome_error(Outcome::Answered { success, status, text }, timeout_ms) is None <==> success
            && json_of_text(text@) is Ok && json_of_text(text@)->Ok_0.get("answers"@) is Some
            && text_in(
            json_of_text(text@)->Ok_0.get("answers"@)->0.get2("difficulty_level"@, "choice"@),
        ) is Some,
        outcome_error(Outcome::TimedOut, timeout_ms) is Some,
{
    let parsed = json_of_text(text@);
    if parsed is Ok && parsed->Ok_0.get("answers"@) is None {
        assert(JsonV::Null.get("difficulty_level"@) is None);
    }
}

/// A verdict holds what the classifier was shown and what it answered: its level with the
/// confidence, its score, and how sure it is that a small model will do.
pub proof fn law_verdict_holds_the_answers(
    v: Verdict,
    state: Seq<char>,
    doc: JsonV,
    latency: Elapsed,
    answers: JsonV,
    choice: Seq<char>,
    confidence: JsonNumber,
    score: JsonNumber,
    noul: JsonNumber,
)
    requires
        is_verdict(v, state, doc, latency),
        doc.get("answers"@) == Some(answers),
        answers.get2("difficulty_level"@, "choice"@) == Some(JsonV::Text(choice)),
        answers.get2("difficulty_level"@, "confidence"@) == Some(JsonV::Number(confidence)),
        answers.get2("difficulty_score"@, "score"@) == Some(JsonV::Number(score)),
        answers.get2("prefer_cheap_model"@, "noul"@) == Some(JsonV::Number(noul)),
    ensures
        v.state@ == state,
        v.answers@ == answers,
        v.choice@ == choice,
        v.confidence == Some(confidence),
        v.score == Some(score),
        v.noul == Some(noul),
        v.latency == latency,
        doc.text_at("model"@) is Some ==> v.classifier_model@ == doc.text_at("model"@)->0,
{
}

/// The classifier is asked for the readings that are taken from its reply: a level, with a
/// criterion for each of the three that decide the tier; a score; and a preference.
pub proof fn law_questions_ask_for_the_readings()
    ensures
        ({
            let level = questions_tree().get("difficulty_level"@);
            let criteria = questions_tree().get2("difficulty_level"@, "criteria"@);
            &&& level is Some && level->0.text_at("type"@) == Some("choice"@)
            &&& criteria is Some
            &&& criteria->0.text_at("cheap"@) == Some(
                "Simple factual questions, short summaries, basic rewriting, or easy classification. Can be handled by a small/cheap model."@,
            )
            &&& criteria->0.text_at("medium"@) == Some(
                "Moderate reasoning, code explanation, medium-length context, or multi-step but not highly complex tasks."@,
            )
            &&& criteria->0.text_at("expensive"@) == Some(
                "Complex reasoning, advanced code optimization, debugging concurrency issues, long context, or tasks requiring strong intelligence."@,
            )
        }),
        text_in(questions_tree().get2("difficulty_score"@, "type"@)) == Some("score"@),
        text_in(questions_tree().get2("prefer_cheap_model"@, "type"@)) == Some("noul"@),
{
    reveal_strlit("difficulty_level");
    reveal_strlit("difficulty_score");
    reveal_strlit("prefer_cheap_model");
    reveal_strlit("type");
    reveal_strlit("instructions");
    reveal_strlit("criteria");
    reveal_strlit("cheap");
    reveal_strlit("medium");
    reveal_strlit("expensive");
    assert("difficulty_level"@.len() == 16 && "difficulty_score"@.len() == 16
        && "prefer_cheap_model"@.len() == 18);
    assert("difficulty_level"@[11] == 'l' && "difficulty_score"@[11] == 's');
    assert("type"@.len() == 4 && "instructions"@.len() == 12 && "criteria"@.len() == 8);
    assert("cheap"@.len() == 5 && "medium"@.len() == 6 && "expensive"@.len() == 9);
    lemma_with_gets_all();
}

/// Settling a question touches no session but its own, as long as the memory is not full; a
/// request without a session, and a failure inside a turn, leave the memory as it is.
pub proof fn law_settling_touches_its_session_alone(
    list: SessionList,
    s: Seq<char>,
    new_turn: bool,
    req_id: u64,
    tier: Option<Tier>,
    q: Seq<char>,
)
    requires
        distinct_sessions(list),
        list.len() < MAX_SESSIONS,
    ensures
        q != s ==> recalled(settled(list, Some(s), new_turn, req_id, tier), q) == recalled(list, q),
        tier matches Some(t) ==> recalled(settled(list, Some(s), new_turn, req_id, tier), s) == Some(
            CachedRoute { req_id, tier: t },
        ),
        settled(list, None, new_turn, req_id, tier) == list,
        settled(list, Some(s), false, req_id, None) == list,
{
    if tier is Some {
        law_remember_then_recall(list, s, CachedRoute { req_id, tier: tier->0 }, q);
        law_remember_then_recall(list, s, CachedRoute { req_id, tier: tier->0 }, s);
    }
    law_forget_then_recall(list, s, q);
}

/// The reason that is given for a tier names the level; for a cheap request also how sure the
/// classifier was and the bound that this was held against, above it for the small model and not
/// above it otherwise.
pub proof fn law_reason_names_the_level(
    choice: Seq<char>,
    noul: Option<JsonNumber>,
    threshold: Threshold,
)
    ensures
        choice == "cheap"@ && tier_of(choice, noul, threshold) == Tier::Small ==> rule_of(
            choice,
            noul,
            threshold,
        ) == "cheap, noul "@ + shown_reading(noul) + " > "@ + shown_threshold(threshold),
        choice == "cheap"@ && tier_of(choice, noul, threshold) != Tier::Small ==> rule_of(
            choice,
            noul,
            threshold,
        ) == "cheap but noul "@ + shown_reading(noul) + " ≤ "@ + shown_threshold(threshold),
        choice == "medium"@ || choice == "expensive"@ ==> rule_of(choice, noul, threshold) == choice,
        choice != "cheap"@ && choice != "medium"@ && choice != "expensive"@ ==> rule_of(
            choice,
            noul,
            threshold,
        ) == "unknown choice "@ + quoted(choice),
        choice == "medium"@ ==> tier_of(choice, noul, threshold) == Tier::Medium,
        choice == "cheap"@ ==> tier_of(choice, noul, threshold) != Tier::Frontier,
{
    reveal_strlit("cheap");
    reveal_strlit("medium");
    reveal_strlit("expensive");
    assert("cheap"@.len() == 5 && "medium"@.len() == 6 && "expensive"@.len() == 9);
}

/// The levels are shown with their probabilities in the order of the reply: one more comes last,
/// behind a comma.
pub proof fn law_probabilities_stand_in_order(
    a: JsonV,
    b: JsonV,
    fields: Seq<(Seq<char>, JsonV)>,
    k: Seq<char>,
    n: JsonNumber,
)
    requires
        a.get2("difficulty_level"@, "probabilities"@) == Some(JsonV::Object(fields)),
        b.get2("difficulty_level"@, "probabilities"@) == Some(
            JsonV::Object(fields.push((k, JsonV::Number(n)))),
        ),
    ensures
        fields.len() == 0 ==> probabilities(b) == abbreviated(k) + " "@ + two_decimals_of(n),
        fields.len() > 0 ==> probabilities(b) == probabilities(a) + ", "@ + (abbreviated(k) + " "@
            + two_decimals_of(n)),
{
    let shown = |f: (Seq<char>, JsonV)| probability(f.0, f.1);
    let parts = fields.map_values(shown);
    let one = probability(k, JsonV::Number(n));
    assert(fields.push((k, JsonV::Number(n))).map_values(shown) =~= parts + seq![one]);
    law_join_of_two_lists(parts, seq![one], ", "@);
}

/// The digest of the answers begins with the confidence of the level, tells the score, and ends
/// with how sure the classifier is that a small model will do.
pub proof fn law_digest_tells_the_readings(v: Verdict)
    ensures
        starts_with(
            digest(v),
            "(conf "@ + shown_reading(v.confidence) + " | "@ + probabilities(v.answers@) + ")"@,
        ),
        contains_text(
            digest(v),
            "scr "@ + shown_reading(v.score) + " (conf "@ + shown_reading(
                number_in(v.answers@.get2("difficulty_score"@, "confidence"@)),
            ) + ")"@,
        ),
        ends_with(digest(v), "noul "@ + shown_reading(v.noul)),
{
    reveal_strlit("), scr ");
    reveal_strlit("), noul ");
    reveal_strlit("scr ");
    reveal_strlit("noul ");
    reveal_strlit(")");
    reveal_strlit(", ");
    let first = "(conf "@ + shown_reading(v.confidence) + " | "@ + probabilities(v.answers@) + ")"@;
    let second = "scr "@ + shown_reading(v.score) + " (conf "@ + shown_reading(
        number_in(v.answers@.get2("difficulty_score"@, "confidence"@)),
    ) + ")"@;
    let third = "noul "@ + shown_reading(v.noul);
    assert(digest(v) =~= first + ", "@ + second + ", "@ + third);
    law_parts_of_a_text(first + ", "@, second, ", "@ + third);
    assert(digest(v) =~= first + ", "@ + second + (", "@ + third));
    law_parts_of_a_text(first + ", "@ + second, ", "@, third);
    assert(digest(v).take(first.len() as int) =~= first);
}

/// A failure says what went wrong: how long was waited, the error itself, the status with the
/// beginning of the reply, or what the reply lacks.
pub proof fn law_failures_say_what_went_wrong(
    e: String,
    status: String,
    text: String,
    timeout_ms: u64,
)
    ensures
        outcome_error(Outcome::TimedOut, timeout_ms) == Some(
            "timeout after "@ + decimal_of(timeout_ms as nat) + "ms"@,
        ),
        outcome_error(Outcome::Failed(e), timeout_ms) == Some(e@),
        text@.len() <= 300 ==> outcome_error(
            Outcome::Answered { success: false, status, text },
            timeout_ms,
        ) == Some("HTTP "@ + status@ + ": "@ + text@),
        text@.len() > 300 ==> outcome_error(
            Outcome::Answered { success: false, status, text },
            timeout_ms,
        ) == Some("HTTP "@ + status@ + ": "@ + text@.take(300).push('…')),
        text@.len() <= 300 ==> (json_of_text(text@) matches Err(why) ==> outcome_error(
            Outcome::Answered { success: true, status, text },
            timeout_ms,
        ) == Some("invalid JSON ("@ + why + "): "@ + text@)),
{
}

/// A decision is told with its tier and its model, how it came about and, where the classifier was
/// asked, why.
pub proof fn law_summary_tells_the_decision(d: Decision)
    ensures
        starts_with(summary_text(d), "    route  ▸ "@ + d.tier.name() + " → "@ + d.model@ + "  ("@),
        d.source matches Source::Cached { from_req } ==> contains_text(
            summary_text(d),
            "same turn as #"@ + decimal_of(from_req as nat),
        ),
        d.source matches Source::Fallback(e) ==> contains_text(
            summary_text(d),
            "⚠ classifier failed, fallback: "@ + e@,
        ),
        d.source matches Source::Classified(v) ==> contains_text(
            summary_text(d),
            " in "@ + v.latency.shown() + "s"@,
        ),
        d.rule matches Some(r) ==> ends_with(summary_text(d), "; "@ + r@ + ")"@),
{
    let first = "    route  ▸ "@ + d.tier.name() + " → "@ + d.model@ + "  ("@;
    let told = how(d.source);
    let end = why(d.rule) + ")"@;
    let text = summary_text(d);
    assert(text =~= first + told + end);
    law_parts_of_a_text(first, told, end);
    match d.source {
        Source::Classified(v) => {
            let by = "classified by "@ + (if v.classifier_model@.len() == 0 {
                "classifier"@
            } else {
                v.classifier_model@
            });
            let time = " in "@ + v.latency.shown() + "s"@;
            assert(text =~= (first + by) + time + end);
            law_parts_of_a_text(first + by, time, end);
        },
        _ => {},
    }
}

/// Every question has its instructions, and the score goes from very easy to very hard in five
/// steps.
pub proof fn law_questions_have_instructions()
    ensures
        ({
            let steps = questions_tree().get2("difficulty_score"@, "criteria"@);
            &&& steps matches Some(JsonV::Array(list)) && list == seq![
                JsonV::Text("Very easy - simple facts or short tasks"@),
                JsonV::Text("Easy - light reasoning or short code changes"@),
                JsonV::Text("Medium - solid reasoning or multi-step work"@),
                JsonV::Text("Hard - complex analysis, optimization, or debugging"@),
                JsonV::Text("Very hard - deep reasoning, concurrency, or advanced engineering"@),
            ]
        }),
        questions_tree().get2("difficulty_level"@, "instructions"@) == Some(
            JsonV::Text("Classify the overall difficulty of this AI request for model routing"@),
        ),
        questions_tree().get2("difficulty_score"@, "instructions"@) == Some(
            JsonV::Text("Rate the difficulty from 0 (easiest) to 4 (hardest)"@),
        ),
        questions_tree().get2("prefer_cheap_model"@, "instructions"@) == Some(
            JsonV::Text(
                "Is it safe and high-quality enough to route this request to a cheap/small model?"@,
            ),
        ),
{
    reveal_strlit("difficulty_level");
    reveal_strlit("difficulty_score");
    reveal_strlit("prefer_cheap_model");
    reveal_strlit("type");
    reveal_strlit("instructions");
    reveal_strlit("criteria");
    assert("difficulty_level"@.len() == 16 && "difficulty_score"@.len() == 16
        && "prefer_cheap_model"@.len() == 18);
    assert("difficulty_level"@[11] == 'l' && "difficulty_score"@[11] == 's');
    assert("type"@.len() == 4 && "instructions"@.len() == 12 && "criteria"@.len() == 8);
    lemma_with_gets_all();
}

/// The line on a question begins with the number of the request and the classifier, as it calls
/// itself or as the settings do, tells which attempt it was from the second on, and ends with the
/// answers or with what went wrong.
pub proof fn law_lines_on_questions(
    cfg: RouterConfig,
    q: Query,
    v: Verdict,
    usage: Seq<char>,
    e: Seq<char>,
    elapsed: Elapsed,
)
    ensures
        v.classifier_model@.len() > 0 ==> starts_with(
            answered_line(cfg, q, v, usage),
            "#"@ + decimal_of(q.req_id as nat) + " ⇢ "@ + v.classifier_model@ + "  ["@
                + v.latency.shown() + "s, "@ + usage,
        ),
        v.classifier_model@.len() == 0 ==> starts_with(
            answered_line(cfg, q, v, usage),
            "#"@ + decimal_of(q.req_id as nat) + " ⇢ "@ + cfg.classifier_model@ + "  ["@
                + v.latency.shown() + "s, "@ + usage,
        ),
        ends_with(answered_line(cfg, q, v, usage), "]   answer ▸ "@ + digest(v)),
        starts_with(
            failed_line(cfg, q, e, elapsed),
            "#"@ + decimal_of(q.req_id as nat) + " ⇢ "@ + cfg.classifier_model@ + "  ["@
                + elapsed.shown() + "s"@,
        ),
        ends_with(failed_line(cfg, q, e, elapsed), "]   answer ▸ ✖ "@ + e),
        q.attempt > 1 ==> contains_text(
            answered_line(cfg, q, v, usage),
            ", attempt "@ + decimal_of(q.attempt as nat),
        ) && contains_text(
            failed_line(cfg, q, e, elapsed),
            ", attempt "@ + decimal_of(q.attempt as nat),
        ),
        q.attempt <= 1 ==> attempt_text(q.attempt).len() == 0,
{
    let name = if v.classifier_model@.len() == 0 {
        cfg.classifier_model@
    } else {
        v.classifier_model@
    };
    let a = "#"@ + decimal_of(q.req_id as nat) + " ⇢ "@ + name + "  ["@ + v.latency.shown() + "s, "@
        + usage;
    let end = "]   answer ▸ "@ + digest(v);
    assert(answered_line(cfg, q, v, usage) =~= a + attempt_text(q.attempt) + end);
    law_parts_of_a_text(a, attempt_text(q.attempt), end);
    let b = "#"@ + decimal_of(q.req_id as nat) + " ⇢ "@ + cfg.classifier_model@ + "  ["@
        + elapsed.shown() + "s"@;
    let fault = "]   answer ▸ ✖ "@ + e;
    assert(failed_line(cfg, q, e, elapsed) =~= b + attempt_text(q.attempt) + fault);
    law_parts_of_a_text(b, attempt_text(q.attempt), fault);
}

/// The tokens that the classifier used are those that it tells, of the input and of the output.
pub proof fn law_tokens_of_the_classifier(doc: JsonV, input: u64, output: u64)
    ensures
        doc.get2("usage"@, "input_tokens"@) == Some(JsonV::Number(JsonNumber::Unsigned(input)))
            && doc.get2("usage"@, "output_tokens"@) == Some(
            JsonV::Number(JsonNumber::Unsigned(output)),
        ) ==> usage_text(doc) == "in "@ + decimal_of(input as nat) + " / out "@ + decimal_of(
            output as nat,
        ),
        doc.get("usage"@) is None ==> usage_text(doc) == "usage n/a"@,
{
}

/// The classifier finds a text too long exactly where its failure names that error, whatever stands
/// around the name.
pub proof fn law_too_long_is_named(a: Seq<char>, b: Seq<char>, e: Seq<char>)
    ensures
        too_long(a + "max_tokens_exceeded"@ + b),
        e.len() < 19 ==> !too_long(e),
{
    law_parts_of_a_text(a, "max_tokens_exceeded"@, b);
    reveal_strlit("max_tokens_exceeded");
    assert("max_tokens_exceeded"@.len() == 19);
}

} // verus!
