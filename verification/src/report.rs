//! The log: what a request asks, what came of it, and the colour of its lines.
use crate::codec::rendered;
use crate::items::{
    injected, is_user_request, last_request, law_last_request_is_the_last, law_roles,
    law_text_is_a_user_message, message_text, request_items, speaks_as, user_message,
};
use crate::json::{
    field, field_of, opt_tree, or_text, text_in, trees, unsigned_in, Json, JsonNumber, JsonV,
};
use crate::measure::Elapsed;
use crate::router::LogLine;
use crate::state::last_user_text;
use crate::stream::{shown_model, MODEL_PREFIX};
use crate::tally::{counted, counts_text, tally};
use crate::text::{
    after_prefix, contains_text, count, decimal, decimal_of, digit, digit_run, digits_value, ends_with,
    has_prefix, head, head_chars, is_digit, join, join_all, law_decimal_stands_for_the_number,
    law_join_of_two_lists, law_parts_of_a_text, leading_number, opt_string_view, same, split_words,
    starts_with, views, words,
};
use vstd::prelude::*;

verus! {

/// The colours of requests, by their number.
pub const REQ_COLORS: [u8; 8] = [39, 208, 141, 36, 205, 178, 45, 167];

/// The colour of a message that begins with the number of a request; none for any other.
pub open spec fn color_of(msg: Seq<char>) -> Option<u8> {
    if msg.len() > 0 && msg[0] == '#' {
        let rest = msg.skip(1);
        let n = digits_value(rest.take(digit_run(rest) as int));
        if digit_run(rest) > 0 && n <= u64::MAX {
            Some(REQ_COLORS@[(n % 8) as int])
        } else {
            None
        }
    } else {
        None
    }
}

/// The colour of a message: requests take the colours in turn, by the number that the message
/// begins with.
pub fn req_color(msg: &str) -> (r: Option<u8>)
    ensures
        r == color_of(msg@),
{
    proof {
        reveal_strlit("#");
        if msg@.len() > 0 {
            assert(msg@[0] == '#' ==> msg@.take(1) =~= "#"@);
            assert(msg@.take(1)[0] == msg@[0]);
        }
    }
    let rest = match after_prefix(msg, "#") {
        Some(rest) => rest,
        None => {
            return None;
        },
    };
    match leading_number(rest.as_str()) {
        Some(n) => Some(REQ_COLORS[(n % 8) as usize]),
        None => None,
    }
}

/// Two requests whose numbers differ by a multiple of eight have the same colour.
pub proof fn law_colors_come_round(a: Seq<char>, b: Seq<char>)
    requires
        color_of(a) is Some,
        color_of(b) is Some,
        request_number(a) % 8 == request_number(b) % 8,
    ensures
        color_of(a) == color_of(b),
{
}

/// Two requests whose numbers differ by no multiple of eight have different colours.
pub proof fn law_neighbours_differ_in_color(a: Seq<char>, b: Seq<char>)
    requires
        color_of(a) is Some,
        color_of(b) is Some,
        request_number(a) % 8 != request_number(b) % 8,
    ensures
        color_of(a) != color_of(b),
{
}

/// The number behind the mark that a message begins with.
pub open spec fn request_number(msg: Seq<char>) -> nat {
    digits_value(msg.skip(1).take(digit_run(msg.skip(1)) as int))
}

/// How grave a message is.
#[derive(Debug, Clone, Copy, PartialEq, Eq, Structural)]
pub enum Level {
    Trace,
    Debug,
    Info,
    Warn,
    Error,
}

/// The name of a level, five characters wide.
pub open spec fn level_name(level: Level) -> Seq<char> {
    match level {
        Level::Trace => "TRACE"@,
        Level::Debug => "DEBUG"@,
        Level::Info => " INFO"@,
        Level::Warn => " WARN"@,
        Level::Error => "ERROR"@,
    }
}

/// The colour of a level.
pub open spec fn level_color(level: Level) -> nat {
    match level {
        Level::Trace => 35,
        Level::Debug => 34,
        Level::Info => 32,
        Level::Warn => 33,
        Level::Error => 31,
    }
}

/// The level as it stands before a message.
pub open spec fn level_text(ansi: bool, level: Level) -> Seq<char> {
    if ansi {
        " \x1b["@ + decimal_of(level_color(level)) + "m"@ + level_name(level) + "\x1b[0m "@
    } else {
        " "@ + level_name(level) + " "@
    }
}

/// The message as a line, or several, of the log.
pub open spec fn message_line(ansi: bool, msg: Seq<char>) -> Seq<char> {
    match color_of(msg) {
        Some(c) => if ansi {
            "\x1b[38;5;"@ + decimal_of(c as nat) + "m"@ + msg + "\x1b[0m\n"@
        } else {
            msg + "\n"@
        },
        None => msg + "\n"@,
    }
}

/// The format of the log: each request in a colour of its own, on a terminal.
#[derive(Debug)]
pub struct ReqColor {
    pub ansi: bool,
}

impl ReqColor {
    /// Colours are for a terminal, and only where they are not switched off.
    pub fn new(is_terminal: bool, no_color: bool) -> (r: ReqColor)
        ensures
            r.ansi == (is_terminal && !no_color),
    {
        ReqColor { ansi: is_terminal && !no_color }
    }

    /// The level as it stands before a message.
    pub fn level(&self, level: Level) -> (r: String)
        ensures
            r@ == level_text(self.ansi, level),
    {
        let (name, color): (&str, u64) = match level {
            Level::Trace => ("TRACE", 35),
            Level::Debug => ("DEBUG", 34),
            Level::Info => (" INFO", 32),
            Level::Warn => (" WARN", 33),
            Level::Error => ("ERROR", 31),
        };
        if self.ansi {
            let mut s = " \x1b[".to_owned();
            s.push_str(decimal(color).as_str());
            s.push_str("m");
            s.push_str(name);
            s.push_str("\x1b[0m ");
            s
        } else {
            let mut s = " ".to_owned();
            s.push_str(name);
            s.push_str(" ");
            s
        }
    }

    /// The message as a line of the log. The colour holds to its end, also where it has several
    /// lines.
    pub fn message(&self, msg: &str) -> (r: String)
        ensures
            r@ == message_line(self.ansi, msg@),
    {
        if self.ansi {
            match req_color(msg) {
                Some(c) => {
                    let mut s = "\x1b[38;5;".to_owned();
                    s.push_str(decimal(c as u64).as_str());
                    s.push_str("m");
                    s.push_str(msg);
                    s.push_str("\x1b[0m\n");
                    return s;
                },
                None => {},
            }
        }
        let mut s = msg.to_owned();
        s.push_str("\n");
        s
    }
}

/// The text of a number below one thousand with leading zeros.
pub open spec fn three_digits(n: nat) -> Seq<char> {
    seq![digit(n / 100 % 10), digit(n / 10 % 10), digit(n % 10)]
}

/// `n` in decimal, with a comma before every three digits.
pub open spec fn grouped(n: nat) -> Seq<char>
    decreases n,
{
    if n < 1000 {
        decimal_of(n)
    } else {
        grouped(n / 1000) + ","@ + three_digits(n % 1000)
    }
}

/// `s` without its commas.
pub open spec fn without_commas(s: Seq<char>) -> Seq<char>
    decreases s.len(),
{
    if s.len() == 0 {
        Seq::empty()
    } else if s.last() == ',' {
        without_commas(s.drop_last())
    } else {
        without_commas(s.drop_last()).push(s.last())
    }
}

proof fn lemma_without_commas_adds(a: Seq<char>, b: Seq<char>)
    ensures
        without_commas(a + b) == without_commas(a) + without_commas(b),
    decreases b.len(),
{
    if b.len() == 0 {
        assert(a + b =~= a);
        assert(without_commas(a) + without_commas(b) =~= without_commas(a));
    } else {
        assert((a + b).drop_last() =~= a + b.drop_last());
        lemma_without_commas_adds(a, b.drop_last());
        assert(without_commas(a + b) =~= without_commas(a) + without_commas(b));
    }
}

proof fn lemma_no_commas(s: Seq<char>)
    requires
        forall|i: int| 0 <= i < s.len() ==> #[trigger] s[i] != ',',
    ensures
        without_commas(s) == s,
    decreases s.len(),
{
    if s.len() > 0 {
        lemma_no_commas(s.drop_last());
        assert(s.drop_last().push(s.last()) =~= s);
    }
}

proof fn lemma_decimal_has_no_commas(n: nat)
    ensures
        forall|i: int| 0 <= i < decimal_of(n).len() ==> #[trigger] decimal_of(n)[i] != ',',
    decreases n,
{
    let s = decimal_of(n);
    if n >= 10 {
        lemma_decimal_has_no_commas(n / 10);
        let high = decimal_of(n / 10);
        assert forall|i: int| 0 <= i < s.len() implies #[trigger] s[i] != ',' by {
            if i < high.len() {
                assert(high[i] != ',');
            }
        }
    } else {
        assert(s[0] == digit(n));
    }
}

proof fn lemma_decimal_thousands(n: nat)
    requires
        n >= 1000,
    ensures
        decimal_of(n) == decimal_of(n / 1000) + three_digits(n % 1000),
{
    let tens = n / 10;
    let hundreds = tens / 10;
    assert(hundreds / 10 == n / 1000);
    assert(n % 1000 / 100 % 10 == hundreds % 10);
    assert(n % 1000 / 10 % 10 == tens % 10);
    assert(n % 1000 % 10 == n % 10);
    let top = decimal_of(n / 1000);
    assert(decimal_of(hundreds) == top.push(digit(hundreds % 10)));
    assert(decimal_of(tens) == decimal_of(hundreds).push(digit(tens % 10)));
    assert(decimal_of(n) == decimal_of(tens).push(digit(n % 10)));
    assert(decimal_of(n) =~= top + three_digits(n % 1000));
}

proof fn lemma_comma_vanishes()
    ensures
        without_commas(","@) == Seq::<char>::empty(),
{
    reveal_strlit(",");
    reveal_with_fuel(without_commas, 2);
    assert(","@.last() == ',');
    assert(","@.drop_last() =~= Seq::<char>::empty());
}

/// Grouping digits changes none of them: without the commas the number is as before.
pub proof fn law_grouping_keeps_digits(n: nat)
    ensures
        without_commas(grouped(n)) == decimal_of(n),
    decreases n,
{
    if n < 1000 {
        lemma_decimal_has_no_commas(n);
        lemma_no_commas(decimal_of(n));
    } else {
        let high = grouped(n / 1000);
        let low = three_digits(n % 1000);
        law_grouping_keeps_digits(n / 1000);
        lemma_comma_vanishes();
        lemma_without_commas_adds(high, ","@);
        lemma_without_commas_adds(high + ","@, low);
        lemma_no_commas(low);
        lemma_decimal_thousands(n);
        assert(without_commas(high) + Seq::<char>::empty() =~= without_commas(high));
    }
}

/// A number with a comma before every three digits.
pub fn fmt_num(n: u64) -> (r: String)
    ensures
        r@ == grouped(n as nat),
    decreases n,
{
    if n < 1000 {
        return decimal(n);
    }
    let mut s = fmt_num(n / 1000);
    let low: u64 = n % 1000;
    s.push_str(",");
    let ghost before = s@;
    let a: u8 = (low / 100 % 10) as u8;
    let b: u8 = (low / 10 % 10) as u8;
    let c: u8 = (low % 10) as u8;
    s.push((48 + a) as char);
    s.push((48 + b) as char);
    s.push((48 + c) as char);
    assert(s@ =~= before + three_digits(low as nat));
    s
}

/// The tokens that a reply used.
#[derive(Debug, Clone, Copy, PartialEq, Eq)]
pub struct Usage {
    pub input: u64,
    pub output: u64,
    /// The input tokens that came from the cache, where that is known.
    pub cached: Option<u64>,
    /// The output tokens that went into reasoning, where that is known.
    pub reasoning: Option<u64>,
}

/// A number, none where it is missing.
pub open spec fn or_zero(n: Option<u64>) -> u64 {
    match n {
        Some(n) => n,
        None => 0,
    }
}

/// The tokens that the `usage` of a response tells of.
pub open spec fn usage_of(u: Option<JsonV>) -> Option<Usage> {
    match u {
        Some(JsonV::Object(fields)) => {
            let u = JsonV::Object(fields);
            Some(
                Usage {
                    input: or_zero(unsigned_in(u.get("input_tokens"@))),
                    output: or_zero(unsigned_in(u.get("output_tokens"@))),
                    cached: unsigned_in(u.get2("input_tokens_details"@, "cached_tokens"@)),
                    reasoning: unsigned_in(u.get2("output_tokens_details"@, "reasoning_tokens"@)),
                },
            )
        },
        _ => None,
    }
}

fn unsigned_of(v: Option<&Json>) -> (r: Option<u64>)
    ensures
        r == unsigned_in(opt_tree(v)),
{
    match v {
        Some(v) => v.as_u64(),
        None => None,
    }
}

fn zero_if_none(n: Option<u64>) -> (r: u64)
    ensures
        r == or_zero(n),
{
    match n {
        Some(n) => n,
        None => 0,
    }
}

impl Usage {
    /// The tokens that the `usage` of a response tells of; none where it is no object.
    pub fn from_response(u: Option<&Json>) -> (r: Option<Usage>)
        ensures
            r == usage_of(opt_tree(u)),
    {
        let u = match u {
            Some(u) => u,
            None => {
                return None;
            },
        };
        if !u.is_object() {
            return None;
        }
        Some(
            Usage {
                input: zero_if_none(unsigned_of(u.get("input_tokens"))),
                output: zero_if_none(unsigned_of(u.get("output_tokens"))),
                cached: unsigned_of(u.get2("input_tokens_details", "cached_tokens")),
                reasoning: unsigned_of(u.get2("output_tokens_details", "reasoning_tokens")),
            },
        )
    }
}

/// The types of a list of items.
pub open spec fn types_of(items: Seq<JsonV>) -> Seq<Seq<char>> {
    items.map_values(|it: JsonV| it.text_or("type"@, "?"@))
}

/// The items of an optional value, none where it is no list.
pub open spec fn items_in(v: Option<JsonV>) -> Seq<JsonV> {
    match v {
        Some(JsonV::Array(items)) => items,
        _ => Seq::empty(),
    }
}

/// The counts of names, a dash where there are none.
pub open spec fn counts_or_dash(names: Seq<Seq<char>>) -> Seq<char> {
    if names.len() == 0 {
        "-"@
    } else {
        counts_text(counted(names))
    }
}

fn tally_or_dash(names: &Vec<String>) -> (r: String)
    ensures
        r@ == counts_or_dash(views(names@)),
{
    if names.len() == 0 {
        "-".to_owned()
    } else {
        tally(names)
    }
}

/// The output items of a response, counted by type.
pub fn output_summary(output: Option<&Json>) -> (r: String)
    ensures
        r@ == counts_or_dash(types_of(items_in(opt_tree(output)))),
{
    let mut names: Vec<String> = Vec::new();
    let items = match output {
        Some(v) => match v.as_array() {
            Some(items) => items,
            None => {
                return "-".to_owned();
            },
        },
        None => {
            return "-".to_owned();
        },
    };
    let mut i: usize = 0;
    while i < items.len()
        invariant
            0 <= i <= items@.len(),
            names@.len() == i,
            forall|j: int|
                0 <= j < i ==> (#[trigger] names@[j])@ == items@[j]@.text_or("type"@, "?"@),
        decreases items.len() - i,
    {
        names.push(items[i].text_or("type", "?").to_owned());
        i = i + 1;
    }
    assert(views(names@) =~= types_of(trees(items@)));
    tally_or_dash(&names)
}

/// What the log tells of a response.
#[derive(Debug)]
pub struct Report {
    pub req_id: u64,
    pub stream: bool,
    pub elapsed: Elapsed,
    /// The model that answered; that of the request where the response names none.
    pub model: String,
    /// The status of the response; none where there is no response.
    pub status: Option<String>,
    /// Why the response is incomplete, or what went wrong.
    pub reason: Option<String>,
    pub output: String,
    pub usage: Option<Usage>,
    /// What was unusual.
    pub notes: Vec<String>,
}

/// Why a response is incomplete, else what went wrong.
pub open spec fn reason_of(resp: Option<JsonV>) -> Option<Seq<char>> {
    match text_in(field(field(resp, "incomplete_details"@), "reason"@)) {
        Some(r) => Some(r),
        None => text_in(field(field(resp, "error"@), "message"@)),
    }
}

/// The log tells this of a response, but for the notes.
pub open spec fn is_report(
    r: Report,
    req_id: u64,
    stream: bool,
    elapsed: Elapsed,
    model: Seq<char>,
    resp: Option<JsonV>,
) -> bool {
    &&& r.req_id == req_id
    &&& r.stream == stream
    &&& r.elapsed == elapsed
    &&& r.model@ == or_text(text_in(field(resp, "model"@)), model)
    &&& opt_string_view(r.status) == text_in(field(resp, "status"@))
    &&& opt_string_view(r.reason) == reason_of(resp)
    &&& r.output@ == counts_or_dash(types_of(items_in(field(resp, "output"@))))
    &&& r.usage == usage_of(field(resp, "usage"@))
}

fn owned_text(v: Option<&Json>) -> (r: Option<String>)
    ensures
        opt_string_view(r) == text_in(opt_tree(v)),
{
    match v {
        Some(v) => match v.as_str() {
            Some(s) => Some(s.to_owned()),
            None => None,
        },
        None => None,
    }
}

impl Report {
    /// What the log tells of a response, which is missing where the upstream gave none.
    pub fn new(
        req_id: u64,
        stream: bool,
        elapsed: Elapsed,
        model: &str,
        resp: Option<&Json>,
        notes: Vec<String>,
    ) -> (r: Report)
        ensures
            is_report(r, req_id, stream, elapsed, model@, opt_tree(resp)),
            r.notes == notes,
    {
        let reason = match owned_text(field_of(field_of(resp, "incomplete_details"), "reason")) {
            Some(r) => Some(r),
            None => owned_text(field_of(field_of(resp, "error"), "message")),
        };
        let status = owned_text(field_of(resp, "status"));
        let output = output_summary(field_of(resp, "output"));
        let usage = Usage::from_response(field_of(resp, "usage"));
        let model = match owned_text(field_of(resp, "model")) {
            Some(m) => m,
            None => model.to_owned(),
        };
        Report { req_id, stream, elapsed, model, status, reason, output, usage, notes }
    }
}

/// The mode of a reply.
pub open spec fn mode_name(stream: bool) -> Seq<char> {
    if stream {
        "stream"@
    } else {
        "non-stream"@
    }
}

/// The first line on a response.
pub open spec fn response_line(r: Report) -> Seq<char> {
    "#"@ + decimal_of(r.req_id as nat) + " ◀ response  ["@ + mode_name(r.stream) + ", "@
        + r.elapsed.shown() + "s, model="@ + r.model@ + " → "@ + shown_model(r.model@) + "]"@
}

/// The response completed, and nothing was unusual.
pub open spec fn went_well(r: Report) -> bool {
    opt_string_view(r.status) == Some("completed"@) && r.notes@.len() == 0
}

/// The tokens of a reply, as the log shows them; `hit_rate` is the share of cached input tokens
/// in percent.
pub open spec fn usage_line(u: Option<Usage>, hit_rate: Seq<char>) -> Seq<char> {
    match u {
        None => "    usage  ▸ <none> (upstream returned no usage)"@,
        Some(u) => "    usage  ▸ inp: "@ + grouped(u.input as nat) + ", cd-inp: "@ + (match u.cached {
            Some(c) => grouped(c as nat) + " ("@ + (if u.input > 0 {
                hit_rate
            } else {
                "0.0"@
            }) + "%)"@,
            None => "n/a"@,
        }) + ", opt: "@ + grouped(u.output as nat) + " (reasoning: "@ + (match u.reasoning {
            Some(n) => grouped(n as nat),
            None => "n/a"@,
        }) + ")"@,
    }
}

/// A line for each note.
pub open spec fn note_lines(notes: Seq<Seq<char>>) -> Seq<char>
    decreases notes.len(),
{
    if notes.len() == 0 {
        Seq::empty()
    } else {
        note_lines(notes.drop_last()) + "\n    note   ▸ "@ + notes.last()
    }
}

/// The lines on a response that did not go well.
pub open spec fn detail_lines(r: Report, hit_rate: Seq<char>) -> Seq<char> {
    "\n    stop   ▸ status = "@ + or_text(
        opt_string_view(r.status),
        "<MISSING> (no final response object)"@,
    ) + (match opt_string_view(r.reason) {
        Some(reason) => "  | reason = "@ + reason,
        None => Seq::empty(),
    }) + "\n    output ▸ "@ + r.output@ + "\n"@ + usage_line(r.usage, hit_rate) + note_lines(
        views(r.notes@),
    )
}

fn shown(model: &str) -> (r: String)
    ensures
        r@ == shown_model(model@),
{
    if model.is_empty() || has_prefix(model, MODEL_PREFIX) {
        model.to_owned()
    } else {
        let mut s = MODEL_PREFIX.to_owned();
        s.push_str(model);
        s
    }
}

fn usage_shown(u: &Option<Usage>, hit_rate: &str) -> (r: String)
    ensures
        r@ == usage_line(*u, hit_rate@),
{
    let u = match u {
        None => {
            return "    usage  ▸ <none> (upstream returned no usage)".to_owned();
        },
        Some(u) => u,
    };
    let cached = match u.cached {
        Some(c) => {
            let mut s = fmt_num(c);
            s.push_str(" (");
            if u.input > 0 {
                s.push_str(hit_rate);
            } else {
                s.push_str("0.0");
            }
            s.push_str("%)");
            s
        },
        None => "n/a".to_owned(),
    };
    let reasoning = match u.reasoning {
        Some(n) => fmt_num(n),
        None => "n/a".to_owned(),
    };
    let mut s = "    usage  ▸ inp: ".to_owned();
    s.push_str(fmt_num(u.input).as_str());
    s.push_str(", cd-inp: ");
    s.push_str(cached.as_str());
    s.push_str(", opt: ");
    s.push_str(fmt_num(u.output).as_str());
    s.push_str(" (reasoning: ");
    s.push_str(reasoning.as_str());
    s.push_str(")");
    s
}

fn notes_shown(notes: &Vec<String>) -> (r: String)
    ensures
        r@ == note_lines(views(notes@)),
{
    let mut s = String::new();
    let mut i: usize = 0;
    let ghost vs = views(notes@);
    while i < notes.len()
        invariant
            0 <= i <= notes@.len(),
            vs == views(notes@),
            s@ == note_lines(vs.take(i as int)),
        decreases notes.len() - i,
    {
        proof {
            assert(vs.take(i + 1).drop_last() =~= vs.take(i as int));
            assert(vs.take(i + 1).last() == notes@[i as int]@);
        }
        s.push_str("\n    note   ▸ ");
        s.push_str(notes[i].as_str());
        i = i + 1;
    }
    assert(vs.take(vs.len() as int) =~= vs);
    s
}

/// The log of a response: one line where it went well; else a warning with how it stopped, what
/// it put out, the tokens, and the notes. `hit_rate` is the share of cached input tokens in
/// percent, with one digit after the point.
pub fn log(r: &Report, hit_rate: &str) -> (line: LogLine)
    ensures
        line.warn == !went_well(*r),
        line.text@ == response_line(*r) + (if went_well(*r) {
            Seq::empty()
        } else {
            detail_lines(*r, hit_rate@)
        }),
{
    let mut s = "#".to_owned();
    s.push_str(decimal(r.req_id).as_str());
    s.push_str(" ◀ response  [");
    if r.stream {
        s.push_str("stream");
    } else {
        s.push_str("non-stream");
    }
    s.push_str(", ");
    s.push_str(r.elapsed.show().as_str());
    s.push_str("s, model=");
    s.push_str(r.model.as_str());
    s.push_str(" → ");
    s.push_str(shown(r.model.as_str()).as_str());
    s.push_str("]");
    let completed = match &r.status {
        Some(status) => same(status.as_str(), "completed"),
        None => false,
    };
    if completed && r.notes.len() == 0 {
        assert(s@ + Seq::<char>::empty() =~= s@);
        return LogLine { warn: false, text: s };
    }
    let mut d = "\n    stop   ▸ status = ".to_owned();
    match &r.status {
        Some(status) => {
            d.push_str(status.as_str());
        },
        None => {
            d.push_str("<MISSING> (no final response object)");
        },
    }
    let reason = match &r.reason {
        Some(reason) => {
            let mut t = "  | reason = ".to_owned();
            t.push_str(reason.as_str());
            t
        },
        None => String::new(),
    };
    d.push_str(reason.as_str());
    d.push_str("\n    output ▸ ");
    d.push_str(r.output.as_str());
    d.push_str("\n");
    d.push_str(usage_shown(&r.usage, hit_rate).as_str());
    d.push_str(notes_shown(&r.notes).as_str());
    s.push_str(d.as_str());
    LogLine { warn: true, text: s }
}

/// How much of a question the log shows.
pub const ASK_HEAD: usize = 200;

/// What the user asks, on one line of the log.
pub open spec fn ask_line(text: Option<Seq<char>>) -> Seq<char> {
    match text {
        None => "    ask    ▸ <no user message>"@,
        Some(text) => {
            let flat = join(words(text), " "@);
            "    ask    ▸ ("@ + grouped(text.len()) + " chars) "@ + head(flat, ASK_HEAD as nat) + (if flat.len()
                > ASK_HEAD {
                "…"@
            } else {
                ""@
            })
        },
    }
}

/// The last message that the user wrote, where there is one.
pub open spec fn asked(req: JsonV) -> Option<Seq<char>> {
    let items = request_items(req);
    if last_request(items) >= 0 {
        Some(message_text(items[last_request(items)]))
    } else {
        None
    }
}

/// What the user asks in this request, on one line.
pub fn user_message_summary(req: &Json) -> (r: String)
    ensures
        r@ == ask_line(asked(req@)),
{
    let text = match last_user_text(req) {
        Some(text) => text,
        None => {
            return "    ask    ▸ <no user message>".to_owned();
        },
    };
    let flat = join_all(&split_words(text.as_str()), " ");
    let mut s = "    ask    ▸ (".to_owned();
    s.push_str(fmt_num(count(text.as_str()) as u64).as_str());
    s.push_str(" chars) ");
    s.push_str(head_chars(flat.as_str(), ASK_HEAD).as_str());
    if count(flat.as_str()) > ASK_HEAD {
        s.push_str("…");
    } else {
        s.push_str("");
    }
    s
}

/// The names of the parameters of a function tool.
pub open spec fn parameter_names(tool: JsonV) -> Seq<Seq<char>> {
    match tool.get2("parameters"@, "properties"@) {
        Some(JsonV::Object(fields)) => fields.map_values(|f: (Seq<char>, JsonV)| f.0),
        _ => Seq::empty(),
    }
}

/// A tool as the log shows it: its name and type, and the parameters of a function.
pub open spec fn tool_text(tool: JsonV) -> Seq<char> {
    let ty = tool.text_or("type"@, "?"@);
    let name = tool.text_or("name"@, "?"@);
    if ty == "function"@ {
        name + "("@ + join(parameter_names(tool), ", "@) + ") [function]"@
    } else if ty == "custom"@ {
        name + " [custom]"@
    } else if name == "?"@ {
        "["@ + ty + "]"@
    } else {
        name + " ["@ + ty + "]"@
    }
}

fn parameters(tool: &Json) -> (r: Vec<String>)
    ensures
        views(r@) == parameter_names(tool@),
{
    let mut names: Vec<String> = Vec::new();
    match tool.get2("parameters", "properties") {
        Some(Json::Object(o)) => {
            let mut i: usize = 0;
            while i < o.len()
                invariant
                    0 <= i <= o@.len(),
                    names@.len() == i,
                    forall|j: int| 0 <= j < i ==> (#[trigger] names@[j])@ == o@[j].0,
                decreases o@.len() - i,
            {
                names.push(o.key(i).to_owned());
                i = i + 1;
            }
            assert(views(names@) =~= parameter_names(tool@));
        },
        _ => {
            assert(views(names@) =~= parameter_names(tool@));
        },
    }
    names
}

fn tool_shown(tool: &Json) -> (r: String)
    ensures
        r@ == tool_text(tool@),
{
    let ty = tool.text_or("type", "?");
    let name = tool.text_or("name", "?");
    if same(ty, "function") {
        let mut s = name.to_owned();
        s.push_str("(");
        s.push_str(join_all(&parameters(tool), ", ").as_str());
        s.push_str(") [function]");
        s
    } else if same(ty, "custom") {
        let mut s = name.to_owned();
        s.push_str(" [custom]");
        s
    } else if same(name, "?") {
        let mut s = "[".to_owned();
        s.push_str(ty);
        s.push_str("]");
        s
    } else {
        let mut s = name.to_owned();
        s.push_str(" [");
        s.push_str(ty);
        s.push_str("]");
        s
    }
}

/// An item that calls a tool.
pub open spec fn is_call(it: JsonV) -> bool {
    let ty = it.text_or("type"@, ""@);
    ty == "function_call"@ || ty == "custom_tool_call"@ || ty == "local_shell_call"@
}

/// An item that holds what a tool gave back.
pub open spec fn is_output(it: JsonV) -> bool {
    let ty = it.text_or("type"@, ""@);
    ty == "function_call_output"@ || ty == "custom_tool_call_output"@ || ty
        == "local_shell_call_output"@
}

/// The mark by which a call and its output find each other.
pub open spec fn call_id(it: JsonV) -> Seq<char> {
    it.text_or("call_id"@, ""@)
}

/// The calls among the items.
pub open spec fn calls_in(items: Seq<JsonV>) -> Seq<JsonV> {
    items.filter(|it: JsonV| is_call(it))
}

/// The outputs among the items.
pub open spec fn outputs_in(items: Seq<JsonV>) -> Seq<JsonV> {
    items.filter(|it: JsonV| !is_call(it) && is_output(it))
}

/// The marks of a list of calls or outputs.
pub open spec fn ids_of(items: Seq<JsonV>) -> Seq<Seq<char>> {
    items.map_values(|it: JsonV| call_id(it))
}

/// The names of the tools that are called.
pub open spec fn called_names(calls: Seq<JsonV>) -> Seq<Seq<char>> {
    calls.map_values(|it: JsonV| it.text_or("name"@, "local_shell"@))
}

/// The marks that have no partner.
pub open spec fn unpaired(ids: Seq<Seq<char>>, partners: Seq<Seq<char>>) -> Seq<Seq<char>> {
    ids.filter(|id: Seq<char>| !partners.contains(id))
}

/// A line that warns of marks without partner; nothing where there are none.
pub open spec fn warning(label: Seq<char>, ids: Seq<Seq<char>>) -> Seq<char> {
    if ids.len() > 0 {
        label + join(ids, ", "@)
    } else {
        Seq::empty()
    }
}

/// The tools that a request declares.
pub open spec fn declared_line(tools: Seq<JsonV>) -> Seq<char> {
    "    tools  ▸ declared ("@ + decimal_of(tools.len()) + "): "@ + (if tools.len() == 0 {
        "-"@
    } else {
        join(tools.map_values(|t: JsonV| tool_text(t)), ", "@)
    })
}

/// Whether calls may run side by side, as the request says.
pub open spec fn parallel_line(req: JsonV) -> Seq<char> {
    "\n             parallel_tool_calls="@ + (match req.get("parallel_tool_calls"@) {
        Some(JsonV::Null) => "-"@,
        Some(v) => rendered(v),
        None => "-"@,
    })
}

/// The calls and outputs in the history of a request, with those that lack a partner.
pub open spec fn history_lines(items: Seq<JsonV>) -> Seq<char> {
    let calls = calls_in(items);
    let outputs = outputs_in(items);
    "\n             in input: "@ + decimal_of(calls.len()) + " calls"@ + (if calls.len() > 0 {
        " ("@ + counts_text(counted(called_names(calls))) + ")"@
    } else {
        Seq::empty()
    }) + ", "@ + decimal_of(outputs.len()) + " outputs"@ + warning(
        "\n             ⚠ calls without output: "@,
        unpaired(ids_of(calls), ids_of(outputs)),
    ) + warning(
        "\n             ⚠ outputs without call: "@,
        unpaired(ids_of(outputs), ids_of(calls)),
    )
}

/// What a request tells of tools.
pub open spec fn tools_lines(req: JsonV) -> Seq<char> {
    declared_line(req.items_at("tools"@)) + parallel_line(req) + history_lines(
        req.items_at("input"@),
    )
}

fn declared_shown(tools: Option<&Vec<Json>>) -> (r: String)
    ensures
        r@ == declared_line(match tools {
            Some(t) => trees(t@),
            None => Seq::empty(),
        }),
{
    let mut texts: Vec<String> = Vec::new();
    match tools {
        Some(tools) => {
            let mut i: usize = 0;
            while i < tools.len()
                invariant
                    0 <= i <= tools@.len(),
                    texts@.len() == i,
                    forall|j: int| 0 <= j < i ==> (#[trigger] texts@[j])@ == tool_text(tools@[j]@),
                decreases tools.len() - i,
            {
                texts.push(tool_shown(&tools[i]));
                i = i + 1;
            }
            assert(views(texts@) =~= trees(tools@).map_values(|t: JsonV| tool_text(t)));
        },
        None => {},
    }
    let mut s = "    tools  ▸ declared (".to_owned();
    s.push_str(decimal(texts.len() as u64).as_str());
    s.push_str("): ");
    if texts.len() == 0 {
        s.push_str("-");
    } else {
        s.push_str(join_all(&texts, ", ").as_str());
    }
    s
}

fn listed(ids: &Vec<String>, id: &str) -> (r: bool)
    ensures
        r == views(ids@).contains(id@),
{
    let mut i: usize = 0;
    let ghost vs = views(ids@);
    while i < ids.len()
        invariant
            0 <= i <= ids@.len(),
            vs == views(ids@),
            forall|j: int| 0 <= j < i ==> #[trigger] vs[j] != id@,
        decreases ids.len() - i,
    {
        if same(ids[i].as_str(), id) {
            assert(vs[i as int] == id@);
            return true;
        }
        i = i + 1;
    }
    false
}

fn without_partner(ids: &Vec<String>, partners: &Vec<String>) -> (r: Vec<String>)
    ensures
        views(r@) == unpaired(views(ids@), views(partners@)),
{
    let mut out: Vec<String> = Vec::new();
    let mut i: usize = 0;
    let ghost vs = views(ids@);
    let ghost ps = views(partners@);
    let ghost lonely = |id: Seq<char>| !ps.contains(id);
    assert(vs.take(0).filter(lonely) =~= Seq::<Seq<char>>::empty()) by {
        reveal(Seq::filter);
    }
    while i < ids.len()
        invariant
            0 <= i <= ids@.len(),
            vs == views(ids@),
            ps == views(partners@),
            lonely == (|id: Seq<char>| !ps.contains(id)),
            views(out@) == vs.take(i as int).filter(lonely),
        decreases ids.len() - i,
    {
        proof {
            assert(vs.take(i + 1).drop_last() =~= vs.take(i as int));
            assert(vs.take(i + 1).last() == ids@[i as int]@);
            reveal(Seq::filter);
        }
        if !listed(partners, ids[i].as_str()) {
            let id = ids[i].clone();
            assert(views(out@.push(id)) =~= views(out@).push(id@));
            out.push(id);
        }
        i = i + 1;
    }
    assert(vs.take(vs.len() as int) =~= vs);
    out
}

fn warned(label: &str, ids: &Vec<String>) -> (r: String)
    ensures
        r@ == warning(label@, views(ids@)),
{
    if ids.len() > 0 {
        let mut s = label.to_owned();
        s.push_str(join_all(ids, ", ").as_str());
        s
    } else {
        String::new()
    }
}

fn calls_tool(it: &Json) -> (r: bool)
    ensures
        r == is_call(it@),
{
    let ty = it.text_or("type", "");
    same(ty, "function_call") || same(ty, "custom_tool_call") || same(ty, "local_shell_call")
}

fn gives_output(it: &Json) -> (r: bool)
    ensures
        r == is_output(it@),
{
    let ty = it.text_or("type", "");
    same(ty, "function_call_output") || same(ty, "custom_tool_call_output") || same(
        ty,
        "local_shell_call_output",
    )
}

fn history_shown(items: &Vec<Json>) -> (r: String)
    ensures
        r@ == history_lines(trees(items@)),
{
    let mut calls: Vec<String> = Vec::new();
    let mut names: Vec<String> = Vec::new();
    let mut outputs: Vec<String> = Vec::new();
    let mut i: usize = 0;
    let ghost ts = trees(items@);
    proof {
        reveal(Seq::filter);
        assert(views(calls@) =~= ids_of(calls_in(ts.take(0))));
        assert(views(names@) =~= called_names(calls_in(ts.take(0))));
        assert(views(outputs@) =~= ids_of(outputs_in(ts.take(0))));
    }
    while i < items.len()
        invariant
            0 <= i <= items@.len(),
            ts == trees(items@),
            views(calls@) == ids_of(calls_in(ts.take(i as int))),
            views(names@) == called_names(calls_in(ts.take(i as int))),
            views(outputs@) == ids_of(outputs_in(ts.take(i as int))),
        decreases items.len() - i,
    {
        let it = &items[i];
        let ghost had = ts.take(i as int);
        let ghost now = ts.take(i + 1);
        proof {
            reveal(Seq::filter);
            assert(now.drop_last() =~= had);
            assert(now.last() == it@);
        }
        let id = it.text_or("call_id", "").to_owned();
        if calls_tool(it) {
            let name = it.text_or("name", "local_shell").to_owned();
            proof {
                assert(calls_in(now) == calls_in(had).push(it@));
                assert(outputs_in(now) == outputs_in(had));
                assert(ids_of(calls_in(had).push(it@)) =~= ids_of(calls_in(had)).push(id@));
                assert(called_names(calls_in(had).push(it@)) =~= called_names(calls_in(had)).push(
                    name@,
                ));
                assert(views(calls@.push(id)) =~= views(calls@).push(id@));
                assert(views(names@.push(name)) =~= views(names@).push(name@));
            }
            calls.push(id);
            names.push(name);
        } else if gives_output(it) {
            proof {
                assert(calls_in(now) == calls_in(had));
                assert(outputs_in(now) == outputs_in(had).push(it@));
                assert(ids_of(outputs_in(had).push(it@)) =~= ids_of(outputs_in(had)).push(id@));
                assert(views(outputs@.push(id)) =~= views(outputs@).push(id@));
            }
            outputs.push(id);
        } else {
            assert(calls_in(now) == calls_in(had));
            assert(outputs_in(now) == outputs_in(had));
        }
        i = i + 1;
    }
    assert(ts.take(ts.len() as int) =~= ts);
    assert(views(calls@).len() == calls_in(ts).len());
    assert(views(outputs@).len() == outputs_in(ts).len());
    let mut s = "\n             in input: ".to_owned();
    s.push_str(decimal(calls.len() as u64).as_str());
    s.push_str(" calls");
    let by_name = if names.len() > 0 {
        let mut t = " (".to_owned();
        t.push_str(tally(&names).as_str());
        t.push_str(")");
        t
    } else {
        String::new()
    };
    s.push_str(by_name.as_str());
    s.push_str(", ");
    s.push_str(decimal(outputs.len() as u64).as_str());
    s.push_str(" outputs");
    let no_output = without_partner(&calls, &outputs);
    let no_call = without_partner(&outputs, &calls);
    s.push_str(warned("\n             ⚠ calls without output: ", &no_output).as_str());
    s.push_str(warned("\n             ⚠ outputs without call: ", &no_call).as_str());
    s
}

/// What a request tells of tools: those that it declares, whether calls may run side by side,
/// and the calls and outputs in its history, with a warning on those that lack a partner.
pub fn tools_summary(req: &Json) -> (r: String)
    ensures
        r@ == tools_lines(req@),
{
    let mut s = declared_shown(req.array_at("tools"));
    let mut parallel = "\n             parallel_tool_calls=".to_owned();
    match req.get("parallel_tool_calls") {
        Some(v) => {
            if v.is_null() {
                parallel.push_str("-");
            } else {
                parallel.push_str(v.to_text().as_str());
            }
        },
        None => {
            parallel.push_str("-");
        },
    }
    s.push_str(parallel.as_str());
    let history = match req.array_at("input") {
        Some(items) => history_shown(items),
        None => {
            let items: Vec<Json> = Vec::new();
            assert(trees(items@) =~= Seq::<JsonV>::empty());
            history_shown(&items)
        },
    };
    s.push_str(history.as_str());
    s
}

/// An item by which it is counted: its type, a message with its role.
pub open spec fn item_key(it: JsonV) -> Seq<char> {
    let ty = or_text(
        it.text_at("type"@),
        if it.get("role"@) is Some {
            "message"@
        } else {
            "<no type>"@
        },
    );
    match it.text_at("role"@) {
        Some(role) => if ty == "message"@ {
            "message:"@ + role
        } else {
            ty
        },
        None => ty,
    }
}

/// The input items of a request, counted by type.
pub open spec fn items_line(req: JsonV) -> Seq<char> {
    match req.get("input"@) {
        Some(JsonV::Text(_)) => "    items  ▸ input is a string (one user message)"@,
        input => "    items  ▸ "@ + counts_or_dash(
            items_in(input).map_values(|it: JsonV| item_key(it)),
        ),
    }
}

fn key_of(it: &Json) -> (r: String)
    ensures
        r@ == item_key(it@),
{
    let ty = match it.text_at("type") {
        Some(t) => t,
        None => if it.get("role").is_some() {
            "message"
        } else {
            "<no type>"
        },
    };
    match it.text_at("role") {
        Some(role) => {
            if same(ty, "message") {
                let mut s = "message:".to_owned();
                s.push_str(role);
                s
            } else {
                ty.to_owned()
            }
        },
        None => ty.to_owned(),
    }
}

/// The input items of a request, counted by type, messages by role.
pub fn input_items_summary(req: &Json) -> (r: String)
    ensures
        r@ == items_line(req@),
{
    let mut keys: Vec<String> = Vec::new();
    match req.get("input") {
        Some(Json::Text(_)) => {
            return "    items  ▸ input is a string (one user message)".to_owned();
        },
        Some(v) => match v.as_array() {
            Some(items) => {
                let mut i: usize = 0;
                while i < items.len()
                    invariant
                        0 <= i <= items@.len(),
                        keys@.len() == i,
                        forall|j: int| 0 <= j < i ==> (#[trigger] keys@[j])@ == item_key(items@[j]@),
                    decreases items.len() - i,
                {
                    keys.push(key_of(&items[i]));
                    i = i + 1;
                }
                assert(views(keys@) =~= trees(items@).map_values(|it: JsonV| item_key(it)));
            },
            None => {},
        },
        None => {},
    }
    assert(views(keys@) =~= items_in(req@.get("input"@)).map_values(|it: JsonV| item_key(it)));
    let mut s = "    items  ▸ ".to_owned();
    s.push_str(tally_or_dash(&keys).as_str());
    s
}

/// Some mark has no partner exactly where one of them is not found among the partners.
proof fn lemma_unpaired(ids: Seq<Seq<char>>, partners: Seq<Seq<char>>)
    ensures
        unpaired(ids, partners).len() > 0 <==> exists|i: int|
            0 <= i < ids.len() && !partners.contains(#[trigger] ids[i]),
{
    let lonely = |id: Seq<char>| !partners.contains(id);
    let found = unpaired(ids, partners);
    if found.len() > 0 {
        lemma_filter_comes_from(ids, lonely, 0);
        let i = choose|i: int| 0 <= i < ids.len() && ids[i] == found[0];
        assert(!partners.contains(ids[i]));
    }
    if exists|i: int| 0 <= i < ids.len() && !partners.contains(#[trigger] ids[i]) {
        let i = choose|i: int| 0 <= i < ids.len() && !partners.contains(#[trigger] ids[i]);
        ids.lemma_filter_contains(lonely, i);
    }
}

/// What a filter keeps was there before.
proof fn lemma_filter_comes_from<A>(s: Seq<A>, keep: spec_fn(A) -> bool, k: int)
    requires
        0 <= k < s.filter(keep).len(),
    ensures
        s.contains(s.filter(keep)[k]),
        keep(s.filter(keep)[k]),
    decreases s.len(),
{
    reveal(Seq::filter);
    if s.len() > 0 {
        let before = s.drop_last().filter(keep);
        if k < before.len() {
            lemma_filter_comes_from(s.drop_last(), keep, k);
            let j = choose|j: int| 0 <= j < s.len() - 1 && s.drop_last()[j] == before[k];
            assert(s[j] == before[k]);
        } else {
            assert(s[s.len() - 1] == s.filter(keep)[k]);
        }
    }
}

/// The history is flagged where its calls and outputs do not pair up: a call whose mark no
/// output bears, or an output whose mark no call bears.
pub proof fn law_lonely_calls_and_outputs_are_flagged(items: Seq<JsonV>, i: int)
    requires
        0 <= i < items.len(),
        is_call(items[i]) || is_output(items[i]),
        forall|j: int|
            0 <= j < items.len() && (is_call(items[j]) <==> !is_call(items[i])) && (is_call(items[j])
                || is_output(items[j])) ==> call_id(#[trigger] items[j]) != call_id(items[i]),
    ensures
        history_lines(items).contains('⚠'),
{
    let calls = calls_in(items);
    let outputs = outputs_in(items);
    let called = |it: JsonV| is_call(it);
    let output = |it: JsonV| !is_call(it) && is_output(it);
    let (mine, others) = if is_call(items[i]) {
        (calls, outputs)
    } else {
        (outputs, calls)
    };
    if is_call(items[i]) {
        items.lemma_filter_contains(called, i);
    } else {
        items.lemma_filter_contains(output, i);
    }
    let k = choose|k: int| 0 <= k < mine.len() && mine[k] == items[i];
    assert(ids_of(mine)[k] == call_id(items[i]));
    assert(!ids_of(others).contains(call_id(items[i]))) by {
        if ids_of(others).contains(call_id(items[i])) {
            let m = choose|m: int|
                0 <= m < ids_of(others).len() && ids_of(others)[m] == call_id(items[i]);
            if is_call(items[i]) {
                lemma_filter_comes_from(items, output, m);
            } else {
                lemma_filter_comes_from(items, called, m);
            }
            let j = choose|j: int| 0 <= j < items.len() && items[j] == others[m];
            assert(call_id(items[j]) == call_id(items[i]));
        }
    }
    lemma_unpaired(ids_of(mine), ids_of(others));
    reveal_strlit("\n             ⚠ calls without output: ");
    reveal_strlit("\n             ⚠ outputs without call: ");
    let a = "\n             ⚠ calls without output: "@;
    let b = "\n             ⚠ outputs without call: "@;
    assert(a[14] == '⚠' && b[14] == '⚠');
    let first = warning(a, unpaired(ids_of(calls), ids_of(outputs)));
    let second = warning(b, unpaired(ids_of(outputs), ids_of(calls)));
    let all = history_lines(items);
    let cut = all.len() - second.len();
    let start = cut - first.len();
    if is_call(items[i]) {
        assert(first[14] == '⚠');
        assert(all[start + 14] == '⚠');
    } else {
        assert(second[14] == '⚠');
        assert(all[cut + 14] == '⚠');
    }
}

/// Where every call has an output and every output a call, no line warns of either.
pub proof fn law_paired_history_has_no_warning(items: Seq<JsonV>)
    requires
        forall|i: int|
            0 <= i < calls_in(items).len() ==> ids_of(outputs_in(items)).contains(
                call_id(#[trigger] calls_in(items)[i]),
            ),
        forall|i: int|
            0 <= i < outputs_in(items).len() ==> ids_of(calls_in(items)).contains(
                call_id(#[trigger] outputs_in(items)[i]),
            ),
    ensures
        unpaired(ids_of(calls_in(items)), ids_of(outputs_in(items))).len() == 0,
        unpaired(ids_of(outputs_in(items)), ids_of(calls_in(items))).len() == 0,
{
    lemma_unpaired(ids_of(calls_in(items)), ids_of(outputs_in(items)));
    lemma_unpaired(ids_of(outputs_in(items)), ids_of(calls_in(items)));
}

/// The tokens are those that the usage names: of the input and of the output, those of the input
/// that came from the cache, and those of the output that went into reasoning.
pub proof fn law_usage_is_what_was_told(
    u: JsonV,
    input: u64,
    output: u64,
    cached: u64,
    reasoning: u64,
)
    requires
        u.get("input_tokens"@) == Some(JsonV::Number(JsonNumber::Unsigned(input))),
        u.get("output_tokens"@) == Some(JsonV::Number(JsonNumber::Unsigned(output))),
    ensures
        usage_of(Some(u)) is Some,
        ({
            let told = usage_of(Some(u))->0;
            &&& told.input == input
            &&& told.output == output
            &&& u.get2("input_tokens_details"@, "cached_tokens"@) == Some(
                JsonV::Number(JsonNumber::Unsigned(cached)),
            ) ==> told.cached == Some(cached)
            &&& u.get2("output_tokens_details"@, "reasoning_tokens"@) == Some(
                JsonV::Number(JsonNumber::Unsigned(reasoning)),
            ) ==> told.reasoning == Some(reasoning)
            &&& u.get("input_tokens_details"@) is None ==> told.cached is None
            &&& u.get("output_tokens_details"@) is None ==> told.reasoning is None
        }),
{
}

/// The reason is why the response is incomplete, where it says so, else the message of its error.
pub proof fn law_reason_of_a_response(resp: JsonV, r: Seq<char>)
    ensures
        resp.get2("incomplete_details"@, "reason"@) == Some(JsonV::Text(r)) ==> reason_of(Some(resp))
            == Some(r),
        resp.get("incomplete_details"@) is None && resp.get2("error"@, "message"@) == Some(
            JsonV::Text(r),
        ) ==> reason_of(Some(resp)) == Some(r),
        resp.get("incomplete_details"@) is None && resp.get("error"@) is None ==> reason_of(
            Some(resp),
        ) is None,
        reason_of(None) is None,
{
}

/// The log tells the model and the status that the response names; the model that was asked where
/// it names none. It goes well only for a completed response without notes.
pub proof fn law_report_tells_the_response(
    r: Report,
    req_id: u64,
    stream: bool,
    elapsed: Elapsed,
    model: Seq<char>,
    resp: Option<JsonV>,
)
    requires
        is_report(r, req_id, stream, elapsed, model, resp),
    ensures
        r.req_id == req_id && r.stream == stream && r.elapsed == elapsed,
        resp matches Some(v) ==> (v.text_at("model"@) matches Some(m) ==> r.model@ == m) && (v.text_at(
            "model"@,
        ) is None ==> r.model@ == model) && opt_string_view(r.status) == v.text_at("status"@)
            && r.usage == usage_of(v.get("usage"@)),
        resp is None ==> r.model@ == model && r.status is None && r.usage is None && r.output@
            == "-"@,
        went_well(r) <==> resp is Some && resp->0.text_at("status"@) == Some("completed"@)
            && r.notes@.len() == 0,
{
}

/// Notes stand in their order, a line each.
pub proof fn law_notes_stand_in_order(a: Seq<Seq<char>>, n: Seq<char>)
    ensures
        note_lines(a.push(n)) == note_lines(a) + ("\n    note   ▸ "@ + n),
        note_lines(Seq::empty()).len() == 0,
{
    assert(a.push(n).drop_last() =~= a);
    assert(note_lines(a) + "\n    note   ▸ "@ + n =~= note_lines(a) + ("\n    note   ▸ "@ + n));
}

/// The question that the log shows is the last message that the user wrote, whatever stands before
/// it and whatever others say behind it; of a text input it is the text.
pub proof fn law_question_is_the_last_of_the_user(
    req: JsonV,
    a: Seq<JsonV>,
    m: JsonV,
    b: Seq<JsonV>,
    s: Seq<char>,
)
    ensures
        req.get("input"@) == Some(JsonV::Array(a + seq![m] + b)) && speaks_as(m, "user"@)
            && !injected(message_text(m)) && (forall|i: int|
            0 <= i < b.len() ==> !is_user_request(#[trigger] b[i])) ==> asked(req) == Some(
            message_text(m),
        ),
        req.get("input"@) == Some(JsonV::Text(s)) && !injected(s) ==> asked(req) == Some(s),
        req.get("input"@) is None ==> asked(req) is None,
{
    reveal_strlit("user");
    assert("user"@.len() == 4);
    law_roles(m, "user"@);
    if is_user_request(m) && (forall|i: int|
        0 <= i < b.len() ==> !is_user_request(#[trigger] b[i])) {
        law_last_request_is_the_last(a, m, b);
    }
    if req.get("input"@) == Some(JsonV::Text(s)) && !injected(s) {
        law_text_is_a_user_message(s);
        law_roles(user_message(s), "user"@);
        let none = Seq::<JsonV>::empty();
        law_last_request_is_the_last(none, user_message(s), none);
        assert(none + seq![user_message(s)] + none =~= seq![user_message(s)]);
    }
}

/// Which items call a tool and which hold what it gave back, and by what they find each other.
pub proof fn law_calls_and_outputs(it: JsonV, ty: Seq<char>, id: Seq<char>)
    requires
        it.text_at("type"@) == Some(ty),
    ensures
        is_call(it) <==> ty == "function_call"@ || ty == "custom_tool_call"@ || ty
            == "local_shell_call"@,
        is_output(it) <==> ty == "function_call_output"@ || ty == "custom_tool_call_output"@ || ty
            == "local_shell_call_output"@,
        it.text_at("call_id"@) == Some(id) ==> call_id(it) == id,
        it.text_at("call_id"@) is None ==> call_id(it).len() == 0,
{
    reveal_strlit("");
    assert(""@.len() == 0);
}

/// The marks without partner are named in their order: one more is named last, unless it has a
/// partner.
pub proof fn law_lonely_marks_stand_in_order(
    ids: Seq<Seq<char>>,
    id: Seq<char>,
    partners: Seq<Seq<char>>,
)
    ensures
        partners.contains(id) ==> unpaired(ids.push(id), partners) == unpaired(ids, partners),
        !partners.contains(id) ==> unpaired(ids.push(id), partners) == unpaired(ids, partners).push(
            id,
        ),
        unpaired(Seq::empty(), partners).len() == 0,
{
    reveal(Seq::filter);
    let keep = |id: Seq<char>| !partners.contains(id);
    assert(ids.push(id).drop_last() =~= ids);
    assert(ids.push(id).last() == id);
}

/// A tool is shown by its name and its type, a function with the names of its parameters in their
/// order, and a tool without a name by its type.
pub proof fn law_tools_are_shown(
    tool: JsonV,
    ty: Seq<char>,
    name: Seq<char>,
    fields: Seq<(Seq<char>, JsonV)>,
)
    requires
        tool.text_at("type"@) == Some(ty),
        name != "?"@,
    ensures
        ty == "function"@ && tool.text_at("name"@) == Some(name) && tool.get2(
            "parameters"@,
            "properties"@,
        ) == Some(JsonV::Object(fields)) ==> tool_text(tool) == name + "("@ + join(
            Seq::new(fields.len(), |i: int| fields[i].0),
            ", "@,
        ) + ") [function]"@,
        ty == "custom"@ && tool.text_at("name"@) == Some(name) ==> tool_text(tool) == name
            + " [custom]"@,
        ty != "function"@ && ty != "custom"@ && tool.text_at("name"@) == Some(name) ==> tool_text(
            tool,
        ) == name + " ["@ + ty + "]"@,
        ty != "function"@ && ty != "custom"@ && tool.text_at("name"@) is None ==> tool_text(tool)
            == "["@ + ty + "]"@,
{
    reveal_strlit("function");
    reveal_strlit("custom");
    assert("function"@.len() == 8 && "custom"@.len() == 6);
    if tool.get2("parameters"@, "properties"@) == Some(JsonV::Object(fields)) {
        assert(parameter_names(tool) =~= Seq::new(fields.len(), |i: int| fields[i].0));
    }
}

/// The tools that a request declares are counted and shown in their order: one more tool comes
/// last, behind the list of the others and a comma.
pub proof fn law_declared_tools_stand_in_order(tools: Seq<JsonV>, list: Seq<char>, tool: JsonV)
    requires
        declared_line(tools) == "    tools  ▸ declared ("@ + decimal_of(tools.len()) + "): "@ + list,
    ensures
        tools.len() == 0 ==> declared_line(tools.push(tool)) == "    tools  ▸ declared ("@ + decimal_of(
            1,
        ) + "): "@ + tool_text(tool),
        tools.len() > 0 ==> declared_line(tools.push(tool)) == "    tools  ▸ declared ("@ + decimal_of(
            tools.len() + 1,
        ) + "): "@ + (list + ", "@ + tool_text(tool)),
{
    let shown = |t: JsonV| tool_text(t);
    let parts = tools.map_values(shown);
    assert(tools.push(tool).map_values(shown) =~= parts + seq![tool_text(tool)]);
    law_join_of_two_lists(parts, seq![tool_text(tool)], ", "@);
    if tools.len() > 0 {
        let start = "    tools  ▸ declared ("@ + decimal_of(tools.len()) + "): "@;
        assert(declared_line(tools).skip(start.len() as int) =~= list);
        assert(declared_line(tools).skip(start.len() as int) =~= join(parts, ", "@));
    }
}

/// Input items are counted by their type, messages by their role as well.
pub proof fn law_items_are_counted_by_type(it: JsonV, role: Seq<char>, ty: Seq<char>)
    ensures
        speaks_as(it, role) ==> item_key(it) == "message:"@ + role,
        it.text_at("type"@) == Some(ty) && ty != "message"@ ==> item_key(it) == ty,
        it.text_at("type"@) is None && it.get("role"@) is None ==> item_key(it) == "<no type>"@,
{
}

/// The items of a request are counted one by one, whatever their number.
pub proof fn law_every_item_is_counted(req: JsonV, items: Seq<JsonV>)
    requires
        req.get("input"@) == Some(JsonV::Array(items)),
    ensures
        items.len() == 0 ==> items_line(req) == "    items  ▸ -"@,
        items.len() > 0 ==> items_line(req) == "    items  ▸ "@ + counts_text(
            counted(Seq::new(items.len(), |i: int| item_key(items[i]))),
        ),
        forall|output: Option<JsonV>|
            output == Some(JsonV::Array(items)) && items.len() > 0 ==> counts_or_dash(
                types_of(#[trigger] items_in(output)),
            ) == counts_text(
                counted(Seq::new(items.len(), |i: int| items[i].text_or("type"@, "?"@))),
            ),
{
    reveal_strlit("    items  ▸ ");
    reveal_strlit("    items  ▸ -");
    reveal_strlit("-");
    let keys = items.map_values(|it: JsonV| item_key(it));
    assert(keys =~= Seq::new(items.len(), |i: int| item_key(items[i])));
    assert("    items  ▸ "@ + "-"@ =~= "    items  ▸ -"@);
    assert(types_of(items) =~= Seq::new(items.len(), |i: int| items[i].text_or("type"@, "?"@)));
}

/// The question is shown with its length, in one line: its words with a blank between, cut after
/// 200 characters.
pub proof fn law_question_on_one_line(text: Seq<char>)
    ensures
        ({
            let flat = join(words(text), " "@);
            let start = "    ask    ▸ ("@ + grouped(text.len()) + " chars) "@;
            &&& flat.len() <= 200 ==> ask_line(Some(text)) == start + flat
            &&& flat.len() > 200 ==> ask_line(Some(text)) == start + flat.take(200).push('…')
        }),
{
    reveal_strlit("…");
    reveal_strlit("");
    let flat = join(words(text), " "@);
    let start = "    ask    ▸ ("@ + grouped(text.len()) + " chars) "@;
    assert(start + head(flat, 200) + ""@ =~= start + head(flat, 200));
    assert(start + flat.take(200) + "…"@ =~= start + flat.take(200).push('…'));
}

/// The first line on a response begins with the number of the request, tells the mode and the time,
/// and ends with the model, as it answered and as the client sees it.
pub proof fn law_response_line(r: Report)
    ensures
        starts_with(response_line(r), "#"@ + decimal_of(r.req_id as nat) + " ◀ response  ["@),
        r.stream ==> contains_text(response_line(r), "[stream, "@ + r.elapsed.shown() + "s"@),
        !r.stream ==> contains_text(response_line(r), "[non-stream, "@ + r.elapsed.shown() + "s"@),
        ends_with(response_line(r), "model="@ + r.model@ + " → "@ + shown_model(r.model@) + "]"@),
{
    let id = "#"@ + decimal_of(r.req_id as nat);
    let line = response_line(r);
    let last = "model="@ + r.model@ + " → "@ + shown_model(r.model@) + "]"@;
    reveal_strlit(" ◀ response  [");
    reveal_strlit(" ◀ response  ");
    reveal_strlit("stream");
    reveal_strlit("non-stream");
    reveal_strlit(", ");
    reveal_strlit("[stream, ");
    reveal_strlit("[non-stream, ");
    reveal_strlit("s");
    reveal_strlit("s, model=");
    reveal_strlit(", model=");
    reveal_strlit("model=");
    let time = (if r.stream {
        "[stream, "@
    } else {
        "[non-stream, "@
    }) + r.elapsed.shown() + "s"@;
    let a = id + " ◀ response  "@;
    let b = ", model="@ + r.model@ + " → "@ + shown_model(r.model@) + "]"@;
    assert(line =~= a + time + b);
    law_parts_of_a_text(a, time, b);
    let start = id + " ◀ response  ["@;
    let middle = line.subrange(start.len() as int, line.len() - last.len());
    assert(line =~= start + middle + last);
    law_parts_of_a_text(start, middle, last);
}

/// The tokens are shown with the input first and the output last; the share of hits is shown for
/// any input, and is none where there was no input.
pub proof fn law_usage_line(u: Usage, hit_rate: Seq<char>)
    ensures
        ({
            let line = usage_line(Some(u), hit_rate);
            &&& starts_with(line, "    usage  ▸ inp: "@ + grouped(u.input as nat) + ", cd-inp: "@)
            &&& u.reasoning is Some ==> ends_with(
                line,
                ", opt: "@ + grouped(u.output as nat) + " (reasoning: "@ + grouped(
                    u.reasoning->0 as nat,
                ) + ")"@,
            )
            &&& u.reasoning is None ==> ends_with(
                line,
                ", opt: "@ + grouped(u.output as nat) + " (reasoning: "@ + "n/a"@ + ")"@,
            )
            &&& u.cached is Some && u.input > 0 ==> contains_text(
                line,
                ", cd-inp: "@ + grouped(u.cached->0 as nat) + " ("@ + hit_rate + "%)"@,
            )
            &&& u.cached is Some && u.input == 0 ==> contains_text(
                line,
                ", cd-inp: "@ + grouped(u.cached->0 as nat) + " ("@ + "0.0"@ + "%)"@,
            )
            &&& u.cached is None ==> contains_text(line, ", cd-inp: "@ + "n/a"@)
        }),
{
    let line = usage_line(Some(u), hit_rate);
    let start = "    usage  ▸ inp: "@ + grouped(u.input as nat);
    let hits = match u.cached {
        Some(c) => ", cd-inp: "@ + grouped(c as nat) + " ("@ + (if u.input > 0 {
            hit_rate
        } else {
            "0.0"@
        }) + "%)"@,
        None => ", cd-inp: "@ + "n/a"@,
    };
    let thought = match u.reasoning {
        Some(n) => grouped(n as nat),
        None => "n/a"@,
    };
    let end = ", opt: "@ + grouped(u.output as nat) + " (reasoning: "@ + thought + ")"@;
    assert(line =~= start + hits + end);
    law_parts_of_a_text(start, hits, end);
    let first = start + ", cd-inp: "@;
    assert(line.take(first.len() as int) =~= first);
}

/// A response that did not go well is told with its status, its reason, its output and its tokens,
/// and with the notes at the end.
pub proof fn law_detail_lines(r: Report, hit_rate: Seq<char>)
    ensures
        ({
            let lines = detail_lines(r, hit_rate);
            &&& r.status matches Some(s) ==> starts_with(lines, "\n    stop   ▸ status = "@ + s@)
            &&& r.status is None ==> starts_with(
                lines,
                "\n    stop   ▸ status = "@ + "<MISSING> (no final response object)"@,
            )
            &&& r.reason matches Some(why) ==> contains_text(lines, "  | reason = "@ + why@)
            &&& contains_text(lines, "\n    output ▸ "@ + r.output@ + "\n"@)
            &&& ends_with(lines, usage_line(r.usage, hit_rate) + note_lines(views(r.notes@)))
        }),
{
    let lines = detail_lines(r, hit_rate);
    let status = "\n    stop   ▸ status = "@ + or_text(
        opt_string_view(r.status),
        "<MISSING> (no final response object)"@,
    );
    let reason = match opt_string_view(r.reason) {
        Some(reason) => "  | reason = "@ + reason,
        None => Seq::empty(),
    };
    let output = "\n    output ▸ "@ + r.output@ + "\n"@;
    let end = usage_line(r.usage, hit_rate) + note_lines(views(r.notes@));
    assert(lines =~= status + reason + (output + end));
    law_parts_of_a_text(status, reason, output + end);
    assert(lines =~= status + reason + output + end);
    law_parts_of_a_text(status + reason, output, end);
}

/// The colour of a request is that of its number, whatever follows it, in turn among eight.
pub proof fn law_color_goes_by_the_number(n: nat, rest: Seq<char>)
    requires
        n <= u64::MAX,
        rest.len() > 0 ==> !is_digit(rest[0]),
    ensures
        color_of("#"@ + decimal_of(n) + rest) == Some(REQ_COLORS@[(n % 8) as int]),
{
    reveal_strlit("#");
    let msg = "#"@ + decimal_of(n) + rest;
    assert(msg[0] == '#');
    assert(msg.skip(1) =~= decimal_of(n) + rest);
    law_decimal_stands_for_the_number(n);
    lemma_digit_run(decimal_of(n), rest);
    assert((decimal_of(n) + rest).take(decimal_of(n).len() as int) =~= decimal_of(n));
}

proof fn lemma_digit_run(digits: Seq<char>, rest: Seq<char>)
    requires
        forall|i: int| 0 <= i < digits.len() ==> is_digit(#[trigger] digits[i]),
        rest.len() > 0 ==> !is_digit(rest[0]),
    ensures
        digit_run(digits + rest) == digits.len(),
    decreases digits.len(),
{
    if digits.len() == 0 {
        assert(digits + rest =~= rest);
    } else {
        assert((digits + rest)[0] == digits[0]);
        assert((digits + rest).skip(1) =~= digits.skip(1) + rest);
        assert forall|i: int| 0 <= i < digits.skip(1).len() implies is_digit(
            #[trigger] digits.skip(1)[i],
        ) by {
            assert(digits.skip(1)[i] == digits[i + 1]);
        }
        lemma_digit_run(digits.skip(1), rest);
    }
}

/// What a request tells of tools begins with those that it declares and ends with its history;
/// between them stands whether calls may run side by side.
pub proof fn law_what_is_told_of_tools(req: JsonV, v: JsonV)
    ensures
        starts_with(tools_lines(req), declared_line(req.items_at("tools"@))),
        ends_with(tools_lines(req), history_lines(req.items_at("input"@))),
        req.get("parallel_tool_calls"@) == Some(v) && v != JsonV::Null ==> contains_text(
            tools_lines(req),
            "parallel_tool_calls="@ + rendered(v),
        ),
        req.get("parallel_tool_calls"@) is None || req.get("parallel_tool_calls"@) == Some(JsonV::Null)
            ==> contains_text(tools_lines(req), "parallel_tool_calls="@ + "-"@),
{
    reveal_strlit("\n             parallel_tool_calls=");
    reveal_strlit("\n             ");
    reveal_strlit("parallel_tool_calls=");
    let first = declared_line(req.items_at("tools"@));
    let middle = parallel_line(req);
    let last = history_lines(req.items_at("input"@));
    law_parts_of_a_text(first, middle, last);
    let said = match req.get("parallel_tool_calls"@) {
        Some(JsonV::Null) => "-"@,
        Some(v) => rendered(v),
        None => "-"@,
    };
    let inner = "parallel_tool_calls="@ + said;
    assert(tools_lines(req) =~= (first + "\n             "@) + inner + last);
    law_parts_of_a_text(first + "\n             "@, inner, last);
}

/// The calls and the outputs of a history are counted, and the calls by the names of their tools:
/// an item that is neither changes nothing.
pub proof fn law_history_counts_calls_and_outputs(items: Seq<JsonV>, it: JsonV)
    ensures
        starts_with(
            history_lines(items),
            "\n             in input: "@ + decimal_of(calls_in(items).len()) + " calls"@,
        ),
        contains_text(
            history_lines(items),
            ", "@ + decimal_of(outputs_in(items).len()) + " outputs"@,
        ),
        calls_in(items).len() > 0 ==> contains_text(
            history_lines(items),
            " calls ("@ + counts_text(
                counted(
                    Seq::new(
                        calls_in(items).len(),
                        |i: int| or_text(calls_in(items)[i].text_at("name"@), "local_shell"@),
                    ),
                ),
            ) + ")"@,
        ),
        is_call(it) ==> calls_in(items.push(it)) == calls_in(items).push(it) && outputs_in(
            items.push(it),
        ) == outputs_in(items),
        !is_call(it) && is_output(it) ==> calls_in(items.push(it)) == calls_in(items) && outputs_in(
            items.push(it),
        ) == outputs_in(items).push(it),
        !is_call(it) && !is_output(it) ==> calls_in(items.push(it)) == calls_in(items) && outputs_in(
            items.push(it),
        ) == outputs_in(items),
{
    reveal(Seq::filter);
    assert(items.push(it).drop_last() =~= items);
    assert(items.push(it).last() == it);
    let calls = calls_in(items);
    let outputs = outputs_in(items);
    reveal_strlit(" calls");
    reveal_strlit(" (");
    reveal_strlit(" calls (");
    let start = "\n             in input: "@ + decimal_of(calls.len());
    let named = if calls.len() > 0 {
        " ("@ + counts_text(counted(called_names(calls))) + ")"@
    } else {
        Seq::empty()
    };
    let count_part = ", "@ + decimal_of(outputs.len()) + " outputs"@;
    let end = warning(
        "\n             ⚠ calls without output: "@,
        unpaired(ids_of(calls), ids_of(outputs)),
    ) + warning(
        "\n             ⚠ outputs without call: "@,
        unpaired(ids_of(outputs), ids_of(calls)),
    );
    let all = history_lines(items);
    assert(all =~= (start + " calls"@ + named) + count_part + end);
    law_parts_of_a_text(start + " calls"@ + named, count_part, end);
    assert(all =~= (start + " calls"@) + named + (count_part + end));
    law_parts_of_a_text(start + " calls"@, named, count_part + end);
    if calls.len() > 0 {
        let names = called_names(calls);
        assert(names =~= Seq::new(
            calls.len(),
            |i: int| or_text(calls[i].text_at("name"@), "local_shell"@),
        ));
        let inner = " calls ("@ + counts_text(counted(names)) + ")"@;
        assert(all =~= start + inner + (count_part + end));
        law_parts_of_a_text(start, inner, count_part + end);
    }
}

/// A warning names every mark without partner, behind its label; without such marks there is none.
pub proof fn law_warnings_name_the_marks(label: Seq<char>, ids: Seq<Seq<char>>)
    ensures
        ids.len() == 0 ==> warning(label, ids).len() == 0,
        ids.len() > 0 ==> warning(label, ids) == label + join(ids, ", "@),
{
}

/// A message is written as it stands, with a line feed behind it; on a terminal a message on a
/// request stands between the code of its colour and the one that ends it.
pub proof fn law_messages_are_written_as_they_stand(msg: Seq<char>)
    ensures
        message_line(false, msg) == msg + "\n"@,
        color_of(msg) is None ==> message_line(true, msg) == msg + "\n"@,
        color_of(msg) matches Some(c) ==> message_line(true, msg) == "\x1b[38;5;"@ + decimal_of(
            c as nat,
        ) + "m"@ + msg + "\x1b[0m\n"@,
{
}

/// A level stands between blanks with its name, which a terminal shows in the colour of the level:
/// errors in red, warnings in yellow, information in green, the rest in blue and magenta.
pub proof fn law_levels_are_shown(level: Level)
    ensures
        level_name(level).len() == 5,
        level_text(false, level) == " "@ + level_name(level) + " "@,
        level_text(true, level) == " \x1b["@ + decimal_of(level_color(level)) + "m"@ + level_name(
            level,
        ) + "\x1b[0m "@,
        level_color(Level::Error) == 31 && level_color(Level::Info) == 32 && level_color(Level::Warn)
            == 33 && level_color(Level::Debug) == 34 && level_color(Level::Trace) == 35,
        level_name(Level::Error) == "ERROR"@ && level_name(Level::Warn) == " WARN"@ && level_name(
            Level::Info,
        ) == " INFO"@ && level_name(Level::Debug) == "DEBUG"@ && level_name(Level::Trace) == "TRACE"@,
{
    reveal_strlit("ERROR");
    reveal_strlit(" WARN");
    reveal_strlit(" INFO");
    reveal_strlit("DEBUG");
    reveal_strlit("TRACE");
}

} // verus!
