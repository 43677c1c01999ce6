//! Streaming replies: each line is passed on with the model prefixed, and the final response is
//! kept for the log.
use crate::codec::{json_of_text, parse_json, rendered};
use crate::convert::txt;
use crate::json::{law_with_then_get, opt_tree, text_in, Json, JsonV};
use crate::measure::Elapsed;
use crate::outside::{decode_lossy, text_of_bytes};
use crate::report::{is_report, Report};
use crate::text::{
    after_prefix, chars_of, decimal, decimal_of, has_prefix, is_blank, is_white,
    law_leading_white_space_is_trimmed, opt_string_view, opt_view, same, starts_with, text_of, trim_front, trim_start, views,
};
use crate::trainlog::{owned_tree, record_line, response_tree, Pending};
use vstd::prelude::*;
use vstd::slice::slice_subrange;
use vstd::utf8::{
    decode_first_scalar, decode_utf8, decode_utf8_encode_utf8, encode_utf8, length_of_first_scalar,
    pop_first_scalar, valid_first_scalar, valid_utf8,
};

verus! {

/// What the model of a reply is prefixed with.
pub const MODEL_PREFIX: &'static str = "viv-";

/// A model that is named, and not prefixed yet.
pub open spec fn lacks_prefix(model: Seq<char>) -> bool {
    model.len() > 0 && !starts_with(model, MODEL_PREFIX@)
}

/// A model as the client sees it.
pub open spec fn shown_model(model: Seq<char>) -> Seq<char> {
    if lacks_prefix(model) {
        MODEL_PREFIX@ + model
    } else {
        model
    }
}

/// The document names a model that is not prefixed yet.
pub open spec fn model_is_bare(v: JsonV) -> bool {
    match v.text_at("model"@) {
        Some(m) => lacks_prefix(m),
        None => false,
    }
}

/// The document with its own model prefixed.
pub open spec fn with_shown_model(v: JsonV) -> JsonV {
    match v.text_at("model"@) {
        Some(m) => if lacks_prefix(m) {
            v.with("model"@, txt(shown_model(m)))
        } else {
            v
        },
        None => v,
    }
}

/// The document, or the response in it, names a model that is not prefixed yet.
pub open spec fn needs_prefix(v: JsonV) -> bool {
    model_is_bare(v) || (v.get("response"@) matches Some(resp) && model_is_bare(resp))
}

/// The document with the models prefixed: its own, and that of the response in it.
pub open spec fn with_prefix(v: JsonV) -> JsonV {
    let top = with_shown_model(v);
    match v.get("response"@) {
        Some(resp) => if model_is_bare(resp) {
            top.with("response"@, with_shown_model(resp))
        } else {
            top
        },
        None => top,
    }
}

proof fn lemma_shown_model_has_prefix(m: Seq<char>)
    ensures
        !lacks_prefix(shown_model(m)),
{
    if lacks_prefix(m) {
        assert((MODEL_PREFIX@ + m).take(MODEL_PREFIX@.len() as int) =~= MODEL_PREFIX@);
    }
}

proof fn lemma_with_shown_model(v: JsonV, q: Seq<char>)
    ensures
        !model_is_bare(with_shown_model(v)),
        q != "model"@ ==> with_shown_model(v).get(q) == v.get(q),
        v.text_at("model"@) matches Some(m) ==> with_shown_model(v).text_at("model"@) == Some(
            shown_model(m),
        ),
        v is Object ==> with_shown_model(v) is Object,
{
    match v.text_at("model"@) {
        Some(m) => {
            lemma_shown_model_has_prefix(m);
            if lacks_prefix(m) {
                law_with_then_get(v, "model"@, txt(shown_model(m)), "model"@);
                law_with_then_get(v, "model"@, txt(shown_model(m)), q);
            }
        },
        None => {},
    }
}

proof fn lemma_response_is_not_model()
    ensures
        "response"@ != "model"@,
{
    reveal_strlit("response");
    reveal_strlit("model");
    assert("response"@.len() == 8 && "model"@.len() == 5);
}

/// The models, the document's own and that of the response in it, come out as the client sees
/// them; every other field stays as it is.
pub proof fn law_prefix_touches_models_alone(v: JsonV, q: Seq<char>)
    ensures
        q != "model"@ && q != "response"@ ==> with_prefix(v).get(q) == v.get(q),
        v.text_at("model"@) matches Some(m) ==> with_prefix(v).text_at("model"@) == Some(
            shown_model(m),
        ),
        v.get("response"@) matches Some(resp) ==> with_prefix(v).get("response"@) == Some(
            with_shown_model(resp),
        ),
        v.get("response"@) is None ==> with_prefix(v).get("response"@) is None,
        !needs_prefix(v) ==> with_prefix(v) == v,
{
    lemma_response_is_not_model();
    lemma_with_shown_model(v, q);
    lemma_with_shown_model(v, "response"@);
    let top = with_shown_model(v);
    match v.get("response"@) {
        Some(resp) => {
            if model_is_bare(resp) {
                law_with_then_get(top, "response"@, with_shown_model(resp), q);
                law_with_then_get(top, "response"@, with_shown_model(resp), "model"@);
                law_with_then_get(top, "response"@, with_shown_model(resp), "response"@);
            }
        },
        None => {},
    }
}

/// The prefix is added once: a document that has been prefixed needs no prefix.
pub proof fn law_prefix_is_added_once(v: JsonV)
    ensures
        !needs_prefix(with_prefix(v)),
        with_prefix(with_prefix(v)) == with_prefix(v),
{
    law_prefix_touches_models_alone(v, "model"@);
    lemma_with_shown_model(v, "model"@);
    lemma_response_is_not_model();
    let out = with_prefix(v);
    match v.get("response"@) {
        Some(resp) => {
            lemma_with_shown_model(resp, "model"@);
            if model_is_bare(resp) {
                law_with_then_get(
                    with_shown_model(v),
                    "response"@,
                    with_shown_model(resp),
                    "model"@,
                );
            }
        },
        None => {},
    }
    assert(!model_is_bare(out));
    law_prefix_touches_models_alone(out, "model"@);
}

fn bare(v: &Json) -> (r: Option<String>)
    ensures
        r is Some <==> model_is_bare(v@),
        r matches Some(m) ==> v@.text_at("model"@) matches Some(had) && m@ == shown_model(had),
{
    match v.text_at("model") {
        Some(m) => {
            if m.is_empty() || has_prefix(m, MODEL_PREFIX) {
                return None;
            }
            let mut shown = MODEL_PREFIX.to_owned();
            shown.push_str(m);
            Some(shown)
        },
        None => None,
    }
}

/// Prefixes the models of a reply, its own and that of the response in it, where they are not
/// prefixed yet. Says whether anything changed.
pub fn add_model_prefix(v: &mut Json) -> (r: bool)
    ensures
        final(v)@ == with_prefix(old(v)@),
        r == needs_prefix(old(v)@),
{
    let ghost before = v@;
    let mut doc = Json::Null;
    std::mem::swap(&mut doc, v);
    let mut changed = false;
    match bare(&doc) {
        Some(m) => {
            doc = doc.with("model", Json::Text(m));
            changed = true;
        },
        None => {},
    }
    proof {
        lemma_response_is_not_model();
        lemma_with_shown_model(before, "response"@);
        assert(doc@ == with_shown_model(before));
    }
    let inner = match doc.get("response") {
        Some(resp) => match bare(resp) {
            Some(m) => Some(resp.clone().with("model", Json::Text(m))),
            None => None,
        },
        None => None,
    };
    match inner {
        Some(resp) => {
            doc = doc.with("response", resp);
            changed = true;
        },
        None => {},
    }
    *v = doc;
    changed
}

/// A line without the line ending.
pub open spec fn body_of(line: Seq<char>) -> Seq<char>
    decreases line.len(),
{
    if line.len() > 0 && (line.last() == '\r' || line.last() == '\n') {
        body_of(line.drop_last())
    } else {
        line
    }
}

/// What a `data:` line of the stream carries.
pub open spec fn data_of(line: Seq<char>) -> Option<Seq<char>> {
    if starts_with(body_of(line), "data:"@) {
        Some(trim_front(body_of(line).skip("data:"@.len() as int)))
    } else {
        None
    }
}

/// The event on a line, where it carries JSON.
pub open spec fn event_in(line: Seq<char>) -> Option<JsonV> {
    match data_of(line) {
        Some(data) => match json_of_text(data) {
            Ok(event) => Some(event),
            Err(_) => None,
        },
        None => None,
    }
}

/// A line as it is passed on: written anew where a model has to be prefixed, else as it came.
pub open spec fn rewritten(line: Seq<char>, event: Option<JsonV>) -> Seq<char> {
    match event {
        Some(ev) => if needs_prefix(ev) {
            "data: "@ + rendered(with_prefix(ev)) + line.skip(body_of(line).len() as int)
        } else {
            line
        },
        None => line,
    }
}

fn split_ending(line: &str) -> (r: (String, String))
    ensures
        r.0@ == body_of(line@),
        r.1@ == line@.skip(body_of(line@).len() as int),
{
    let cs = chars_of(line);
    let mut n: usize = cs.len();
    assert(line@.take(n as int) =~= line@);
    while n > 0 && (cs[n - 1] == '\r' || cs[n - 1] == '\n')
        invariant
            0 <= n <= cs@.len(),
            cs@ == line@,
            body_of(line@) == body_of(line@.take(n as int)),
        decreases n,
    {
        assert(line@.take(n as int).drop_last() =~= line@.take(n - 1));
        n = n - 1;
    }
    let body = text_of(&cs, 0, n);
    let ending = text_of(&cs, n, cs.len());
    assert(body@ =~= line@.take(n as int));
    assert(ending@ =~= line@.skip(n as int));
    (body, ending)
}

/// What a `data:` line of the stream carries.
pub fn line_data(line: &str) -> (r: Option<String>)
    ensures
        match r {
            Some(d) => data_of(line@) == Some(d@),
            None => data_of(line@) is None,
        },
{
    let (body, _) = split_ending(line);
    match after_prefix(body.as_str(), "data:") {
        Some(d) => Some(trim_start(d.as_str())),
        None => None,
    }
}

/// A line as it is passed on, where the event on it is known.
pub fn rewrite_event(line: &str, event: Option<&Json>) -> (r: String)
    ensures
        r@ == rewritten(line@, opt_tree(event)),
{
    match event {
        Some(ev) => {
            let mut out = ev.clone();
            if !add_model_prefix(&mut out) {
                return line.to_owned();
            }
            let (_, ending) = split_ending(line);
            let mut s = "data: ".to_owned();
            s.push_str(out.to_text().as_str());
            s.push_str(ending.as_str());
            s
        },
        None => line.to_owned(),
    }
}

/// A line as it is passed on, and the event on it as it came. Only a `data:` line whose JSON
/// names a model without the prefix is written anew.
pub fn rewrite_line(line: &str) -> (r: (String, Option<Json>))
    ensures
        r.0@ == rewritten(line@, event_in(line@)),
        match r.1 {
            Some(ev) => event_in(line@) == Some(ev@),
            None => event_in(line@) is None,
        },
{
    let event = match line_data(line) {
        Some(data) => match parse_json(data.as_str()) {
            Ok(ev) => Some(ev),
            Err(_) => None,
        },
        None => None,
    };
    let out = rewrite_event(line, event.as_ref());
    (out, event)
}

/// A relay as a mathematical state.
pub ghost struct RelayV {
    pub req_id: u64,
    pub model: Seq<char>,
    /// The response in the last event that closes one.
    pub final_resp: Option<JsonV>,
    /// The error that the last error event tells of.
    pub error: Option<Seq<char>>,
    pub events: int,
    pub client_gone: bool,
    /// What has come of a line that is not complete yet.
    pub rest: Seq<u8>,
    pub pending: Option<JsonV>,
}

/// An event that closes the response.
pub open spec fn closes(ev: JsonV) -> bool {
    let ty = ev.text_or("type"@, ""@);
    ty == "response.completed"@ || ty == "response.incomplete"@ || ty == "response.failed"@
}

/// What an error event tells: its message, else that of the error in it, else the whole event.
pub open spec fn fault_of(ev: JsonV) -> Seq<char> {
    let message = match ev.get("message"@) {
        Some(m) => Some(m),
        None => ev.get2("error"@, "message"@),
    };
    match text_in(message) {
        Some(m) => m,
        None => rendered(ev),
    }
}

/// The relay after one more event.
pub open spec fn after_event(st: RelayV, ev: JsonV) -> RelayV {
    let st = RelayV {
        events: if st.events < u64::MAX {
            st.events + 1
        } else {
            st.events
        },
        ..st
    };
    if closes(ev) {
        RelayV { final_resp: ev.get("response"@), ..st }
    } else if ev.text_or("type"@, ""@) == "error"@ {
        RelayV { error: Some(fault_of(ev)), ..st }
    } else {
        st
    }
}

/// The relay after one more line.
pub open spec fn after_line(st: RelayV, line: Seq<char>) -> RelayV {
    match event_in(line) {
        Some(ev) => after_event(st, ev),
        None => st,
    }
}

/// The position of the first line feed, or the number of bytes where there is none.
pub open spec fn line_feed_at(bytes: Seq<u8>) -> int
    decreases bytes.len(),
{
    if bytes.len() == 0 || bytes[0] == 10 {
        0
    } else {
        1 + line_feed_at(bytes.skip(1))
    }
}

/// The relay after all complete lines of `bytes`, and what is passed on for them. What follows
/// the last line feed waits.
pub open spec fn after_lines(st: RelayV, bytes: Seq<u8>) -> (RelayV, Seq<char>)
    decreases bytes.len(),
{
    let at = line_feed_at(bytes);
    if 0 <= at < bytes.len() {
        let line = text_of_bytes(bytes.take(at + 1));
        let (end, out) = after_lines(after_line(st, line), bytes.skip(at + 1));
        (end, rewritten(line, event_in(line)) + out)
    } else {
        (RelayV { rest: bytes, ..st }, Seq::empty())
    }
}

/// The relay after one more chunk of the stream, and what is passed on for it.
pub open spec fn after_chunk(st: RelayV, chunk: Seq<u8>) -> (RelayV, Seq<char>) {
    after_lines(st, st.rest + chunk)
}

proof fn lemma_line_feed_at(bytes: Seq<u8>)
    ensures
        0 <= line_feed_at(bytes) <= bytes.len(),
        line_feed_at(bytes) < bytes.len() ==> bytes[line_feed_at(bytes)] == 10,
        forall|j: int| 0 <= j < line_feed_at(bytes) ==> #[trigger] bytes[j] != 10,
    decreases bytes.len(),
{
    if bytes.len() > 0 && bytes[0] != 10 {
        lemma_line_feed_at(bytes.skip(1));
        assert forall|j: int| 0 <= j < line_feed_at(bytes) implies #[trigger] bytes[j] != 10 by {
            if j > 0 {
                assert(bytes[j] == bytes.skip(1)[j - 1]);
            }
        }
    }
}

proof fn lemma_line_feed_at_unique(bytes: Seq<u8>, at: int)
    requires
        0 <= at <= bytes.len(),
        at < bytes.len() ==> bytes[at] == 10,
        forall|j: int| 0 <= j < at ==> #[trigger] bytes[j] != 10,
    ensures
        line_feed_at(bytes) == at,
{
    lemma_line_feed_at(bytes);
    let f = line_feed_at(bytes);
    if f < at {
        assert(bytes[f] != 10);
    }
    if at < f {
        assert(bytes[at] != 10);
    }
}

/// What waits does not matter to the lines that follow.
proof fn lemma_rest_is_replaced(st: RelayV, other: Seq<u8>, bytes: Seq<u8>)
    ensures
        after_lines(RelayV { rest: other, ..st }, bytes) == after_lines(st, bytes),
    decreases bytes.len(),
{
    lemma_line_feed_at(bytes);
    let at = line_feed_at(bytes);
    if at < bytes.len() {
        let line = text_of_bytes(bytes.take(at + 1));
        let next = after_line(st, line);
        assert(after_line(RelayV { rest: other, ..st }, line) == RelayV { rest: other, ..next });
        lemma_rest_is_replaced(next, other, bytes.skip(at + 1));
    }
}

proof fn lemma_lines_split(st: RelayV, a: Seq<u8>, b: Seq<u8>)
    ensures
        ({
            let (mid, first) = after_lines(st, a);
            let (end, second) = after_lines(mid, mid.rest + b);
            &&& after_lines(st, a + b).0 == end
            &&& after_lines(st, a + b).1 == first + second
        }),
    decreases a.len(),
{
    lemma_line_feed_at(a);
    let at = line_feed_at(a);
    if at < a.len() {
        let all = a + b;
        assert forall|j: int| 0 <= j < at implies #[trigger] all[j] != 10 by {
            assert(a[j] != 10);
        }
        lemma_line_feed_at_unique(all, at);
        assert(all.take(at + 1) =~= a.take(at + 1));
        assert(all.skip(at + 1) =~= a.skip(at + 1) + b);
        let line = text_of_bytes(a.take(at + 1));
        let next = after_line(st, line);
        lemma_lines_split(next, a.skip(at + 1), b);
        let (mid, first) = after_lines(next, a.skip(at + 1));
        let (end, second) = after_lines(mid, mid.rest + b);
        let here = rewritten(line, event_in(line));
        assert(here + (first + second) =~= here + first + second);
    } else {
        let mid = RelayV { rest: a, ..st };
        lemma_rest_is_replaced(st, a, a + b);
        assert(Seq::<char>::empty() + after_lines(mid, a + b).1 =~= after_lines(mid, a + b).1);
    }
}

/// It does not matter how the stream is cut into chunks: two chunks one after the other leave
/// the relay, and pass on, what both together do.
pub proof fn law_chunks_may_be_joined(st: RelayV, a: Seq<u8>, b: Seq<u8>)
    ensures
        after_chunk(st, a + b).0 == after_chunk(after_chunk(st, a).0, b).0,
        after_chunk(st, a + b).1 == after_chunk(st, a).1 + after_chunk(after_chunk(st, a).0, b).1,
{
    assert(st.rest + (a + b) =~= st.rest + a + b);
    lemma_lines_split(st, st.rest + a, b);
}

/// The relay after several chunks, and what is passed on for them.
pub open spec fn after_chunks(st: RelayV, chunks: Seq<Seq<u8>>) -> (RelayV, Seq<char>)
    decreases chunks.len(),
{
    if chunks.len() == 0 {
        (st, Seq::empty())
    } else {
        let (mid, first) = after_chunks(st, chunks.drop_last());
        let (end, second) = after_chunk(mid, chunks.last());
        (end, first + second)
    }
}

/// The bytes of several chunks.
pub open spec fn bytes_of(chunks: Seq<Seq<u8>>) -> Seq<u8>
    decreases chunks.len(),
{
    if chunks.len() == 0 {
        Seq::empty()
    } else {
        bytes_of(chunks.drop_last()) + chunks.last()
    }
}

/// However the stream is cut into chunks, the relay ends up the same and passes on the same as
/// if it had come in one piece.
pub proof fn law_any_cut_gives_the_same(st: RelayV, chunks: Seq<Seq<u8>>)
    requires
        !st.rest.contains(10),
    ensures
        after_chunks(st, chunks) == after_chunk(st, bytes_of(chunks)),
    decreases chunks.len(),
{
    if chunks.len() == 0 {
        assert(st.rest + bytes_of(chunks) =~= st.rest);
        assert forall|j: int| 0 <= j < st.rest.len() implies #[trigger] st.rest[j] != 10 by {
            assert(st.rest.contains(st.rest[j]));
        }
        lemma_line_feed_at_unique(st.rest, st.rest.len() as int);
    } else {
        law_any_cut_gives_the_same(st, chunks.drop_last());
        law_chunks_may_be_joined(st, bytes_of(chunks.drop_last()), chunks.last());
    }
}

/// What waits is never a complete line.
pub proof fn law_nothing_complete_waits(st: RelayV, chunk: Seq<u8>)
    ensures
        !after_chunk(st, chunk).0.rest.contains(10),
{
    lemma_rest_has_no_line_feed(st, st.rest + chunk);
}

proof fn lemma_rest_has_no_line_feed(st: RelayV, bytes: Seq<u8>)
    ensures
        !after_lines(st, bytes).0.rest.contains(10),
    decreases bytes.len(),
{
    lemma_line_feed_at(bytes);
    let at = line_feed_at(bytes);
    if at < bytes.len() {
        lemma_rest_has_no_line_feed(
            after_line(st, text_of_bytes(bytes.take(at + 1))),
            bytes.skip(at + 1),
        );
    }
}

/// What is passed on for a whole stream: its complete lines, and a last one without line feed.
pub open spec fn passed_on(st: RelayV, bytes: Seq<u8>) -> Seq<char> {
    let (mid, out) = after_lines(st, bytes);
    let last = text_of_bytes(mid.rest);
    if mid.rest.len() > 0 {
        out + rewritten(last, event_in(last))
    } else {
        out
    }
}

/// The lines of a stream, each with its line feed; the last one may lack it.
pub open spec fn lines_in(bytes: Seq<u8>) -> Seq<Seq<u8>>
    decreases bytes.len(),
{
    let at = line_feed_at(bytes);
    if 0 <= at < bytes.len() {
        seq![bytes.take(at + 1)] + lines_in(bytes.skip(at + 1))
    } else if bytes.len() > 0 {
        seq![bytes]
    } else {
        Seq::empty()
    }
}

/// The lines as they are passed on, one after the other.
pub open spec fn rewritten_lines(lines: Seq<Seq<u8>>) -> Seq<char>
    decreases lines.len(),
{
    if lines.len() == 0 {
        Seq::empty()
    } else {
        let line = text_of_bytes(lines[0]);
        rewritten(line, event_in(line)) + rewritten_lines(lines.skip(1))
    }
}

/// What is passed on for a stream is what is passed on for its lines, in order, and each line is
/// passed on by itself.
pub proof fn law_stream_is_passed_on_by_lines(st: RelayV, bytes: Seq<u8>)
    ensures
        passed_on(st, bytes) == rewritten_lines(lines_in(bytes)),
    decreases bytes.len(),
{
    lemma_line_feed_at(bytes);
    let at = line_feed_at(bytes);
    if at < bytes.len() {
        let line = text_of_bytes(bytes.take(at + 1));
        let rest = bytes.skip(at + 1);
        law_stream_is_passed_on_by_lines(after_line(st, line), rest);
        let here = rewritten(line, event_in(line));
        let (mid, out) = after_lines(after_line(st, line), rest);
        let last = text_of_bytes(mid.rest);
        assert(lines_in(bytes)[0] == bytes.take(at + 1));
        assert(lines_in(bytes).skip(1) =~= lines_in(rest));
        assert(here + out + rewritten(last, event_in(last)) =~= here + (out + rewritten(
            last,
            event_in(last),
        )));
    } else if bytes.len() > 0 {
        let line = text_of_bytes(bytes);
        assert(lines_in(bytes).skip(1) =~= Seq::<Seq<u8>>::empty());
        assert(rewritten_lines(lines_in(bytes).skip(1)) == Seq::<char>::empty());
        let here = rewritten(line, event_in(line));
        assert(Seq::<char>::empty() + here =~= here);
        assert(here + Seq::<char>::empty() =~= here);
    }
}

/// No line of the stream carries an event with a model to prefix.
pub open spec fn nothing_to_prefix(bytes: Seq<u8>) -> bool {
    forall|i: int|
        0 <= i < lines_in(bytes).len() ==> (event_in(
            text_of_bytes(#[trigger] lines_in(bytes)[i]),
        ) matches Some(ev) ==> !needs_prefix(ev))
}

/// A line feed stands between characters: both sides of it are UTF-8 where the whole is.
proof fn lemma_split_at_line_feed(bytes: Seq<u8>, n: int)
    requires
        valid_utf8(bytes),
        0 < n <= bytes.len(),
        bytes[n - 1] == 10,
    ensures
        valid_utf8(bytes.take(n)),
        valid_utf8(bytes.skip(n)),
        decode_utf8(bytes) == decode_utf8(bytes.take(n)) + decode_utf8(bytes.skip(n)),
    decreases bytes.len(),
{
    let k = length_of_first_scalar(bytes);
    let head = bytes.take(n);
    assert(k <= n);
    assert(valid_first_scalar(head));
    assert(length_of_first_scalar(head) == k);
    assert(decode_first_scalar(head) == decode_first_scalar(bytes));
    let rest = pop_first_scalar(bytes);
    if k == n {
        assert(pop_first_scalar(head) =~= Seq::<u8>::empty());
        assert(valid_utf8(Seq::<u8>::empty()));
        assert(rest =~= bytes.skip(n));
        assert(decode_utf8(pop_first_scalar(head)) == Seq::<char>::empty());
    } else {
        assert(rest[n - k - 1] == bytes[n - 1]);
        lemma_split_at_line_feed(rest, n - k);
        assert(pop_first_scalar(head) =~= rest.take(n - k));
        assert(rest.skip(n - k) =~= bytes.skip(n));
    }
    assert(valid_utf8(head));
    assert(decode_utf8(bytes) =~= decode_utf8(head) + decode_utf8(bytes.skip(n)));
}

/// A stream of UTF-8 in which no event has a model to prefix is passed on as it came, character
/// by character and byte by byte.
pub proof fn law_plain_stream_passes_unchanged(st: RelayV, bytes: Seq<u8>)
    requires
        valid_utf8(bytes),
        nothing_to_prefix(bytes),
    ensures
        passed_on(st, bytes) == decode_utf8(bytes),
        encode_utf8(passed_on(st, bytes)) == bytes,
{
    law_stream_is_passed_on_by_lines(st, bytes);
    lemma_plain_lines(bytes);
    decode_utf8_encode_utf8(bytes);
}

proof fn lemma_plain_lines(bytes: Seq<u8>)
    requires
        valid_utf8(bytes),
        nothing_to_prefix(bytes),
    ensures
        rewritten_lines(lines_in(bytes)) == decode_utf8(bytes),
    decreases bytes.len(),
{
    lemma_line_feed_at(bytes);
    let at = line_feed_at(bytes);
    let lines = lines_in(bytes);
    if at < bytes.len() {
        let rest = bytes.skip(at + 1);
        lemma_split_at_line_feed(bytes, at + 1);
        assert(lines[0] == bytes.take(at + 1));
        assert(lines.skip(1) =~= lines_in(rest));
        assert forall|i: int| 0 <= i < lines_in(rest).len() implies (event_in(
            text_of_bytes(#[trigger] lines_in(rest)[i]),
        ) matches Some(ev) ==> !needs_prefix(ev)) by {
            assert(lines[i + 1] == lines_in(rest)[i]);
        }
        lemma_plain_lines(rest);
    } else if bytes.len() > 0 {
        assert(lines[0] == bytes);
        assert(lines.skip(1) =~= Seq::<Seq<u8>>::empty());
        assert(rewritten_lines(lines.skip(1)) == Seq::<char>::empty());
        assert(decode_utf8(bytes) + Seq::<char>::empty() =~= decode_utf8(bytes));
    }
}

/// What a relay passes on for a stream that comes in chunks, to a client that stays: what it
/// passes on for the chunks, and then for what is left at the end.
pub open spec fn relayed(st: RelayV, chunks: Seq<Seq<u8>>) -> Seq<char> {
    let (mid, out) = after_chunks(st, chunks);
    let last = text_of_bytes(mid.rest);
    if mid.rest.len() > 0 {
        out + rewritten(last, event_in(last))
    } else {
        out
    }
}

/// However a stream is cut into chunks, even inside a line or a character, a new relay passes on
/// its lines in order, each by itself; and the stream as it came, where it is UTF-8 and no event
/// has a model to prefix.
pub proof fn law_stream_arrives_whole(st: RelayV, chunks: Seq<Seq<u8>>)
    requires
        st.rest.len() == 0,
    ensures
        relayed(st, chunks) == rewritten_lines(lines_in(bytes_of(chunks))),
        valid_utf8(bytes_of(chunks)) && nothing_to_prefix(bytes_of(chunks)) ==> {
            &&& relayed(st, chunks) == decode_utf8(bytes_of(chunks))
            &&& encode_utf8(relayed(st, chunks)) == bytes_of(chunks)
        },
{
    let bytes = bytes_of(chunks);
    law_any_cut_gives_the_same(st, chunks);
    assert(st.rest + bytes =~= bytes);
    assert(relayed(st, chunks) == passed_on(st, bytes));
    law_stream_is_passed_on_by_lines(st, bytes);
    if valid_utf8(bytes) && nothing_to_prefix(bytes) {
        law_plain_stream_passes_unchanged(st, bytes);
    }
}

/// A line that carries no JSON, or whose models need no prefix, is passed on as it came.
pub proof fn law_other_lines_pass_unchanged(line: Seq<char>)
    requires
        event_in(line) matches Some(ev) ==> !needs_prefix(ev),
    ensures
        rewritten(line, event_in(line)) == line,
{
}

/// A stream that is passed on to the client, with what is kept of it for the log.
pub struct Relay {
    req_id: u64,
    model: String,
    final_resp: Option<Json>,
    error: Option<String>,
    events: u64,
    client_gone: bool,
    rest: Vec<u8>,
    pending: Option<Pending>,
}

impl View for Relay {
    type V = RelayV;

    closed spec fn view(&self) -> RelayV {
        RelayV {
            req_id: self.req_id,
            model: self.model@,
            final_resp: owned_tree(self.final_resp),
            error: opt_string_view(self.error),
            events: self.events as int,
            client_gone: self.client_gone,
            rest: self.rest@,
            pending: match self.pending {
                Some(p) => Some(p@),
                None => None,
            },
        }
    }
}

/// What is left to do when a stream has ended: the line for the record, and the report.
pub struct RelayEnd {
    pub record: Option<String>,
    pub report: Report,
}

/// What went wrong with a stream: reading it, else what an error event told; else that it ended
/// without a closing event, where the client was there to the end.
pub open spec fn stream_fault(st: RelayV, read_error: Option<Seq<char>>) -> Option<Seq<char>> {
    let told = match read_error {
        Some(e) => Some(e),
        None => st.error,
    };
    if !st.client_gone && st.final_resp is None && told is None {
        Some(
            "upstream stream ended without response.completed / incomplete / failed (after "@
                + decimal_of(st.events as nat) + " events)"@,
        )
    } else {
        told
    }
}

/// What the log notes of a stream.
pub open spec fn stream_notes(client_gone: bool, fault: Option<Seq<char>>) -> Seq<Seq<char>> {
    let gone = if client_gone {
        seq!["client disconnected before the response finished"@]
    } else {
        Seq::empty()
    };
    match fault {
        Some(e) => gone.push("ERROR: "@ + e),
        None => gone,
    }
}

/// The error that the record of a stream holds.
pub open spec fn recorded_fault(client_gone: bool, fault: Option<Seq<char>>) -> Option<Seq<char>> {
    match fault {
        Some(e) => Some(e),
        None => if client_gone {
            Some("client disconnected"@)
        } else {
            None
        },
    }
}

/// A stream that ends well leaves nothing to note: the client stayed, a closing event came, and
/// no error did.
pub proof fn law_clean_stream_has_no_notes(st: RelayV)
    requires
        !st.client_gone,
        st.final_resp is Some,
        st.error is None,
    ensures
        stream_notes(st.client_gone, stream_fault(st, None)).len() == 0,
        recorded_fault(st.client_gone, stream_fault(st, None)) is None,
{
}

/// A stream that ends in any other way leaves an error in its record.
pub proof fn law_broken_stream_is_recorded(st: RelayV, read_error: Option<Seq<char>>)
    requires
        st.client_gone || st.final_resp is None || st.error is Some || read_error is Some,
    ensures
        recorded_fault(st.client_gone, stream_fault(st, read_error)) is Some,
        stream_notes(st.client_gone, stream_fault(st, read_error)).len() > 0,
{
}

/// The view of a record that may be missing.
pub open spec fn pending_view(p: Option<Pending>) -> Option<JsonV> {
    match p {
        Some(p) => Some(p@),
        None => None,
    }
}

impl Relay {
    /// A relay for a request with the model `model`; `pending` is its record, where one is kept.
    pub fn new(req_id: u64, model: String, pending: Option<Pending>) -> (r: Relay)
        ensures
            r@ == (RelayV {
                req_id,
                model: model@,
                final_resp: None,
                error: None,
                events: 0,
                client_gone: false,
                rest: Seq::empty(),
                pending: pending_view(pending),
            }),
    {
        let r = Relay {
            req_id,
            model,
            final_resp: None,
            error: None,
            events: 0,
            client_gone: false,
            rest: Vec::new(),
            pending,
        };
        assert(r@.rest =~= Seq::<u8>::empty());
        r
    }

    /// Takes note of an event: a closing one brings the response, an error event the error.
    pub fn take_event(&mut self, ev: &Json)
        ensures
            final(self)@ == after_event(old(self)@, ev@),
    {
        if self.events < u64::MAX {
            self.events = self.events + 1;
        }
        let ty = ev.text_or("type", "");
        if same(ty, "response.completed") || same(ty, "response.incomplete") || same(
            ty,
            "response.failed",
        ) {
            self.final_resp = match ev.get("response") {
                Some(resp) => Some(resp.clone()),
                None => None,
            };
        } else if same(ty, "error") {
            let message = match ev.get("message") {
                Some(m) => Some(m),
                None => ev.get2("error", "message"),
            };
            let text = match message {
                Some(m) => m.as_str(),
                None => None,
            };
            self.error = Some(
                match text {
                    Some(m) => m.to_owned(),
                    None => ev.to_text(),
                },
            );
        }
    }

    /// Takes one line of the stream, and says what is passed on for it.
    pub fn process_line(&mut self, line: &str) -> (r: String)
        ensures
            final(self)@ == after_line(old(self)@, line@),
            r@ == rewritten(line@, event_in(line@)),
    {
        let (out, event) = rewrite_line(line);
        match event {
            Some(ev) => {
                self.take_event(&ev);
            },
            None => {},
        }
        out
    }

    /// Takes a chunk of the stream, and says what is passed on for the lines that it completes.
    pub fn feed(&mut self, chunk: &[u8]) -> (r: String)
        ensures
            final(self)@ == after_chunk(old(self)@, chunk@).0,
            r@ == after_chunk(old(self)@, chunk@).1,
    {
        let ghost start_state = self@;
        let mut all: Vec<u8> = Vec::new();
        std::mem::swap(&mut all, &mut self.rest);
        all.extend_from_slice(chunk);
        assert(all@ =~= start_state.rest + chunk@);
        let mut out = String::new();
        let mut start: usize = 0;
        let mut i: usize = 0;
        proof {
            assert(self@.rest =~= Seq::<u8>::empty());
            assert(self@ == RelayV { rest: Seq::empty(), ..start_state });
            lemma_rest_is_replaced(start_state, Seq::empty(), all@);
            assert(all@.skip(0) =~= all@);
            assert(out@ + after_lines(self@, all@).1 =~= after_lines(self@, all@).1);
        }
        let ghost goal = after_lines(start_state, all@);
        while i < all.len()
            invariant
                0 <= start <= i <= all@.len(),
                goal == after_lines(start_state, all@),
                after_lines(self@, all@.skip(start as int)).0 == goal.0,
                out@ + after_lines(self@, all@.skip(start as int)).1 == goal.1,
                forall|j: int| start <= j < i ==> #[trigger] all@[j] != 10,
            decreases all.len() - i,
        {
            if all[i] == 10 {
                let ghost tail = all@.skip(start as int);
                let ghost before = self@;
                let ghost had = out@;
                let raw = slice_subrange(all.as_slice(), start, i + 1);
                let line = decode_lossy(raw);
                let text = self.process_line(line.as_str());
                proof {
                    let at = i - start;
                    assert(tail[at] == 10);
                    assert forall|j: int| 0 <= j < at implies #[trigger] tail[j] != 10 by {
                        assert(tail[j] == all@[start + j]);
                    }
                    lemma_line_feed_at_unique(tail, at);
                    assert(raw@ =~= tail.take(at + 1));
                    assert(tail.skip(at + 1) =~= all@.skip(i + 1));
                    let later = after_lines(self@, all@.skip(i + 1)).1;
                    assert(after_lines(before, tail).1 == text@ + later);
                    assert(had + (text@ + later) =~= had + text@ + later);
                }
                out.push_str(text.as_str());
                start = i + 1;
            }
            i = i + 1;
        }
        proof {
            let tail = all@.skip(start as int);
            assert forall|j: int| 0 <= j < tail.len() implies #[trigger] tail[j] != 10 by {
                assert(tail[j] == all@[start + j]);
            }
            lemma_line_feed_at_unique(tail, tail.len() as int);
            assert(out@ + Seq::<char>::empty() =~= out@);
        }
        let mut rest: Vec<u8> = Vec::new();
        rest.extend_from_slice(slice_subrange(all.as_slice(), start, all.len()));
        assert(rest@ =~= all@.skip(start as int));
        self.rest = rest;
        out
    }

    /// Takes the end of the stream: a last line without a line feed counts as complete, as long
    /// as there is a client to pass it on to.
    pub fn flush(&mut self) -> (r: Option<String>)
        ensures
            ({
                let before = old(self)@;
                let line = text_of_bytes(before.rest);
                if before.rest.len() > 0 && !before.client_gone {
                    &&& final(self)@ == RelayV { rest: Seq::empty(), ..after_line(before, line) }
                    &&& r matches Some(out)
                    &&& out@ == rewritten(line, event_in(line))
                } else {
                    final(self)@ == before && r is None
                }
            }),
    {
        if self.rest.len() == 0 || self.client_gone {
            return None;
        }
        let line = decode_lossy(self.rest.as_slice());
        let out = self.process_line(line.as_str());
        self.rest = Vec::new();
        assert(self@.rest =~= Seq::<u8>::empty());
        Some(out)
    }

    /// The stream has ended, with the error `read_error` where reading it failed: the line for
    /// the record, and what the log tells. `since_record` is the time since the record was begun,
    /// `elapsed` that since the request came.
    pub fn finish(self, read_error: Option<String>, since_record: Elapsed, elapsed: Elapsed) -> (r:
        RelayEnd)
        ensures
            ({
                let st = self@;
                let fault = stream_fault(st, opt_string_view(read_error));
                &&& is_report(r.report, st.req_id, true, elapsed, st.model, st.final_resp)
                &&& views(r.report.notes@) == stream_notes(st.client_gone, fault)
                &&& opt_string_view(r.record) == (match st.pending {
                    Some(record) => Some(
                        record_line(
                            record,
                            response_tree(
                                st.model,
                                st.final_resp,
                                recorded_fault(st.client_gone, fault),
                            ),
                            since_record,
                        ),
                    ),
                    None => None,
                })
            }),
    {
        let ghost st = self@;
        let mut notes: Vec<String> = Vec::new();
        let mut error = match read_error {
            Some(e) => Some(e),
            None => self.error,
        };
        if self.client_gone {
            notes.push("client disconnected before the response finished".to_owned());
        } else if self.final_resp.is_none() && error.is_none() {
            let mut s =
                "upstream stream ended without response.completed / incomplete / failed (after ".to_owned();
            s.push_str(decimal(self.events).as_str());
            s.push_str(" events)");
            error = Some(s);
        }
        let ghost fault = opt_string_view(error);
        assert(fault == stream_fault(st, opt_string_view(read_error)));
        match &error {
            Some(e) => {
                let mut s = "ERROR: ".to_owned();
                s.push_str(e.as_str());
                notes.push(s);
            },
            None => {},
        }
        assert(views(notes@) =~= stream_notes(st.client_gone, fault));
        let told = match &error {
            Some(e) => Some(e.as_str()),
            None => if self.client_gone {
                Some("client disconnected")
            } else {
                None
            },
        };
        assert(opt_view(told) == recorded_fault(st.client_gone, fault));
        let resp = self.final_resp.as_ref();
        let record = match self.pending {
            Some(p) => Some(p.finish(self.model.as_str(), resp, told, since_record)),
            None => None,
        };
        let report = Report::new(self.req_id, true, elapsed, self.model.as_str(), resp, notes);
        RelayEnd { record, report }
    }

    /// The client has left.
    pub fn client_left(&mut self)
        ensures
            final(self)@ == (RelayV { client_gone: true, ..old(self)@ }),
    {
        self.client_gone = true;
    }
}

/// The client sees every model that is named with `viv-` in front, once.
pub proof fn law_models_are_shown_with_the_prefix(m: Seq<char>)
    requires
        m.len() > 0,
    ensures
        m.len() >= 4 && m.take(4) == "viv-"@ ==> shown_model(m) == m,
        m.len() < 4 || m.take(4) != "viv-"@ ==> shown_model(m) == "viv-"@ + m,
        shown_model("viv-"@ + m) == "viv-"@ + m,
        shown_model(Seq::empty()).len() == 0,
{
    reveal_strlit("viv-");
    assert(MODEL_PREFIX@.len() == 4);
    assert(("viv-"@ + m).take(4) =~= "viv-"@);
}

proof fn lemma_event_types()
    ensures
        "response.completed"@.len() == 18,
        "response.incomplete"@.len() == 19,
        "response.failed"@.len() == 15,
        "error"@.len() == 5,
{
    reveal_strlit("response.completed");
    reveal_strlit("response.incomplete");
    reveal_strlit("response.failed");
    reveal_strlit("error");
}

/// The response that is kept is that of the last event that says it is completed, incomplete or
/// failed; no other event brings one or takes it away.
pub proof fn law_closing_event_brings_the_response(st: RelayV, ev: JsonV, ty: Seq<char>)
    requires
        ev.text_at("type"@) == Some(ty),
    ensures
        ty == "response.completed"@ || ty == "response.incomplete"@ || ty == "response.failed"@
            ==> after_event(st, ev).final_resp == ev.get("response"@) && after_event(st, ev).error
            == st.error,
        ty != "response.completed"@ && ty != "response.incomplete"@ && ty != "response.failed"@
            ==> after_event(st, ev).final_resp == st.final_resp,
{
    lemma_event_types();
}

/// The error that is kept is that of the last error event: its message, else that of the error
/// in it, else the event as it came. No other event tells of one.
pub proof fn law_error_event_brings_the_error(st: RelayV, ev: JsonV, ty: Seq<char>, m: Seq<char>)
    requires
        ev.text_at("type"@) == Some(ty),
    ensures
        ty == "error"@ && ev.get("message"@) == Some(JsonV::Text(m)) ==> after_event(st, ev).error
            == Some(m),
        ty == "error"@ && ev.get("message"@) is None && ev.get2("error"@, "message"@) == Some(
            JsonV::Text(m),
        ) ==> after_event(st, ev).error == Some(m),
        ty == "error"@ && ev.get("message"@) is None && ev.get2("error"@, "message"@) is None
            ==> after_event(st, ev).error == Some(rendered(ev)),
        ty != "error"@ ==> after_event(st, ev).error == st.error,
{
    lemma_event_types();
}

/// Every event is counted, and changes nothing else of the relay than the response or the error.
pub proof fn law_every_event_is_counted(st: RelayV, ev: JsonV)
    requires
        0 <= st.events < u64::MAX,
    ensures
        after_event(st, ev).events == st.events + 1,
        after_event(st, ev).req_id == st.req_id,
        after_event(st, ev).model == st.model,
        after_event(st, ev).client_gone == st.client_gone,
        after_event(st, ev).rest == st.rest,
        after_event(st, ev).pending == st.pending,
{
}

/// A line ending: line feeds and carriage returns.
pub open spec fn is_ending(e: Seq<char>) -> bool {
    forall|i: int| 0 <= i < e.len() ==> #[trigger] e[i] == '\r' || e[i] == '\n'
}

proof fn lemma_body_without_ending(x: Seq<char>, e: Seq<char>)
    requires
        is_ending(e),
        x.len() > 0,
        x.last() != '\r' && x.last() != '\n',
    ensures
        body_of(x + e) == x,
    decreases e.len(),
{
    if e.len() == 0 {
        assert(x + e =~= x);
    } else {
        assert((x + e).last() == e[e.len() - 1]);
        assert((x + e).drop_last() =~= x + e.drop_last());
        assert forall|i: int| 0 <= i < e.drop_last().len() implies #[trigger] e.drop_last()[i]
            == '\r' || e.drop_last()[i] == '\n' by {
            assert(e.drop_last()[i] == e[i]);
        }
        lemma_body_without_ending(x, e.drop_last());
    }
}

/// A `data:` line carries what stands between the white space behind `data:` and the line ending.
/// Where that is JSON with a model to prefix, the line is written anew with the same ending.
pub proof fn law_data_lines(w: Seq<char>, d: Seq<char>, e: Seq<char>)
    requires
        is_blank(w),
        d.len() > 0,
        !is_white(d[0]),
        d.last() != '\r' && d.last() != '\n',
        is_ending(e),
    ensures
        ({
            let line = "data:"@ + w + d + e;
            &&& data_of(line) == Some(d)
            &&& json_of_text(d) matches Ok(ev) ==> event_in(line) == Some(ev) && (needs_prefix(ev)
                ==> rewritten(line, event_in(line)) == "data: "@ + rendered(with_prefix(ev)) + e)
            &&& json_of_text(d) is Err ==> event_in(line) is None && rewritten(line, event_in(line))
                == line
        }),
{
    let x = "data:"@ + w + d;
    let line = x + e;
    assert(x.last() == d.last());
    lemma_body_without_ending(x, e);
    assert(x.take("data:"@.len() as int) =~= "data:"@);
    assert(x.skip("data:"@.len() as int) =~= w + d);
    law_leading_white_space_is_trimmed(w, d);
    assert(line.skip(x.len() as int) =~= e);
}

/// A line that does not begin with `data:` is passed on as it came, and tells the relay nothing.
pub proof fn law_other_lines_tell_nothing(st: RelayV, x: Seq<char>, e: Seq<char>)
    requires
        is_ending(e),
        x.len() > 0,
        x.last() != '\r' && x.last() != '\n',
        x.len() < 5 || x.take(5) != "data:"@,
    ensures
        event_in(x + e) is None,
        rewritten(x + e, event_in(x + e)) == x + e,
        after_line(st, x + e) == st,
{
    reveal_strlit("data:");
    assert("data:"@.len() == 5);
    lemma_body_without_ending(x, e);
}

/// The record of a stream holds the error of reading it, else the error that the stream told, else
/// that the client left; and an error where no closing event came, though the client stayed.
pub proof fn law_what_the_record_blames(st: RelayV, e: Seq<char>)
    ensures
        recorded_fault(st.client_gone, stream_fault(st, Some(e))) == Some(e),
        st.error == Some(e) ==> recorded_fault(st.client_gone, stream_fault(st, None)) == Some(e),
        st.error is None && st.client_gone ==> recorded_fault(
            st.client_gone,
            stream_fault(st, None),
        ) == Some("client disconnected"@),
        st.error is None && !st.client_gone && st.final_resp is None ==> stream_fault(st, None)
            is Some,
        st.error is None && !st.client_gone && st.final_resp is Some ==> stream_fault(st, None)
            is None,
        st.client_gone ==> stream_notes(st.client_gone, stream_fault(st, Some(e))) == seq![
            "client disconnected before the response finished"@,
            "ERROR: "@ + e,
        ],
{
    let gone = seq!["client disconnected before the response finished"@];
    assert(gone.push("ERROR: "@ + e) =~= seq![
        "client disconnected before the response finished"@,
        "ERROR: "@ + e,
    ]);
}

} // verus!
