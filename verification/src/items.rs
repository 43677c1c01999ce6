//! The items of a Responses conversation: who speaks, what is said, what a tool gave back.
use crate::codec::rendered;
use crate::json::{lemma_with_gets_all, trees, Json, JsonV};
use crate::text::{
    has_prefix, is_blank, is_white, join, join_all, law_join_of_two_lists,
    law_leading_white_space_is_trimmed, same, starts_with, trim_front, trim_start, views,
};
use vstd::prelude::*;

verus! {

/// The role of a message item; empty for an item of another type.
pub open spec fn item_role(it: JsonV) -> Seq<char> {
    let is_message = match it.text_at("type"@) {
        Some(t) => t == "message"@,
        None => true,
    };
    if is_message {
        it.text_or("role"@, ""@)
    } else {
        ""@
    }
}

/// What one part of a message's content says: text as it stands, a placeholder for an image or
/// a file.
pub open spec fn content_part(p: JsonV) -> Option<Seq<char>> {
    match p.text_at("type"@) {
        Some(t) => if t == "input_text"@ || t == "output_text"@ || t == "text"@ {
            p.text_at("text"@)
        } else if t == "refusal"@ {
            p.text_at("refusal"@)
        } else if t == "input_image"@ {
            Some("[image]"@)
        } else if t == "input_file"@ {
            Some("[file]"@)
        } else {
            None
        },
        None => None,
    }
}

/// What the parts of a message's content say, in order.
pub open spec fn content_parts(parts: Seq<JsonV>) -> Seq<Seq<char>>
    decreases parts.len(),
{
    if parts.len() == 0 {
        Seq::empty()
    } else {
        let before = content_parts(parts.drop_last());
        match content_part(parts.last()) {
            Some(s) => before.push(s),
            None => before,
        }
    }
}

/// What a message says.
pub open spec fn message_text(it: JsonV) -> Seq<char> {
    match it.get("content"@) {
        Some(JsonV::Text(s)) => s,
        Some(JsonV::Array(parts)) => join(content_parts(parts), "\n"@),
        _ => Seq::empty(),
    }
}

/// The `text` fields of a list of parts, in order, as far as they are there.
pub open spec fn part_texts(parts: Seq<JsonV>) -> Seq<Seq<char>>
    decreases parts.len(),
{
    if parts.len() == 0 {
        Seq::empty()
    } else {
        let before = part_texts(parts.drop_last());
        match parts.last().text_at("text"@) {
            Some(s) => before.push(s),
            None => before,
        }
    }
}

/// What a tool gave back, as text.
pub open spec fn tool_output(output: Option<JsonV>) -> Seq<char> {
    match output {
        Some(JsonV::Text(s)) => s,
        Some(JsonV::Array(parts)) => join(part_texts(parts), "\n"@),
        Some(JsonV::Null) => Seq::empty(),
        None => Seq::empty(),
        Some(other) => rendered(other),
    }
}

/// A message that the client put in for the user: the environment, or standing instructions.
pub open spec fn injected(text: Seq<char>) -> bool {
    let t = trim_front(text);
    ||| starts_with(t, "<environment_context>"@)
    ||| starts_with(t, "<user_instructions>"@)
    ||| starts_with(t, "# AGENTS.md instructions"@)
    ||| starts_with(t, "<INSTRUCTIONS>"@)
}

/// A message that the user wrote.
pub open spec fn is_user_request(it: JsonV) -> bool {
    item_role(it) == "user"@ && !injected(message_text(it))
}

/// A text as a message of the user.
pub open spec fn user_message(s: Seq<char>) -> JsonV {
    JsonV::object().with("type"@, JsonV::Text("message"@)).with("role"@, JsonV::Text("user"@)).with(
        "content"@,
        JsonV::Text(s),
    )
}

/// The items of a request's `input`, where a text stands for one message of the user.
pub open spec fn request_items(req: JsonV) -> Seq<JsonV> {
    match req.get("input"@) {
        Some(JsonV::Text(s)) => seq![user_message(s)],
        Some(JsonV::Array(items)) => items,
        _ => Seq::empty(),
    }
}

/// The position of the last message that the user wrote, `-1` where there is none.
pub open spec fn last_request(items: Seq<JsonV>) -> int
    decreases items.len(),
{
    if items.len() == 0 {
        -1
    } else if is_user_request(items.last()) {
        items.len() - 1
    } else {
        last_request(items.drop_last())
    }
}

/// The role of a message item; empty for an item of another type.
pub fn role(it: &Json) -> (r: &str)
    ensures
        r@ == item_role(it@),
{
    let is_message = match it.text_at("type") {
        Some(t) => same(t, "message"),
        None => true,
    };
    if !is_message {
        return "";
    }
    it.text_or("role", "")
}

fn content_part_text(p: &Json) -> (r: Option<String>)
    ensures
        match r {
            Some(s) => content_part(p@) == Some(s@),
            None => content_part(p@) is None,
        },
{
    let field = match p.text_at("type") {
        Some(t) => {
            if same(t, "input_text") || same(t, "output_text") || same(t, "text") {
                p.text_at("text")
            } else if same(t, "refusal") {
                p.text_at("refusal")
            } else if same(t, "input_image") {
                Some("[image]")
            } else if same(t, "input_file") {
                Some("[file]")
            } else {
                None
            }
        },
        None => None,
    };
    match field {
        Some(s) => Some(s.to_owned()),
        None => None,
    }
}

/// What a message says: its text parts, a line each, with placeholders for images and files.
pub fn content_text(it: &Json) -> (r: String)
    ensures
        r@ == message_text(it@),
{
    match it.get("content") {
        Some(Json::Text(s)) => s.clone(),
        Some(content) => match content.as_array() {
            Some(parts) => {
                let mut out: Vec<String> = Vec::new();
                let mut i: usize = 0;
                let ghost ts = trees(parts@);
                while i < parts.len()
                    invariant
                        0 <= i <= parts@.len(),
                        ts == trees(parts@),
                        views(out@) == content_parts(ts.take(i as int)),
                    decreases parts.len() - i,
                {
                    proof {
                        assert(ts.take(i + 1).drop_last() =~= ts.take(i as int));
                        assert(ts.take(i + 1).last() == parts@[i as int]@);
                    }
                    match content_part_text(&parts[i]) {
                        Some(s) => {
                            assert(views(out@.push(s)) =~= views(out@).push(s@));
                            out.push(s);
                        },
                        None => {},
                    }
                    i = i + 1;
                }
                assert(ts.take(ts.len() as int) =~= ts);
                join_all(&out, "\n")
            },
            None => String::new(),
        },
        None => String::new(),
    }
}

/// The `text` fields of a list of parts, as far as they are there.
pub fn texts_of(parts: &Vec<Json>) -> (r: Vec<String>)
    ensures
        views(r@) == part_texts(trees(parts@)),
{
    let mut out: Vec<String> = Vec::new();
    let mut i: usize = 0;
    let ghost ts = trees(parts@);
    while i < parts.len()
        invariant
            0 <= i <= parts@.len(),
            ts == trees(parts@),
            views(out@) == part_texts(ts.take(i as int)),
        decreases parts.len() - i,
    {
        proof {
            assert(ts.take(i + 1).drop_last() =~= ts.take(i as int));
            assert(ts.take(i + 1).last() == parts@[i as int]@);
        }
        match parts[i].text_at("text") {
            Some(s) => {
                let owned = s.to_owned();
                assert(views(out@.push(owned)) =~= views(out@).push(owned@));
                out.push(owned);
            },
            None => {},
        }
        i = i + 1;
    }
    assert(ts.take(ts.len() as int) =~= ts);
    out
}

/// What a tool gave back, as text: a text as it stands, parts a line each, anything else as JSON.
pub fn tool_output_to_string(output: Option<&Json>) -> (r: String)
    ensures
        r@ == tool_output(crate::json::opt_tree(output)),
{
    match output {
        Some(v) => match v {
            Json::Text(s) => s.clone(),
            Json::Null => String::new(),
            other => match other.as_array() {
                Some(parts) => join_all(&texts_of(parts), "\n"),
                None => other.to_text(),
            },
        },
        None => String::new(),
    }
}

/// Whether a message was put in by the client for the user.
pub fn is_injected(text: &str) -> (r: bool)
    ensures
        r == injected(text@),
{
    let t = trim_start(text);
    let t = t.as_str();
    has_prefix(t, "<environment_context>") || has_prefix(t, "<user_instructions>") || has_prefix(
        t,
        "# AGENTS.md instructions",
    ) || has_prefix(t, "<INSTRUCTIONS>")
}

/// Whether the user wrote this message.
pub fn user_request(it: &Json) -> (r: bool)
    ensures
        r == is_user_request(it@),
{
    same(role(it), "user") && !is_injected(content_text(it).as_str())
}

/// The items of a request's `input`, where a text stands for one message of the user.
pub fn input_items(req: &Json) -> (r: Vec<Json>)
    ensures
        trees(r@) == request_items(req@),
{
    match req.get("input") {
        Some(Json::Text(s)) => {
            let mut out: Vec<Json> = Vec::new();
            out.push(user_message_of(s.as_str()));
            assert(trees(out@) =~= request_items(req@));
            out
        },
        Some(v) => match v.as_array() {
            Some(items) => clone_items(items),
            None => {
                let out: Vec<Json> = Vec::new();
                assert(trees(out@) =~= Seq::<JsonV>::empty());
                out
            },
        },
        None => {
            let out: Vec<Json> = Vec::new();
            assert(trees(out@) =~= Seq::<JsonV>::empty());
            out
        },
    }
}

/// A text as a message of the user.
pub fn user_message_of(s: &str) -> (r: Json)
    ensures
        r@ == user_message(s@),
{
    Json::object().with("type", Json::text("message")).with("role", Json::text("user")).with(
        "content",
        Json::text(s),
    )
}

/// A copy of a list of documents.
pub fn clone_items(items: &Vec<Json>) -> (r: Vec<Json>)
    ensures
        trees(r@) == trees(items@),
{
    let mut out: Vec<Json> = Vec::new();
    let mut i: usize = 0;
    while i < items.len()
        invariant
            0 <= i <= items@.len(),
            out@.len() == i,
            forall|j: int| 0 <= j < i ==> (#[trigger] out@[j])@ == items@[j]@,
        decreases items.len() - i,
    {
        out.push(items[i].clone());
        i = i + 1;
    }
    assert(trees(out@) =~= trees(items@));
    out
}

/// The position of the last message that the user wrote.
pub fn last_request_at(items: &Vec<Json>) -> (r: Option<usize>)
    ensures
        match r {
            Some(i) => i < items@.len() && last_request(trees(items@)) == i,
            None => last_request(trees(items@)) == -1,
        },
{
    let mut n: usize = items.len();
    let ghost ts = trees(items@);
    assert(ts.take(ts.len() as int) =~= ts);
    while n > 0
        invariant
            0 <= n <= items@.len(),
            ts == trees(items@),
            last_request(ts) == last_request(ts.take(n as int)),
        decreases n,
    {
        proof {
            assert(ts.take(n as int).last() == items@[n - 1]@);
            assert(ts.take(n as int).drop_last() =~= ts.take(n - 1));
        }
        if user_request(&items[n - 1]) {
            return Some(n - 1);
        }
        n = n - 1;
    }
    None
}

/// A message that `who` speaks: its role says so, and its type is `message` or not given.
pub open spec fn speaks_as(it: JsonV, who: Seq<char>) -> bool {
    it.text_at("role"@) == Some(who) && (it.text_at("type"@) is None || it.text_at("type"@) == Some(
        "message"@,
    ))
}

/// The role of a message is what it says; an item of another type has none.
pub proof fn law_roles(it: JsonV, who: Seq<char>)
    requires
        who.len() > 0,
    ensures
        item_role(it) == who <==> speaks_as(it, who),
{
    reveal_strlit("");
    assert(""@.len() == 0);
}

/// The texts that begin, after white space, with one of four marks were put in by the client.
pub proof fn law_marked_texts_are_injected(w: Seq<char>, rest: Seq<char>)
    requires
        is_blank(w),
    ensures
        injected(w + ("<environment_context>"@ + rest)),
        injected(w + ("<user_instructions>"@ + rest)),
        injected(w + ("# AGENTS.md instructions"@ + rest)),
        injected(w + ("<INSTRUCTIONS>"@ + rest)),
{
    reveal_strlit("<environment_context>");
    reveal_strlit("<user_instructions>");
    reveal_strlit("# AGENTS.md instructions");
    reveal_strlit("<INSTRUCTIONS>");
    lemma_marked(w, "<environment_context>"@, rest);
    lemma_marked(w, "<user_instructions>"@, rest);
    lemma_marked(w, "# AGENTS.md instructions"@, rest);
    lemma_marked(w, "<INSTRUCTIONS>"@, rest);
}

proof fn lemma_marked(w: Seq<char>, mark: Seq<char>, rest: Seq<char>)
    requires
        is_blank(w),
        mark.len() > 0,
        !is_white(mark[0]),
    ensures
        starts_with(trim_front(w + (mark + rest)), mark),
{
    law_leading_white_space_is_trimmed(w, mark + rest);
    assert((mark + rest).take(mark.len() as int) =~= mark);
}

/// A text that begins, after white space, with anything but the first character of a mark was
/// written by the user.
pub proof fn law_other_texts_are_not_injected(w: Seq<char>, s: Seq<char>)
    requires
        is_blank(w),
        s.len() > 0 ==> !is_white(s[0]) && s[0] != '<' && s[0] != '#',
    ensures
        !injected(w + s),
{
    reveal_strlit("<environment_context>");
    reveal_strlit("<user_instructions>");
    reveal_strlit("# AGENTS.md instructions");
    reveal_strlit("<INSTRUCTIONS>");
    law_leading_white_space_is_trimmed(w, s);
    lemma_other_start(s, "<environment_context>"@);
    lemma_other_start(s, "<user_instructions>"@);
    lemma_other_start(s, "# AGENTS.md instructions"@);
    lemma_other_start(s, "<INSTRUCTIONS>"@);
}

proof fn lemma_other_start(s: Seq<char>, mark: Seq<char>)
    requires
        mark.len() > 0,
        s.len() > 0 ==> s[0] != mark[0],
    ensures
        !starts_with(s, mark),
{
    if starts_with(s, mark) {
        assert(s.take(mark.len() as int)[0] == s[0]);
    }
}

/// The last message that the user wrote is found wherever it stands: nothing before it, and
/// nothing behind it that the user did not write, matters.
pub proof fn law_last_request_is_the_last(a: Seq<JsonV>, m: JsonV, b: Seq<JsonV>)
    requires
        is_user_request(m),
        forall|i: int| 0 <= i < b.len() ==> !is_user_request(#[trigger] b[i]),
    ensures
        last_request(a + seq![m] + b) == a.len(),
        (a + seq![m] + b)[a.len() as int] == m,
    decreases b.len(),
{
    let all = a + seq![m] + b;
    if b.len() == 0 {
        assert(all.last() == m);
    } else {
        assert(all.last() == b[b.len() - 1]);
        assert(all.drop_last() =~= a + seq![m] + b.drop_last());
        law_last_request_is_the_last(a, m, b.drop_last());
    }
}

/// Where the user wrote no message, there is no last one.
pub proof fn law_no_request_no_last(items: Seq<JsonV>)
    requires
        forall|i: int| 0 <= i < items.len() ==> !is_user_request(#[trigger] items[i]),
    ensures
        last_request(items) == -1,
    decreases items.len(),
{
    if items.len() > 0 {
        assert(items.last() == items[items.len() - 1]);
        law_no_request_no_last(items.drop_last());
    }
}

/// A part of a message says its text, or its refusal, or stands for an image or a file; any other
/// part says nothing.
pub proof fn law_parts_say_what_they_hold(p: JsonV, ty: Seq<char>)
    requires
        p.text_at("type"@) == Some(ty),
    ensures
        ty == "input_text"@ || ty == "output_text"@ || ty == "text"@ ==> content_part(p)
            == p.text_at("text"@),
        ty == "refusal"@ ==> content_part(p) == p.text_at("refusal"@),
        ty == "input_image"@ ==> content_part(p) == Some("[image]"@),
        ty == "input_file"@ ==> content_part(p) == Some("[file]"@),
{
    reveal_strlit("input_text");
    reveal_strlit("output_text");
    reveal_strlit("text");
    reveal_strlit("refusal");
    reveal_strlit("input_image");
    reveal_strlit("input_file");
    assert("input_text"@.len() == 10 && "output_text"@.len() == 11 && "text"@.len() == 4
        && "refusal"@.len() == 7 && "input_image"@.len() == 11 && "input_file"@.len() == 10);
    assert("input_text"@[6] == 't' && "input_file"@[6] == 'f');
    assert("output_text"@[0] == 'o' && "input_image"@[0] == 'i');
}

proof fn lemma_content_parts_add(a: Seq<JsonV>, b: Seq<JsonV>)
    ensures
        content_parts(a + b) == content_parts(a) + content_parts(b),
    decreases b.len(),
{
    if b.len() == 0 {
        assert(a + b =~= a);
        assert(content_parts(a) + content_parts(b) =~= content_parts(a));
    } else {
        assert((a + b).drop_last() =~= a + b.drop_last());
        lemma_content_parts_add(a, b.drop_last());
        assert(content_parts(a + b) =~= content_parts(a) + content_parts(b));
    }
}

/// A message says what its text is, or what its parts say, in their order and a line each: the
/// texts of two messages stand one below the other in the message that has the parts of both.
pub proof fn law_parts_are_said_in_order(first: JsonV, second: JsonV, both: JsonV, a: Seq<JsonV>, b: Seq<JsonV>)
    requires
        first.get("content"@) == Some(JsonV::Array(a)),
        second.get("content"@) == Some(JsonV::Array(b)),
        both.get("content"@) == Some(JsonV::Array(a + b)),
        content_parts(a).len() > 0,
        content_parts(b).len() > 0,
    ensures
        message_text(both) == message_text(first) + "\n"@ + message_text(second),
{
    lemma_content_parts_add(a, b);
    law_join_of_two_lists(content_parts(a), content_parts(b), "\n"@);
}

/// A message with one part says what the part says, and one with a text says the text.
pub proof fn law_simple_messages(it: JsonV, p: JsonV, s: Seq<char>)
    ensures
        it.get("content"@) == Some(JsonV::Text(s)) ==> message_text(it) == s,
        it.get("content"@) == Some(JsonV::Array(seq![p])) && content_part(p) == Some(s)
            ==> message_text(it) == s,
        it.get("content"@) == Some(JsonV::Array(seq![p])) && content_part(p) is None
            ==> message_text(it).len() == 0,
{
    let one = seq![p];
    assert(one.drop_last() =~= Seq::<JsonV>::empty());
    assert(content_parts(one.drop_last()) =~= Seq::<Seq<char>>::empty());
    if content_part(p) is Some {
        assert(content_parts(one) =~= seq![content_part(p)->0]);
    }
}

/// A text stands for a message of the user that says it.
pub proof fn law_text_is_a_user_message(s: Seq<char>)
    ensures
        speaks_as(user_message(s), "user"@),
        user_message(s).text_at("type"@) == Some("message"@),
        user_message(s).get("content"@) == Some(JsonV::Text(s)),
        message_text(user_message(s)) == s,
{
    reveal_strlit("type");
    reveal_strlit("role");
    reveal_strlit("content");
    assert("type"@.len() == 4 && "role"@.len() == 4 && "content"@.len() == 7);
    assert("type"@[0] == 't' && "role"@[0] == 'r');
    lemma_with_gets_all();
}

proof fn lemma_part_texts_add(a: Seq<JsonV>, b: Seq<JsonV>)
    ensures
        part_texts(a + b) == part_texts(a) + part_texts(b),
    decreases b.len(),
{
    if b.len() == 0 {
        assert(a + b =~= a);
        assert(part_texts(a) + part_texts(b) =~= part_texts(a));
    } else {
        assert((a + b).drop_last() =~= a + b.drop_last());
        assert((a + b).last() == b.last());
        lemma_part_texts_add(a, b.drop_last());
        assert(part_texts(a + b) =~= part_texts(a) + part_texts(b));
    }
}

/// What a tool gave back is its text; of a list the texts of its parts, in order and a line each;
/// nothing where it gave nothing; and of anything else the JSON.
pub proof fn law_tool_outputs(a: Seq<JsonV>, b: Seq<JsonV>, p: JsonV, s: Seq<char>, v: JsonV)
    ensures
        tool_output(Some(JsonV::Text(s))) == s,
        p.text_at("text"@) == Some(s) ==> tool_output(Some(JsonV::Array(seq![p]))) == s,
        p.text_at("text"@) is None ==> tool_output(Some(JsonV::Array(seq![p]))).len() == 0,
        tool_output(Some(JsonV::Array(a))).len() > 0 && tool_output(Some(JsonV::Array(b))).len() > 0
            ==> tool_output(Some(JsonV::Array(a + b))) == tool_output(Some(JsonV::Array(a))) + "\n"@
            + tool_output(Some(JsonV::Array(b))),
        tool_output(None).len() == 0,
        tool_output(Some(JsonV::Null)).len() == 0,
        v is Object || v is Bool || v is Number ==> tool_output(Some(v)) == rendered(v),
{
    let one = seq![p];
    assert(one.drop_last() =~= Seq::<JsonV>::empty());
    assert(part_texts(one.drop_last()) =~= Seq::<Seq<char>>::empty());
    assert(one.last() == p);
    if p.text_at("text"@) is Some {
        assert(part_texts(one) =~= seq![p.text_at("text"@)->0]);
    }
    lemma_part_texts_add(a, b);
    law_join_of_two_lists(part_texts(a), part_texts(b), "\n"@);
}

/// The items of a request are its list as it stands, or one message of the user for a text; a
/// request without either has none.
pub proof fn law_items_of_a_request(req: JsonV, items: Seq<JsonV>, s: Seq<char>)
    ensures
        req.get("input"@) == Some(JsonV::Array(items)) ==> request_items(req) == items,
        req.get("input"@) == Some(JsonV::Text(s)) ==> request_items(req).len() == 1 && speaks_as(
            request_items(req)[0],
            "user"@,
        ) && message_text(request_items(req)[0]) == s,
        req.get("input"@) is None ==> request_items(req).len() == 0,
{
    law_text_is_a_user_message(s);
}

} // verus!
