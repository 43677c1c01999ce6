//! Conversations and tools in Chat form, for fine-tuning data: Responses items become Chat
//! messages, and tools become functions.
use crate::codec::rendered;
use crate::items::{part_texts, speaks_as, texts_of, tool_output, tool_output_to_string};
use crate::json::{
    law_with_then_get, lemma_with_gets_all, opt_tree, text_in, trees, Json, JsonV,
};
use crate::text::{
    blank, is_blank, join, join_all, law_join_of_two_lists, opt_string_view, opt_view, same, views,
};
use vstd::prelude::*;

verus! {

/// A text value.
pub open spec fn txt(s: Seq<char>) -> JsonV {
    JsonV::Text(s)
}

/// The type of an item: as it says, else a message where it has a role.
pub open spec fn item_type(item: JsonV) -> Seq<char> {
    match item.text_at("type"@) {
        Some(t) => t,
        None => if item.get("role"@) is Some {
            "message"@
        } else {
            ""@
        },
    }
}

/// The Chat role of a message item.
pub open spec fn chat_role(item: JsonV) -> Seq<char> {
    let r = item.text_or("role"@, "user"@);
    if r == "developer"@ || r == "system"@ {
        "system"@
    } else if r == "assistant"@ {
        "assistant"@
    } else {
        "user"@
    }
}

/// The address of an image part: `image_url` itself, or its `url`; empty where there is none.
pub open spec fn image_address(p: JsonV) -> Seq<char> {
    match p.get("image_url"@) {
        Some(JsonV::Text(s)) => s,
        Some(u) => u.text_or("url"@, ""@),
        None => ""@,
    }
}

/// The text that a content part contributes.
pub open spec fn spoken_part(p: JsonV) -> Option<Seq<char>> {
    let t = p.text_or("type"@, ""@);
    if t == "input_text"@ || t == "output_text"@ || t == "text"@ {
        Some(p.text_or("text"@, ""@))
    } else if t == "refusal"@ {
        Some(p.text_or("refusal"@, ""@))
    } else {
        None
    }
}

/// A content part that shows an image.
pub open spec fn is_image(p: JsonV) -> bool {
    spoken_part(p) is None && p.text_or("type"@, ""@) == "input_image"@ && image_address(p).len() > 0
}

/// An image in Chat form, with its detail where the part gives one.
pub open spec fn chat_image(p: JsonV) -> JsonV {
    let image = JsonV::object().with("url"@, txt(image_address(p)));
    let image = match p.get("detail"@) {
        Some(JsonV::Null) => image,
        Some(d) => image.with("detail"@, d),
        None => image,
    };
    JsonV::object().with("type"@, txt("image_url"@)).with("image_url"@, image)
}

/// A content part in Chat form, where it has one.
pub open spec fn chat_part(p: JsonV) -> Option<JsonV> {
    match spoken_part(p) {
        Some(s) => Some(JsonV::object().with("type"@, txt("text"@)).with("text"@, txt(s))),
        None => if is_image(p) {
            Some(chat_image(p))
        } else {
            None
        },
    }
}

/// The content parts in Chat form, in order.
pub open spec fn chat_parts(parts: Seq<JsonV>) -> Seq<JsonV>
    decreases parts.len(),
{
    if parts.len() == 0 {
        Seq::empty()
    } else {
        let before = chat_parts(parts.drop_last());
        match chat_part(parts.last()) {
            Some(v) => before.push(v),
            None => before,
        }
    }
}

/// The texts of the content parts, in order.
pub open spec fn spoken_parts(parts: Seq<JsonV>) -> Seq<Seq<char>>
    decreases parts.len(),
{
    if parts.len() == 0 {
        Seq::empty()
    } else {
        let before = spoken_parts(parts.drop_last());
        match spoken_part(parts.last()) {
            Some(s) => before.push(s),
            None => before,
        }
    }
}

/// Some content part shows an image.
pub open spec fn has_image(parts: Seq<JsonV>) -> bool {
    exists|i: int| 0 <= i < parts.len() && is_image(#[trigger] parts[i])
}

/// The content of a message in Chat form: one text, or the parts where the user sent an image.
pub open spec fn chat_content(content: Option<JsonV>, role: Seq<char>) -> JsonV {
    match content {
        Some(JsonV::Text(s)) => txt(s),
        Some(JsonV::Array(parts)) => if has_image(parts) && role == "user"@ {
            JsonV::Array(chat_parts(parts))
        } else {
            txt(join(spoken_parts(parts), "\n"@))
        },
        _ => txt(Seq::empty()),
    }
}

/// A tool call in Chat form.
pub open spec fn chat_call(call_id: Seq<char>, name: Seq<char>, args: Seq<char>) -> JsonV {
    JsonV::object().with("id"@, txt(call_id)).with("type"@, txt("function"@)).with(
        "function"@,
        JsonV::object().with("name"@, txt(name)).with("arguments"@, txt(args)),
    )
}

/// The message speaks for the assistant.
pub open spec fn is_assistant(m: JsonV) -> bool {
    m.text_at("role"@) == Some("assistant"@)
}

/// The last message speaks for the assistant.
pub open spec fn ends_with_assistant(messages: Seq<JsonV>) -> bool {
    messages.len() > 0 && is_assistant(messages.last())
}

/// The messages with the last one replaced.
pub open spec fn replace_last(messages: Seq<JsonV>, m: JsonV) -> Seq<JsonV> {
    messages.drop_last().push(m)
}

/// An assistant message with one more tool call.
pub open spec fn with_call(m: JsonV, call: JsonV) -> JsonV {
    match m.get("tool_calls"@) {
        None => m.with("tool_calls"@, JsonV::Array(seq![call])),
        Some(JsonV::Array(calls)) => m.with("tool_calls"@, JsonV::Array(calls.push(call))),
        Some(_) => m,
    }
}

/// The messages after a tool call: it joins an assistant message that stands last, else it
/// makes one of its own.
pub open spec fn after_call(messages: Seq<JsonV>, call: JsonV) -> Seq<JsonV> {
    if ends_with_assistant(messages) {
        replace_last(messages, with_call(messages.last(), call))
    } else {
        messages.push(
            JsonV::object().with("role"@, txt("assistant"@)).with("content"@, JsonV::Null).with(
                "tool_calls"@,
                JsonV::Array(seq![call]),
            ),
        )
    }
}

/// The arguments of a function call: an empty object where none are given.
pub open spec fn call_arguments(item: JsonV) -> Seq<char> {
    let args = item.text_or("arguments"@, ""@);
    if is_blank(args) {
        "{}"@
    } else {
        args
    }
}

/// The arguments that wrap the input of a custom tool.
pub open spec fn custom_arguments(item: JsonV) -> Seq<char> {
    rendered(JsonV::object().with("input"@, txt(item.text_or("input"@, ""@))))
}

/// The messages after one item. Reasoning and items that Chat has no form for leave them as
/// they are.
pub open spec fn after_item(messages: Seq<JsonV>, item: JsonV) -> Seq<JsonV> {
    let ty = item_type(item);
    let call_id = item.text_or("call_id"@, ""@);
    let name = item.text_or("name"@, ""@);
    if ty == "message"@ {
        messages.push(
            JsonV::object().with("role"@, txt(chat_role(item))).with(
                "content"@,
                chat_content(item.get("content"@), chat_role(item)),
            ),
        )
    } else if ty == "function_call"@ {
        after_call(messages, chat_call(call_id, name, call_arguments(item)))
    } else if ty == "custom_tool_call"@ {
        after_call(messages, chat_call(call_id, name, custom_arguments(item)))
    } else if ty == "function_call_output"@ || ty == "custom_tool_call_output"@ {
        messages.push(
            JsonV::object().with("role"@, txt("tool"@)).with("tool_call_id"@, txt(call_id)).with(
                "content"@,
                txt(tool_output(item.get("output"@))),
            ),
        )
    } else {
        messages
    }
}

/// Items that add a message or a call to one.
pub open spec fn has_chat_form(item: JsonV) -> bool {
    let ty = item_type(item);
    ||| ty == "message"@
    ||| ty == "function_call"@
    ||| ty == "custom_tool_call"@
    ||| ty == "function_call_output"@
    ||| ty == "custom_tool_call_output"@
}

/// The plain text of a reasoning item: its content, else its summary.
pub open spec fn reasoning_of(item: JsonV) -> Seq<char> {
    let content = join(part_texts(item.items_at("content"@)), "\n"@);
    if content.len() == 0 {
        join(part_texts(item.items_at("summary"@)), "\n"@)
    } else {
        content
    }
}

/// The reasoning that waits for its message, after one more item.
pub open spec fn after_reasoning(waiting: Option<Seq<char>>, item: JsonV) -> Option<Seq<char>> {
    if item_type(item) == "reasoning"@ && reasoning_of(item).len() > 0 {
        match waiting {
            Some(r) => Some(r + reasoning_of(item)),
            None => Some(reasoning_of(item)),
        }
    } else {
        waiting
    }
}

/// The messages so far, and the reasoning that waits for its message.
pub ghost struct Conversion {
    pub messages: Seq<JsonV>,
    pub waiting: Option<Seq<char>>,
}

/// A message with more reasoning, after what it has already.
pub open spec fn with_reasoning_text(m: JsonV, r: Seq<char>) -> JsonV {
    m.with("reasoning_content"@, txt(m.text_or("reasoning_content"@, ""@) + r))
}

/// One item further. Waiting reasoning goes to the assistant message that the item made, or
/// that its call joined, after the reasoning that is there.
pub open spec fn convert_step(c: Conversion, item: JsonV, with_reasoning: bool) -> Conversion {
    let messages = after_item(c.messages, item);
    let waiting = if with_reasoning {
        after_reasoning(c.waiting, item)
    } else {
        c.waiting
    };
    if has_chat_form(item) && ends_with_assistant(messages) {
        match waiting {
            Some(r) => Conversion {
                messages: replace_last(messages, with_reasoning_text(messages.last(), r)),
                waiting: None,
            },
            None => Conversion { messages, waiting },
        }
    } else {
        Conversion { messages, waiting }
    }
}

/// The conversion before the first item: the instructions, where there are any.
pub open spec fn conversion_start(instructions: Option<Seq<char>>) -> Conversion {
    Conversion {
        messages: match instructions {
            Some(ins) => if ins.len() > 0 {
                seq![JsonV::object().with("role"@, txt("system"@)).with("content"@, txt(ins))]
            } else {
                Seq::empty()
            },
            None => Seq::empty(),
        },
        waiting: None,
    }
}

/// The conversion after all items.
pub open spec fn conversion(
    instructions: Option<Seq<char>>,
    items: Seq<JsonV>,
    with_reasoning: bool,
) -> Conversion
    decreases items.len(),
{
    if items.len() == 0 {
        conversion_start(instructions)
    } else {
        convert_step(
            conversion(instructions, items.drop_last(), with_reasoning),
            items.last(),
            with_reasoning,
        )
    }
}

/// The Chat messages of a conversation.
pub open spec fn chat_messages(
    instructions: Option<Seq<char>>,
    items: Seq<JsonV>,
    with_reasoning: bool,
) -> Seq<JsonV> {
    conversion(instructions, items, with_reasoning).messages
}

fn image_url(p: &Json) -> (r: &str)
    ensures
        r@ == image_address(p@),
{
    match p.get("image_url") {
        Some(Json::Text(s)) => s.as_str(),
        Some(u) => u.text_or("url", ""),
        None => "",
    }
}

fn spoken(p: &Json) -> (r: Option<&str>)
    ensures
        opt_view(r) == spoken_part(p@),
{
    let t = p.text_or("type", "");
    if same(t, "input_text") || same(t, "output_text") || same(t, "text") {
        Some(p.text_or("text", ""))
    } else if same(t, "refusal") {
        Some(p.text_or("refusal", ""))
    } else {
        None
    }
}

fn image(p: &Json) -> (r: Json)
    ensures
        r@ == chat_image(p@),
{
    let image = Json::object().with("url", Json::text(image_url(p)));
    let image = match p.get("detail") {
        Some(d) => if d.is_null() {
            image
        } else {
            image.with("detail", d.clone())
        },
        None => image,
    };
    Json::object().with("type", Json::text("image_url")).with("image_url", image)
}

/// The content of a message in Chat form: text parts make one text; where the user sent an
/// image with an address, the parts stay apart.
pub fn convert_message_content(content: Option<&Json>, role: &str) -> (r: Json)
    ensures
        r@ == chat_content(opt_tree(content), role@),
{
    let parts = match content {
        Some(Json::Text(s)) => {
            return Json::text(s.as_str());
        },
        Some(c) => match c.as_array() {
            Some(parts) => parts,
            None => {
                return Json::Text(String::new());
            },
        },
        None => {
            return Json::Text(String::new());
        },
    };
    let mut out: Vec<Json> = Vec::new();
    let mut texts: Vec<String> = Vec::new();
    let mut image_seen = false;
    let mut i: usize = 0;
    let ghost ts = trees(parts@);
    assert(trees(out@) =~= chat_parts(ts.take(0)));
    assert(views(texts@) =~= spoken_parts(ts.take(0)));
    while i < parts.len()
        invariant
            0 <= i <= parts@.len(),
            ts == trees(parts@),
            trees(out@) == chat_parts(ts.take(i as int)),
            views(texts@) == spoken_parts(ts.take(i as int)),
            image_seen == has_image(ts.take(i as int)),
        decreases parts.len() - i,
    {
        let p = &parts[i];
        proof {
            assert(ts.take(i + 1).drop_last() =~= ts.take(i as int));
            assert(ts.take(i + 1).last() == p@);
            lemma_has_image_step(ts, i as int);
        }
        match spoken(p) {
            Some(s) => {
                let part = Json::object().with("type", Json::text("text")).with(
                    "text",
                    Json::text(s),
                );
                let owned = s.to_owned();
                proof {
                    assert(trees(out@.push(part)) =~= trees(out@).push(part@));
                    assert(views(texts@.push(owned)) =~= views(texts@).push(owned@));
                }
                out.push(part);
                texts.push(owned);
            },
            None => {
                if same(p.text_or("type", ""), "input_image") && !image_url(p).is_empty() {
                    let part = image(p);
                    assert(trees(out@.push(part)) =~= trees(out@).push(part@));
                    image_seen = true;
                    out.push(part);
                }
            },
        }
        i = i + 1;
    }
    assert(ts.take(ts.len() as int) =~= ts);
    if image_seen && same(role, "user") {
        return Json::array(out);
    }
    Json::Text(join_all(&texts, "\n"))
}

proof fn lemma_has_image_step(parts: Seq<JsonV>, i: int)
    requires
        0 <= i < parts.len(),
    ensures
        has_image(parts.take(i + 1)) == (has_image(parts.take(i)) || is_image(parts[i])),
{
    let a = parts.take(i);
    let b = parts.take(i + 1);
    if has_image(a) {
        let k = choose|k: int| 0 <= k < a.len() && is_image(#[trigger] a[k]);
        assert(is_image(b[k]));
    }
    if is_image(parts[i]) {
        assert(is_image(b[i]));
    }
    if has_image(b) {
        let k = choose|k: int| 0 <= k < b.len() && is_image(#[trigger] b[k]);
        if k < i {
            assert(is_image(a[k]));
        }
    }
}

fn chat_role_of(item: &Json) -> (r: &'static str)
    ensures
        r@ == chat_role(item@),
{
    let r = item.text_or("role", "user");
    if same(r, "developer") || same(r, "system") {
        "system"
    } else if same(r, "assistant") {
        "assistant"
    } else {
        "user"
    }
}

fn type_of(item: &Json) -> (r: &str)
    ensures
        r@ == item_type(item@),
{
    match item.text_at("type") {
        Some(t) => t,
        None => if item.get("role").is_some() {
            "message"
        } else {
            ""
        },
    }
}

fn speaks_for_assistant(m: &Json) -> (r: bool)
    ensures
        r == is_assistant(m@),
{
    match m.text_at("role") {
        Some(r) => same(r, "assistant"),
        None => false,
    }
}

/// Adds a tool call: to the assistant message that stands last, or as one of its own.
pub fn push_tool_call(messages: &mut Vec<Json>, call_id: &str, name: &str, args: &str)
    ensures
        trees(final(messages)@) == after_call(trees(old(messages)@), chat_call(call_id@, name@, args@)),
{
    let call = Json::object().with("id", Json::text(call_id)).with("type", Json::text("function")).with(
        "function",
        Json::object().with("name", Json::text(name)).with("arguments", Json::text(args)),
    );
    let ghost before = trees(messages@);
    match messages.pop() {
        Some(last) => {
            assert(trees(messages@) =~= before.drop_last());
            assert(last@ == before.last());
            if speaks_for_assistant(&last) {
                let joined = match last.get("tool_calls") {
                    None => {
                        let mut calls: Vec<Json> = Vec::new();
                        calls.push(call);
                        assert(trees(calls@) =~= seq![call@]);
                        last.with("tool_calls", Json::array(calls))
                    },
                    Some(v) => match v.as_array() {
                        Some(had) => {
                            let mut calls = crate::items::clone_items(had);
                            assert(trees(calls@.push(call)) =~= trees(had@).push(call@));
                            calls.push(call);
                            last.with("tool_calls", Json::array(calls))
                        },
                        None => last,
                    },
                };
                assert(trees(messages@.push(joined)) =~= trees(messages@).push(joined@));
                messages.push(joined);
                return;
            }
            assert(trees(messages@.push(last)) =~= before);
            messages.push(last);
        },
        None => {
            assert(trees(messages@) =~= before);
        },
    }
    let mut calls: Vec<Json> = Vec::new();
    calls.push(call);
    assert(trees(calls@) =~= seq![call@]);
    let m = Json::object().with("role", Json::text("assistant")).with("content", Json::Null).with(
        "tool_calls",
        Json::array(calls),
    );
    assert(trees(messages@.push(m)) =~= trees(messages@).push(m@));
    messages.push(m);
}

fn joined_texts(item: &Json, k: &str) -> (r: String)
    ensures
        r@ == join(part_texts(item@.items_at(k@)), "\n"@),
{
    match item.array_at(k) {
        Some(parts) => join_all(&texts_of(parts), "\n"),
        None => String::new(),
    }
}

/// The plain text of a reasoning item: its content, else its summary. Encrypted content has none.
pub fn reasoning_text(item: &Json) -> (r: String)
    ensures
        r@ == reasoning_of(item@),
{
    let content = joined_texts(item, "content");
    if content.as_str().is_empty() {
        joined_texts(item, "summary")
    } else {
        content
    }
}

/// Adds one item to the messages, and its reasoning to what waits where that is wanted.
pub fn convert_item(
    item: &Json,
    messages: &mut Vec<Json>,
    waiting: Option<String>,
    with_reasoning: bool,
) -> (r: Option<String>)
    ensures
        trees(final(messages)@) == after_item(trees(old(messages)@), item@),
        opt_string_view(r) == (if with_reasoning {
            after_reasoning(opt_string_view(waiting), item@)
        } else {
            opt_string_view(waiting)
        }),
{
    let ty = type_of(item);
    let call_id = item.text_or("call_id", "");
    let name = item.text_or("name", "");
    let ghost before = trees(messages@);
    let mut out = waiting;
    if same(ty, "reasoning") && with_reasoning {
        let text = reasoning_text(item);
        if !text.as_str().is_empty() {
            out = match out {
                Some(had) => {
                    let mut all = had;
                    all.push_str(text.as_str());
                    Some(all)
                },
                None => Some(text),
            };
        }
    }
    if same(ty, "message") {
        let role = chat_role_of(item);
        let content = convert_message_content(item.get("content"), role);
        let m = Json::object().with("role", Json::text(role)).with("content", content);
        assert(trees(messages@.push(m)) =~= before.push(m@));
        messages.push(m);
    } else if same(ty, "function_call") {
        let args = item.text_or("arguments", "");
        let args = if blank(args) {
            "{}"
        } else {
            args
        };
        push_tool_call(messages, call_id, name, args);
    } else if same(ty, "custom_tool_call") {
        let args = Json::object().with("input", Json::text(item.text_or("input", ""))).to_text();
        push_tool_call(messages, call_id, name, args.as_str());
    } else if same(ty, "function_call_output") || same(ty, "custom_tool_call_output") {
        let m = Json::object().with("role", Json::text("tool")).with(
            "tool_call_id",
            Json::text(call_id),
        ).with("content", Json::Text(tool_output_to_string(item.get("output"))));
        assert(trees(messages@.push(m)) =~= before.push(m@));
        messages.push(m);
    }
    out
}

fn chat_form(item: &Json) -> (r: bool)
    ensures
        r == has_chat_form(item@),
{
    let ty = type_of(item);
    same(ty, "message") || same(ty, "function_call") || same(ty, "custom_tool_call") || same(
        ty,
        "function_call_output",
    ) || same(ty, "custom_tool_call_output")
}

/// The Chat messages of a conversation: the instructions as a system message, then the items.
/// With reasoning wanted, the plain text of reasoning items goes to the assistant message that
/// follows, and none of it is lost where several calls share that message.
pub fn to_chat_messages(instructions: Option<&str>, items: &Vec<Json>, with_reasoning: bool) -> (r:
    Vec<Json>)
    ensures
        trees(r@) == chat_messages(opt_view(instructions), trees(items@), with_reasoning),
{
    let mut messages: Vec<Json> = Vec::new();
    let ghost ins = opt_view(instructions);
    let ghost ts = trees(items@);
    match instructions {
        Some(text) => {
            if !text.is_empty() {
                messages.push(
                    Json::object().with("role", Json::text("system")).with(
                        "content",
                        Json::text(text),
                    ),
                );
            }
        },
        None => {},
    }
    let mut waiting: Option<String> = None;
    let mut i: usize = 0;
    assert(trees(messages@) =~= conversion(ins, ts.take(0), with_reasoning).messages);
    while i < items.len()
        invariant
            0 <= i <= items@.len(),
            ts == trees(items@),
            trees(messages@) == conversion(ins, ts.take(i as int), with_reasoning).messages,
            opt_string_view(waiting) == conversion(ins, ts.take(i as int), with_reasoning).waiting,
        decreases items.len() - i,
    {
        let item = &items[i];
        proof {
            assert(ts.take(i + 1).drop_last() =~= ts.take(i as int));
            assert(ts.take(i + 1).last() == item@);
        }
        waiting = convert_item(item, &mut messages, waiting, with_reasoning);
        if chat_form(item) {
            match waiting {
                Some(text) => {
                    let ghost now = trees(messages@);
                    match messages.pop() {
                        Some(last) => {
                            assert(trees(messages@) =~= now.drop_last());
                            assert(last@ == now.last());
                            if speaks_for_assistant(&last) {
                                let mut all = last.text_or("reasoning_content", "").to_owned();
                                all.push_str(text.as_str());
                                let m = last.with("reasoning_content", Json::Text(all));
                                assert(trees(messages@.push(m)) =~= trees(messages@).push(m@));
                                messages.push(m);
                                waiting = None;
                            } else {
                                assert(trees(messages@.push(last)) =~= now);
                                messages.push(last);
                                waiting = Some(text);
                            }
                        },
                        None => {
                            waiting = Some(text);
                        },
                    }
                },
                None => {
                    waiting = None;
                },
            }
        }
        i = i + 1;
    }
    assert(ts.take(ts.len() as int) =~= ts);
    messages
}

/// The parameters of a function that takes none.
pub open spec fn no_parameters() -> JsonV {
    JsonV::object().with("type"@, txt("object"@)).with("properties"@, JsonV::object())
}

/// `v` with the field `k` where there is a value for it.
pub open spec fn with_some(v: JsonV, k: Seq<char>, x: Option<JsonV>) -> JsonV {
    match x {
        Some(x) => v.with(k, x),
        None => v,
    }
}

/// An optional value that is not null.
pub open spec fn non_null(v: Option<JsonV>) -> Option<JsonV> {
    match v {
        Some(JsonV::Null) => None,
        _ => v,
    }
}

/// A function tool in Chat form.
pub open spec fn chat_function(tool: JsonV) -> JsonV {
    let f = JsonV::object().with("name"@, txt(tool.text_or("name"@, ""@)));
    let f = with_some(f, "description"@, tool.get("description"@));
    let f = f.with(
        "parameters"@,
        match tool.get("parameters"@) {
            Some(p) => p,
            None => no_parameters(),
        },
    );
    with_some(f, "strict"@, non_null(tool.get("strict"@)))
}

/// The description of a custom tool, followed by the grammar of its input where it has one.
pub open spec fn custom_description(tool: JsonV) -> Seq<char> {
    let d = tool.text_or("description"@, ""@);
    match text_in(tool.get2("format"@, "definition"@)) {
        Some(def) => d + "\n\nThe `input` argument must be raw text following this "@
            + crate::json::or_text(text_in(tool.get2("format"@, "syntax"@)), "grammar"@)
            + " grammar:\n"@ + def,
        None => d,
    }
}

/// The parameters of a wrapped custom tool: one text named `input`.
pub open spec fn input_parameters() -> JsonV {
    JsonV::object().with("type"@, txt("object"@)).with(
        "properties"@,
        JsonV::object().with(
            "input"@,
            JsonV::object().with("type"@, txt("string"@)).with(
                "description"@,
                txt("Raw tool input"@),
            ),
        ),
    ).with("required"@, JsonV::Array(seq![txt("input"@)]))
}

/// A custom tool in Chat form: a function of one text.
pub open spec fn chat_custom(tool: JsonV) -> JsonV {
    JsonV::object().with("name"@, txt(tool.text_or("name"@, ""@))).with(
        "description"@,
        txt(custom_description(tool)),
    ).with("parameters"@, input_parameters())
}

/// A tool in Chat form: functions as they are, custom tools as functions of one text; none for
/// any other.
pub open spec fn chat_tool(tool: JsonV) -> Option<JsonV> {
    let ty = tool.text_or("type"@, ""@);
    if ty == "function"@ {
        Some(
            JsonV::object().with("type"@, txt("function"@)).with("function"@, chat_function(tool)),
        )
    } else if ty == "custom"@ {
        Some(JsonV::object().with("type"@, txt("function"@)).with("function"@, chat_custom(tool)))
    } else {
        None
    }
}

/// The tools that have a Chat form, in order.
pub open spec fn chat_tools(tools: Seq<JsonV>) -> Seq<JsonV>
    decreases tools.len(),
{
    if tools.len() == 0 {
        Seq::empty()
    } else {
        let before = chat_tools(tools.drop_last());
        match chat_tool(tools.last()) {
            Some(t) => before.push(t),
            None => before,
        }
    }
}

fn function_of(tool: &Json) -> (r: Json)
    ensures
        r@ == chat_function(tool@),
{
    let f = Json::object().with("name", Json::text(tool.text_or("name", "")));
    let f = match tool.get("description") {
        Some(d) => f.with("description", d.clone()),
        None => f,
    };
    let parameters = match tool.get("parameters") {
        Some(p) => p.clone(),
        None => Json::object().with("type", Json::text("object")).with(
            "properties",
            Json::object(),
        ),
    };
    let f = f.with("parameters", parameters);
    match tool.get("strict") {
        Some(s) => if s.is_null() {
            f
        } else {
            f.with("strict", s.clone())
        },
        None => f,
    }
}

fn text_of_field(v: Option<&Json>) -> (r: Option<&str>)
    ensures
        opt_view(r) == text_in(opt_tree(v)),
{
    match v {
        Some(j) => j.as_str(),
        None => None,
    }
}

fn custom_of(tool: &Json) -> (r: Json)
    ensures
        r@ == chat_custom(tool@),
{
    let mut desc = tool.text_or("description", "").to_owned();
    match text_of_field(tool.get2("format", "definition")) {
        Some(def) => {
            let syntax = match text_of_field(tool.get2("format", "syntax")) {
                Some(s) => s,
                None => "grammar",
            };
            desc.push_str("\n\nThe `input` argument must be raw text following this ");
            desc.push_str(syntax);
            desc.push_str(" grammar:\n");
            desc.push_str(def);
        },
        None => {},
    }
    let mut required: Vec<Json> = Vec::new();
    required.push(Json::text("input"));
    assert(trees(required@) =~= seq![txt("input"@)]);
    let parameters = Json::object().with("type", Json::text("object")).with(
        "properties",
        Json::object().with(
            "input",
            Json::object().with("type", Json::text("string")).with(
                "description",
                Json::text("Raw tool input"),
            ),
        ),
    ).with("required", Json::array(required));
    Json::object().with("name", Json::text(tool.text_or("name", ""))).with(
        "description",
        Json::Text(desc),
    ).with("parameters", parameters)
}

/// The tools in Chat form: functions as they are, custom tools wrapped as functions with one
/// `input`; built-in tools have no Chat form and are left out.
pub fn to_chat_tools(req_tools: &Vec<Json>) -> (r: Vec<Json>)
    ensures
        trees(r@) == chat_tools(trees(req_tools@)),
{
    let mut tools: Vec<Json> = Vec::new();
    let mut i: usize = 0;
    let ghost ts = trees(req_tools@);
    assert(trees(tools@) =~= chat_tools(ts.take(0)));
    while i < req_tools.len()
        invariant
            0 <= i <= req_tools@.len(),
            ts == trees(req_tools@),
            trees(tools@) == chat_tools(ts.take(i as int)),
        decreases req_tools.len() - i,
    {
        let tool = &req_tools[i];
        proof {
            assert(ts.take(i + 1).drop_last() =~= ts.take(i as int));
            assert(ts.take(i + 1).last() == tool@);
        }
        let ty = tool.text_or("type", "");
        if same(ty, "function") {
            let t = Json::object().with("type", Json::text("function")).with(
                "function",
                function_of(tool),
            );
            assert(trees(tools@.push(t)) =~= trees(tools@).push(t@));
            tools.push(t);
        } else if same(ty, "custom") {
            let t = Json::object().with("type", Json::text("function")).with(
                "function",
                custom_of(tool),
            );
            assert(trees(tools@.push(t)) =~= trees(tools@).push(t@));
            tools.push(t);
        }
        i = i + 1;
    }
    assert(ts.take(ts.len() as int) =~= ts);
    tools
}

/// The message carries no reasoning.
pub open spec fn is_plain(m: JsonV) -> bool {
    m.get("reasoning_content"@) is None
}

proof fn lemma_field_is_not_reasoning(k: Seq<char>)
    requires
        k == "role"@ || k == "content"@ || k == "tool_calls"@ || k == "tool_call_id"@,
    ensures
        k != "reasoning_content"@,
{
    reveal_strlit("role");
    reveal_strlit("content");
    reveal_strlit("tool_calls");
    reveal_strlit("tool_call_id");
    reveal_strlit("reasoning_content");
    assert("role"@.len() == 4 && "content"@.len() == 7 && "tool_calls"@.len() == 10
        && "tool_call_id"@.len() == 12 && "reasoning_content"@.len() == 17);
}

proof fn lemma_plain_with(m: JsonV, k: Seq<char>, x: JsonV)
    requires
        is_plain(m),
        k == "role"@ || k == "content"@ || k == "tool_calls"@ || k == "tool_call_id"@,
    ensures
        is_plain(m.with(k, x)),
{
    lemma_field_is_not_reasoning(k);
    if m is Object {
        law_with_then_get(m, k, x, "reasoning_content"@);
    }
}

proof fn lemma_after_item_plain(messages: Seq<JsonV>, item: JsonV)
    requires
        forall|i: int| 0 <= i < messages.len() ==> is_plain(#[trigger] messages[i]),
    ensures
        forall|i: int|
            0 <= i < after_item(messages, item).len() ==> is_plain(
                #[trigger] after_item(messages, item)[i],
            ),
{
    let empty = JsonV::object();
    let content = chat_content(item.get("content"@), chat_role(item));
    let role = txt(chat_role(item));
    lemma_plain_with(empty, "role"@, role);
    lemma_plain_with(empty.with("role"@, role), "content"@, content);
    let tool = empty.with("role"@, txt("tool"@));
    let id = txt(item.text_or("call_id"@, ""@));
    lemma_plain_with(empty, "role"@, txt("tool"@));
    lemma_plain_with(tool, "tool_call_id"@, id);
    lemma_plain_with(
        tool.with("tool_call_id"@, id),
        "content"@,
        txt(tool_output(item.get("output"@))),
    );
    let function = chat_call(
        item.text_or("call_id"@, ""@),
        item.text_or("name"@, ""@),
        call_arguments(item),
    );
    let custom = chat_call(
        item.text_or("call_id"@, ""@),
        item.text_or("name"@, ""@),
        custom_arguments(item),
    );
    lemma_after_call_plain(messages, function);
    lemma_after_call_plain(messages, custom);
}

proof fn lemma_after_call_plain(messages: Seq<JsonV>, call: JsonV)
    requires
        forall|i: int| 0 <= i < messages.len() ==> is_plain(#[trigger] messages[i]),
    ensures
        forall|i: int|
            0 <= i < after_call(messages, call).len() ==> is_plain(
                #[trigger] after_call(messages, call)[i],
            ),
{
    if ends_with_assistant(messages) {
        let last = messages.last();
        assert(is_plain(messages[messages.len() - 1]));
        match last.get("tool_calls"@) {
            None => {
                lemma_plain_with(last, "tool_calls"@, JsonV::Array(seq![call]));
            },
            Some(JsonV::Array(calls)) => {
                lemma_plain_with(last, "tool_calls"@, JsonV::Array(calls.push(call)));
            },
            Some(_) => {},
        }
    } else {
        let a = JsonV::object().with("role"@, txt("assistant"@));
        let b = a.with("content"@, JsonV::Null);
        lemma_plain_with(JsonV::object(), "role"@, txt("assistant"@));
        lemma_plain_with(a, "content"@, JsonV::Null);
        lemma_plain_with(b, "tool_calls"@, JsonV::Array(seq![call]));
    }
}

/// Reasoning is dropped unless it is wanted: no message carries any.
pub proof fn law_reasoning_is_dropped_unless_wanted(
    instructions: Option<Seq<char>>,
    items: Seq<JsonV>,
)
    ensures
        conversion(instructions, items, false).waiting is None,
        forall|i: int|
            0 <= i < chat_messages(instructions, items, false).len() ==> is_plain(
                #[trigger] chat_messages(instructions, items, false)[i],
            ),
    decreases items.len(),
{
    if items.len() == 0 {
        match instructions {
            Some(ins) => {
                let a = JsonV::object().with("role"@, txt("system"@));
                lemma_plain_with(JsonV::object(), "role"@, txt("system"@));
                lemma_plain_with(a, "content"@, txt(ins));
            },
            None => {},
        }
    } else {
        law_reasoning_is_dropped_unless_wanted(instructions, items.drop_last());
        let before = conversion(instructions, items.drop_last(), false);
        assert(before.messages == chat_messages(instructions, items.drop_last(), false));
        lemma_after_item_plain(before.messages, items.last());
    }
}

proof fn lemma_call_leaves_assistant_last(messages: Seq<JsonV>, call: JsonV)
    ensures
        ends_with_assistant(after_call(messages, call)),
{
    reveal_strlit("role");
    reveal_strlit("content");
    reveal_strlit("tool_calls");
    assert("role"@.len() == 4 && "content"@.len() == 7 && "tool_calls"@.len() == 10);
    if ends_with_assistant(messages) {
        let last = messages.last();
        match last.get("tool_calls"@) {
            None => {
                law_with_then_get(last, "tool_calls"@, JsonV::Array(seq![call]), "role"@);
            },
            Some(JsonV::Array(calls)) => {
                law_with_then_get(last, "tool_calls"@, JsonV::Array(calls.push(call)), "role"@);
            },
            Some(_) => {},
        }
    } else {
        let a = JsonV::object().with("role"@, txt("assistant"@));
        let b = a.with("content"@, JsonV::Null);
        law_with_then_get(JsonV::object(), "role"@, txt("assistant"@), "role"@);
        law_with_then_get(a, "content"@, JsonV::Null, "role"@);
        law_with_then_get(b, "tool_calls"@, JsonV::Array(seq![call]), "role"@);
    }
}

/// Calls that follow each other share one message of the assistant: the second makes none.
pub proof fn law_calls_in_a_row_share_a_message(messages: Seq<JsonV>, first: JsonV, second: JsonV)
    ensures
        after_call(after_call(messages, first), second).len() == after_call(messages, first).len(),
{
    lemma_call_leaves_assistant_last(messages, first);
}

/// The reasoning that a message carries.
pub open spec fn carried(m: JsonV) -> Seq<char> {
    m.text_or("reasoning_content"@, ""@)
}

/// The reasoning that the messages carry, in order.
pub open spec fn carried_by_all(messages: Seq<JsonV>) -> Seq<char>
    decreases messages.len(),
{
    if messages.len() == 0 {
        Seq::empty()
    } else {
        carried_by_all(messages.drop_last()) + carried(messages.last())
    }
}

/// The plain text of all reasoning items, in order.
pub open spec fn all_reasoning(items: Seq<JsonV>) -> Seq<char>
    decreases items.len(),
{
    if items.len() == 0 {
        Seq::empty()
    } else {
        all_reasoning(items.drop_last()) + (if item_type(items.last()) == "reasoning"@ {
            reasoning_of(items.last())
        } else {
            Seq::empty()
        })
    }
}

proof fn lemma_with_keeps_carried(m: JsonV, k: Seq<char>, x: JsonV)
    requires
        k == "role"@ || k == "content"@ || k == "tool_calls"@ || k == "tool_call_id"@,
    ensures
        carried(m.with(k, x)) == carried(m),
{
    lemma_field_is_not_reasoning(k);
    if m is Object {
        law_with_then_get(m, k, x, "reasoning_content"@);
    }
}

proof fn lemma_plain_carries_nothing(m: JsonV)
    requires
        is_plain(m),
    ensures
        carried(m) == Seq::<char>::empty(),
{
    reveal_strlit("");
    assert(carried(m) =~= Seq::<char>::empty());
}

proof fn lemma_carried_push(messages: Seq<JsonV>, m: JsonV)
    ensures
        carried_by_all(messages.push(m)) == carried_by_all(messages) + carried(m),
{
    assert(messages.push(m).drop_last() =~= messages);
}

proof fn lemma_carried_split(messages: Seq<JsonV>)
    requires
        messages.len() > 0,
    ensures
        carried_by_all(messages) == carried_by_all(messages.drop_last()) + carried(messages.last()),
{
}

proof fn lemma_push_plain(messages: Seq<JsonV>, m: JsonV)
    requires
        is_plain(m),
    ensures
        carried_by_all(messages.push(m)) == carried_by_all(messages),
{
    lemma_carried_push(messages, m);
    lemma_plain_carries_nothing(m);
    assert(carried_by_all(messages) + Seq::<char>::empty() =~= carried_by_all(messages));
}

proof fn lemma_after_call_carries(messages: Seq<JsonV>, call: JsonV)
    ensures
        carried_by_all(after_call(messages, call)) == carried_by_all(messages),
{
    if ends_with_assistant(messages) {
        let last = messages.last();
        match last.get("tool_calls"@) {
            None => {
                lemma_with_keeps_carried(last, "tool_calls"@, JsonV::Array(seq![call]));
            },
            Some(JsonV::Array(calls)) => {
                lemma_with_keeps_carried(last, "tool_calls"@, JsonV::Array(calls.push(call)));
            },
            Some(_) => {},
        }
        lemma_carried_push(messages.drop_last(), with_call(last, call));
    } else {
        let a = JsonV::object().with("role"@, txt("assistant"@));
        let b = a.with("content"@, JsonV::Null);
        lemma_plain_with(JsonV::object(), "role"@, txt("assistant"@));
        lemma_plain_with(a, "content"@, JsonV::Null);
        lemma_plain_with(b, "tool_calls"@, JsonV::Array(seq![call]));
        lemma_push_plain(messages, b.with("tool_calls"@, JsonV::Array(seq![call])));
    }
}

proof fn lemma_after_item_carries(messages: Seq<JsonV>, item: JsonV)
    ensures
        carried_by_all(after_item(messages, item)) == carried_by_all(messages),
{
    let ty = item_type(item);
    let call_id = item.text_or("call_id"@, ""@);
    let name = item.text_or("name"@, ""@);
    let empty = JsonV::object();
    if ty == "message"@ {
        let role = txt(chat_role(item));
        let content = chat_content(item.get("content"@), chat_role(item));
        lemma_plain_with(empty, "role"@, role);
        lemma_plain_with(empty.with("role"@, role), "content"@, content);
        lemma_push_plain(messages, empty.with("role"@, role).with("content"@, content));
    } else if ty == "function_call"@ {
        lemma_after_call_carries(messages, chat_call(call_id, name, call_arguments(item)));
    } else if ty == "custom_tool_call"@ {
        lemma_after_call_carries(messages, chat_call(call_id, name, custom_arguments(item)));
    } else if ty == "function_call_output"@ || ty == "custom_tool_call_output"@ {
        let a = empty.with("role"@, txt("tool"@));
        let b = a.with("tool_call_id"@, txt(call_id));
        let out = txt(tool_output(item.get("output"@)));
        lemma_plain_with(empty, "role"@, txt("tool"@));
        lemma_plain_with(a, "tool_call_id"@, txt(call_id));
        lemma_plain_with(b, "content"@, out);
        lemma_push_plain(messages, b.with("content"@, out));
    }
}

/// No reasoning is lost where it is wanted: what the messages carry, in order, and what still
/// waits for a message, is the plain text of all reasoning items.
pub proof fn law_no_reasoning_is_lost(instructions: Option<Seq<char>>, items: Seq<JsonV>)
    ensures
        ({
            let end = conversion(instructions, items, true);
            carried_by_all(end.messages) + (match end.waiting {
                Some(r) => r,
                None => Seq::empty(),
            }) == all_reasoning(items)
        }),
    decreases items.len(),
{
    if items.len() == 0 {
        let start = conversion_start(instructions).messages;
        match instructions {
            Some(ins) => {
                let a = JsonV::object().with("role"@, txt("system"@));
                let m = a.with("content"@, txt(ins));
                lemma_plain_with(JsonV::object(), "role"@, txt("system"@));
                lemma_plain_with(a, "content"@, txt(ins));
                lemma_push_plain(Seq::empty(), m);
                assert(start.len() > 0 ==> start =~= Seq::<JsonV>::empty().push(m));
            },
            None => {},
        }
        assert(carried_by_all(start) =~= Seq::<char>::empty());
    } else {
        let before = conversion(instructions, items.drop_last(), true);
        let item = items.last();
        law_no_reasoning_is_lost(instructions, items.drop_last());
        lemma_after_item_carries(before.messages, item);
        let messages = after_item(before.messages, item);
        let had = match before.waiting {
            Some(r) => r,
            None => Seq::empty(),
        };
        let told = if item_type(item) == "reasoning"@ {
            reasoning_of(item)
        } else {
            Seq::empty()
        };
        let waiting = after_reasoning(before.waiting, item);
        let now = match waiting {
            Some(r) => r,
            None => Seq::empty(),
        };
        assert(now =~= had + told);
        assert(carried_by_all(messages) + now =~= carried_by_all(messages) + had + told);
        if has_chat_form(item) && ends_with_assistant(messages) {
            match waiting {
                Some(r) => {
                    let last = messages.last();
                    let m = with_reasoning_text(last, r);
                    law_with_then_get(
                        last,
                        "reasoning_content"@,
                        txt(carried(last) + r),
                        "reasoning_content"@,
                    );
                    lemma_carried_push(messages.drop_last(), m);
                    lemma_carried_split(messages);
                    let first = carried_by_all(messages.drop_last());
                    assert(first + (carried(last) + r) + Seq::<char>::empty() =~= first + carried(
                        last,
                    ) + r);
                },
                None => {},
            }
        }
    }
}

proof fn lemma_names()
    ensures
        "role"@.len() == 4,
        "content"@.len() == 7,
        "tool_calls"@.len() == 10,
        "tool_call_id"@.len() == 12,
        "reasoning_content"@.len() == 17,
        "user"@.len() == 4,
        "tool"@.len() == 4,
        "system"@.len() == 6,
        "assistant"@.len() == 9,
        "developer"@ != "assistant"@,
        "message"@.len() == 7,
        "reasoning"@.len() == 9,
        "function_call"@.len() == 13,
        "custom_tool_call"@.len() == 16,
        "function_call_output"@.len() == 20,
        "custom_tool_call_output"@.len() == 23,
{
    reveal_strlit("role");
    reveal_strlit("content");
    reveal_strlit("tool_calls");
    reveal_strlit("tool_call_id");
    reveal_strlit("reasoning_content");
    reveal_strlit("user");
    reveal_strlit("tool");
    reveal_strlit("system");
    reveal_strlit("assistant");
    reveal_strlit("developer");
    reveal_strlit("message");
    reveal_strlit("reasoning");
    reveal_strlit("function_call");
    reveal_strlit("custom_tool_call");
    reveal_strlit("function_call_output");
    reveal_strlit("custom_tool_call_output");
    assert("developer"@[0] == 'd' && "assistant"@[0] == 'a');
}

proof fn lemma_one_item_more(
    instructions: Option<Seq<char>>,
    items: Seq<JsonV>,
    item: JsonV,
    with_reasoning: bool,
)
    ensures
        conversion(instructions, items.push(item), with_reasoning) == convert_step(
            conversion(instructions, items, with_reasoning),
            item,
            with_reasoning,
        ),
{
    assert(items.push(item).drop_last() =~= items);
}

/// What a tool gave back adds exactly one message, behind those that are there: the role is
/// `tool`, the call is the one that the item names, and the content is what the tool gave back.
pub proof fn law_tool_output_adds_one_message(
    instructions: Option<Seq<char>>,
    items: Seq<JsonV>,
    item: JsonV,
    with_reasoning: bool,
    c: Seq<char>,
    s: Seq<char>,
)
    requires
        item.text_at("type"@) == Some("function_call_output"@) || item.text_at("type"@) == Some(
            "custom_tool_call_output"@,
        ),
        item.text_at("call_id"@) == Some(c),
        item.get("output"@) == Some(JsonV::Text(s)),
    ensures
        ({
            let before = chat_messages(instructions, items, with_reasoning);
            let after = chat_messages(instructions, items.push(item), with_reasoning);
            let m = after.last();
            &&& after == before.push(m)
            &&& m.text_at("role"@) == Some("tool"@)
            &&& m.text_at("tool_call_id"@) == Some(c)
            &&& m.text_at("content"@) == Some(s)
        }),
{
    lemma_names();
    lemma_with_gets_all();
    lemma_one_item_more(instructions, items, item, with_reasoning);
    let before = chat_messages(instructions, items, with_reasoning);
    let m = after_item(before, item).last();
    assert(after_item(before, item) == before.push(m));
    assert(!is_assistant(m));
}

/// A message adds exactly one message, behind those that are there. What the developer or the
/// system says comes from the system, what the assistant says from the assistant, anything else
/// from the user; a text stays as it is, and missing content is an empty text.
pub proof fn law_message_adds_one_message(
    instructions: Option<Seq<char>>,
    items: Seq<JsonV>,
    item: JsonV,
    with_reasoning: bool,
    who: Seq<char>,
)
    requires
        item.text_at("type"@) is None || item.text_at("type"@) == Some("message"@),
        item.text_at("role"@) == Some(who),
    ensures
        ({
            let before = chat_messages(instructions, items, with_reasoning);
            let after = chat_messages(instructions, items.push(item), with_reasoning);
            let m = after.last();
            &&& after == before.push(m)
            &&& who == "developer"@ || who == "system"@ ==> m.text_at("role"@) == Some("system"@)
            &&& who == "assistant"@ ==> m.text_at("role"@) == Some("assistant"@)
            &&& who != "developer"@ && who != "system"@ && who != "assistant"@ ==> m.text_at("role"@)
                == Some("user"@)
            &&& item.get("content"@) is None ==> m.text_at("content"@) == Some(Seq::<char>::empty())
            &&& item.get("content"@) matches Some(JsonV::Text(s)) ==> m.text_at("content"@) == Some(s)
            &&& item.get("content"@) matches Some(JsonV::Array(parts)) ==> m.get("content"@) == Some(
                chat_content(item.get("content"@), m.text_at("role"@)->0),
            )
        }),
{
    lemma_names();
    lemma_with_gets_all();
    lemma_one_item_more(instructions, items, item, with_reasoning);
    let before = chat_messages(instructions, items, with_reasoning);
    let after = chat_messages(instructions, items.push(item), with_reasoning);
    let m = after_item(before, item).last();
    assert(after_item(before, item) == before.push(m));
    assert(before.push(m).drop_last() =~= before);
    assert(after == before.push(after.last()));
}

/// The calls of every message are a list.
pub open spec fn lists_its_calls(m: JsonV) -> bool {
    m is Object && (m.get("tool_calls"@) is None || m.get("tool_calls"@)->0 is Array)
}

proof fn lemma_calls_are_lists(
    instructions: Option<Seq<char>>,
    items: Seq<JsonV>,
    with_reasoning: bool,
)
    ensures
        forall|i: int|
            0 <= i < chat_messages(instructions, items, with_reasoning).len() ==> lists_its_calls(
                #[trigger] chat_messages(instructions, items, with_reasoning)[i],
            ),
    decreases items.len(),
{
    lemma_names();
    lemma_with_gets_all();
    if items.len() > 0 {
        lemma_calls_are_lists(instructions, items.drop_last(), with_reasoning);
        let before = chat_messages(instructions, items.drop_last(), with_reasoning);
        if before.len() > 0 {
            assert(lists_its_calls(before[before.len() - 1]));
        }
        let added = after_item(before, items.last());
        assert forall|i: int| 0 <= i < added.len() implies lists_its_calls(#[trigger] added[i]) by {
            if i < before.len() {
                assert(lists_its_calls(before[i]));
            }
        }
    }
}

/// A tool call adds one call, with the identifier, the name and the arguments of the item. It
/// joins a message of the assistant that stands last, behind the calls that are there, else it
/// makes one without content. No other message changes.
pub proof fn law_call_adds_one_call(
    instructions: Option<Seq<char>>,
    items: Seq<JsonV>,
    item: JsonV,
    with_reasoning: bool,
    c: Seq<char>,
    name: Seq<char>,
    args: Seq<char>,
)
    requires
        item.text_at("type"@) == Some("function_call"@) && item.text_at("arguments"@) == Some(args)
            && !is_blank(args) || item.text_at("type"@) == Some("custom_tool_call"@) && args
            == rendered(JsonV::object().with("input"@, JsonV::Text(item.text_or("input"@, ""@)))),
        item.text_at("call_id"@) == Some(c),
        item.text_at("name"@) == Some(name),
    ensures
        ({
            let before = chat_messages(instructions, items, with_reasoning);
            let after = chat_messages(instructions, items.push(item), with_reasoning);
            let joins = before.len() > 0 && before.last().text_at("role"@) == Some("assistant"@);
            let kept = if joins {
                before.len() - 1
            } else {
                before.len() as int
            };
            let m = after.last();
            let calls = m.items_at("tool_calls"@);
            &&& after.len() == kept + 1
            &&& forall|i: int| 0 <= i < kept ==> #[trigger] after[i] == before[i]
            &&& m.text_at("role"@) == Some("assistant"@)
            &&& m.get("content"@) == (if joins {
                before.last().get("content"@)
            } else {
                Some(JsonV::Null)
            })
            &&& calls.len() > 0
            &&& calls.drop_last() == (if joins {
                before.last().items_at("tool_calls"@)
            } else {
                Seq::empty()
            })
            &&& calls.last().text_at("id"@) == Some(c)
            &&& calls.last().text_at("type"@) == Some("function"@)
            &&& calls.last().get2("function"@, "name"@) == Some(JsonV::Text(name))
            &&& calls.last().get2("function"@, "arguments"@) == Some(JsonV::Text(args))
        }),
{
    lemma_names();
    lemma_with_gets_all();
    lemma_one_item_more(instructions, items, item, with_reasoning);
    lemma_calls_are_lists(instructions, items, with_reasoning);
    lemma_call_fields(c, name, args);
    let before = chat_messages(instructions, items, with_reasoning);
    let after = chat_messages(instructions, items.push(item), with_reasoning);
    let call = chat_call(c, name, args);
    let called = after_call(before, call);
    assert(after_item(before, item) == called);
    lemma_call_leaves_assistant_last(before, call);
    let joins = ends_with_assistant(before);
    let calls = called.last().items_at("tool_calls"@);
    if joins {
        assert(lists_its_calls(before[before.len() - 1]));
        let old_calls = before.last().items_at("tool_calls"@);
        assert(calls =~= old_calls.push(call));
        assert(calls.drop_last() =~= old_calls);
    } else {
        assert(calls =~= seq![call]);
        assert(calls.drop_last() =~= Seq::<JsonV>::empty());
    }
    assert(after.last().items_at("tool_calls"@) == calls);
    assert(after.len() == called.len());
    assert(after.drop_last() =~= called.drop_last());
    assert forall|i: int| 0 <= i < after.len() - 1 implies #[trigger] after[i] == before[i] by {
        assert(after[i] == after.drop_last()[i]);
        assert(called[i] == called.drop_last()[i]);
    }
}

proof fn lemma_call_fields(c: Seq<char>, name: Seq<char>, args: Seq<char>)
    ensures
        chat_call(c, name, args).text_at("id"@) == Some(c),
        chat_call(c, name, args).text_at("type"@) == Some("function"@),
        chat_call(c, name, args).get2("function"@, "name"@) == Some(JsonV::Text(name)),
        chat_call(c, name, args).get2("function"@, "arguments"@) == Some(JsonV::Text(args)),
{
    reveal_strlit("id");
    reveal_strlit("type");
    reveal_strlit("function");
    reveal_strlit("name");
    reveal_strlit("arguments");
    assert("id"@.len() == 2 && "type"@.len() == 4 && "function"@.len() == 8 && "name"@.len() == 4
        && "arguments"@.len() == 9);
    lemma_with_gets_all();
}

/// Items without a form in Chat leave the messages as they are.
pub proof fn law_other_items_add_nothing(
    instructions: Option<Seq<char>>,
    items: Seq<JsonV>,
    item: JsonV,
    with_reasoning: bool,
)
    requires
        item.text_at("type"@) == Some("reasoning"@) || item.text_at("type"@) == Some(
            "local_shell_call"@,
        ) || item.text_at("type"@) == Some("local_shell_call_output"@) || item.text_at("type"@)
            == Some("web_search_call"@),
    ensures
        chat_messages(instructions, items.push(item), with_reasoning) == chat_messages(
            instructions,
            items,
            with_reasoning,
        ),
{
    lemma_names();
    reveal_strlit("local_shell_call");
    reveal_strlit("local_shell_call_output");
    reveal_strlit("web_search_call");
    reveal_strlit("custom_tool_call");
    reveal_strlit("custom_tool_call_output");
    assert("local_shell_call"@.len() == 16 && "local_shell_call_output"@.len() == 23
        && "web_search_call"@.len() == 15);
    assert("local_shell_call"@[0] == 'l' && "custom_tool_call"@[0] == 'c');
    assert("local_shell_call_output"@[0] == 'l' && "custom_tool_call_output"@[0] == 'c');
    lemma_one_item_more(instructions, items, item, with_reasoning);
}

/// How many messages of a conversation later items cannot change: all of them, but for a message
/// of the assistant that stands last, which calls may join.
pub open spec fn fixed(messages: Seq<JsonV>) -> int {
    if messages.len() > 0 && messages.last().text_at("role"@) == Some("assistant"@) {
        messages.len() - 1
    } else {
        messages.len() as int
    }
}

/// The messages of a conversation begin with those of its beginning: what later items make comes
/// after them, and only a message of the assistant that stood last may still grow.
pub proof fn law_later_items_come_after(
    instructions: Option<Seq<char>>,
    a: Seq<JsonV>,
    b: Seq<JsonV>,
    with_reasoning: bool,
)
    ensures
        ({
            let before = chat_messages(instructions, a, with_reasoning);
            let after = chat_messages(instructions, a + b, with_reasoning);
            &&& before.len() <= after.len()
            &&& forall|i: int| 0 <= i < fixed(before) ==> #[trigger] after[i] == before[i]
        }),
    decreases b.len(),
{
    let before = chat_messages(instructions, a, with_reasoning);
    if b.len() == 0 {
        assert(a + b =~= a);
    } else {
        assert((a + b).drop_last() =~= a + b.drop_last());
        law_later_items_come_after(instructions, a, b.drop_last(), with_reasoning);
        let between = chat_messages(instructions, a + b.drop_last(), with_reasoning);
        let added = after_item(between, b.last());
        let after = chat_messages(instructions, a + b, with_reasoning);
        assert(added.len() >= between.len());
        assert forall|i: int| 0 <= i < fixed(between) implies #[trigger] added[i] == between[i] by {}
        assert(after.len() == added.len());
        if between.len() == fixed(before) {
            assert(between =~= before);
        }
        assert(fixed(before) <= fixed(between));
        lemma_item_leaves_others(between, b.last());
        assert forall|i: int| 0 <= i < fixed(before) implies #[trigger] after[i] == before[i] by {
            assert(added[i] == between[i]);
        }
    }
}

proof fn lemma_item_leaves_others(messages: Seq<JsonV>, item: JsonV)
    ensures
        has_chat_form(item) && ends_with_assistant(after_item(messages, item)) ==> after_item(
            messages,
            item,
        ).len() > fixed(messages),
{
    lemma_names();
    if item_type(item) == "function_call"@ || item_type(item) == "custom_tool_call"@ {
        if ends_with_assistant(messages) {
            assert(after_item(messages, item).len() == messages.len());
        }
    }
}

/// Instructions are the first message, from the system, and change nothing else; empty ones
/// make no message.
pub proof fn law_instructions_come_first(ins: Seq<char>, items: Seq<JsonV>, with_reasoning: bool)
    ensures
        ins.len() > 0 ==> ({
            let all = chat_messages(Some(ins), items, with_reasoning);
            &&& all.len() > 0
            &&& all[0].text_at("role"@) == Some("system"@)
            &&& all[0].text_at("content"@) == Some(ins)
            &&& all.skip(1) == chat_messages(None, items, with_reasoning)
        }),
        ins.len() == 0 ==> chat_messages(Some(ins), items, with_reasoning) == chat_messages(
            None,
            items,
            with_reasoning,
        ),
{
    lemma_names();
    lemma_with_gets_all();
    if ins.len() > 0 {
        let first = JsonV::object().with("role"@, txt("system"@)).with("content"@, txt(ins));
        lemma_behind_instructions(ins, first, items, with_reasoning);
        let all = chat_messages(Some(ins), items, with_reasoning);
        assert(all.skip(1) =~= chat_messages(None, items, with_reasoning));
    } else {
        lemma_empty_instructions(ins, items, with_reasoning);
    }
}

proof fn lemma_empty_instructions(ins: Seq<char>, items: Seq<JsonV>, with_reasoning: bool)
    requires
        ins.len() == 0,
    ensures
        conversion(Some(ins), items, with_reasoning) == conversion(None, items, with_reasoning),
    decreases items.len(),
{
    if items.len() > 0 {
        lemma_empty_instructions(ins, items.drop_last(), with_reasoning);
    }
}

proof fn lemma_behind_instructions(
    ins: Seq<char>,
    first: JsonV,
    items: Seq<JsonV>,
    with_reasoning: bool,
)
    requires
        ins.len() > 0,
        first == JsonV::object().with("role"@, txt("system"@)).with("content"@, txt(ins)),
        !is_assistant(first),
    ensures
        conversion(Some(ins), items, with_reasoning).messages == seq![first] + conversion(
            None,
            items,
            with_reasoning,
        ).messages,
        conversion(Some(ins), items, with_reasoning).waiting == conversion(
            None,
            items,
            with_reasoning,
        ).waiting,
    decreases items.len(),
{
    if items.len() == 0 {
        assert(seq![first] + Seq::<JsonV>::empty() =~= seq![first]);
    } else {
        lemma_behind_instructions(ins, first, items.drop_last(), with_reasoning);
        let inner = conversion(None, items.drop_last(), with_reasoning).messages;
        lemma_item_behind(first, inner, items.last());
        let made = after_item(inner, items.last());
        let outer = after_item(seq![first] + inner, items.last());
        assert(outer == seq![first] + made);
        if made.len() > 0 {
            assert(outer.last() == made.last());
            assert(outer.drop_last() =~= seq![first] + made.drop_last());
            assert forall|m: JsonV| #[trigger] replace_last(outer, m) == seq![first] + replace_last(
                made,
                m,
            ) by {
                assert(replace_last(outer, m) =~= seq![first] + replace_last(made, m));
            }
        } else {
            assert(outer.last() == first);
        }
    }
}

proof fn lemma_item_behind(first: JsonV, messages: Seq<JsonV>, item: JsonV)
    requires
        !is_assistant(first),
    ensures
        after_item(seq![first] + messages, item) == seq![first] + after_item(messages, item),
{
    let all = seq![first] + messages;
    assert forall|m: JsonV| #[trigger] all.push(m) == seq![first] + messages.push(m) by {
        assert(all.push(m) =~= seq![first] + messages.push(m));
    }
    if messages.len() > 0 {
        assert(all.last() == messages.last());
        assert forall|m: JsonV| #[trigger] replace_last(all, m) == seq![first] + replace_last(
            messages,
            m,
        ) by {
            assert(replace_last(all, m) =~= seq![first] + replace_last(messages, m));
        }
    } else {
        assert(all.last() == first);
    }
}

proof fn lemma_part_names()
    ensures
        "input_text"@.len() == 10,
        "output_text"@.len() == 11,
        "text"@.len() == 4,
        "refusal"@.len() == 7,
        "input_image"@.len() == 11,
        "input_image"@ != "output_text"@,
        "type"@.len() == 4,
        "type"@ != "text"@,
        "image_url"@.len() == 9,
        "url"@.len() == 3,
        "detail"@.len() == 6,
        ""@.len() == 0,
{
    reveal_strlit("input_text");
    reveal_strlit("output_text");
    reveal_strlit("text");
    reveal_strlit("refusal");
    reveal_strlit("input_image");
    reveal_strlit("type");
    reveal_strlit("image_url");
    reveal_strlit("url");
    reveal_strlit("detail");
    reveal_strlit("");
    assert("input_image"@[0] == 'i' && "output_text"@[0] == 'o');
    assert("type"@[1] == 'y' && "text"@[1] == 'e');
}

proof fn lemma_one_part(p: JsonV)
    ensures
        spoken_parts(seq![p]) == (match spoken_part(p) {
            Some(s) => seq![s],
            None => Seq::empty(),
        }),
        chat_parts(seq![p]) == (match chat_part(p) {
            Some(v) => seq![v],
            None => Seq::empty(),
        }),
        has_image(seq![p]) == is_image(p),
{
    let one = seq![p];
    assert(one.drop_last() =~= Seq::<JsonV>::empty());
    assert(spoken_parts(one.drop_last()) =~= Seq::<Seq<char>>::empty());
    assert(chat_parts(one.drop_last()) =~= Seq::<JsonV>::empty());
    assert(one.last() == p && one[0] == p);
    if spoken_part(p) is Some {
        assert(spoken_parts(one) =~= seq![spoken_part(p)->0]);
    }
    if chat_part(p) is Some {
        assert(chat_parts(one) =~= seq![chat_part(p)->0]);
    }
}

/// One part of text, or one refusal, is the content by itself, whoever speaks.
pub proof fn law_spoken_part_is_the_content(p: JsonV, role: Seq<char>, s: Seq<char>)
    requires
        p.text_at("text"@) == Some(s) && (p.text_at("type"@) == Some("input_text"@) || p.text_at(
            "type"@,
        ) == Some("output_text"@) || p.text_at("type"@) == Some("text"@)) || p.text_at("refusal"@)
            == Some(s) && p.text_at("type"@) == Some("refusal"@),
    ensures
        chat_content(Some(JsonV::Array(seq![p])), role) == JsonV::Text(s),
        chat_content(Some(JsonV::Text(s)), role) == JsonV::Text(s),
{
    lemma_part_names();
    lemma_one_part(p);
}

/// An image of the user is kept, with its address and its detail; from anyone else it is left
/// out.
pub proof fn law_image_of_the_user_is_kept(p: JsonV, u: Seq<char>, role: Seq<char>)
    requires
        p.text_at("type"@) == Some("input_image"@),
        p.get("image_url"@) == Some(JsonV::Text(u)) || p.get("image_url"@) is Some && p.get(
            "image_url"@,
        )->0.text_at("url"@) == Some(u),
        u.len() > 0,
    ensures
        role == "user"@ ==> ({
            let content = chat_content(Some(JsonV::Array(seq![p])), role);
            &&& content matches JsonV::Array(parts)
            &&& parts.len() == 1
            &&& parts[0].text_at("type"@) == Some("image_url"@)
            &&& parts[0].get2("image_url"@, "url"@) == Some(JsonV::Text(u))
            &&& parts[0].get2("image_url"@, "detail"@) == (if p.get("detail"@) == Some(JsonV::Null) {
                None
            } else {
                p.get("detail"@)
            })
        }),
        role != "user"@ ==> chat_content(Some(JsonV::Array(seq![p])), role) == JsonV::Text(
            Seq::empty(),
        ),
{
    lemma_part_names();
    lemma_with_gets_all();
    lemma_one_part(p);
    assert(JsonV::object().get("detail"@) is None);
}

proof fn lemma_parts_add(a: Seq<JsonV>, b: Seq<JsonV>)
    ensures
        spoken_parts(a + b) == spoken_parts(a) + spoken_parts(b),
        chat_parts(a + b) == chat_parts(a) + chat_parts(b),
    decreases b.len(),
{
    if b.len() == 0 {
        assert(a + b =~= a);
        assert(spoken_parts(a) + spoken_parts(b) =~= spoken_parts(a));
        assert(chat_parts(a) + chat_parts(b) =~= chat_parts(a));
    } else {
        assert((a + b).drop_last() =~= a + b.drop_last());
        assert((a + b).last() == b.last());
        lemma_parts_add(a, b.drop_last());
        assert(spoken_parts(a + b) =~= spoken_parts(a) + spoken_parts(b));
        assert(chat_parts(a + b) =~= chat_parts(a) + chat_parts(b));
    }
}

/// Parts keep their order. Without an image of the user, the content of two lists is the text of
/// the first, a line break and the text of the second; with one in each, it is the parts of the
/// first followed by those of the second.
pub proof fn law_parts_keep_their_order(a: Seq<JsonV>, b: Seq<JsonV>, role: Seq<char>)
    ensures
        ({
            let first = chat_content(Some(JsonV::Array(a)), role);
            let second = chat_content(Some(JsonV::Array(b)), role);
            let both = chat_content(Some(JsonV::Array(a + b)), role);
            &&& first is Array && second is Array ==> both == JsonV::Array(
                first->Array_0 + second->Array_0,
            )
            &&& first is Text && second is Text && first->Text_0.len() > 0 && second->Text_0.len()
                > 0 ==> both == JsonV::Text(first->Text_0 + "\n"@ + second->Text_0)
        }),
{
    lemma_parts_add(a, b);
    law_join_of_two_lists(spoken_parts(a), spoken_parts(b), "\n"@);
    law_join_of_two_lists(Seq::empty(), Seq::empty(), "\n"@);
    assert forall|i: int| 0 <= i < (a + b).len() implies #[trigger] (a + b)[i] == (if i < a.len() {
        a[i]
    } else {
        b[i - a.len()]
    }) by {}
    if has_image(a) {
        let i = choose|i: int| 0 <= i < a.len() && is_image(#[trigger] a[i]);
        assert(is_image((a + b)[i]));
    }
    if !has_image(a) && !has_image(b) {
        assert(!has_image(a + b));
    }
    if spoken_parts(a).len() == 0 {
        assert(spoken_parts(a) =~= Seq::<Seq<char>>::empty());
    }
    if spoken_parts(b).len() == 0 {
        assert(spoken_parts(b) =~= Seq::<Seq<char>>::empty());
    }
}

/// Tools keep their order: the functions of two lists are those of the first followed by those
/// of the second.
pub proof fn law_tools_keep_their_order(a: Seq<JsonV>, b: Seq<JsonV>)
    ensures
        chat_tools(a + b) == chat_tools(a) + chat_tools(b),
    decreases b.len(),
{
    if b.len() == 0 {
        assert(a + b =~= a);
        assert(chat_tools(a) + chat_tools(b) =~= chat_tools(a));
    } else {
        assert((a + b).drop_last() =~= a + b.drop_last());
        assert((a + b).last() == b.last());
        law_tools_keep_their_order(a, b.drop_last());
        assert(chat_tools(a + b) =~= chat_tools(a) + chat_tools(b));
    }
}

proof fn lemma_tool_names()
    ensures
        "type"@.len() == 4,
        "name"@.len() == 4,
        "type"@ != "name"@,
        "function"@.len() == 8,
        "custom"@.len() == 6,
        "description"@.len() == 11,
        "parameters"@.len() == 10,
        "strict"@.len() == 6,
        "properties"@.len() == 10,
        "properties"@ != "parameters"@,
        "required"@.len() == 8,
        "input"@.len() == 5,
{
    reveal_strlit("type");
    reveal_strlit("name");
    reveal_strlit("function");
    reveal_strlit("custom");
    reveal_strlit("description");
    reveal_strlit("parameters");
    reveal_strlit("strict");
    reveal_strlit("properties");
    reveal_strlit("required");
    reveal_strlit("input");
    assert("type"@[0] == 't' && "name"@[0] == 'n');
    assert("properties"@[1] == 'r' && "parameters"@[1] == 'a');
}

proof fn lemma_one_tool(tool: JsonV)
    ensures
        chat_tools(seq![tool]) == (match chat_tool(tool) {
            Some(t) => seq![t],
            None => Seq::empty(),
        }),
{
    let one = seq![tool];
    assert(one.drop_last() =~= Seq::<JsonV>::empty());
    assert(chat_tools(one.drop_last()) =~= Seq::<JsonV>::empty());
    assert(one.last() == tool);
    if chat_tool(tool) is Some {
        assert(chat_tools(one) =~= seq![chat_tool(tool)->0]);
    }
}

/// A function becomes one function with its name, its description, its parameters and its
/// strictness, as far as it has them.
pub proof fn law_function_keeps_its_fields(tool: JsonV, name: Seq<char>)
    requires
        tool.text_at("type"@) == Some("function"@),
        tool.text_at("name"@) == Some(name),
    ensures
        ({
            let made = chat_tools(seq![tool]);
            &&& made.len() == 1
            &&& made[0].text_at("type"@) == Some("function"@)
            &&& made[0].get2("function"@, "name"@) == Some(JsonV::Text(name))
            &&& made[0].get2("function"@, "description"@) == tool.get("description"@)
            &&& tool.get("parameters"@) is Some ==> made[0].get2("function"@, "parameters"@) == tool.get(
                "parameters"@,
            )
            &&& tool.get("strict"@) != Some(JsonV::Null) ==> made[0].get2("function"@, "strict"@)
                == tool.get("strict"@)
            &&& tool.get("strict"@) == Some(JsonV::Null) ==> made[0].get2("function"@, "strict"@)
                is None
        }),
{
    lemma_tool_names();
    lemma_with_gets_all();
    lemma_one_tool(tool);
    assert(JsonV::object().get("description"@) is None);
    assert(JsonV::object().get("strict"@) is None);
}

/// A custom tool becomes one function of its name that takes one text, `input`. Its description
/// says the grammar of that text where the tool gives one.
pub proof fn law_custom_tool_takes_a_text(
    tool: JsonV,
    name: Seq<char>,
    description: Seq<char>,
    syntax: Seq<char>,
    definition: Seq<char>,
)
    requires
        tool.text_at("type"@) == Some("custom"@),
        tool.text_at("name"@) == Some(name),
        tool.text_at("description"@) == Some(description),
    ensures
        ({
            let made = chat_tools(seq![tool]);
            let said = made[0].get2("function"@, "description"@);
            let parameters = made[0].get2("function"@, "parameters"@);
            &&& made.len() == 1
            &&& made[0].text_at("type"@) == Some("function"@)
            &&& made[0].get2("function"@, "name"@) == Some(JsonV::Text(name))
            &&& parameters is Some && parameters->0.items_at("required"@) == seq![
                JsonV::Text("input"@),
            ]
            &&& parameters->0.get2("properties"@, "input"@) is Some
            &&& parameters->0.get2("properties"@, "input"@)->0.text_at("type"@) == Some("string"@)
            &&& tool.get2("format"@, "definition"@) is None ==> said == Some(
                JsonV::Text(description),
            )
            &&& tool.get2("format"@, "definition"@) == Some(JsonV::Text(definition)) && tool.get2(
                "format"@,
                "syntax"@,
            ) == Some(JsonV::Text(syntax)) ==> said == Some(
                JsonV::Text(
                    description + "\n\nThe `input` argument must be raw text following this "@ + syntax
                        + " grammar:\n"@ + definition,
                ),
            )
        }),
{
    lemma_tool_names();
    lemma_with_gets_all();
    lemma_one_tool(tool);
}

/// Tools of any other type are left out.
pub proof fn law_other_tools_are_left_out(tool: JsonV)
    requires
        tool.text_at("type"@) != Some("function"@),
        tool.text_at("type"@) != Some("custom"@),
    ensures
        chat_tools(seq![tool]).len() == 0,
{
    lemma_tool_names();
    lemma_one_tool(tool);
    lemma_part_names();
}

/// Where reasoning is wanted, what waits goes to the next item that the assistant says or calls:
/// the message that it makes, or joins, carries it behind the reasoning that it has, and nothing
/// waits any more. What the user says and what a tool gives back leave it waiting.
pub proof fn law_reasoning_goes_to_the_next_assistant_message(
    instructions: Option<Seq<char>>,
    items: Seq<JsonV>,
    item: JsonV,
    r: Seq<char>,
)
    requires
        conversion(instructions, items, true).waiting == Some(r),
    ensures
        ({
            let before = chat_messages(instructions, items, true);
            let end = conversion(instructions, items.push(item), true);
            let ty = item.text_at("type"@);
            let calls = ty == Some("function_call"@) || ty == Some("custom_tool_call"@);
            let joins = before.len() > 0 && before.last().text_at("role"@) == Some("assistant"@);
            let had = if calls && joins {
                before.last().text_or("reasoning_content"@, ""@)
            } else {
                Seq::empty()
            };
            &&& calls || speaks_as(item, "assistant"@) ==> end.waiting is None
                && end.messages.last().text_at("reasoning_content"@) == Some(had + r)
            &&& speaks_as(item, "user"@) || ty == Some("function_call_output"@) || ty == Some(
                "custom_tool_call_output"@,
            ) ==> end.waiting == Some(r)
        }),
{
    lemma_names();
    lemma_with_gets_all();
    lemma_one_item_more(instructions, items, item, true);
    lemma_calls_are_lists(instructions, items, true);
    let before = chat_messages(instructions, items, true);
    if before.len() > 0 {
        assert(lists_its_calls(before[before.len() - 1]));
    }
    let made = after_item(before, item);
    reveal_strlit("");
    assert(""@ =~= Seq::<char>::empty());
    assert(JsonV::object().get("reasoning_content"@) is None);
    let ty = item.text_at("type"@);
    if ty == Some("function_call"@) || ty == Some("custom_tool_call"@) {
        let args = if ty == Some("function_call"@) {
            call_arguments(item)
        } else {
            custom_arguments(item)
        };
        lemma_call_leaves_assistant_last(
            before,
            chat_call(item.text_or("call_id"@, ""@), item.text_or("name"@, ""@), args),
        );
        assert(ends_with_assistant(made));
    }
    assert(Seq::<char>::empty() + r =~= r);
}

/// A reasoning item waits for a message, behind the reasoning that waits already: its content, or
/// its summary where it has no content. Where reasoning is not wanted, nothing waits.
pub proof fn law_reasoning_waits(
    instructions: Option<Seq<char>>,
    items: Seq<JsonV>,
    item: JsonV,
    t: Seq<char>,
)
    requires
        item.text_at("type"@) == Some("reasoning"@),
        t.len() > 0,
        t == join(part_texts(item.items_at("content"@)), "\n"@) || item.get("content"@) is None && t
            == join(part_texts(item.items_at("summary"@)), "\n"@),
    ensures
        ({
            let before = conversion(instructions, items, true).waiting;
            let after = conversion(instructions, items.push(item), true).waiting;
            &&& before is None ==> after == Some(t)
            &&& before is Some ==> after == Some(before->0 + t)
        }),
        conversion(instructions, items.push(item), false).waiting == conversion(
            instructions,
            items,
            false,
        ).waiting,
{
    lemma_names();
    lemma_one_item_more(instructions, items, item, true);
    lemma_one_item_more(instructions, items, item, false);
    if item.get("content"@) is None {
        assert(item.items_at("content"@) =~= Seq::<JsonV>::empty());
        assert(part_texts(item.items_at("content"@)).len() == 0);
    }
}

/// The grammar of a custom tool whose syntax is not named is called just that.
pub proof fn law_unnamed_syntax_is_a_grammar(
    tool: JsonV,
    description: Seq<char>,
    definition: Seq<char>,
)
    requires
        tool.text_at("type"@) == Some("custom"@),
        tool.text_at("description"@) == Some(description),
        tool.get2("format"@, "definition"@) == Some(JsonV::Text(definition)),
        tool.get2("format"@, "syntax"@) is None,
    ensures
        chat_tools(seq![tool]).len() == 1,
        chat_tools(seq![tool])[0].get2("function"@, "description"@) == Some(
            JsonV::Text(
                description + "\n\nThe `input` argument must be raw text following this "@
                    + "grammar"@ + " grammar:\n"@ + definition,
            ),
        ),
{
    lemma_tool_names();
    lemma_with_gets_all();
    lemma_one_tool(tool);
}

/// A function call without arguments, or with blank ones, is called with an empty object.
pub proof fn law_no_arguments_are_an_empty_object(
    instructions: Option<Seq<char>>,
    items: Seq<JsonV>,
    item: JsonV,
    with_reasoning: bool,
)
    requires
        item.text_at("type"@) == Some("function_call"@),
        item.text_at("arguments"@) is None || is_blank(item.text_at("arguments"@)->0),
    ensures
        ({
            let calls = chat_messages(
                instructions,
                items.push(item),
                with_reasoning,
            ).last().items_at("tool_calls"@);
            &&& calls.len() > 0
            &&& calls.last().get2("function"@, "arguments"@) == Some(JsonV::Text("{}"@))
        }),
{
    lemma_names();
    lemma_with_gets_all();
    lemma_one_item_more(instructions, items, item, with_reasoning);
    lemma_calls_are_lists(instructions, items, with_reasoning);
    reveal_strlit("");
    assert(""@.len() == 0);
    let (c, name) = (item.text_or("call_id"@, ""@), item.text_or("name"@, ""@));
    lemma_call_fields(c, name, "{}"@);
    let before = chat_messages(instructions, items, with_reasoning);
    let call = chat_call(c, name, "{}"@);
    let called = after_call(before, call);
    assert(after_item(before, item) == called);
    lemma_call_leaves_assistant_last(before, call);
    let calls = called.last().items_at("tool_calls"@);
    if ends_with_assistant(before) {
        assert(lists_its_calls(before[before.len() - 1]));
        assert(calls =~= before.last().items_at("tool_calls"@).push(call));
    } else {
        assert(calls =~= seq![call]);
    }
    let after = chat_messages(instructions, items.push(item), with_reasoning);
    assert(after.last().items_at("tool_calls"@) == calls);
}

} // verus!
