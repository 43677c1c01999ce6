//! The text that the classifier sees: the request of the user, with the conversation before it.
use crate::codec::rendered;
use crate::items::{
    content_text, injected, input_items, is_injected, is_user_request, item_role, last_request,
    last_request_at, law_last_request_is_the_last, law_roles, message_text, request_items, role,
    speaks_as, tool_output, tool_output_to_string,
};
use crate::json::{trees, Json, JsonV};
use crate::text::{
    count, ends_with, join, join_all, law_join_of_two_lists, law_tail_of_a_longer_text,
    opt_string_view, same, tail, tail_chars, truncate, truncated, views,
};
use vstd::prelude::*;

verus! {

/// How many characters of a tool's output are shown.
pub const MAX_TOOL_OUTPUT_CHARS: usize = 1_000;

/// How many characters of a tool call's arguments are shown.
pub const MAX_TOOL_ARGS_CHARS: usize = 300;

/// A tool call as a line.
pub open spec fn call_line(name: Seq<char>, args: Seq<char>) -> Seq<char> {
    "assistant tool call: "@ + name + "("@ + truncated(args, MAX_TOOL_ARGS_CHARS as nat) + ")"@
}

/// The command of a shell call, as JSON; empty where there is none.
pub open spec fn shell_command(it: JsonV) -> Seq<char> {
    match it.get2("action"@, "command"@) {
        Some(c) => rendered(c),
        None => Seq::empty(),
    }
}

/// The line that an item contributes to the conversation, where it contributes one.
pub open spec fn context_line(it: JsonV) -> Option<Seq<char>> {
    let who = item_role(it);
    let ty = it.text_or("type"@, ""@);
    if who == "user"@ {
        if injected(message_text(it)) {
            None
        } else {
            Some("user: "@ + message_text(it))
        }
    } else if who == "assistant"@ {
        if message_text(it).len() == 0 {
            None
        } else {
            Some("assistant: "@ + message_text(it))
        }
    } else if ty == "function_call"@ {
        Some(call_line(it.text_or("name"@, ""@), it.text_or("arguments"@, ""@)))
    } else if ty == "custom_tool_call"@ {
        Some(call_line(it.text_or("name"@, ""@), it.text_or("input"@, ""@)))
    } else if ty == "local_shell_call"@ {
        Some(call_line("local_shell"@, shell_command(it)))
    } else if ty == "function_call_output"@ || ty == "custom_tool_call_output"@ || ty
        == "local_shell_call_output"@ {
        Some(
            "tool output: "@ + truncated(
                tool_output(it.get("output"@)),
                MAX_TOOL_OUTPUT_CHARS as nat,
            ),
        )
    } else {
        None
    }
}

/// The lines of the conversation, without the item at `skip`.
pub open spec fn context_lines(items: Seq<JsonV>, skip: int) -> Seq<Seq<char>>
    decreases items.len(),
{
    if items.len() == 0 {
        Seq::empty()
    } else {
        let before = context_lines(items.drop_last(), skip);
        if items.len() - 1 == skip {
            before
        } else {
            match context_line(items.last()) {
                Some(line) => before.push(line),
                None => before,
            }
        }
    }
}

/// What the user asks: the last message that the user wrote.
pub open spec fn current_text(items: Seq<JsonV>) -> Seq<char> {
    if last_request(items) >= 0 {
        message_text(items[last_request(items)])
    } else {
        Seq::empty()
    }
}

/// The block that holds what the user asks.
pub open spec fn current_block(items: Seq<JsonV>) -> Seq<char> {
    "[Current request]\n"@ + current_text(items)
}

/// The text of the classifier: what the user asks and, where wanted, as much of the end of the
/// conversation as fits into `max` characters.
pub open spec fn state_text(items: Seq<JsonV>, include_context: bool, max: nat) -> Seq<char> {
    let block = current_block(items);
    let lines = context_lines(items, last_request(items));
    let room = max - (block.len() + 25);
    if !include_context {
        tail(current_text(items), max)
    } else if lines.len() == 0 || room <= 0 {
        tail(block, max)
    } else {
        "[Conversation context]\n"@ + tail(join(lines, "\n"@), room as nat) + "\n\n"@ + block
    }
}

fn tool_call_line(name: &str, args: &str) -> (r: String)
    ensures
        r@ == call_line(name@, args@),
{
    let mut s = "assistant tool call: ".to_owned();
    s.push_str(name);
    s.push_str("(");
    s.push_str(truncate(args, MAX_TOOL_ARGS_CHARS).as_str());
    s.push_str(")");
    s
}

fn labelled(label: &str, text: &str) -> (r: String)
    ensures
        r@ == label@ + text@,
{
    let mut s = label.to_owned();
    s.push_str(text);
    s
}

fn line_of(it: &Json) -> (r: Option<String>)
    ensures
        opt_string_view(r) == context_line(it@),
{
    let who = role(it);
    let ty = it.text_or("type", "");
    if same(who, "user") {
        let text = content_text(it);
        if is_injected(text.as_str()) {
            None
        } else {
            Some(labelled("user: ", text.as_str()))
        }
    } else if same(who, "assistant") {
        let text = content_text(it);
        if text.as_str().is_empty() {
            None
        } else {
            Some(labelled("assistant: ", text.as_str()))
        }
    } else if same(ty, "function_call") {
        Some(tool_call_line(it.text_or("name", ""), it.text_or("arguments", "")))
    } else if same(ty, "custom_tool_call") {
        Some(tool_call_line(it.text_or("name", ""), it.text_or("input", "")))
    } else if same(ty, "local_shell_call") {
        let cmd = match it.get2("action", "command") {
            Some(c) => c.to_text(),
            None => String::new(),
        };
        Some(tool_call_line("local_shell", cmd.as_str()))
    } else if same(ty, "function_call_output") || same(ty, "custom_tool_call_output") || same(
        ty,
        "local_shell_call_output",
    ) {
        let out = tool_output_to_string(it.get("output"));
        Some(labelled("tool output: ", truncate(out.as_str(), MAX_TOOL_OUTPUT_CHARS).as_str()))
    } else {
        None
    }
}

fn lines_of(items: &Vec<Json>, skip: Option<usize>) -> (r: Vec<String>)
    ensures
        views(r@) == context_lines(
            trees(items@),
            match skip {
                Some(i) => i as int,
                None => -1,
            },
        ),
{
    let mut lines: Vec<String> = Vec::new();
    let mut i: usize = 0;
    let ghost ts = trees(items@);
    let ghost at = match skip {
        Some(i) => i as int,
        None => -1,
    };
    assert(views(lines@) =~= context_lines(ts.take(0), at));
    while i < items.len()
        invariant
            0 <= i <= items@.len(),
            ts == trees(items@),
            at == (match skip {
                Some(i) => i as int,
                None => -1,
            }),
            views(lines@) == context_lines(ts.take(i as int), at),
        decreases items.len() - i,
    {
        proof {
            assert(ts.take(i + 1).drop_last() =~= ts.take(i as int));
            assert(ts.take(i + 1).last() == items@[i as int]@);
        }
        let skipped = match skip {
            Some(k) => k == i,
            None => false,
        };
        if !skipped {
            match line_of(&items[i]) {
                Some(line) => {
                    assert(views(lines@.push(line)) =~= views(lines@).push(line@));
                    lines.push(line);
                },
                None => {},
            }
        }
        i = i + 1;
    }
    assert(ts.take(ts.len() as int) =~= ts);
    lines
}

/// The text that the classifier sees. Without context it is the last message that the user
/// wrote. With context the conversation stands before it: messages of the user and the
/// assistant, tool calls and shortened tool outputs. What is too long loses its beginning.
pub fn build_state(input: &Vec<Json>, include_context: bool, max_chars: usize) -> (r: String)
    ensures
        r@ == state_text(trees(input@), include_context, max_chars as nat),
{
    let current = last_request_at(input);
    let text = match current {
        Some(i) => content_text(&input[i]),
        None => String::new(),
    };
    if !include_context {
        return tail_chars(text.as_str(), max_chars);
    }
    let lines = lines_of(input, current);
    let block = labelled("[Current request]\n", text.as_str());
    assert(views(lines@).len() == lines@.len());
    if lines.len() == 0 {
        return tail_chars(block.as_str(), max_chars);
    }
    let room: usize = max_chars.saturating_sub(count(block.as_str())).saturating_sub(25);
    if room == 0 {
        return tail_chars(block.as_str(), max_chars);
    }
    let mut s = "[Conversation context]\n".to_owned();
    s.push_str(tail_chars(join_all(&lines, "\n").as_str(), room).as_str());
    s.push_str("\n\n");
    s.push_str(block.as_str());
    s
}

/// What the user asks in this request: the last message that the user wrote.
pub fn last_user_text(req: &Json) -> (r: Option<String>)
    ensures
        ({
            let items = request_items(req@);
            opt_string_view(r) == (if last_request(items) >= 0 {
                Some(message_text(items[last_request(items)]))
            } else {
                None
            })
        }),
{
    let input = input_items(req);
    match last_request_at(&input) {
        Some(i) => {
            assert(trees(input@)[i as int] == input@[i as int]@);
            Some(content_text(&input[i]))
        },
        None => None,
    }
}

/// The text of the classifier never has more than `max` characters.
pub proof fn law_state_fits(items: Seq<JsonV>, include_context: bool, max: nat)
    ensures
        state_text(items, include_context, max).len() <= max,
{
    reveal_strlit("[Conversation context]\n");
    reveal_strlit("\n\n");
}

/// What the user asks is always kept: the text ends with it, or with as much of its end as
/// `max` characters hold. Where the block of the request fits, the text ends with the block.
pub proof fn law_current_request_kept(items: Seq<JsonV>, include_context: bool, max: nat)
    ensures
        ends_with(state_text(items, include_context, max), tail(current_text(items), max)),
        include_context && current_block(items).len() <= max ==> ends_with(
            state_text(items, include_context, max),
            current_block(items),
        ),
{
    let text = current_text(items);
    let block = current_block(items);
    let s = state_text(items, include_context, max);
    let t = tail(text, max);
    assert(s.skip(s.len() - t.len()) =~= t) by {
        if include_context {
            assert(block.skip(block.len() - t.len()) =~= t);
        }
    }
    if include_context && block.len() <= max {
        assert(s.skip(s.len() - block.len()) =~= block);
    }
}

/// Without context the classifier sees the request of the user alone.
pub proof fn law_no_context_is_the_request(items: Seq<JsonV>, max: nat)
    requires
        current_text(items).len() <= max,
    ensures
        state_text(items, false, max) == current_text(items),
{
}

/// An item that the classifier is never shown.
pub open spec fn hidden(it: JsonV) -> bool {
    context_line(it) is None && !is_user_request(it)
}

/// Messages of the system or the developer, and reasoning, are never shown to the classifier.
pub proof fn law_system_and_reasoning_are_hidden(it: JsonV)
    requires
        item_role(it) == "system"@ || item_role(it) == "developer"@ || it.text_at("type"@)
            == Some("reasoning"@),
    ensures
        hidden(it),
{
    reveal_strlit("message");
    reveal_strlit("system");
    reveal_strlit("developer");
    reveal_strlit("reasoning");
    reveal_strlit("user");
    reveal_strlit("assistant");
    reveal_strlit("");
    reveal_strlit("function_call");
    reveal_strlit("custom_tool_call");
    reveal_strlit("local_shell_call");
    reveal_strlit("function_call_output");
    reveal_strlit("custom_tool_call_output");
    reveal_strlit("local_shell_call_output");
    assert("assistant"@[0] == 'a' && "developer"@[0] == 'd');
    let who = item_role(it);
    assert("system"@.len() == 6 && "developer"@.len() == 9 && ""@.len() == 0);
    assert("message"@.len() == 7 && "reasoning"@.len() == 9);
    assert(who != "user"@ && who != "assistant"@) by {
        assert("user"@.len() == 4 && "assistant"@.len() == 9);
    }
    let ty = it.text_or("type"@, ""@);
    assert(ty.len() == 0 || ty.len() == 7 || ty.len() == 9);
    assert("function_call"@.len() == 13 && "custom_tool_call"@.len() == 16
        && "local_shell_call"@.len() == 16 && "function_call_output"@.len() == 20
        && "custom_tool_call_output"@.len() == 23 && "local_shell_call_output"@.len() == 23);
}

/// Messages that the client put in for the user are never shown to the classifier.
pub proof fn law_injected_messages_are_hidden(it: JsonV)
    requires
        item_role(it) == "user"@,
        injected(message_text(it)),
    ensures
        hidden(it),
{
}

proof fn lemma_last_request_insert(a: Seq<JsonV>, x: JsonV, b: Seq<JsonV>)
    requires
        !is_user_request(x),
    ensures
        last_request(a + seq![x] + b) == (if last_request(a + b) < a.len() {
            last_request(a + b)
        } else {
            last_request(a + b) + 1
        }),
        last_request(a + b) < (a + b).len(),
        -1 <= last_request(a + b),
    decreases b.len(),
{
    lemma_last_request_range(a + b);
    if b.len() == 0 {
        assert((a + seq![x] + b).drop_last() =~= a);
        assert(a + b =~= a);
    } else {
        assert((a + seq![x] + b).drop_last() =~= a + seq![x] + b.drop_last());
        assert((a + b).drop_last() =~= a + b.drop_last());
        lemma_last_request_insert(a, x, b.drop_last());
    }
}

proof fn lemma_last_request_range(items: Seq<JsonV>)
    ensures
        -1 <= last_request(items) < items.len(),
    decreases items.len(),
{
    if items.len() > 0 {
        lemma_last_request_range(items.drop_last());
    }
}

proof fn lemma_context_lines_insert(a: Seq<JsonV>, x: JsonV, b: Seq<JsonV>, skip: int)
    requires
        context_line(x) is None,
    ensures
        context_lines(
            a + seq![x] + b,
            if skip < a.len() {
                skip
            } else {
                skip + 1
            },
        ) == context_lines(a + b, skip),
    decreases b.len(),
{
    let moved = if skip < a.len() {
        skip
    } else {
        skip + 1
    };
    if b.len() == 0 {
        assert((a + seq![x] + b).drop_last() =~= a);
        assert(a + b =~= a);
        lemma_skip_beyond(a, skip, moved);
    } else {
        assert((a + seq![x] + b).drop_last() =~= a + seq![x] + b.drop_last());
        assert((a + b).drop_last() =~= a + b.drop_last());
        lemma_context_lines_insert(a, x, b.drop_last(), skip);
    }
}

proof fn lemma_skip_beyond(items: Seq<JsonV>, s: int, t: int)
    requires
        s == t || s >= items.len() && t >= items.len(),
    ensures
        context_lines(items, s) == context_lines(items, t),
    decreases items.len(),
{
    if items.len() > 0 {
        lemma_skip_beyond(items.drop_last(), s, t);
    }
}

/// A hidden item makes no difference, wherever it stands in the conversation.
pub proof fn law_hidden_items_do_not_matter(
    a: Seq<JsonV>,
    x: JsonV,
    b: Seq<JsonV>,
    include_context: bool,
    max: nat,
)
    requires
        hidden(x),
    ensures
        state_text(a + seq![x] + b, include_context, max) == state_text(a + b, include_context, max),
{
    lemma_last_request_insert(a, x, b);
    let at = last_request(a + b);
    lemma_context_lines_insert(a, x, b, at);
    let with = a + seq![x] + b;
    let without = a + b;
    if at >= 0 {
        if at < a.len() {
            assert(with[at] == without[at]);
        } else {
            assert(with[at + 1] == without[at]);
        }
    }
    assert(current_text(with) == current_text(without));
}

/// The lines of the conversation stand in the order of its items: the lines of two conversations
/// put together are the lines of the first, followed by those of the second. Left out is the
/// one item at `skip`, whichever of the two holds it.
pub proof fn law_lines_stand_in_order(a: Seq<JsonV>, b: Seq<JsonV>, skip: int)
    ensures
        context_lines(a + b, skip) == context_lines(a, skip) + context_lines(b, skip - a.len()),
    decreases b.len(),
{
    if b.len() == 0 {
        assert(a + b =~= a);
        assert(context_lines(a, skip) + context_lines(b, skip - a.len()) =~= context_lines(a, skip));
    } else {
        assert((a + b).drop_last() =~= a + b.drop_last());
        assert((a + b).last() == b.last());
        law_lines_stand_in_order(a, b.drop_last(), skip);
        assert(context_lines(a + b, skip) =~= context_lines(a, skip) + context_lines(
            b,
            skip - a.len(),
        ));
    }
}

proof fn lemma_line_of_one(it: JsonV)
    ensures
        context_line(it) is Some ==> context_lines(seq![it], -1) == seq![context_line(it)->0],
        context_line(it) is None ==> context_lines(seq![it], -1).len() == 0,
        context_lines(seq![it], 0).len() == 0,
{
    let one = seq![it];
    assert(one.drop_last() =~= Seq::<JsonV>::empty());
    assert(one.last() == it);
    assert(context_lines(one.drop_last(), -1) =~= Seq::<Seq<char>>::empty());
    assert(context_lines(one.drop_last(), 0) =~= Seq::<Seq<char>>::empty());
    if context_line(it) is Some {
        assert(context_lines(one, -1) =~= seq![context_line(it)->0]);
    }
}

/// A message of the user or the assistant is a line that says who speaks and what: for the user
/// unless the client put it in, for the assistant unless it is empty.
pub proof fn law_messages_are_lines(it: JsonV)
    requires
        speaks_as(it, "user"@) || speaks_as(it, "assistant"@),
    ensures
        speaks_as(it, "user"@) && !injected(message_text(it)) ==> context_lines(seq![it], -1)
            == seq!["user: "@ + message_text(it)],
        speaks_as(it, "assistant"@) && message_text(it).len() > 0 ==> context_lines(seq![it], -1)
            == seq!["assistant: "@ + message_text(it)],
        speaks_as(it, "assistant"@) && message_text(it).len() == 0 ==> context_lines(
            seq![it],
            -1,
        ).len() == 0,
{
    reveal_strlit("user");
    reveal_strlit("assistant");
    assert("user"@.len() == 4 && "assistant"@.len() == 9);
    law_roles(it, "user"@);
    law_roles(it, "assistant"@);
    lemma_line_of_one(it);
}

proof fn lemma_tool_item(it: JsonV, ty: Seq<char>)
    requires
        it.text_at("type"@) == Some(ty),
        ty.len() >= 13,
    ensures
        item_role(it) != "user"@,
        item_role(it) != "assistant"@,
        it.text_or("type"@, ""@) == ty,
{
    reveal_strlit("user");
    reveal_strlit("assistant");
    reveal_strlit("message");
    reveal_strlit("");
    assert("user"@.len() == 4 && "assistant"@.len() == 9 && "message"@.len() == 7 && ""@.len()
        == 0);
}

proof fn lemma_tool_types()
    ensures
        "function_call"@.len() == 13,
        "custom_tool_call"@.len() == 16,
        "local_shell_call"@.len() == 16,
        "function_call_output"@.len() == 20,
        "custom_tool_call_output"@.len() == 23,
        "local_shell_call_output"@.len() == 23,
        "custom_tool_call"@ != "local_shell_call"@,
{
    reveal_strlit("function_call");
    reveal_strlit("custom_tool_call");
    reveal_strlit("local_shell_call");
    reveal_strlit("function_call_output");
    reveal_strlit("custom_tool_call_output");
    reveal_strlit("local_shell_call_output");
    assert("custom_tool_call"@[0] == 'c' && "local_shell_call"@[0] == 'l');
}

/// A text of at most `n` characters as it stands; of a longer one the first `n`, and an ellipsis.
pub open spec fn shown(s: Seq<char>, n: int) -> Seq<char> {
    if s.len() <= n {
        s
    } else {
        s.take(n).push('…')
    }
}

/// A tool call is a line that names the tool and shows the first 300 characters of what it was
/// called with: the arguments of a function, the input of a custom tool, the command of a shell.
pub proof fn law_calls_are_lines(it: JsonV, ty: Seq<char>, name: Seq<char>, args: Seq<char>)
    requires
        it.text_at("type"@) == Some(ty),
        ty == "function_call"@ ==> it.text_at("name"@) == Some(name) && it.text_at("arguments"@)
            == Some(args),
        ty == "custom_tool_call"@ ==> it.text_at("name"@) == Some(name) && it.text_at("input"@)
            == Some(args),
        ty == "local_shell_call"@ ==> name == "local_shell"@ && it.get2("action"@, "command"@) is Some
            && args == rendered(it.get2("action"@, "command"@)->0),
        ty == "function_call"@ || ty == "custom_tool_call"@ || ty == "local_shell_call"@,
    ensures
        context_lines(seq![it], -1) == seq![
            "assistant tool call: "@ + name + "("@ + shown(args, 300) + ")"@,
        ],
{
    lemma_tool_types();
    lemma_tool_item(it, ty);
    lemma_line_of_one(it);
    assert(truncated(args, 300) =~= shown(args, 300));
}

/// What a tool gave back is a line with its first 1000 characters.
pub proof fn law_tool_outputs_are_lines(it: JsonV, out: Seq<char>)
    requires
        it.text_at("type"@) == Some("function_call_output"@) || it.text_at("type"@) == Some(
            "custom_tool_call_output"@,
        ) || it.text_at("type"@) == Some("local_shell_call_output"@),
        it.get("output"@) == Some(JsonV::Text(out)),
    ensures
        context_lines(seq![it], -1) == seq!["tool output: "@ + shown(out, 1000)],
{
    lemma_tool_types();
    lemma_tool_item(it, it.text_at("type"@)->0);
    lemma_line_of_one(it);
    assert(truncated(out, 1000) =~= shown(out, 1000));
}

/// The parts of a conversation: what stands before the last message that the user wrote, the
/// message, and what came after it.
pub open spec fn parted(a: Seq<JsonV>, m: JsonV, b: Seq<JsonV>) -> bool {
    &&& speaks_as(m, "user"@)
    &&& !injected(message_text(m))
    &&& forall|i: int| 0 <= i < b.len() ==> !is_user_request(#[trigger] b[i])
}

proof fn lemma_parted(a: Seq<JsonV>, m: JsonV, b: Seq<JsonV>)
    requires
        parted(a, m, b),
    ensures
        last_request(a + seq![m] + b) == a.len(),
        current_text(a + seq![m] + b) == message_text(m),
        context_lines(a + seq![m] + b, a.len() as int) == context_lines(a, -1) + context_lines(b, -1),
{
    let n = a.len() as int;
    reveal_strlit("user");
    assert("user"@.len() == 4);
    law_roles(m, "user"@);
    law_last_request_is_the_last(a, m, b);
    law_lines_stand_in_order(a + seq![m], b, n);
    law_lines_stand_in_order(a, seq![m], n);
    lemma_line_of_one(m);
    lemma_skip_nothing(a, n);
    lemma_skip_nothing(b, -1);
    assert((a + seq![m]).len() == n + 1);
    assert(context_lines(a, n) + context_lines(seq![m], 0) =~= context_lines(a, n));
}

proof fn lemma_skip_nothing(items: Seq<JsonV>, s: int)
    requires
        s < 0 || s >= items.len(),
    ensures
        context_lines(items, s) == context_lines(items, -1),
    decreases items.len(),
{
    if items.len() > 0 {
        lemma_skip_nothing(items.drop_last(), s);
    }
}

/// Where everything fits, the classifier sees every line of the conversation before and after
/// the request, in order, and behind them the request; without context, or where the
/// conversation has no lines, the request alone.
pub proof fn law_whole_state(a: Seq<JsonV>, m: JsonV, b: Seq<JsonV>, max: nat)
    requires
        parted(a, m, b),
    ensures
        ({
            let all = a + seq![m] + b;
            let lines = context_lines(a, -1) + context_lines(b, -1);
            let request = "[Current request]\n"@ + message_text(m);
            let whole = "[Conversation context]\n"@ + join(lines, "\n"@) + "\n\n"@ + request;
            &&& lines.len() > 0 && whole.len() <= max ==> state_text(all, true, max) == whole
            &&& lines.len() == 0 && request.len() <= max ==> state_text(all, true, max) == request
            &&& message_text(m).len() <= max ==> state_text(all, false, max) == message_text(m)
        }),
{
    lemma_parted(a, m, b);
    reveal_strlit("[Conversation context]\n");
    reveal_strlit("\n\n");
    assert("[Conversation context]\n"@.len() == 23 && "\n\n"@.len() == 2);
    lemma_lines_say_something(a + seq![m] + b, a.len() as int);
}

proof fn lemma_lines_say_something(items: Seq<JsonV>, skip: int)
    ensures
        context_lines(items, skip).len() > 0 ==> join(context_lines(items, skip), "\n"@).len() > 0,
    decreases items.len(),
{
    if items.len() > 0 {
        lemma_lines_say_something(items.drop_last(), skip);
        reveal_strlit("user: ");
        reveal_strlit("assistant: ");
        reveal_strlit("assistant tool call: ");
        reveal_strlit("tool output: ");
        assert("user: "@.len() == 6 && "assistant: "@.len() == 11 && "assistant tool call: "@.len()
            == 21 && "tool output: "@.len() == 13);
        let before = context_lines(items.drop_last(), skip);
        if items.len() - 1 != skip && context_line(items.last()) is Some {
            let line = context_line(items.last())->0;
            assert(line.len() > 0);
            assert(before.push(line).last() == line);
        }
    }
}

/// Where the conversation does not fit, its end is kept, which comes from the latest items: the
/// text says the request in full, before it stand as many of the last characters of the lines
/// as there is room for, and what came earlier than those changes nothing.
pub proof fn law_latest_context_is_kept(
    old_items: Seq<JsonV>,
    a: Seq<JsonV>,
    m: JsonV,
    b: Seq<JsonV>,
    room: nat,
)
    requires
        parted(a, m, b),
        0 < room <= join(context_lines(a, -1) + context_lines(b, -1), "\n"@).len(),
    ensures
        ({
            let text = join(context_lines(a, -1) + context_lines(b, -1), "\n"@);
            let request = "[Current request]\n"@ + message_text(m);
            let kept = text.skip(text.len() - room);
            state_text(
                old_items + a + seq![m] + b,
                true,
                25 + room + request.len(),
            ) == "[Conversation context]\n"@ + kept + "\n\n"@ + request
        }),
{
    let newer = context_lines(a, -1) + context_lines(b, -1);
    let older = context_lines(old_items, -1);
    lemma_parted(old_items + a, m, b);
    law_lines_stand_in_order(old_items, a, -1);
    lemma_skip_nothing(a, -1 - old_items.len());
    let lines = context_lines(old_items + a, -1) + context_lines(b, -1);
    assert(lines =~= older + newer);
    law_join_of_two_lists(older, newer, "\n"@);
    let text = join(newer, "\n"@);
    if older.len() > 0 && newer.len() > 0 {
        law_tail_of_a_longer_text(join(older, "\n"@) + "\n"@, text, room);
    } else if newer.len() == 0 {
        assert(text.len() == 0);
    }
    assert(tail(text, room) =~= text.skip(text.len() - room));
}

/// A call that does not say its name, or what it was called with, shows nothing in their place.
pub proof fn law_calls_without_details(it: JsonV)
    requires
        it.text_at("type"@) == Some("function_call"@) && it.text_at("arguments"@) is None
            || it.text_at("type"@) == Some("custom_tool_call"@) && it.text_at("input"@) is None,
        it.text_at("name"@) is None,
    ensures
        context_lines(seq![it], -1) == seq!["assistant tool call: "@ + "("@ + ")"@],
{
    lemma_tool_types();
    lemma_tool_item(it, it.text_at("type"@)->0);
    lemma_line_of_one(it);
    reveal_strlit("");
    let none = ""@;
    assert(none.len() == 0);
    assert("assistant tool call: "@ + none + "("@ + truncated(none, 300) + ")"@
        =~= "assistant tool call: "@ + "("@ + ")"@);
}

} // verus!
