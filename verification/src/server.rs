//! The proxy: its command line, the headers it forwards, and the course of a request from the
//! body that came to the reply that goes out.
use crate::codec::{json_of_bytes, parse_json_bytes, rendered};
use crate::config::{Config, Mode, RouterConfig};
use crate::convert::txt;
use crate::json::{
    bool_in, distinct_keys, law_taken, law_with_then_get, lemma_with_gets_all, lookup, taken, Json,
    JsonNumber, JsonObject, JsonV,
};
use crate::measure::Elapsed;
use crate::outside::{decode_lossy, header_byte, header_value, text_of_bytes};
use crate::report::{
    ask_line, asked, input_items_summary, is_report, items_line, mode_name, tools_lines,
    tools_summary, user_message_summary, Level, Report,
};
use crate::router::{parsed_view, summary_text, Decision, LogLine, Source};
use crate::stream::{add_model_prefix, pending_view, with_prefix, Relay, RelayV};
use crate::text::{
    before_suffix, contains, contains_text, decimal, decimal_of, ends_with, has_prefix, join,
    join_all, law_parts_of_a_text, opt_string_view, opt_view, same, starts_with, views,
};
use crate::trainlog::{
    finished_tree, law_begun_record, law_finishing_keeps_the_record, law_record_keeps_the_response,
    law_record_without_response, record_line, record_tree, response_tree, Pending,
};
use vstd::prelude::*;
use vstd::utf8::encode_utf8;

verus! {

/// Where requests go unless another upstream is set.
pub const DEFAULT_UPSTREAM: &'static str = "https://api.vivgrid.com/v1/responses";

/// Where the proxy listens unless another address is set.
pub const DEFAULT_LISTEN: &'static str = "127.0.0.1:33333";

/// How the program is called.
pub const USAGE: &'static str = "\
usage: vg-model-router [--config <path>]          run the proxy (config defaults to ./vg-model-router.toml, or $CONFIG)
       vg-model-router export <router|sft> ...    export the router log as LoRA fine-tuning JSONL";

/// What the program is asked to do.
pub enum Command {
    /// Run the proxy with the settings of the file that is named, if one is.
    Serve(Option<String>),
    /// Export the training data; the arguments say which.
    Export(Vec<String>),
    /// Say how the program is called.
    Help,
}

/// The command that the arguments give.
pub open spec fn is_command(args: Seq<Seq<char>>, c: Command) -> bool {
    if args.len() == 0 {
        c matches Command::Serve(None)
    } else if args[0] == "export"@ {
        c matches Command::Export(rest) && views(rest@) == args.skip(1)
    } else if args[0] == "--config"@ && args.len() == 2 {
        c matches Command::Serve(Some(p)) && p@ == args[1]
    } else {
        c is Help
    }
}

/// The command that the arguments give: `export` with its own, `--config` with a path, or
/// nothing.
pub fn parse_args(args: &Vec<String>) -> (r: Command)
    ensures
        is_command(views(args@), r),
{
    if args.len() == 0 {
        return Command::Serve(None);
    }
    if same(args[0].as_str(), "export") {
        let mut rest: Vec<String> = Vec::new();
        let mut i: usize = 1;
        while i < args.len()
            invariant
                1 <= i <= args@.len(),
                rest@.len() == i - 1,
                forall|j: int| 0 <= j < rest@.len() ==> (#[trigger] rest@[j])@ == args@[j + 1]@,
            decreases args.len() - i,
        {
            rest.push(args[i].clone());
            i = i + 1;
        }
        assert(views(rest@) =~= views(args@).skip(1));
        return Command::Export(rest);
    }
    if same(args[0].as_str(), "--config") && args.len() == 2 {
        return Command::Serve(Some(args[1].clone()));
    }
    Command::Help
}

/// The address of the list of models, next to that of the responses.
pub open spec fn models_address(upstream: Seq<char>) -> Seq<char> {
    if ends_with(upstream, "/responses"@) {
        upstream.take(upstream.len() - "/responses"@.len()) + "/models"@
    } else {
        upstream
    }
}

/// The address of the list of models: `/models` in place of `/responses`; the upstream itself
/// where it ends otherwise.
pub fn models_url(upstream: &str) -> (r: String)
    ensures
        r@ == models_address(upstream@),
{
    match before_suffix(upstream, "/responses") {
        Some(base) => {
            let mut s = base;
            s.push_str("/models");
            s
        },
        None => upstream.to_owned(),
    }
}

/// A key or a path that is set and not empty.
pub fn non_empty(s: Option<String>) -> (r: Option<String>)
    ensures
        r == (if s is Some && s->0@.len() > 0 {
            s
        } else {
            None
        }),
{
    match s {
        Some(t) => {
            if t.as_str().is_empty() {
                None
            } else {
                Some(t)
            }
        },
        None => None,
    }
}

/// The section of the router, where it is on.
pub fn router_section(cfg: Config) -> (r: Option<RouterConfig>)
    ensures
        r == (if cfg.mode == Mode::ModelRouter {
            cfg.model_router
        } else {
            None
        }),
{
    match cfg.mode {
        Mode::ModelRouter => cfg.model_router,
        Mode::Off => None,
    }
}

/// The line on a router that is on; `log` is where training data goes.
pub fn router_line(rc: &RouterConfig, log: Option<&str>) -> (r: String)
    ensures
        r@ == "model router: small="@ + rc.small@ + ", medium="@ + rc.medium@ + ", frontier="@
            + rc.frontier@ + ", context="@ + (if rc.include_context {
            "on"@
        } else {
            "off"@
        }) + ", log="@ + (match opt_view(log) {
            Some(p) => p,
            None => "off"@,
        }),
{
    let mut s = "model router: small=".to_owned();
    s.push_str(rc.small.as_str());
    s.push_str(", medium=");
    s.push_str(rc.medium.as_str());
    s.push_str(", frontier=");
    s.push_str(rc.frontier.as_str());
    s.push_str(", context=");
    if rc.include_context {
        s.push_str("on");
    } else {
        s.push_str("off");
    }
    s.push_str(", log=");
    match log {
        Some(p) => {
            s.push_str(p);
        },
        None => {
            s.push_str("off");
        },
    }
    s
}

/// The body of a reply that the proxy gives itself.
pub open spec fn error_tree(msg: Seq<char>) -> JsonV {
    JsonV::object().with(
        "error"@,
        JsonV::object().with("message"@, txt(msg)).with("type"@, txt("proxy_error"@)),
    )
}

/// The body of a reply that the proxy gives itself.
pub fn error_json(msg: &str) -> (r: String)
    ensures
        r@ == rendered(error_tree(msg@)),
{
    Json::object().with(
        "error",
        Json::object().with("message", Json::text(msg)).with("type", Json::text("proxy_error")),
    ).to_text()
}

/// A header: its name in lower case, and its value.
pub struct Header {
    pub name: String,
    pub value: Vec<u8>,
}

/// A header as a mathematical pair.
pub open spec fn header_view(h: Header) -> (Seq<char>, Seq<u8>) {
    (h.name@, h.value@)
}

/// A list of headers as mathematical pairs.
pub open spec fn headers_view(hs: Seq<Header>) -> Seq<(Seq<char>, Seq<u8>)> {
    hs.map_values(|h: Header| header_view(h))
}

/// The value of the first header with a name.
pub open spec fn header_in(hs: Seq<(Seq<char>, Seq<u8>)>, name: Seq<char>) -> Option<Seq<u8>>
    decreases hs.len(),
{
    if hs.len() == 0 {
        None
    } else if hs[0].0 == name {
        Some(hs[0].1)
    } else {
        header_in(hs.skip(1), name)
    }
}

/// The view of a header value that may be missing.
pub open spec fn value_view(v: Option<&Vec<u8>>) -> Option<Seq<u8>> {
    match v {
        Some(v) => Some(v@),
        None => None,
    }
}

/// The value of the first header with a name.
pub fn header<'a>(headers: &'a Vec<Header>, name: &str) -> (r: Option<&'a Vec<u8>>)
    ensures
        value_view(r) == header_in(headers_view(headers@), name@),
{
    let ghost hs = headers_view(headers@);
    let mut i: usize = 0;
    assert(hs.skip(0) =~= hs);
    while i < headers.len()
        invariant
            0 <= i <= headers@.len(),
            hs == headers_view(headers@),
            header_in(hs, name@) == header_in(hs.skip(i as int), name@),
        decreases headers.len() - i,
    {
        assert(hs.skip(i as int)[0] == header_view(headers@[i as int]));
        assert(hs.skip(i as int).skip(1) =~= hs.skip(i + 1));
        if same(headers[i].name.as_str(), name) {
            return Some(&headers[i].value);
        }
        i = i + 1;
    }
    None
}

/// A byte that stands for a visible character, or a tab.
pub open spec fn visible_byte(b: u8) -> bool {
    32 <= b < 127 || b == 9
}

/// The text of a header value, where all its characters are visible.
pub open spec fn visible_text(v: Seq<u8>) -> Option<Seq<char>> {
    if forall|i: int| 0 <= i < v.len() ==> visible_byte(#[trigger] v[i]) {
        Some(v.map_values(|b: u8| b as char))
    } else {
        None
    }
}

/// The text of a header value, where all its characters are visible.
pub fn header_text(v: &Vec<u8>) -> (r: Option<String>)
    ensures
        opt_string_view(r) == visible_text(v@),
{
    let mut s = String::new();
    let mut i: usize = 0;
    while i < v.len()
        invariant
            0 <= i <= v@.len(),
            forall|j: int| 0 <= j < i ==> visible_byte(#[trigger] v@[j]),
            s@ == v@.take(i as int).map_values(|b: u8| b as char),
        decreases v.len() - i,
    {
        let b: u8 = v[i];
        if !((32 <= b && b < 127) || b == 9) {
            assert(!visible_byte(v@[i as int]));
            return None;
        }
        s.push(b as char);
        assert(s@ =~= v@.take(i + 1).map_values(|b: u8| b as char));
        i = i + 1;
    }
    assert(v@.take(v@.len() as int) =~= v@);
    Some(s)
}

/// The text of the header with a name, where it is there and visible.
pub open spec fn text_header(hs: Seq<(Seq<char>, Seq<u8>)>, name: Seq<char>) -> Option<Seq<char>> {
    match header_in(hs, name) {
        Some(v) => visible_text(v),
        None => None,
    }
}

/// The text of the header with a name, where it is there and visible.
pub fn header_text_of(headers: &Vec<Header>, name: &str) -> (r: Option<String>)
    ensures
        opt_string_view(r) == text_header(headers_view(headers@), name@),
{
    match header(headers, name) {
        Some(v) => header_text(v),
        None => None,
    }
}

/// The bytes may stand in a header value.
pub open spec fn is_header_value(bytes: Seq<u8>) -> bool {
    forall|i: int| 0 <= i < bytes.len() ==> header_byte(#[trigger] bytes[i])
}

/// The authorization that a request goes with: its own, else the key of the proxy.
pub open spec fn authorization(
    headers: Seq<(Seq<char>, Seq<u8>)>,
    fallback: Option<Seq<char>>,
) -> Option<Seq<u8>> {
    match header_in(headers, "authorization"@) {
        Some(v) => Some(v),
        None => match fallback {
            Some(key) => if is_header_value(encode_utf8("Bearer "@ + key)) {
                Some(encode_utf8("Bearer "@ + key))
            } else {
                None
            },
            None => None,
        },
    }
}

/// The authorization that a request goes with: the header that came, unchanged; else the key of
/// the proxy as a bearer token.
pub fn auth_header(headers: &Vec<Header>, fallback: Option<&str>) -> (r: Option<Vec<u8>>)
    ensures
        (match r {
            Some(v) => Some(v@),
            None => None,
        }) == authorization(headers_view(headers@), opt_view(fallback)),
{
    match header(headers, "authorization") {
        Some(v) => Some(v.clone()),
        None => match fallback {
            Some(key) => {
                let mut s = "Bearer ".to_owned();
                s.push_str(key);
                header_value(s.as_str())
            },
            None => None,
        },
    }
}

/// A header that is forwarded under the name `to`, where one named `from` came.
pub open spec fn renamed(
    headers: Seq<(Seq<char>, Seq<u8>)>,
    from: Seq<char>,
    to: Seq<char>,
) -> Seq<(Seq<char>, Seq<u8>)> {
    match header_in(headers, from) {
        Some(v) => seq![(to, v)],
        None => Seq::empty(),
    }
}

/// The headers of a request that are forwarded, besides the authorization.
pub open spec fn forwarded(headers: Seq<(Seq<char>, Seq<u8>)>) -> Seq<(Seq<char>, Seq<u8>)> {
    renamed(headers, "user-agent"@, "user-agent"@) + renamed(
        headers,
        "x-codex-turn-metadata"@,
        "x-viv-meta"@,
    )
}

/// The headers that go to the upstream.
pub open spec fn upstream_header_list(
    headers: Seq<(Seq<char>, Seq<u8>)>,
    auth: Seq<u8>,
    is_stream: bool,
) -> Seq<(Seq<char>, Seq<u8>)> {
    seq![
        ("authorization"@, auth),
        (
            "accept"@,
            encode_utf8(
                if is_stream {
                    "text/event-stream"@
                } else {
                    "application/json"@
                },
            ),
        ),
        ("content-type"@, encode_utf8("application/json"@)),
    ] + forwarded(headers)
}

fn push_renamed(out: &mut Vec<Header>, headers: &Vec<Header>, from: &str, to: &str)
    ensures
        headers_view(final(out)@) == headers_view(old(out)@) + renamed(
            headers_view(headers@),
            from@,
            to@,
        ),
{
    let ghost before = headers_view(out@);
    match header(headers, from) {
        Some(v) => {
            let h = Header { name: to.to_owned(), value: v.clone() };
            out.push(h);
            assert(headers_view(out@) =~= before + seq![(to@, v@)]);
        },
        None => {
            assert(headers_view(out@) =~= before + Seq::empty());
        },
    }
}

/// The headers of a request that are forwarded, besides the authorization: the user agent, and
/// the metadata of the turn under another name.
pub fn forwarded_headers(headers: &Vec<Header>) -> (r: Vec<Header>)
    ensures
        headers_view(r@) == forwarded(headers_view(headers@)),
{
    let mut out: Vec<Header> = Vec::new();
    assert(headers_view(out@) =~= Seq::empty());
    let ghost hs = headers_view(headers@);
    push_renamed(&mut out, headers, "user-agent", "user-agent");
    assert(headers_view(out@) =~= renamed(hs, "user-agent"@, "user-agent"@));
    push_renamed(&mut out, headers, "x-codex-turn-metadata", "x-viv-meta");
    out
}

/// The headers that go to the upstream: the authorization, what is accepted and sent, and those
/// that are forwarded.
pub fn upstream_headers(headers: &Vec<Header>, auth: &Vec<u8>, is_stream: bool) -> (r: Vec<Header>)
    ensures
        headers_view(r@) == upstream_header_list(headers_view(headers@), auth@, is_stream),
{
    let accept = if is_stream {
        "text/event-stream"
    } else {
        "application/json"
    };
    let mut out: Vec<Header> = Vec::new();
    out.push(Header { name: "authorization".to_owned(), value: auth.clone() });
    out.push(Header { name: "accept".to_owned(), value: accept.as_bytes_vec() });
    out.push(
        Header {
            name: "content-type".to_owned(),
            value: "application/json".as_bytes_vec(),
        },
    );
    let ghost own = headers_view(out@);
    let mut rest = forwarded_headers(headers);
    let ghost more = headers_view(rest@);
    out.append(&mut rest);
    assert(headers_view(out@) =~= own + more);
    assert(headers_view(out@) =~= upstream_header_list(
        headers_view(headers@),
        auth@,
        is_stream,
    ));
    out
}

/// Nothing else of what the client sends reaches the upstream: two requests that agree in the
/// headers that are forwarded go out with the same headers.
pub proof fn law_other_headers_are_dropped(
    a: Seq<(Seq<char>, Seq<u8>)>,
    b: Seq<(Seq<char>, Seq<u8>)>,
    auth: Seq<u8>,
    is_stream: bool,
)
    requires
        header_in(a, "user-agent"@) == header_in(b, "user-agent"@),
        header_in(a, "x-codex-turn-metadata"@) == header_in(b, "x-codex-turn-metadata"@),
    ensures
        upstream_header_list(a, auth, is_stream) == upstream_header_list(b, auth, is_stream),
{
}

/// The key of the proxy is used only where a request brings no authorization of its own.
pub proof fn law_own_authorization_goes_first(
    headers: Seq<(Seq<char>, Seq<u8>)>,
    fallback: Option<Seq<char>>,
)
    requires
        header_in(headers, "authorization"@) is Some,
    ensures
        authorization(headers, fallback) == header_in(headers, "authorization"@),
{
}

/// A request that the proxy answers itself: the status and the message of the reply, and what
/// the log says of it.
pub struct Refusal {
    pub status: u16,
    pub message: String,
    pub level: Level,
    pub log: String,
}

/// The refusal says this.
pub open spec fn is_refusal(
    r: Refusal,
    status: u16,
    message: Seq<char>,
    level: Level,
    log: Seq<char>,
) -> bool {
    r.status == status && r.message@ == message && r.level == level && r.log@ == log
}

/// The number of a request, as a line of the log begins with it.
pub open spec fn mark(req_id: u64) -> Seq<char> {
    "#"@ + decimal_of(req_id as nat)
}

fn begin_line(req_id: u64) -> (r: String)
    ensures
        r@ == mark(req_id),
{
    let mut s = "#".to_owned();
    s.push_str(decimal(req_id).as_str());
    s
}

fn refuse(status: u16, message: String, level: Level, req_id: u64, text: &str) -> (r: Refusal)
    ensures
        is_refusal(r, status, message@, level, mark(req_id) + text@),
{
    let mut log = begin_line(req_id);
    log.push_str(text);
    Refusal { status, message, level, log }
}

fn joined(a: &str, b: &str) -> (r: String)
    ensures
        r@ == a@ + b@,
{
    let mut s = a.to_owned();
    s.push_str(b);
    s
}

/// The reply to a request without authorization.
pub fn missing_authorization(req_id: u64) -> (r: Refusal)
    ensures
        refuses_unauthorized(r, req_id),
{
    refuse(
        401,
        "missing Authorization: Bearer <token>".to_owned(),
        Level::Warn,
        req_id,
        " no Authorization header (and VIVGRID_API_KEY unset)",
    )
}

/// The reply to a request for a path that the proxy does not serve.
pub fn unknown_route(method: &str, uri: &str) -> (r: Refusal)
    ensures
        is_refusal(
            r,
            404,
            "no route for "@ + method@ + " "@ + uri@,
            Level::Warn,
            "unhandled route: "@ + method@ + " "@ + uri@,
        ),
{
    let mut message = "no route for ".to_owned();
    message.push_str(method);
    message.push_str(" ");
    message.push_str(uri);
    let mut log = "unhandled route: ".to_owned();
    log.push_str(method);
    log.push_str(" ");
    log.push_str(uri);
    Refusal { status: 404, message, level: Level::Warn, log }
}

/// A request under way, as a mathematical state.
pub ghost struct ExchangeV {
    pub req_id: u64,
    pub req: JsonV,
    /// The model that serves.
    pub model: Seq<char>,
    pub is_stream: bool,
    /// What is sent upstream.
    pub body: Seq<u8>,
    /// The record for the training data, where one is kept.
    pub pending: Option<JsonV>,
}

/// A request under way.
pub struct Exchange {
    req_id: u64,
    req: Json,
    model: String,
    is_stream: bool,
    body: Vec<u8>,
    pending: Option<Pending>,
}

impl View for Exchange {
    type V = ExchangeV;

    closed spec fn view(&self) -> ExchangeV {
        ExchangeV {
            req_id: self.req_id,
            req: self.req@,
            model: self.model@,
            is_stream: self.is_stream,
            body: self.body@,
            pending: pending_view(self.pending),
        }
    }
}

/// Whether a request wants its reply as a stream.
pub open spec fn wants_stream(req: JsonV) -> bool {
    bool_in(req.get("stream"@)) == Some(true)
}

/// How many input items a request has; a text counts as one.
pub open spec fn input_count(req: JsonV) -> nat {
    match req.get("input"@) {
        Some(JsonV::Array(items)) => items.len(),
        Some(JsonV::Text(_)) => 1,
        _ => 0,
    }
}

/// The first lines on a request: what it is, and what the user asks.
pub open spec fn request_lines(req_id: u64, path: Seq<char>, req: JsonV) -> Seq<char> {
    mark(req_id) + " ▶ POST "@ + path + "  ["@ + mode_name(wants_stream(req)) + ", model="@
        + req.text_or("model"@, ""@) + ", input_items="@ + decimal_of(input_count(req))
        + ", tools="@ + decimal_of(req.items_at("tools"@).len()) + "]\n"@ + ask_line(asked(req))
}

/// The tools of a request give reason for a warning.
pub open spec fn is_odd(req: JsonV) -> bool {
    contains_text(tools_lines(req), "⚠"@)
}

/// The lines on a request; its tools and items only where something is odd.
pub open spec fn request_text(req_id: u64, path: Seq<char>, req: JsonV) -> Seq<char> {
    if is_odd(req) {
        request_lines(req_id, path, req) + "\n"@ + tools_lines(req) + "\n"@ + items_line(req)
    } else {
        request_lines(req_id, path, req)
    }
}

fn counted_input(req: &Json) -> (r: usize)
    ensures
        r == input_count(req@),
{
    match req.get("input") {
        Some(Json::Text(_)) => 1,
        Some(v) => match v.as_array() {
            Some(items) => items.len(),
            None => 0,
        },
        None => 0,
    }
}

fn streaming(req: &Json) -> (r: bool)
    ensures
        r == wants_stream(req@),
{
    match req.get("stream") {
        Some(v) => match v.as_bool() {
            Some(b) => b,
            None => false,
        },
        None => false,
    }
}

/// The lines on a request, and whether they are a warning: its mode, model, and what the user
/// asks; and where calls and outputs do not pair up, its tools and items.
pub fn request_log(req_id: u64, path: &str, req: &Json) -> (r: LogLine)
    ensures
        r.warn == is_odd(req@),
        r.text@ == request_text(req_id, path@, req@),
{
    let n_tools: usize = match req.array_at("tools") {
        Some(tools) => tools.len(),
        None => 0,
    };
    let mode = if streaming(req) {
        "stream"
    } else {
        "non-stream"
    };
    let mut s = begin_line(req_id);
    s.push_str(" ▶ POST ");
    s.push_str(path);
    s.push_str("  [");
    s.push_str(mode);
    s.push_str(", model=");
    s.push_str(req.text_or("model", ""));
    s.push_str(", input_items=");
    s.push_str(decimal(counted_input(req) as u64).as_str());
    s.push_str(", tools=");
    s.push_str(decimal(n_tools as u64).as_str());
    s.push_str("]\n");
    s.push_str(user_message_summary(req).as_str());
    let tools = tools_summary(req);
    if contains(tools.as_str(), "⚠") {
        s.push_str("\n");
        s.push_str(tools.as_str());
        s.push_str("\n");
        s.push_str(input_items_summary(req).as_str());
        LogLine { warn: true, text: s }
    } else {
        LogLine { warn: false, text: s }
    }
}

/// The request as it begins.
pub open spec fn opened(req_id: u64, req: JsonV, body: Seq<u8>) -> ExchangeV {
    ExchangeV {
        req_id,
        req,
        model: req.text_or("model"@, ""@),
        is_stream: wants_stream(req),
        body,
        pending: None,
    }
}

/// The refusal of a request whose body parses to `parsed`, which is no JSON object.
pub open spec fn refuses_body(
    refusal: Refusal,
    req_id: u64,
    parsed: Result<JsonV, Seq<char>>,
) -> bool {
    match parsed {
        Err(e) => is_refusal(
            refusal,
            400,
            "invalid JSON body: "@ + e,
            Level::Error,
            mark(req_id) + (" ✖ invalid JSON body: "@ + e),
        ),
        Ok(_) => is_refusal(
            refusal,
            400,
            "request body must be a JSON object"@,
            Level::Error,
            mark(req_id) + " ✖ request body is not a JSON object"@,
        ),
    }
}

/// The refusal of a request without authorization.
pub open spec fn refuses_unauthorized(refusal: Refusal, req_id: u64) -> bool {
    is_refusal(
        refusal,
        401,
        "missing Authorization: Bearer <token>"@,
        Level::Warn,
        mark(req_id) + " no Authorization header (and VIVGRID_API_KEY unset)"@,
    )
}

/// The line on a request.
pub open spec fn is_request_line(line: LogLine, req_id: u64, path: Seq<char>, req: JsonV) -> bool {
    line.warn == is_odd(req) && line.text@ == request_text(req_id, path, req)
}

/// What is made of the body of a request that parses to `parsed`: a request under way and the
/// lines on it, where it is a JSON object; else a refusal.
pub open spec fn is_opening(
    r: Result<(Exchange, LogLine), Refusal>,
    req_id: u64,
    path: Seq<char>,
    body: Seq<u8>,
    parsed: Result<JsonV, Seq<char>>,
) -> bool {
    if parsed matches Ok(req) && req is Object {
        &&& r matches Ok((x, line))
        &&& x@ == opened(req_id, parsed->Ok_0, body)
        &&& is_request_line(line, req_id, path, parsed->Ok_0)
    } else {
        &&& r matches Err(refusal)
        &&& refuses_body(refusal, req_id, parsed)
    }
}

/// What becomes of a request that comes in: the line on it, and the request with the
/// authorization that it goes with, or a refusal.
pub struct Admission {
    pub line: Option<LogLine>,
    pub outcome: Result<(Exchange, Vec<u8>), Refusal>,
}

/// What becomes of a request whose body parses to `parsed`. The body is looked at first: a body
/// that is no JSON object is refused without a line; any other request has its line, and is
/// refused where it has no authorization.
pub open spec fn is_admission(
    r: Admission,
    req_id: u64,
    path: Seq<char>,
    body: Seq<u8>,
    parsed: Result<JsonV, Seq<char>>,
    auth: Option<Seq<u8>>,
) -> bool {
    if parsed matches Ok(req) && req is Object {
        &&& r.line matches Some(line)
        &&& is_request_line(line, req_id, path, parsed->Ok_0)
        &&& match auth {
            Some(a) => {
                &&& r.outcome matches Ok((x, v))
                &&& x@ == opened(req_id, parsed->Ok_0, body)
                &&& v@ == a
            },
            None => {
                &&& r.outcome matches Err(refusal)
                &&& refuses_unauthorized(refusal, req_id)
            },
        }
    } else {
        &&& r.line is None
        &&& r.outcome matches Err(refusal)
        &&& refuses_body(refusal, req_id, parsed)
    }
}

/// How a request goes on once the upstream has answered.
pub enum Action {
    /// The upstream refused: its reply goes back as it is, with this content type.
    GiveBack(Vec<u8>),
    /// The reply is passed on as a stream.
    PassOn,
    /// The reply is read as a whole.
    ReadWhole,
}

/// How a request goes on once the upstream has answered.
pub open spec fn is_action(
    a: Action,
    is_stream: bool,
    success: bool,
    content_type: Option<Seq<u8>>,
) -> bool {
    if !success {
        a matches Action::GiveBack(v) && v@ == (match content_type {
            Some(t) => t,
            None => encode_utf8("application/json"@),
        })
    } else if is_stream && is_event_stream(content_type) {
        a is PassOn
    } else {
        a is ReadWhole
    }
}

/// The request after it was routed. Only the model of the body changes.
pub open spec fn routed(x: ExchangeV, decision: Decision, ts: Option<u64>) -> ExchangeV {
    ExchangeV {
        model: decision.model@,
        body: encode_utf8(rendered(x.req.with("model"@, txt(decision.model@)))),
        pending: match ts {
            Some(ts) => Some(record_tree(ts, x.req_id, x.model, decision, x.req)),
            None => x.pending,
        },
        ..x
    }
}

/// Routing changes the model of a request, and no other field.
pub proof fn law_routing_changes_the_model_alone(req: JsonV, model: Seq<char>, q: Seq<char>)
    requires
        req is Object,
    ensures
        req.with("model"@, txt(model)).text_at("model"@) == Some(model),
        q != "model"@ ==> req.with("model"@, txt(model)).get(q) == req.get(q),
{
    law_with_then_get(req, "model"@, txt(model), "model"@);
    law_with_then_get(req, "model"@, txt(model), q);
}

/// A request that is not routed goes upstream byte for byte as it came.
pub proof fn law_unrouted_body_is_passed_on(req_id: u64, req: JsonV, body: Seq<u8>)
    ensures
        opened(req_id, req, body).body == body,
        opened(req_id, req, body).pending is None,
{
}

/// The line for the record of a request that failed, where one is kept.
pub open spec fn failure_record(x: ExchangeV, error: Seq<char>, latency: Elapsed) -> Option<Seq<char>> {
    match x.pending {
        Some(record) => Some(
            record_line(record, response_tree(x.model, None, Some(error)), latency),
        ),
        None => None,
    }
}

/// The line for the record of a request that was answered, where one is kept.
pub open spec fn success_record(x: ExchangeV, resp: JsonV, latency: Elapsed) -> Option<Seq<char>> {
    match x.pending {
        Some(record) => Some(
            record_line(record, response_tree(x.model, Some(resp), None), latency),
        ),
        None => None,
    }
}

/// Every request that is routed while training data is kept leaves a record, whether it fails or
/// is answered.
pub proof fn law_every_routed_request_is_recorded(
    x: ExchangeV,
    decision: Decision,
    ts: u64,
    error: Seq<char>,
    resp: JsonV,
    latency: Elapsed,
)
    ensures
        routed(x, decision, Some(ts)).pending is Some,
        failure_record(routed(x, decision, Some(ts)), error, latency) is Some,
        success_record(routed(x, decision, Some(ts)), resp, latency) is Some,
{
}

/// What is left to do for a request that failed: the line for the record, and the reply.
pub struct Failure {
    pub record: Option<String>,
    pub refusal: Refusal,
}

/// What is left to do for a request that was answered: the line for the record, the report, and
/// the body of the reply.
pub struct Reply {
    pub record: Option<String>,
    pub report: Report,
    pub body: String,
}

/// The notes on a reply that did not come as a stream.
pub open spec fn reply_notes(is_stream: bool) -> Seq<Seq<char>> {
    if is_stream {
        seq!["stream=true but upstream returned a non-SSE response"@]
    } else {
        Seq::empty()
    }
}

/// The upstream answers with a stream of events.
pub open spec fn is_event_stream(content_type: Option<Seq<u8>>) -> bool {
    match content_type {
        Some(v) => match visible_text(v) {
            Some(t) => starts_with(t, "text/event-stream"@),
            None => false,
        },
        None => false,
    }
}

/// What is made of a reply of the upstream that parses to `parsed`: the reply with the models
/// prefixed, or a refusal.
pub open spec fn is_answer(
    r: Result<Reply, Failure>,
    x: ExchangeV,
    parsed: Result<JsonV, Seq<char>>,
    since_record: Elapsed,
    elapsed: Elapsed,
) -> bool {
    match parsed {
        Err(e) => {
            &&& r matches Err(f)
            &&& opt_string_view(f.record) == failure_record(
                x,
                "invalid upstream JSON: "@ + e,
                since_record,
            )
            &&& is_refusal(
                f.refusal,
                502,
                "invalid upstream JSON: "@ + e,
                Level::Error,
                mark(x.req_id) + (" ✖ invalid upstream JSON: "@ + e),
            )
        },
        Ok(resp) => {
            &&& r matches Ok(reply)
            &&& opt_string_view(reply.record) == success_record(x, resp, since_record)
            &&& is_report(reply.report, x.req_id, false, elapsed, x.model, Some(resp))
            &&& views(reply.report.notes@) == reply_notes(x.is_stream)
            &&& reply.body@ == rendered(with_prefix(resp))
        },
    }
}

impl Exchange {
    /// Begins a request whose body has been parsed.
    pub fn accept(req_id: u64, path: &str, body: Vec<u8>, parsed: Result<Json, String>) -> (r: Result<
        (Exchange, LogLine),
        Refusal,
    >)
        ensures
            is_opening(r, req_id, path@, body@, parsed_view(parsed)),
    {
        let req = match parsed {
            Ok(req) => req,
            Err(e) => {
                let log = joined(" ✖ invalid JSON body: ", e.as_str());
                return Err(
                    refuse(
                        400,
                        joined("invalid JSON body: ", e.as_str()),
                        Level::Error,
                        req_id,
                        log.as_str(),
                    ),
                );
            },
        };
        if !req.is_object() {
            return Err(
                refuse(
                    400,
                    "request body must be a JSON object".to_owned(),
                    Level::Error,
                    req_id,
                    " ✖ request body is not a JSON object",
                ),
            );
        }
        let line = request_log(req_id, path, &req);
        let model = req.text_or("model", "").to_owned();
        let is_stream = streaming(&req);
        Ok((Exchange { req_id, req, model, is_stream, body, pending: None }, line))
    }

    /// Receives a request whose body has been parsed.
    pub fn receive_parsed(
        req_id: u64,
        path: &str,
        body: Vec<u8>,
        parsed: Result<Json, String>,
        headers: &Vec<Header>,
        fallback: Option<&str>,
    ) -> (r: Admission)
        ensures
            is_admission(
                r,
                req_id,
                path@,
                body@,
                parsed_view(parsed),
                authorization(headers_view(headers@), opt_view(fallback)),
            ),
    {
        match Exchange::accept(req_id, path, body, parsed) {
            Ok((x, line)) => {
                let outcome = match auth_header(headers, fallback) {
                    Some(auth) => Ok((x, auth)),
                    None => Err(missing_authorization(req_id)),
                };
                Admission { line: Some(line), outcome }
            },
            Err(refusal) => Admission { line: None, outcome: Err(refusal) },
        }
    }

    /// Receives a request: its body must be a JSON object, and it goes with its own authorization
    /// or with the key of the proxy.
    pub fn receive(
        req_id: u64,
        path: &str,
        body: Vec<u8>,
        headers: &Vec<Header>,
        fallback: Option<&str>,
    ) -> (r: Admission)
        ensures
            is_admission(
                r,
                req_id,
                path@,
                body@,
                json_of_bytes(body@),
                authorization(headers_view(headers@), opt_view(fallback)),
            ),
    {
        let parsed = parse_json_bytes(body.as_slice());
        Exchange::receive_parsed(req_id, path, body, parsed, headers, fallback)
    }

    /// How the request goes on once the upstream has answered: a refusal goes back as it is, a
    /// stream that was wanted is passed on, and any other reply is read as a whole.
    pub fn next_action(&self, success: bool, content_type: Option<&Vec<u8>>) -> (r: Action)
        ensures
            is_action(r, self@.is_stream, success, value_view(content_type)),
    {
        if !success {
            Action::GiveBack(
                match content_type {
                    Some(t) => t.clone(),
                    None => "application/json".as_bytes_vec(),
                },
            )
        } else if self.relays(content_type) {
            Action::PassOn
        } else {
            Action::ReadWhole
        }
    }

    /// The request as it came.
    pub fn request(&self) -> (r: &Json)
        ensures
            r@ == self@.req,
    {
        &self.req
    }

    /// What is sent upstream.
    pub fn body(&self) -> (r: &Vec<u8>)
        ensures
            r@ == self@.body,
    {
        &self.body
    }

    /// Whether the reply is wanted as a stream.
    pub fn is_stream(&self) -> (r: bool)
        ensures
            r == self@.is_stream,
    {
        self.is_stream
    }

    /// Goes on with the model of a decision, and begins a record at the time `ts` where training
    /// data is kept. The line says how the model was chosen; it is a warning where the classifier
    /// failed.
    pub fn route(self, decision: &Decision, ts: Option<u64>) -> (r: (Exchange, LogLine))
        ensures
            r.0@ == routed(self@, *decision, ts),
            r.1.warn == (decision.source is Fallback),
            r.1.text@ == mark(self@.req_id) + " ⇢ route  [requested model="@ + self@.model + "]\n"@
                + summary_text(*decision),
    {
        let mut s = begin_line(self.req_id);
        s.push_str(" ⇢ route  [requested model=");
        s.push_str(self.model.as_str());
        s.push_str("]\n");
        s.push_str(decision.summary().as_str());
        let warn = match &decision.source {
            Source::Fallback(_) => true,
            _ => false,
        };
        let pending = match ts {
            Some(ts) => Some(
                Pending::new(ts, self.req_id, self.model.as_str(), decision, &self.req),
            ),
            None => self.pending,
        };
        let sent = self.req.clone().with("model", Json::text(decision.model.as_str())).to_text();
        let x = Exchange {
            req_id: self.req_id,
            req: self.req,
            model: decision.model.clone(),
            is_stream: self.is_stream,
            body: sent.as_str().as_bytes_vec(),
            pending,
        };
        (x, LogLine { warn, text: s })
    }

    fn settle(pending: Option<Pending>, model: &str, error: &str, latency: Elapsed) -> (r: Option<
        String,
    >)
        ensures
            opt_string_view(r) == (match pending_view(pending) {
                Some(record) => Some(
                    record_line(record, response_tree(model@, None, Some(error@)), latency),
                ),
                None => None,
            }),
    {
        match pending {
            Some(p) => Some(p.finish(model, None, Some(error), latency)),
            None => None,
        }
    }

    /// The upstream could not be reached.
    pub fn send_failed(self, e: &str, since_record: Elapsed) -> (r: Failure)
        ensures
            opt_string_view(r.record) == failure_record(
                self@,
                "upstream request failed: "@ + e@,
                since_record,
            ),
            is_refusal(
                r.refusal,
                502,
                "upstream request failed: "@ + e@,
                Level::Error,
                mark(self@.req_id) + (" ✖ upstream request failed: "@ + e@),
            ),
    {
        let message = joined("upstream request failed: ", e);
        let log = joined(" ✖ upstream request failed: ", e);
        let record = Exchange::settle(
            self.pending,
            self.model.as_str(),
            message.as_str(),
            since_record,
        );
        Failure { record, refusal: refuse(502, message, Level::Error, self.req_id, log.as_str()) }
    }

    /// The upstream answered with an error, which goes back to the client as it is: the line for
    /// the record, and what the log says.
    pub fn upstream_error(self, status: &str, text: &str, since_record: Elapsed, elapsed: Elapsed)
        -> (r: (Option<String>, String))
        ensures
            opt_string_view(r.0) == failure_record(
                self@,
                "upstream HTTP "@ + status@ + ": "@ + text@,
                since_record,
            ),
            r.1@ == mark(self@.req_id) + " ✖ upstream HTTP "@ + status@ + " ("@ + elapsed.shown()
                + "s)\n    stop   ▸ n/a (no response)\n    body   ▸ "@ + text@,
    {
        let mut error = "upstream HTTP ".to_owned();
        error.push_str(status);
        error.push_str(": ");
        error.push_str(text);
        let record = Exchange::settle(
            self.pending,
            self.model.as_str(),
            error.as_str(),
            since_record,
        );
        let mut log = begin_line(self.req_id);
        log.push_str(" ✖ upstream HTTP ");
        log.push_str(status);
        log.push_str(" (");
        log.push_str(elapsed.show().as_str());
        log.push_str("s)\n    stop   ▸ n/a (no response)\n    body   ▸ ");
        log.push_str(text);
        (record, log)
    }

    /// Whether the reply is passed on as a stream: it is wanted as one, and comes as one.
    pub fn relays(&self, content_type: Option<&Vec<u8>>) -> (r: bool)
        ensures
            r == (self@.is_stream && is_event_stream(value_view(content_type))),
    {
        let events = match content_type {
            Some(v) => match header_text(v) {
                Some(t) => has_prefix(t.as_str(), "text/event-stream"),
                None => false,
            },
            None => false,
        };
        self.is_stream && events
    }

    /// The relay that passes the reply on.
    pub fn into_relay(self) -> (r: Relay)
        ensures
            r@ == (RelayV {
                req_id: self@.req_id,
                model: self@.model,
                final_resp: None,
                error: None,
                events: 0,
                client_gone: false,
                rest: Seq::empty(),
                pending: self@.pending,
            }),
    {
        Relay::new(self.req_id, self.model, self.pending)
    }

    /// The reply of the upstream could not be read.
    pub fn read_failed(self, e: &str, since_record: Elapsed) -> (r: Failure)
        ensures
            opt_string_view(r.record) == failure_record(
                self@,
                "upstream read failed: "@ + e@,
                since_record,
            ),
            is_refusal(
                r.refusal,
                502,
                "upstream read failed: "@ + e@,
                Level::Error,
                mark(self@.req_id) + (" ✖ failed to read upstream body: "@ + e@),
            ),
    {
        let message = joined("upstream read failed: ", e);
        let log = joined(" ✖ failed to read upstream body: ", e);
        let record = Exchange::settle(
            self.pending,
            self.model.as_str(),
            message.as_str(),
            since_record,
        );
        Failure { record, refusal: refuse(502, message, Level::Error, self.req_id, log.as_str()) }
    }

    /// Answers with a reply of the upstream that has been parsed.
    pub fn answer(self, parsed: Result<Json, String>, since_record: Elapsed, elapsed: Elapsed) -> (r:
        Result<Reply, Failure>)
        ensures
            is_answer(r, self@, parsed_view(parsed), since_record, elapsed),
    {
        let mut resp = match parsed {
            Ok(resp) => resp,
            Err(e) => {
                let message = joined("invalid upstream JSON: ", e.as_str());
                let log = joined(" ✖ invalid upstream JSON: ", e.as_str());
                let record = Exchange::settle(
                    self.pending,
                    self.model.as_str(),
                    message.as_str(),
                    since_record,
                );
                return Err(
                    Failure {
                        record,
                        refusal: refuse(502, message, Level::Error, self.req_id, log.as_str()),
                    },
                );
            },
        };
        let record = match self.pending {
            Some(p) => Some(p.finish(self.model.as_str(), Some(&resp), None, since_record)),
            None => None,
        };
        let mut notes: Vec<String> = Vec::new();
        if self.is_stream {
            notes.push("stream=true but upstream returned a non-SSE response".to_owned());
        }
        assert(views(notes@) =~= reply_notes(self@.is_stream));
        let report = Report::new(
            self.req_id,
            false,
            elapsed,
            self.model.as_str(),
            Some(&resp),
            notes,
        );
        let _ = add_model_prefix(&mut resp);
        Ok(Reply { record, report, body: resp.to_text() })
    }

    /// Answers with the reply of the upstream.
    pub fn reply(self, bytes: &[u8], since_record: Elapsed, elapsed: Elapsed) -> (r: Result<
        Reply,
        Failure,
    >)
        ensures
            is_answer(r, self@, json_of_bytes(bytes@), since_record, elapsed),
    {
        let parsed = parse_json_bytes(bytes);
        self.answer(parsed, since_record, elapsed)
    }
}

/// The fields of an object after some were taken out, in turn.
pub open spec fn stripped(fields: Seq<(Seq<char>, JsonV)>) -> Seq<(Seq<char>, JsonV)> {
    taken(taken(taken(fields, "instructions"@), "input"@), "tools"@)
}

/// A name, where the field is there.
pub open spec fn name_if_there(fields: Seq<(Seq<char>, JsonV)>, k: Seq<char>) -> Seq<Seq<char>> {
    if lookup(fields, k) is Some {
        seq![k]
    } else {
        Seq::empty()
    }
}

/// The long fields of a body that the log leaves out.
pub open spec fn left_out(fields: Seq<(Seq<char>, JsonV)>) -> Seq<Seq<char>> {
    name_if_there(fields, "instructions"@) + name_if_there(
        taken(fields, "instructions"@),
        "input"@,
    ) + name_if_there(taken(taken(fields, "instructions"@), "input"@), "tools"@)
}

/// A document that was sent, without its long fields.
pub open spec fn short_body(doc: JsonV) -> JsonV {
    match doc {
        JsonV::Object(fields) => JsonV::Object(stripped(fields)),
        _ => doc,
    }
}

/// The long fields that are left out of a document that was sent.
pub open spec fn long_fields(doc: JsonV) -> Seq<Seq<char>> {
    match doc {
        JsonV::Object(fields) => left_out(fields),
        _ => Seq::empty(),
    }
}

/// A list as the log shows it, a dash where it is empty.
pub open spec fn list_or_dash(parts: Seq<Seq<char>>, sep: Seq<char>) -> Seq<char> {
    if parts.len() == 0 {
        "-"@
    } else {
        join(parts, sep)
    }
}

/// The headers that were forwarded, as the log shows them.
pub open spec fn header_texts(headers: Seq<(Seq<char>, Seq<u8>)>) -> Seq<Seq<char>> {
    headers.map_values(|h: (Seq<char>, Seq<u8>)| h.0 + ": "@ + text_of_bytes(h.1))
}

/// The lines on a request that the upstream refused.
pub open spec fn sent_text(
    req_id: u64,
    doc: JsonV,
    headers: Seq<(Seq<char>, Seq<u8>)>,
    saved: Seq<char>,
) -> Seq<char> {
    mark(req_id) + " ✖ request that was sent upstream:\n    body   ▸ "@ + rendered(short_body(doc))
        + "  (+ "@ + list_or_dash(long_fields(doc), ", "@) + ")\n    header ▸ "@ + list_or_dash(
        header_texts(forwarded(headers)),
        "\n             "@,
    ) + "\n    saved  ▸ "@ + saved
}

fn dashed(parts: &Vec<String>, sep: &str) -> (r: String)
    ensures
        r@ == list_or_dash(views(parts@), sep@),
{
    if parts.len() == 0 {
        "-".to_owned()
    } else {
        join_all(parts, sep)
    }
}

fn take_out(o: JsonObject, k: &str, names: &mut Vec<String>) -> (r: JsonObject)
    ensures
        r@ == taken(o@, k@),
        views(final(names)@) == views(old(names)@) + name_if_there(o@, k@),
{
    let ghost before = views(names@);
    let (rest, there) = o.take(k);
    if there {
        let name = k.to_owned();
        names.push(name);
        assert(views(names@) =~= before + seq![k@]);
    } else {
        assert(views(names@) =~= before + Seq::empty());
    }
    rest
}

/// The lines on a request that the upstream refused, where its body has been parsed: the body
/// without the long fields, the headers that were forwarded, and where the body was saved.
pub fn sent_log(req_id: u64, doc: Json, headers: &Vec<Header>, saved: &str) -> (r: String)
    ensures
        r@ == sent_text(req_id, doc@, headers_view(headers@), saved@),
{
    let ghost before = doc@;
    let mut omitted: Vec<String> = Vec::new();
    assert(views(omitted@) =~= Seq::<Seq<char>>::empty());
    let doc = match doc {
        Json::Object(o) => {
            let ghost fields = o@;
            let o = take_out(o, "instructions", &mut omitted);
            assert(views(omitted@) =~= name_if_there(fields, "instructions"@));
            let o = take_out(o, "input", &mut omitted);
            let o = take_out(o, "tools", &mut omitted);
            Json::Object(o)
        },
        other => other,
    };
    assert(doc@ == short_body(before));
    assert(views(omitted@) == long_fields(before));
    let sent = forwarded_headers(headers);
    let ghost pairs = headers_view(sent@);
    let mut shown: Vec<String> = Vec::new();
    let mut i: usize = 0;
    while i < sent.len()
        invariant
            0 <= i <= sent@.len(),
            pairs == headers_view(sent@),
            shown@.len() == i,
            forall|j: int|
                0 <= j < i ==> (#[trigger] shown@[j])@ == pairs[j].0 + ": "@ + text_of_bytes(
                    pairs[j].1,
                ),
        decreases sent.len() - i,
    {
        let mut t = sent[i].name.clone();
        t.push_str(": ");
        t.push_str(decode_lossy(sent[i].value.as_slice()).as_str());
        shown.push(t);
        i = i + 1;
    }
    assert(views(shown@) =~= header_texts(pairs));
    let mut s = begin_line(req_id);
    s.push_str(" ✖ request that was sent upstream:\n    body   ▸ ");
    s.push_str(doc.to_text().as_str());
    s.push_str("  (+ ");
    s.push_str(dashed(&omitted, ", ").as_str());
    s.push_str(")\n    header ▸ ");
    s.push_str(dashed(&shown, "\n             ").as_str());
    s.push_str("\n    saved  ▸ ");
    s.push_str(saved);
    s
}

/// The document that bytes hold, null where they hold none.
pub open spec fn document_or_null(parsed: Result<JsonV, Seq<char>>) -> JsonV {
    match parsed {
        Ok(doc) => doc,
        Err(_) => JsonV::Null,
    }
}

/// The lines on a request that the upstream refused, for finding out what it was about.
pub fn dump_sent_request(req_id: u64, body: &[u8], headers: &Vec<Header>, saved: &str) -> (r: String)
    ensures
        r@ == sent_text(
            req_id,
            document_or_null(json_of_bytes(body@)),
            headers_view(headers@),
            saved@,
        ),
{
    let doc = match parse_json_bytes(body) {
        Ok(doc) => doc,
        Err(_) => Json::Null,
    };
    sent_log(req_id, doc, headers, saved)
}

/// The name of the file that a refused body is saved in.
pub fn saved_name(req_id: u64) -> (r: String)
    ensures
        r@ == "vg-mirror-req-"@ + decimal_of(req_id as nat) + ".json"@,
{
    let mut s = "vg-mirror-req-".to_owned();
    s.push_str(decimal(req_id).as_str());
    s.push_str(".json");
    s
}

/// Where a refused body was saved, and how it is sent again; or why it was not saved.
pub fn saved_text(path: &str, upstream: &str, error: Option<&str>) -> (r: String)
    ensures
        r@ == (match opt_view(error) {
            None => path@ + "\n             replay: curl -sS "@ + upstream@
                + " -H \"Authorization: Bearer $VIVGRID_API_KEY\" -H 'content-type: application/json' -d @"@
                + path@,
            Some(e) => "<failed to save: "@ + e + ">"@,
        }),
{
    match error {
        None => {
            let mut s = path.to_owned();
            s.push_str("\n             replay: curl -sS ");
            s.push_str(upstream);
            s.push_str(
                " -H \"Authorization: Bearer $VIVGRID_API_KEY\" -H 'content-type: application/json' -d @",
            );
            s.push_str(path);
            s
        },
        Some(e) => {
            let mut s = "<failed to save: ".to_owned();
            s.push_str(e);
            s.push_str(">");
            s
        },
    }
}

/// The line on a request for the list of models.
pub fn models_request_log(req_id: u64, path: &str, url: &str) -> (r: String)
    ensures
        r@ == mark(req_id) + " ▶ GET "@ + path@ + "  [→ "@ + url@ + "]"@,
{
    let mut s = begin_line(req_id);
    s.push_str(" ▶ GET ");
    s.push_str(path);
    s.push_str("  [→ ");
    s.push_str(url);
    s.push_str("]");
    s
}

/// The line on a list of models that came; a warning where the upstream refused it.
pub fn models_reply_log(req_id: u64, path: &str, status: u16, success: bool, elapsed: Elapsed) -> (r:
    LogLine)
    ensures
        r.warn == !success,
        r.text@ == mark(req_id) + " ◀ GET "@ + path@ + "  ["@ + decimal_of(status as nat) + ", "@
            + elapsed.shown() + "s]"@,
{
    let mut s = begin_line(req_id);
    s.push_str(" ◀ GET ");
    s.push_str(path);
    s.push_str("  [");
    s.push_str(decimal(status as u64).as_str());
    s.push_str(", ");
    s.push_str(elapsed.show().as_str());
    s.push_str("s]");
    LogLine { warn: !success, text: s }
}

/// The reply where the list of models could not be had.
pub fn models_failed(req_id: u64, path: &str, e: &str) -> (r: Refusal)
    ensures
        is_refusal(
            r,
            502,
            "upstream request failed: "@ + e@,
            Level::Warn,
            mark(req_id) + " ◀ GET "@ + path@ + "  [upstream request failed: "@ + e@ + "]"@,
        ),
{
    let mut log = begin_line(req_id);
    log.push_str(" ◀ GET ");
    log.push_str(path);
    log.push_str("  [upstream request failed: ");
    log.push_str(e);
    log.push_str("]");
    Refusal { status: 502, message: joined("upstream request failed: ", e), level: Level::Warn, log }
}

/// The list of models stands next to the responses: `/models` takes the place of `/responses` at
/// the end of any address.
pub proof fn law_models_stand_next_to_responses(base: Seq<char>, other: Seq<char>)
    ensures
        models_address(base + "/responses"@) == base + "/models"@,
        !ends_with(other, "/responses"@) ==> models_address(other) == other,
{
    let whole = base + "/responses"@;
    assert(whole.skip(whole.len() - "/responses"@.len()) =~= "/responses"@);
    assert(whole.take(whole.len() - "/responses"@.len()) =~= base);
}

/// The first header with a name counts: what stands before it under other names and what stands
/// behind it do not matter.
pub proof fn law_first_header_counts(
    a: Seq<(Seq<char>, Seq<u8>)>,
    name: Seq<char>,
    v: Seq<u8>,
    b: Seq<(Seq<char>, Seq<u8>)>,
)
    requires
        forall|i: int| 0 <= i < a.len() ==> (#[trigger] a[i]).0 != name,
    ensures
        header_in(a + seq![(name, v)] + b, name) == Some(v),
        header_in(a, name) is None,
    decreases a.len(),
{
    let all = a + seq![(name, v)] + b;
    if a.len() == 0 {
        assert(all[0] == (name, v));
    } else {
        assert(all[0] == a[0]);
        assert(all.skip(1) =~= a.skip(1) + seq![(name, v)] + b);
        assert forall|i: int| 0 <= i < a.skip(1).len() implies (#[trigger] a.skip(1)[i]).0 != name by {
            assert(a.skip(1)[i] == a[i + 1]);
        }
        law_first_header_counts(a.skip(1), name, v, b);
    }
}

/// A request without an authorization of its own goes with the key of the proxy as a bearer token,
/// where there is one that may stand in a header.
pub proof fn law_key_is_a_bearer_token(headers: Seq<(Seq<char>, Seq<u8>)>, key: Seq<char>)
    requires
        header_in(headers, "authorization"@) is None,
    ensures
        authorization(headers, None) is None,
        is_header_value(encode_utf8("Bearer "@ + key)) ==> authorization(headers, Some(key)) == Some(
            encode_utf8("Bearer "@ + key),
        ),
{
}

/// What goes upstream carries the authorization, says that it accepts events for a stream and JSON
/// otherwise, and brings the user agent and the metadata of the turn where the client sent them.
pub proof fn law_upstream_headers(
    headers: Seq<(Seq<char>, Seq<u8>)>,
    auth: Seq<u8>,
    is_stream: bool,
)
    ensures
        ({
            let sent = upstream_header_list(headers, auth, is_stream);
            &&& header_in(sent, "authorization"@) == Some(auth)
            &&& header_in(sent, "content-type"@) == Some(encode_utf8("application/json"@))
            &&& is_stream ==> header_in(sent, "accept"@) == Some(encode_utf8("text/event-stream"@))
            &&& !is_stream ==> header_in(sent, "accept"@) == Some(encode_utf8("application/json"@))
            &&& header_in(sent, "user-agent"@) == header_in(headers, "user-agent"@)
            &&& header_in(sent, "x-viv-meta"@) == header_in(headers, "x-codex-turn-metadata"@)
        }),
{
    reveal_strlit("authorization");
    reveal_strlit("accept");
    reveal_strlit("content-type");
    reveal_strlit("user-agent");
    reveal_strlit("x-viv-meta");
    assert("authorization"@.len() == 13 && "accept"@.len() == 6 && "content-type"@.len() == 12
        && "user-agent"@.len() == 10 && "x-viv-meta"@.len() == 10);
    assert("user-agent"@[0] == 'u' && "x-viv-meta"@[0] == 'x');
    let sent = upstream_header_list(headers, auth, is_stream);
    let accept = encode_utf8(
        if is_stream {
            "text/event-stream"@
        } else {
            "application/json"@
        },
    );
    let json = encode_utf8("application/json"@);
    let s1 = sent.skip(1);
    let s2 = s1.skip(1);
    let s3 = s2.skip(1);
    assert(sent[0] == ("authorization"@, auth));
    assert(s1[0] == ("accept"@, accept));
    assert(s2[0] == ("content-type"@, json));
    assert(s3 =~= forwarded(headers));
    reveal_with_fuel(header_in, 5);
    let agent = header_in(headers, "user-agent"@);
    let meta = header_in(headers, "x-codex-turn-metadata"@);
    if s3.len() > 0 {
        if agent is Some {
            assert(s3[0] == ("user-agent"@, agent->0));
            assert(s3.skip(1) =~= renamed(headers, "x-codex-turn-metadata"@, "x-viv-meta"@));
        } else {
            assert(s3[0] == ("x-viv-meta"@, meta->0));
            assert(s3.skip(1) =~= Seq::<(Seq<char>, Seq<u8>)>::empty());
        }
    }
    if meta is Some {
        let one = renamed(headers, "x-codex-turn-metadata"@, "x-viv-meta"@);
        assert(one.skip(1) =~= Seq::<(Seq<char>, Seq<u8>)>::empty());
    }
}

/// A request begins with the model and the input that it names, and with a stream where it says
/// so.
pub proof fn law_request_begins_as_it_says(req_id: u64, req: JsonV, body: Seq<u8>)
    ensures
        req.text_at("model"@) is Some ==> opened(req_id, req, body).model == req.text_at("model"@)->0,
        opened(req_id, req, body).is_stream <==> req.get("stream"@) == Some(JsonV::Bool(true)),
        opened(req_id, req, body).req == req,
        opened(req_id, req, body).req_id == req_id,
        req.get("input"@) matches Some(JsonV::Array(items)) ==> input_count(req) == items.len(),
        req.get("input"@) matches Some(JsonV::Text(_)) ==> input_count(req) == 1,
        req.get("input"@) is None ==> input_count(req) == 0,
{
}

/// A routed request goes upstream with the model of the decision in place of its own, and keeps
/// everything else. The record that is begun for it tells which model was asked for, which was
/// chosen, and what the request says.
pub proof fn law_routed_request(x: ExchangeV, decision: Decision, ts: u64, k: Seq<char>)
    requires
        k == "instructions"@ || k == "input"@ || k == "tools"@,
    ensures
        ({
            let y = routed(x, decision, Some(ts));
            let record = y.pending->0;
            &&& y.model == decision.model@
            &&& y.body == encode_utf8(rendered(x.req.with("model"@, JsonV::Text(decision.model@))))
            &&& y.req == x.req && y.req_id == x.req_id && y.is_stream == x.is_stream
            &&& y.pending is Some
            &&& record.get("ts"@) == Some(JsonV::Number(JsonNumber::Unsigned(ts)))
            &&& record.get("req_id"@) == Some(JsonV::Number(JsonNumber::Unsigned(x.req_id)))
            &&& record.text_at("requested_model"@) == Some(x.model)
            &&& record.text_at("routed_model"@) == Some(decision.model@)
            &&& record.text_at("tier"@) == Some(decision.tier.name())
            &&& x.req.get(k) is Some ==> record.get2("request"@, k) == x.req.get(k)
            &&& routed(x, decision, None).pending == x.pending
        }),
{
    law_begun_record(ts, x.req_id, x.model, decision, x.req, k);
}

/// The line for a request that failed is its record, with the error and with the model that was
/// to serve.
pub proof fn law_failure_is_recorded(
    x: ExchangeV,
    record: JsonV,
    error: Seq<char>,
    latency: Elapsed,
    q: Seq<char>,
)
    requires
        x.pending == Some(record),
        record is Object,
        q != "response"@ && q != "latency_ms"@,
    ensures
        exists|doc: JsonV|
            {
                &&& failure_record(x, error, latency) == Some((#[trigger] rendered(doc)).push('\n'))
                &&& doc.get(q) == record.get(q)
                &&& doc.get2("response"@, "error"@) == Some(JsonV::Text(error))
                &&& doc.get2("response"@, "model"@) == Some(JsonV::Text(x.model))
            },
{
    let doc = finished_tree(record, response_tree(x.model, None, Some(error)), latency);
    law_finishing_keeps_the_record(record, response_tree(x.model, None, Some(error)), latency, q);
    law_record_without_response(record, x.model, error, latency);
    assert(failure_record(x, error, latency) == Some(rendered(doc).push('\n')));
}

/// The line for a request that was answered is its record, with the response.
pub proof fn law_success_is_recorded(
    x: ExchangeV,
    record: JsonV,
    resp: JsonV,
    latency: Elapsed,
    q: Seq<char>,
    k: Seq<char>,
)
    requires
        x.pending == Some(record),
        record is Object,
        q != "response"@ && q != "latency_ms"@,
        k == "status"@ || k == "output"@ || k == "incomplete_details"@ || k == "usage"@,
    ensures
        exists|doc: JsonV|
            {
                &&& success_record(x, resp, latency) == Some((#[trigger] rendered(doc)).push('\n'))
                &&& doc.get(q) == record.get(q)
                &&& resp.get(k) is Some ==> doc.get2("response"@, k) == resp.get(k)
                &&& resp.get("error"@) is Some ==> doc.get2("response"@, "error"@) == resp.get(
                    "error"@,
                )
                &&& resp.text_at("model"@) is Some ==> doc.get2("response"@, "model"@) == resp.get(
                    "model"@,
                )
                &&& resp.text_at("model"@) is None ==> doc.get2("response"@, "model"@) == Some(
                    JsonV::Text(x.model),
                )
            },
{
    let doc = finished_tree(record, response_tree(x.model, Some(resp), None), latency);
    law_finishing_keeps_the_record(record, response_tree(x.model, Some(resp), None), latency, q);
    law_record_keeps_the_response(record, x.model, resp, None, latency, k);
    assert(success_record(x, resp, latency) == Some(rendered(doc).push('\n')));
}

/// What the proxy answers by itself names the error and says that it comes from the proxy.
pub proof fn law_own_replies_name_the_error(msg: Seq<char>)
    ensures
        error_tree(msg).get2("error"@, "message"@) == Some(JsonV::Text(msg)),
        error_tree(msg).get2("error"@, "type"@) == Some(JsonV::Text("proxy_error"@)),
{
    reveal_strlit("message");
    reveal_strlit("type");
    assert("message"@.len() == 7 && "type"@.len() == 4);
    lemma_with_gets_all();
}

/// Of a body that was refused the log leaves out the instructions, the input and the tools, and
/// nothing else; it names those of them that were there, in this order.
pub proof fn law_long_fields_are_left_out(fields: Seq<(Seq<char>, JsonV)>, q: Seq<char>)
    requires
        distinct_keys(fields),
    ensures
        ({
            let doc = JsonV::Object(fields);
            let long = q == "instructions"@ || q == "input"@ || q == "tools"@;
            &&& long ==> short_body(doc).get(q) is None
            &&& !long ==> short_body(doc).get(q) == doc.get(q)
            &&& long_fields(doc).contains(q) <==> long && doc.get(q) is Some
            &&& doc.get("instructions"@) is Some && doc.get("input"@) is Some && doc.get("tools"@)
                is Some ==> long_fields(doc) == seq!["instructions"@, "input"@, "tools"@]
            &&& doc.get("instructions"@) is None && doc.get("input"@) is Some && doc.get("tools"@)
                is Some ==> long_fields(doc) == seq!["input"@, "tools"@]
            &&& doc.get("instructions"@) is Some && doc.get("input"@) is None && doc.get("tools"@)
                is Some ==> long_fields(doc) == seq!["instructions"@, "tools"@]
        }),
{
    reveal_strlit("instructions");
    reveal_strlit("input");
    reveal_strlit("tools");
    assert("instructions"@.len() == 12 && "input"@.len() == 5 && "tools"@.len() == 5);
    assert("input"@[0] == 'i' && "tools"@[0] == 't');
    let (a, b, c) = ("instructions"@, "input"@, "tools"@);
    let f1 = taken(fields, a);
    let f2 = taken(f1, b);
    let f3 = taken(f2, c);
    law_taken(fields, a, q);
    law_taken(fields, a, b);
    law_taken(fields, a, c);
    law_taken(f1, b, q);
    law_taken(f1, b, c);
    law_taken(f2, c, q);
    let n1 = name_if_there(fields, a);
    let n2 = name_if_there(f1, b);
    let n3 = name_if_there(f2, c);
    let all = left_out(fields);
    assert(all == n1 + n2 + n3);
    if lookup(fields, a) is Some && lookup(fields, b) is Some && lookup(fields, c) is Some {
        assert(all =~= seq![a, b, c]);
    }
    if lookup(fields, a) is None && lookup(fields, b) is Some && lookup(fields, c) is Some {
        assert(all =~= seq![b, c]);
    }
    if lookup(fields, a) is Some && lookup(fields, b) is None && lookup(fields, c) is Some {
        assert(all =~= seq![a, c]);
    }
    if q == a && lookup(fields, a) is Some {
        assert(all[0] == q);
    }
    if q == b && lookup(fields, b) is Some {
        assert(all[n1.len() as int] == q);
    }
    if q == c && lookup(fields, c) is Some {
        assert(all[(n1 + n2).len() as int] == q);
    }
}

/// `export` takes all that follows it; `--config` takes one path; nothing at all serves with the
/// default settings; anything else asks for help.
pub proof fn law_commands(first: Seq<char>, rest: Seq<Seq<char>>, c: Command)
    requires
        is_command(seq![first] + rest, c),
    ensures
        first == "export"@ ==> (c matches Command::Export(args) && views(args@) == rest),
        first == "--config"@ && rest.len() == 1 ==> (c matches Command::Serve(Some(p)) && p@ == rest[0]),
        first == "--config"@ && rest.len() != 1 ==> c is Help,
        first != "export"@ && first != "--config"@ ==> c is Help,
        forall|d: Command| #[trigger] is_command(Seq::empty(), d) ==> d matches Command::Serve(None),
{
    reveal_strlit("export");
    reveal_strlit("--config");
    assert("export"@.len() == 6 && "--config"@.len() == 8);
    let args = seq![first] + rest;
    assert(args[0] == first);
    assert(args.skip(1) =~= rest);
    if rest.len() > 0 {
        assert(args[1] == rest[0]);
    }
}

/// What the upstream refuses goes back with the type of its content; a stream of events is passed
/// on where one was wanted; any other reply is read as a whole.
pub proof fn law_how_a_request_goes_on(
    a: Action,
    is_stream: bool,
    success: bool,
    content_type: Option<Seq<u8>>,
)
    requires
        is_action(a, is_stream, success, content_type),
    ensures
        a is GiveBack <==> !success,
        a matches Action::GiveBack(v) ==> (content_type matches Some(t) ==> v@ == t) && (content_type
            is None ==> v@ == encode_utf8("application/json"@)),
        a is PassOn <==> success && is_stream && content_type is Some && visible_text(content_type->0)
            is Some && starts_with(visible_text(content_type->0)->0, "text/event-stream"@),
{
}

/// A request is taken only where its body is a JSON object and it has an authorization; it then
/// goes on with both. The body is looked at first, and only a request whose body is in order has
/// its line.
pub proof fn law_which_requests_are_taken(
    r: Admission,
    req_id: u64,
    path: Seq<char>,
    body: Seq<u8>,
    parsed: Result<JsonV, Seq<char>>,
    auth: Option<Seq<u8>>,
)
    requires
        is_admission(r, req_id, path, body, parsed, auth),
    ensures
        r.outcome is Ok <==> parsed is Ok && parsed->Ok_0 is Object && auth is Some,
        r.outcome matches Ok((x, v)) ==> x@.req == parsed->Ok_0 && x@.body == body && x@.req_id
            == req_id && v@ == auth->0,
        r.line is Some <==> parsed is Ok && parsed->Ok_0 is Object,
        r.outcome matches Err(refusal) ==> refusal.status == (if parsed is Ok && parsed->Ok_0 is Object {
            401int
        } else {
            400int
        }),
{
}

/// A reply that is JSON goes back as it came, but for the models that are prefixed; the report
/// tells of it as it came, and notes where a stream was wanted. A reply that is no JSON is refused.
pub proof fn law_replies_go_back(
    r: Result<Reply, Failure>,
    x: ExchangeV,
    parsed: Result<JsonV, Seq<char>>,
    since_record: Elapsed,
    elapsed: Elapsed,
)
    requires
        is_answer(r, x, parsed, since_record, elapsed),
    ensures
        r is Ok <==> parsed is Ok,
        r matches Ok(reply) ==> reply.body@ == rendered(with_prefix(parsed->Ok_0)) && (
        reply.report.notes@.len() > 0 <==> x.is_stream) && (reply.record is Some <==> x.pending
            is Some) && reply.report.req_id == x.req_id && !reply.report.stream,
        r matches Err(f) ==> f.refusal.status == 502 && (f.record is Some <==> x.pending is Some),
{
    if parsed is Ok {
        let reply = r->Ok_0;
        assert(views(reply.report.notes@).len() == reply.report.notes@.len());
    }
}

/// The lines on a request begin with its number and its path, tell the mode, the model and how many
/// items and tools it has, and end with what the user asks.
pub proof fn law_request_lines(req_id: u64, path: Seq<char>, req: JsonV, model: Seq<char>)
    requires
        req.text_at("model"@) == Some(model),
    ensures
        ({
            let lines = request_lines(req_id, path, req);
            &&& starts_with(lines, "#"@ + decimal_of(req_id as nat) + " ▶ POST "@ + path + "  ["@)
            &&& contains_text(
                lines,
                ", model="@ + model + ", input_items="@ + decimal_of(input_count(req)) + ", tools="@
                    + decimal_of(req.items_at("tools"@).len()) + "]\n"@,
            )
            &&& req.get("stream"@) == Some(JsonV::Bool(true)) ==> contains_text(lines, "stream"@)
            &&& req.get("stream"@) != Some(JsonV::Bool(true)) ==> contains_text(lines, "non-stream"@)
            &&& ends_with(lines, ask_line(asked(req)))
        }),
{
    let lines = request_lines(req_id, path, req);
    let first = "#"@ + decimal_of(req_id as nat) + " ▶ POST "@ + path + "  ["@;
    let mode = mode_name(wants_stream(req));
    let middle = ", model="@ + model + ", input_items="@ + decimal_of(input_count(req)) + ", tools="@
        + decimal_of(req.items_at("tools"@).len()) + "]\n"@;
    let end = ask_line(asked(req));
    assert(lines =~= first + mode + (middle + end));
    law_parts_of_a_text(first, mode, middle + end);
    assert(lines =~= first + mode + middle + end);
    law_parts_of_a_text(first + mode, middle, end);
}

/// A request that names no model has an empty one.
pub proof fn law_missing_model_is_empty(req_id: u64, req: JsonV, body: Seq<u8>)
    requires
        req.text_at("model"@) is None,
    ensures
        opened(req_id, req, body).model.len() == 0,
{
    reveal_strlit("");
    assert(""@.len() == 0);
}

/// The tools and items of a request are told exactly where the tools give reason for a warning,
/// behind the lines that every request has.
pub proof fn law_odd_requests_are_told_in_full(req_id: u64, path: Seq<char>, req: JsonV)
    ensures
        !contains_text(tools_lines(req), "⚠"@) ==> request_text(req_id, path, req) == request_lines(
            req_id,
            path,
            req,
        ),
        contains_text(tools_lines(req), "⚠"@) ==> starts_with(
            request_text(req_id, path, req),
            request_lines(req_id, path, req) + "\n"@,
        ) && contains_text(request_text(req_id, path, req), tools_lines(req)) && ends_with(
            request_text(req_id, path, req),
            "\n"@ + items_line(req),
        ),
{
    let first = request_lines(req_id, path, req) + "\n"@;
    let last = "\n"@ + items_line(req);
    law_parts_of_a_text(first, tools_lines(req), last);
    if is_odd(req) {
        assert(request_text(req_id, path, req) =~= first + tools_lines(req) + last);
    }
}

/// What is told of a request that the upstream refused is the body without its long fields, the
/// names of those, the headers that were forwarded, and where the body was saved.
pub proof fn law_what_is_told_of_a_refused_request(
    req_id: u64,
    doc: JsonV,
    headers: Seq<(Seq<char>, Seq<u8>)>,
    saved: Seq<char>,
)
    ensures
        ({
            let text = sent_text(req_id, doc, headers, saved);
            let names = long_fields(doc);
            let sent = forwarded(headers);
            &&& starts_with(text, "#"@ + decimal_of(req_id as nat) + " ✖ "@)
            &&& contains_text(text, "body   ▸ "@ + rendered(short_body(doc)) + "  (+ "@)
            &&& names.len() > 0 ==> contains_text(text, "  (+ "@ + join(names, ", "@) + ")"@)
            &&& names.len() == 0 ==> contains_text(text, "  (+ "@ + "-"@ + ")"@)
            &&& sent.len() == 0 ==> contains_text(text, "header ▸ "@ + "-"@)
            &&& sent.len() > 0 ==> contains_text(
                text,
                "header ▸ "@ + join(
                    Seq::new(sent.len(), |i: int| sent[i].0 + ": "@ + text_of_bytes(sent[i].1)),
                    "\n             "@,
                ),
            )
            &&& ends_with(text, "\n    saved  ▸ "@ + saved)
        }),
{
    let text = sent_text(req_id, doc, headers, saved);
    let names = long_fields(doc);
    let sent = forwarded(headers);
    reveal_strlit(" ✖ request that was sent upstream:\n    body   ▸ ");
    reveal_strlit(" ✖ request that was sent upstream:\n    ");
    reveal_strlit(" ✖ ");
    reveal_strlit("body   ▸ ");
    reveal_strlit(")\n    header ▸ ");
    reveal_strlit(")");
    reveal_strlit("\n    ");
    reveal_strlit("header ▸ ");
    let id = mark(req_id);
    let a = id + " ✖ request that was sent upstream:\n    "@;
    let body = "body   ▸ "@ + rendered(short_body(doc));
    let list = list_or_dash(names, ", "@);
    let shown = list_or_dash(header_texts(sent), "\n             "@);
    let end = "\n    saved  ▸ "@ + saved;
    let more = "  (+ "@ + list + ")"@;
    let tail_part = "\n    "@ + ("header ▸ "@ + shown) + end;
    assert(text =~= a + (body + "  (+ "@) + (list + ")"@ + tail_part));
    law_parts_of_a_text(a, body + "  (+ "@, list + ")"@ + tail_part);
    assert(text =~= (a + body) + more + tail_part);
    law_parts_of_a_text(a + body, more, tail_part);
    assert(text =~= (a + body + more + "\n    "@) + ("header ▸ "@ + shown) + end);
    law_parts_of_a_text(a + body + more + "\n    "@, "header ▸ "@ + shown, end);
    assert(header_texts(sent) =~= Seq::new(
        sent.len(),
        |i: int| sent[i].0 + ": "@ + text_of_bytes(sent[i].1),
    ));
    let start = "#"@ + decimal_of(req_id as nat) + " ✖ "@;
    assert(text.take(start.len() as int) =~= start);
}

/// A request begins only where its body is a JSON object, and then with that object and with the
/// bytes as they came; any other body is refused with the status 400.
pub proof fn law_which_bodies_are_taken(
    r: Result<(Exchange, LogLine), Refusal>,
    req_id: u64,
    path: Seq<char>,
    body: Seq<u8>,
    parsed: Result<JsonV, Seq<char>>,
)
    requires
        is_opening(r, req_id, path, body, parsed),
    ensures
        r is Ok <==> parsed is Ok && parsed->Ok_0 is Object,
        r matches Ok((x, line)) ==> x@.req == parsed->Ok_0 && x@.body == body && x@.req_id == req_id
            && x@.pending is None && (line.warn <==> contains_text(tools_lines(parsed->Ok_0), "⚠"@)),
        r matches Err(refusal) ==> refusal.status == 400 && refusal.level == Level::Error,
{
}

/// The text of a header is that of its bytes, one character each, where every byte is a tab or
/// stands for a visible character.
pub proof fn law_text_of_a_header(v: Seq<u8>)
    ensures
        visible_text(v) is Some <==> forall|i: int|
            0 <= i < v.len() ==> (32 <= #[trigger] v[i] < 127 || v[i] == 9),
        visible_text(v) matches Some(t) ==> t.len() == v.len() && forall|i: int|
            0 <= i < v.len() ==> #[trigger] t[i] == v[i] as char,
{
    if visible_text(v) is Some {
        assert forall|i: int| 0 <= i < v.len() implies (32 <= #[trigger] v[i] < 127 || v[i] == 9) by {
            assert(visible_byte(v[i]));
        }
    }
}

} // verus!
