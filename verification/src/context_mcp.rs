//! The tool by which an agent reads the thread that it is talked to in: who may
//! call it, what a call asks for, and what is handed back of a thread.

use vstd::prelude::*;
use serde_json::Value;
use crate::config::{
    filled, non_empty, resolve_allow_all, setting_view, text_view, ContextMcpConfig, DiscordConfig, SlackConfig,
};
use crate::json::{
    as_array, as_bool, as_str, either_field, either_text, field, from_slice, get, held, items_in,
    items_or_none, json_of, json_read, json_string, json_text, number_field, number_in, text_field, text_in,
    text_or_empty, text_or_nothing, value_string, value_text, Json,
};
use crate::text::{
    append_decimal, decimal, is_one_of, only, same, strip_prefix, trim_end_of, views, without_back,
};

verus! {

pub const MCP_PROTOCOL_VERSION: &'static str = "2025-06-18";

pub const TOOL_READ_CURRENT_THREAD: &'static str = "read_current_thread";

pub const DISCORD_API_BASE: &'static str = "https://discord.com/api/v10";

pub const SLACK_API_BASE: &'static str = "https://slack.com/api";

/// What the tool can be called for on Discord.
pub struct DiscordContext {
    pub token: String,
    pub allow_all_channels: bool,
    pub allowed_channels: Vec<String>,
    /// Whether channels that are neither threads nor direct messages can be read.
    pub allow_normal_channels: bool,
}

/// What the tool can be called for on Slack.
pub struct SlackContext {
    pub token: String,
    pub allow_all_channels: bool,
    pub allowed_channels: Vec<String>,
}

/// What the server goes by.
pub struct ContextMcpState {
    pub token: String,
    pub route_path: String,
    pub default_limit: usize,
    pub max_limit: usize,
    /// The platforms that can be read; all where there are none.
    pub allowed_platforms: Vec<String>,
    pub discord: Option<DiscordContext>,
    pub slack: Option<SlackContext>,
}

fn copy_texts(list: &Vec<String>) -> (r: Vec<String>)
    ensures
        views(r@) == views(list@),
{
    let mut out: Vec<String> = Vec::new();
    let mut i: usize = 0;
    assert(views(out@) =~= views(list@).take(0));
    while i < list.len()
        invariant
            i <= list@.len(),
            views(out@) == views(list@).take(i as int),
        decreases list@.len() - i,
    {
        let text = list[i].clone();
        proof {
            crate::text::lemma_views_push(out@, text);
            assert(views(list@).take(i + 1) =~= views(list@).take(i as int).push(text@));
        }
        out.push(text);
        i += 1;
    }
    assert(views(list@).take(list@.len() as int) =~= views(list@));
    out
}

/// Whether reading on Discord is set up as its configuration says.
pub open spec fn is_discord_part(
    config: Option<&DiscordConfig>,
    allow_normal_channels: bool,
    part: Option<DiscordContext>,
) -> bool {
    match (part, config) {
        (Some(c), Some(d)) => {
            &&& c.token@ == d.bot_token@
            &&& c.allow_all_channels == (match d.allow_all_channels {
                Some(b) => b,
                None => d.allowed_channels@.len() == 0,
            })
            &&& views(c.allowed_channels@) == views(d.allowed_channels@)
            &&& c.allow_normal_channels == allow_normal_channels
        },
        (None, None) => true,
        _ => false,
    }
}

/// Whether reading on Slack is set up as its configuration says.
pub open spec fn is_slack_part(config: Option<&SlackConfig>, part: Option<SlackContext>) -> bool {
    match (part, config) {
        (Some(c), Some(s)) => {
            &&& c.token@ == s.bot_token@
            &&& c.allow_all_channels == (match s.allow_all_channels {
                Some(b) => b,
                None => s.allowed_channels@.len() == 0,
            })
            &&& views(c.allowed_channels@) == views(s.allowed_channels@)
        },
        (None, None) => true,
        _ => false,
    }
}

impl ContextMcpState {
    /// The server's rules out of the configuration: the channels of each platform
    /// are those that its messages are answered in.
    pub fn from_config(
        config: &ContextMcpConfig,
        discord: Option<&DiscordConfig>,
        slack: Option<&SlackConfig>,
    ) -> (r: Self)
        ensures
            r.token@ == config.token@,
            r.route_path@ == config.route_path@,
            r.default_limit == config.default_limit,
            r.max_limit == config.max_limit,
            views(r.allowed_platforms@) == views(config.allowed_platforms@),
            is_discord_part(discord, config.allow_normal_channels, r.discord),
            is_slack_part(slack, r.slack),
    {
        let discord = match discord {
            Some(d) => Some(
                DiscordContext {
                    token: d.bot_token.clone(),
                    allow_all_channels: resolve_allow_all(
                        d.allow_all_channels,
                        d.allowed_channels.as_slice(),
                    ),
                    allowed_channels: copy_texts(&d.allowed_channels),
                    allow_normal_channels: config.allow_normal_channels,
                },
            ),
            None => None,
        };
        let slack = match slack {
            Some(s) => Some(
                SlackContext {
                    token: s.bot_token.clone(),
                    allow_all_channels: resolve_allow_all(
                        s.allow_all_channels,
                        s.allowed_channels.as_slice(),
                    ),
                    allowed_channels: copy_texts(&s.allowed_channels),
                },
            ),
            None => None,
        };
        ContextMcpState {
            token: config.token.clone(),
            route_path: config.route_path.clone(),
            default_limit: config.default_limit,
            max_limit: config.max_limit,
            allowed_platforms: copy_texts(&config.allowed_platforms),
            discord,
            slack,
        }
    }
}

// ---------------------------------------------------------------------------
// Who may call
// ---------------------------------------------------------------------------

/// Whether a request goes to the path that is served; the default path is served
/// at the root too.
pub fn route_matches(request_path: &str, configured_path: &str) -> (r: bool)
    ensures
        r == is_route(request_path@, configured_path@),
{
    same(request_path, configured_path) || (same(configured_path, "/mcp") && same(request_path, "/"))
}

/// Whether a request has the token.
pub open spec fn has_token(header: Option<Seq<char>>, expected: Seq<char>) -> bool {
    header == Some("Bearer "@ + expected)
}

/// Whether the authorization header holds the token.
pub fn authorized(header: Option<&str>, expected: &str) -> (r: bool)
    ensures
        r == has_token(setting_view(header), expected@),
{
    match header {
        None => false,
        Some(value) => match strip_prefix(value, "Bearer ") {
            None => {
                proof {
                    if value@ == "Bearer "@ + expected@ {
                        assert(value@.subrange(0, "Bearer "@.len() as int) =~= "Bearer "@);
                    }
                }
                false
            },
            Some(token) => {
                let r = same(token.as_str(), expected);
                proof {
                    assert(value@ =~= "Bearer "@ + token@);
                    if value@ == "Bearer "@ + expected@ {
                        assert(token@ =~= expected@);
                    }
                }
                r
            },
        },
    }
}

/// What becomes of a request before its body is read.
#[derive(Debug, Clone, Copy, PartialEq, Eq, Structural)]
pub enum HttpStep {
    MethodNotAllowed,
    NotFound,
    Unauthorized,
    ReadBody,
}

/// Whether a path is the one that is served.
pub open spec fn is_route(path: Seq<char>, configured: Seq<char>) -> bool {
    path == configured || (configured == "/mcp"@ && path == "/"@)
}

/// What becomes of a request, by its method, its path and its header.
pub open spec fn request_step(
    is_post: bool,
    path: Seq<char>,
    header: Option<Seq<char>>,
    route: Seq<char>,
    token: Seq<char>,
) -> HttpStep {
    if !is_post {
        HttpStep::MethodNotAllowed
    } else if !is_route(path, route) {
        HttpStep::NotFound
    } else if !has_token(header, token) {
        HttpStep::Unauthorized
    } else {
        HttpStep::ReadBody
    }
}

/// Tells what becomes of a request by its method, its path and its header.
pub fn on_request(is_post: bool, path: &str, header: Option<&str>, state: &ContextMcpState) -> (r:
    HttpStep)
    ensures
        r == request_step(
            is_post,
            path@,
            setting_view(header),
            state.route_path@,
            state.token@,
        ),
{
    if !is_post {
        return HttpStep::MethodNotAllowed;
    }
    if !route_matches(path, state.route_path.as_str()) {
        return HttpStep::NotFound;
    }
    if !authorized(header, state.token.as_str()) {
        return HttpStep::Unauthorized;
    }
    HttpStep::ReadBody
}

/// Whether a request is refused in this way, with a status and a text, or not at
/// all.
pub open spec fn is_refusal_for(step: HttpStep, r: Option<(u16, &'static str)>) -> bool {
    match r {
        None => step == HttpStep::ReadBody,
        Some((code, text)) => match step {
            HttpStep::MethodNotAllowed => code == 405 && text@ == "method not allowed"@,
            HttpStep::NotFound => code == 404 && text@ == "not found"@,
            HttpStep::Unauthorized => code == 401 && text@ == "unauthorized"@,
            HttpStep::ReadBody => false,
        },
    }
}

impl HttpStep {
    /// The status and the text of a refusal.
    pub fn refusal(&self) -> (r: Option<(u16, &'static str)>)
        ensures
            is_refusal_for(*self, r),
    {
        match self {
            HttpStep::MethodNotAllowed => Some((405, "method not allowed")),
            HttpStep::NotFound => Some((404, "not found")),
            HttpStep::Unauthorized => Some((401, "unauthorized")),
            HttpStep::ReadBody => None,
        }
    }
}

/// Nothing is read for a request without the token, and there is one header alone
/// that opens the server.
pub proof fn token_is_needed(
    is_post: bool,
    path: Seq<char>,
    header: Option<Seq<char>>,
    other: Option<Seq<char>>,
    route: Seq<char>,
    token: Seq<char>,
)
    ensures
        header is None ==> request_step(is_post, path, header, route, token) != HttpStep::ReadBody,
        request_step(is_post, path, header, route, token) == HttpStep::ReadBody && request_step(
            is_post,
            path,
            other,
            route,
            token,
        ) == HttpStep::ReadBody ==> header == other,
{
}

// ---------------------------------------------------------------------------
// What a call asks for
// ---------------------------------------------------------------------------

/// What is wrong with a call.
#[derive(Debug, Clone, Copy, PartialEq, Eq, Structural)]
pub enum RpcFault {
    /// The body is no JSON.
    Parse,
    /// There is no method.
    InvalidRequest,
    MethodNotFound,
    /// There is no such tool.
    InvalidParams,
    /// The tool failed.
    Failed,
}

impl RpcFault {
    /// The number of a fault, below zero.
    pub open spec fn number(self) -> nat {
        match self {
            RpcFault::Parse => 32700,
            RpcFault::InvalidRequest => 32600,
            RpcFault::MethodNotFound => 32601,
            RpcFault::InvalidParams => 32602,
            RpcFault::Failed => 32000,
        }
    }

    fn magnitude(&self) -> (r: u64)
        ensures
            r == self.number(),
    {
        match self {
            RpcFault::Parse => 32700,
            RpcFault::InvalidRequest => 32600,
            RpcFault::MethodNotFound => 32601,
            RpcFault::InvalidParams => 32602,
            RpcFault::Failed => 32000,
        }
    }
}

/// What is done about a call.
#[derive(Debug)]
pub enum RpcAction<'a> {
    Initialize,
    /// A notification: there is nothing to answer.
    Accept,
    ListTools,
    /// The thread is read, with these arguments.
    Read(Option<&'a Value>),
    Fail(RpcFault, String),
}

/// A call: its id, and what is done about it.
#[derive(Debug)]
pub struct RpcStep<'a> {
    pub id: Option<&'a Value>,
    pub action: RpcAction<'a>,
}

/// What is done about a call.
pub enum ActionView {
    Initialize,
    Accept,
    ListTools,
    Read(Option<Json>),
    Fail(RpcFault, Seq<char>),
}

impl<'a> View for RpcAction<'a> {
    type V = ActionView;

    open spec fn view(&self) -> ActionView {
        match *self {
            RpcAction::Initialize => ActionView::Initialize,
            RpcAction::Accept => ActionView::Accept,
            RpcAction::ListTools => ActionView::ListTools,
            RpcAction::Read(args) => ActionView::Read(held(args)),
            RpcAction::Fail(fault, message) => ActionView::Fail(fault, message@),
        }
    }
}

/// What is done about a call that asks for a tool.
pub open spec fn tool_action(params: Option<Json>) -> ActionView {
    let name = match params {
        Some(p) => text_or_empty(field(p, "name"@)),
        None => Seq::empty(),
    };
    if name == TOOL_READ_CURRENT_THREAD@ {
        ActionView::Read(match params {
            Some(p) => field(p, "arguments"@),
            None => None,
        })
    } else {
        ActionView::Fail(RpcFault::InvalidParams, "unknown tool: "@ + name)
    }
}

/// What is done about a call.
pub open spec fn rpc_action(call: Json) -> ActionView {
    match text_in(field(call, "method"@)) {
        None => ActionView::Fail(RpcFault::InvalidRequest, "missing method"@),
        Some(method) => if method == "initialize"@ {
            ActionView::Initialize
        } else if method == "notifications/initialized"@ {
            ActionView::Accept
        } else if method == "tools/list"@ {
            ActionView::ListTools
        } else if method == "tools/call"@ {
            tool_action(field(call, "params"@))
        } else {
            ActionView::Fail(RpcFault::MethodNotFound, "method not found: "@ + method)
        },
    }
}

/// Tells what is done about a call.
pub fn handle_rpc<'a>(value: &'a Value) -> (r: RpcStep<'a>)
    ensures
        held(r.id) == field(json_of(*value), "id"@),
        r.action@ == rpc_action(json_of(*value)),
{
    let id = get(value, "id");
    let method = match get(value, "method") {
        Some(m) => as_str(m),
        None => None,
    };
    let method = match method {
        Some(m) => m,
        None => {
            return RpcStep {
                id,
                action: RpcAction::Fail(RpcFault::InvalidRequest, "missing method".to_owned()),
            };
        },
    };
    let action = if same(method, "initialize") {
        RpcAction::Initialize
    } else if same(method, "notifications/initialized") {
        RpcAction::Accept
    } else if same(method, "tools/list") {
        RpcAction::ListTools
    } else if same(method, "tools/call") {
        let params = get(value, "params");
        let name = match params {
            Some(p) => text_or_nothing(p, "name"),
            None => String::new(),
        };
        if same(name.as_str(), TOOL_READ_CURRENT_THREAD) {
            RpcAction::Read(match params {
                Some(p) => get(p, "arguments"),
                None => None,
            })
        } else {
            let mut message = "unknown tool: ".to_owned();
            message.append(name.as_str());
            RpcAction::Fail(RpcFault::InvalidParams, message)
        }
    } else {
        let mut message = "method not found: ".to_owned();
        message.append(method);
        RpcAction::Fail(RpcFault::MethodNotFound, message)
    };
    RpcStep { id, action }
}

/// Reads the body of a request, which is one JSON value.
pub fn parse_body(body: &[u8]) -> (r: Result<Value, String>)
    ensures
        match r {
            Ok(v) => json_read(body@) == Ok::<Json, Seq<char>>(json_of(v)),
            Err(e) => json_read(body@) matches Err(why) && e@ == "invalid JSON: "@ + why,
        },
{
    match from_slice(body) {
        Ok(v) => Ok(v),
        Err(e) => {
            let mut message = "invalid JSON: ".to_owned();
            message.append(e.as_str());
            Err(message)
        },
    }
}

// ---------------------------------------------------------------------------
// Replies
// ---------------------------------------------------------------------------

/// The id of a reply: that of the call, or none.
pub open spec fn id_text(id: Option<&Value>) -> Seq<char> {
    match id {
        Some(v) => value_text(*v),
        None => "null"@,
    }
}

/// The reply to a call that failed.
pub open spec fn error_text(id: Seq<char>, fault: RpcFault, message: Seq<char>) -> Seq<char> {
    "{\"error\":{\"code\":-"@ + decimal(fault.number()) + ",\"message\":"@ + json_text(message)
        + "},\"id\":"@ + id + ",\"jsonrpc\":\"2.0\"}"@
}

/// The reply to a call that succeeded.
pub open spec fn result_text(id: Seq<char>, result: Seq<char>) -> Seq<char> {
    "{\"id\":"@ + id + ",\"jsonrpc\":\"2.0\",\"result\":"@ + result + "}"@
}

fn id_string(id: Option<&Value>) -> (r: String)
    ensures
        r@ == id_text(id),
{
    match id {
        Some(v) => value_string(v),
        None => "null".to_owned(),
    }
}

pub fn json_rpc_error(id: Option<&Value>, fault: RpcFault, message: &str) -> (r: String)
    ensures
        r@ == error_text(id_text(id), fault, message@),
{
    let mut out = "{\"error\":{\"code\":-".to_owned();
    append_decimal(&mut out, fault.magnitude());
    out.append(",\"message\":");
    out.append(json_string(message).as_str());
    out.append("},\"id\":");
    out.append(id_string(id).as_str());
    out.append(",\"jsonrpc\":\"2.0\"}");
    out
}

/// The reply with a result, which is JSON already.
pub fn json_rpc_result(id: Option<&Value>, result: &str) -> (r: String)
    ensures
        r@ == result_text(id_text(id), result@),
{
    let mut out = "{\"id\":".to_owned();
    out.append(id_string(id).as_str());
    out.append(",\"jsonrpc\":\"2.0\",\"result\":");
    out.append(result);
    out.append("}");
    out
}

/// What the server tells of itself.
pub open spec fn server_text(version: Seq<char>) -> Seq<char> {
    "{\"capabilities\":{\"tools\":{}},\"instructions\":\"Use read_current_thread only when the user request depends on prior Discord or Slack thread context. Prefer small limits and current sender_context routing fields.\",\"protocolVersion\":\"2025-06-18\",\"serverInfo\":{\"name\":\"openab-context\",\"version\":"@
        + json_text(version) + "}}"@
}

/// What the server tells of itself.
pub fn initialize_result(version: &str) -> (r: String)
    ensures
        r@ == server_text(version@),
{
    let mut out =
        "{\"capabilities\":{\"tools\":{}},\"instructions\":\"Use read_current_thread only when the user request depends on prior Discord or Slack thread context. Prefer small limits and current sender_context routing fields.\",\"protocolVersion\":\"2025-06-18\",\"serverInfo\":{\"name\":\"openab-context\",\"version\":".to_owned();
    out.append(json_string(version).as_str());
    out.append("}}");
    out
}

/// The tool, as clients are told of it.
pub open spec fn tool_list() -> Seq<char> {
    "{\"tools\":[{\"description\":\"Read bounded history from the current OpenAB Discord or Slack thread/DM. Use channel/thread ids from <sender_context>.\",\"inputSchema\":{\"properties\":{\"channel_id\":{\"description\":\"Discord parent/DM channel id or Slack channel id from sender_context.\",\"type\":\"string\"},\"limit\":{\"description\":\"Maximum messages to return, clamped by OpenAB configuration.\",\"minimum\":1,\"type\":\"integer\"},\"message_id\":{\"description\":\"Optional current message id for future targeting; ignored by this tool.\",\"type\":\"string\"},\"platform\":{\"description\":\"The sender_context channel/platform value.\",\"enum\":[\"discord\",\"slack\"],\"type\":\"string\"},\"thread_id\":{\"description\":\"Discord thread channel id or Slack thread_ts from sender_context.\",\"type\":\"string\"}},\"required\":[\"platform\",\"channel_id\"],\"type\":\"object\"},\"name\":\"read_current_thread\"}]}"@
}

/// The tool, as clients are told of it.
pub fn tools_result() -> (r: &'static str)
    ensures
        r@ == tool_list(),
{
    "{\"tools\":[{\"description\":\"Read bounded history from the current OpenAB Discord or Slack thread/DM. Use channel/thread ids from <sender_context>.\",\"inputSchema\":{\"properties\":{\"channel_id\":{\"description\":\"Discord parent/DM channel id or Slack channel id from sender_context.\",\"type\":\"string\"},\"limit\":{\"description\":\"Maximum messages to return, clamped by OpenAB configuration.\",\"minimum\":1,\"type\":\"integer\"},\"message_id\":{\"description\":\"Optional current message id for future targeting; ignored by this tool.\",\"type\":\"string\"},\"platform\":{\"description\":\"The sender_context channel/platform value.\",\"enum\":[\"discord\",\"slack\"],\"type\":\"string\"},\"thread_id\":{\"description\":\"Discord thread channel id or Slack thread_ts from sender_context.\",\"type\":\"string\"}},\"required\":[\"platform\",\"channel_id\"],\"type\":\"object\"},\"name\":\"read_current_thread\"}]}"
}

/// The result of a read: as text for the agent, and as data.
pub fn read_result(pretty: &str, structured: &str) -> (r: String)
    ensures
        r@ == "{\"content\":[{\"text\":"@ + json_text(pretty@)
            + ",\"type\":\"text\"}],\"structuredContent\":"@ + structured@ + "}"@,
{
    let mut out = "{\"content\":[{\"text\":".to_owned();
    out.append(json_string(pretty).as_str());
    out.append(",\"type\":\"text\"}],\"structuredContent\":");
    out.append(structured);
    out.append("}");
    out
}

/// The reply to a call that needs no read; none to a notification or a read.
pub fn immediate_reply(step: &RpcStep<'_>, version: &str) -> (r: Option<String>)
    ensures
        match r {
            None => step.action@ is Accept || step.action@ is Read,
            Some(body) => match step.action@ {
                ActionView::Initialize => body@ == result_text(
                    id_text(step.id),
                    server_text(version@),
                ),
                ActionView::ListTools => body@ == result_text(id_text(step.id), tool_list()),
                ActionView::Fail(fault, message) => body@ == error_text(
                    id_text(step.id),
                    fault,
                    message,
                ),
                _ => false,
            },
        },
{
    match &step.action {
        RpcAction::Initialize => {
            let result = initialize_result(version);
            Some(json_rpc_result(step.id, result.as_str()))
        },
        RpcAction::Accept => None,
        RpcAction::ListTools => Some(json_rpc_result(step.id, tools_result())),
        RpcAction::Read(_) => None,
        RpcAction::Fail(fault, message) => Some(json_rpc_error(step.id, *fault, message.as_str())),
    }
}

// ---------------------------------------------------------------------------
// Reading
// ---------------------------------------------------------------------------

/// What a read asks for.
#[derive(Debug)]
pub struct ReadRequest {
    pub platform: String,
    pub channel_id: String,
    pub thread_id: Option<String>,
    pub message_id: Option<String>,
    pub limit: Option<usize>,
}

/// An argument that is text and not blank.
pub open spec fn argument(args: Option<Json>, key: Seq<char>) -> Option<Seq<char>> {
    match args {
        Some(a) => filled(text_in(field(a, key))),
        None => None,
    }
}

/// The limit that is asked for, where it is a number above zero.
pub open spec fn asked_limit(args: Option<Json>) -> Option<usize> {
    match args {
        Some(a) => match number_in(field(a, "limit"@)) {
            Some(n) => if 0 < n <= usize::MAX {
                Some(n as usize)
            } else {
                None
            },
            None => None,
        },
        None => None,
    }
}

fn optional_string(args: Option<&Value>, key: &str) -> (r: Option<String>)
    ensures
        text_view(r) == argument(held(args), key@),
{
    match args {
        Some(a) => match get(a, key) {
            Some(x) => non_empty(as_str(x)),
            None => None,
        },
        None => None,
    }
}

fn required_string(args: Option<&Value>, key: &str) -> (r: Result<String, String>)
    ensures
        match r {
            Ok(s) => argument(held(args), key@) == Some(s@),
            Err(e) => argument(held(args), key@) is None && e@ == "missing required argument: "@
                + key@,
        },
{
    match optional_string(args, key) {
        Some(s) => Ok(s),
        None => {
            let mut message = "missing required argument: ".to_owned();
            message.append(key);
            Err(message)
        },
    }
}

/// Whether a request is the one that arguments make.
pub open spec fn is_request_in(args: Option<Json>, req: ReadRequest) -> bool {
    &&& argument(args, "platform"@) == Some(req.platform@)
    &&& argument(args, "channel_id"@) == Some(req.channel_id@)
    &&& text_view(req.thread_id) == argument(args, "thread_id"@)
    &&& text_view(req.message_id) == argument(args, "message_id"@)
    &&& req.limit == asked_limit(args)
}

/// Reads the arguments of a read. A platform and a channel are needed.
pub fn parse_read_request(args: Option<&Value>) -> (r: Result<ReadRequest, String>)
    ensures
        match r {
            Ok(req) => is_request_in(held(args), req),
            Err(e) => if argument(held(args), "platform"@) is None {
                e@ == "missing required argument: "@ + "platform"@
            } else {
                argument(held(args), "channel_id"@) is None && e@ == "missing required argument: "@
                    + "channel_id"@
            },
        },
{
    let platform = match required_string(args, "platform") {
        Ok(s) => s,
        Err(e) => return Err(e),
    };
    let channel_id = match required_string(args, "channel_id") {
        Ok(s) => s,
        Err(e) => return Err(e),
    };
    let thread_id = optional_string(args, "thread_id");
    let message_id = optional_string(args, "message_id");
    let asked = match args {
        Some(a) => number_field(a, "limit"),
        None => None,
    };
    let limit = match asked {
        Some(n) => if n > 0 && n <= usize::MAX as u64 {
            Some(n as usize)
        } else {
            None
        },
        None => None,
    };
    Ok(ReadRequest { platform, channel_id, thread_id, message_id, limit })
}

/// The limit that holds: as asked or the default, at most the maximum, at least one.
pub open spec fn held_limit(requested: Option<usize>, default_limit: usize, max_limit: usize) -> usize {
    let asked = match requested {
        Some(n) => n,
        None => default_limit,
    };
    let capped = if asked <= max_limit {
        asked
    } else {
        max_limit
    };
    if capped >= 1 {
        capped
    } else {
        1
    }
}

pub fn clamp_limit(requested: Option<usize>, default_limit: usize, max_limit: usize) -> (r: usize)
    ensures
        r == held_limit(requested, default_limit, max_limit),
        1 <= r,
        max_limit >= 1 ==> r <= max_limit,
{
    let asked = match requested {
        Some(n) => n,
        None => default_limit,
    };
    let capped = if asked <= max_limit {
        asked
    } else {
        max_limit
    };
    if capped >= 1 {
        capped
    } else {
        1
    }
}

/// Where a thread is read from.
#[derive(Debug)]
pub enum ReadPlan {
    /// A channel or a thread of Discord.
    Discord { request: ReadRequest, target_id: String, limit: usize },
    /// A thread of Slack.
    Slack { request: ReadRequest, thread_ts: String, limit: usize },
}

/// Why a request is not read, if it is not.
pub open spec fn refusal(state: ContextMcpState, req: ReadRequest) -> Option<Seq<char>> {
    let p = req.platform@;
    if state.allowed_platforms@.len() > 0 && !views(state.allowed_platforms@).contains(p) {
        Some("platform is not enabled for context MCP: "@ + p)
    } else if p == "discord"@ {
        if state.discord is None {
            Some("Discord is not configured"@)
        } else {
            None
        }
    } else if p == "slack"@ {
        match state.slack {
            None => Some("Slack is not configured"@),
            Some(slack) => if !slack.allow_all_channels && !views(
                slack.allowed_channels@,
            ).contains(req.channel_id@) {
                Some("Slack channel is not allowed for context reads"@)
            } else if req.thread_id is None {
                Some("Slack thread_id is required for context reads"@)
            } else {
                None
            },
        }
    } else {
        Some("unsupported platform: "@ + p)
    }
}

/// Whether a plan is the one for a request: it reads the thread asked for, or
/// else the channel, as many messages as are held to.
pub open spec fn is_plan_for(state: ContextMcpState, request: ReadRequest, plan: ReadPlan) -> bool {
    match plan {
        ReadPlan::Discord { request: kept, target_id, limit } => {
            &&& request.platform@ == "discord"@
            &&& kept == request
            &&& target_id@ == (match request.thread_id {
                Some(t) => t@,
                None => request.channel_id@,
            })
            &&& limit == held_limit(request.limit, state.default_limit, state.max_limit)
        },
        ReadPlan::Slack { request: kept, thread_ts, limit } => {
            &&& request.platform@ == "slack"@
            &&& kept == request
            &&& thread_ts@ == request.thread_id->0@
            &&& limit == held_limit(request.limit, state.default_limit, state.max_limit)
        },
    }
}

/// Decides where a request is read from.
pub fn plan_read(state: &ContextMcpState, request: ReadRequest) -> (r: Result<ReadPlan, String>)
    ensures
        match r {
            Ok(plan) => refusal(*state, request) is None && is_plan_for(*state, request, plan),
            Err(e) => refusal(*state, request) == Some(e@),
        },
{
    proof {
        reveal_strlit("discord");
        reveal_strlit("slack");
        assert("discord"@.len() != "slack"@.len());
    }
    let platform = request.platform.as_str();
    if state.allowed_platforms.len() > 0 && !is_one_of(platform, &state.allowed_platforms) {
        let mut message = "platform is not enabled for context MCP: ".to_owned();
        message.append(platform);
        return Err(message);
    }
    let limit = clamp_limit(request.limit, state.default_limit, state.max_limit);
    if same(platform, "discord") {
        if state.discord.is_none() {
            return Err("Discord is not configured".to_owned());
        }
        let target_id = match &request.thread_id {
            Some(t) => t.clone(),
            None => request.channel_id.clone(),
        };
        return Ok(ReadPlan::Discord { request, target_id, limit });
    }
    if same(platform, "slack") {
        match &state.slack {
            None => {
                return Err("Slack is not configured".to_owned());
            },
            Some(slack) => {
                if !slack.allow_all_channels && !is_one_of(
                    request.channel_id.as_str(),
                    &slack.allowed_channels,
                ) {
                    return Err("Slack channel is not allowed for context reads".to_owned());
                }
            },
        }
        let thread_ts = match &request.thread_id {
            Some(t) => t.clone(),
            None => {
                return Err("Slack thread_id is required for context reads".to_owned());
            },
        };
        return Ok(ReadPlan::Slack { request, thread_ts, limit });
    }
    let mut message = "unsupported platform: ".to_owned();
    message.append(platform);
    Err(message)
}

/// What is read is never more than the server allows, and never nothing.
pub proof fn reads_are_bounded(state: ContextMcpState, req: ReadRequest)
    requires
        state.max_limit >= 1,
    ensures
        1 <= held_limit(req.limit, state.default_limit, state.max_limit) <= state.max_limit,
{
}

// ---------------------------------------------------------------------------
// Discord
// ---------------------------------------------------------------------------

/// What kind of channel a number stands for: a thread, or a direct message.
pub open spec fn is_thread_type(kind: u64) -> bool {
    10 <= kind <= 12
}

pub open spec fn is_dm_type(kind: u64) -> bool {
    kind == 1 || kind == 3
}

/// Whether a Discord channel may be read: itself, the channel asked for or its
/// parent is allowed.
pub open spec fn scope_error(
    discord: DiscordContext,
    channel_id: Seq<char>,
    target_id: Seq<char>,
    is_thread: bool,
    is_dm: bool,
    parent_id: Option<Seq<char>>,
) -> Option<Seq<char>> {
    let allowed = views(discord.allowed_channels@);
    if !is_thread && !is_dm && !discord.allow_normal_channels {
        Some("Discord normal channel history is not available through this tool"@)
    } else if !discord.allow_all_channels && !allowed.contains(channel_id) && !allowed.contains(
        target_id,
    ) && !(parent_id is Some && allowed.contains(parent_id->0)) {
        Some("Discord channel is not allowed for context reads"@)
    } else {
        None
    }
}

pub fn validate_discord_channel_scope(
    discord: &DiscordContext,
    req: &ReadRequest,
    target_id: &str,
    is_thread: bool,
    is_dm: bool,
    parent_id: Option<&String>,
) -> (r: Result<(), String>)
    ensures
        ({
            let parent = match parent_id {
                Some(p) => Some(p@),
                None => None,
            };
            let fault = scope_error(*discord, req.channel_id@, target_id@, is_thread, is_dm, parent);
            match r {
                Ok(()) => fault is None,
                Err(e) => fault == Some(e@),
            }
        }),
{
    if !is_thread && !is_dm && !discord.allow_normal_channels {
        return Err(
            "Discord normal channel history is not available through this tool".to_owned(),
        );
    }
    let by_parent = match parent_id {
        Some(p) => is_one_of(p.as_str(), &discord.allowed_channels),
        None => false,
    };
    if !discord.allow_all_channels && !is_one_of(req.channel_id.as_str(), &discord.allowed_channels)
        && !is_one_of(target_id, &discord.allowed_channels) && !by_parent {
        return Err("Discord channel is not allowed for context reads".to_owned());
    }
    Ok(())
}

/// The kind of a channel: that of a plain one where it does not say.
pub open spec fn channel_type(channel: Json) -> u64 {
    match number_in(field(channel, "type"@)) {
        Some(n) => n,
        None => 0,
    }
}

/// Checks the channel that Discord tells of, and tells whether it is a thread.
pub fn check_discord_channel(
    discord: &DiscordContext,
    req: &ReadRequest,
    target_id: &str,
    channel: &Value,
) -> (r: Result<bool, String>)
    ensures
        ({
            let c = json_of(*channel);
            let fault = scope_error(
                *discord,
                req.channel_id@,
                target_id@,
                is_thread_type(channel_type(c)),
                is_dm_type(channel_type(c)),
                text_in(field(c, "parent_id"@)),
            );
            match r {
                Ok(is_thread) => fault is None && is_thread == is_thread_type(channel_type(c)),
                Err(e) => fault == Some(e@),
            }
        }),
{
    let kind = match number_field(channel, "type") {
        Some(n) => n,
        None => 0,
    };
    let parent_id = text_field(channel, "parent_id");
    let is_thread = kind >= 10 && kind <= 12;
    let is_dm = kind == 1 || kind == 3;
    match validate_discord_channel_scope(
        discord,
        req,
        target_id,
        is_thread,
        is_dm,
        parent_id.as_ref(),
    ) {
        Ok(()) => Ok(is_thread),
        Err(e) => Err(e),
    }
}

/// The address of a call.
pub fn api_url(api_base: &str, path: &str) -> (r: String)
    ensures
        r@ == without_back(api_base@, only('/')) + path@,
{
    let mut out = trim_end_of(api_base, '/').to_owned();
    out.append(path);
    out
}

pub fn channel_path(target_id: &str) -> (r: String)
    ensures
        r@ == "/channels/"@ + target_id@,
{
    let mut out = "/channels/".to_owned();
    out.append(target_id);
    out
}

pub fn messages_path(target_id: &str, limit: usize) -> (r: String)
    ensures
        r@ == "/channels/"@ + target_id@ + "/messages?limit="@ + decimal(limit as nat),
{
    let mut out = "/channels/".to_owned();
    out.append(target_id);
    out.append("/messages?limit=");
    append_decimal(&mut out, limit as u64);
    out
}

/// What a call that Discord refused is answered.
pub fn discord_error(status: &str, reply: &Value) -> (r: String)
    ensures
        r@ == "Discord API returned "@ + status@ + ": "@ + (match text_in(
            field(json_of(*reply), "message"@),
        ) {
            Some(m) => m,
            None => "Discord API error"@,
        }),
{
    let mut out = "Discord API returned ".to_owned();
    out.append(status);
    out.append(": ");
    match text_field(reply, "message") {
        Some(m) => {
            out.append(m.as_str());
        },
        None => {
            out.append("Discord API error");
        },
    }
    out
}

// ---------------------------------------------------------------------------
// Messages
// ---------------------------------------------------------------------------

/// A file that came with a message.
#[derive(Debug)]
pub struct NormalizedAttachment {
    pub id: Option<String>,
    pub filename: Option<String>,
    pub url: Option<String>,
    pub content_type: Option<String>,
    pub size: Option<u64>,
}

/// A message, whichever platform it is of.
#[derive(Debug)]
pub struct NormalizedMessage {
    pub id: String,
    pub author_id: Option<String>,
    pub author_name: Option<String>,
    pub timestamp: Option<String>,
    pub text: String,
    pub attachments: Vec<NormalizedAttachment>,
}

/// A thread that was read.
#[derive(Debug)]
pub struct ThreadReadResult {
    pub platform: String,
    pub channel_id: String,
    pub thread_id: Option<String>,
    pub messages: Vec<NormalizedMessage>,
    pub limit: usize,
}

/// A file that came with a message.
pub struct AttachmentView {
    pub id: Option<Seq<char>>,
    pub filename: Option<Seq<char>>,
    pub url: Option<Seq<char>>,
    pub content_type: Option<Seq<char>>,
    pub size: Option<u64>,
}

impl View for NormalizedAttachment {
    type V = AttachmentView;

    open spec fn view(&self) -> AttachmentView {
        AttachmentView {
            id: text_view(self.id),
            filename: text_view(self.filename),
            url: text_view(self.url),
            content_type: text_view(self.content_type),
            size: self.size,
        }
    }
}

/// A message, whichever platform it is of.
pub struct MessageView {
    pub id: Seq<char>,
    pub author_id: Option<Seq<char>>,
    pub author_name: Option<Seq<char>>,
    pub timestamp: Option<Seq<char>>,
    pub text: Seq<char>,
    pub attachments: Seq<AttachmentView>,
}

impl View for NormalizedMessage {
    type V = MessageView;

    open spec fn view(&self) -> MessageView {
        MessageView {
            id: self.id@,
            author_id: text_view(self.author_id),
            author_name: text_view(self.author_name),
            timestamp: text_view(self.timestamp),
            text: self.text@,
            attachments: self.attachments@.map_values(|a: NormalizedAttachment| a@),
        }
    }
}

/// A file of a Discord message.
pub open spec fn discord_attachment(a: Json) -> AttachmentView {
    AttachmentView {
        id: text_in(field(a, "id"@)),
        filename: text_in(field(a, "filename"@)),
        url: text_in(field(a, "url"@)),
        content_type: text_in(field(a, "content_type"@)),
        size: number_in(field(a, "size"@)),
    }
}

/// The author of a Discord message.
pub open spec fn author_of(m: Json) -> Json {
    match field(m, "author"@) {
        Some(a) => a,
        None => Json::Null,
    }
}

/// A Discord message.
pub open spec fn discord_message(m: Json) -> MessageView {
    MessageView {
        id: text_or_empty(field(m, "id"@)),
        author_id: text_in(field(author_of(m), "id"@)),
        author_name: text_in(either_field(author_of(m), "global_name"@, "username"@)),
        timestamp: text_in(field(m, "timestamp"@)),
        text: text_or_empty(field(m, "content"@)),
        attachments: items_or_none(field(m, "attachments"@)).map_values(
            |a: Json| discord_attachment(a),
        ),
    }
}

/// A file of a Slack message.
pub open spec fn slack_attachment(f: Json) -> AttachmentView {
    AttachmentView {
        id: text_in(field(f, "id"@)),
        filename: text_in(either_field(f, "name"@, "title"@)),
        url: text_in(either_field(f, "url_private_download"@, "url_private"@)),
        content_type: text_in(field(f, "mimetype"@)),
        size: number_in(field(f, "size"@)),
    }
}

/// A Slack message.
pub open spec fn slack_message(m: Json) -> MessageView {
    MessageView {
        id: text_or_empty(field(m, "ts"@)),
        author_id: text_in(either_field(m, "user"@, "bot_id"@)),
        author_name: text_in(field(m, "username"@)),
        timestamp: text_in(field(m, "ts"@)),
        text: text_or_empty(field(m, "text"@)),
        attachments: items_or_none(field(m, "files"@)).map_values(|f: Json| slack_attachment(f)),
    }
}

fn normalize_discord_attachment(a: &Value) -> (r: NormalizedAttachment)
    ensures
        r@ == discord_attachment(json_of(*a)),
{
    NormalizedAttachment {
        id: text_field(a, "id"),
        filename: text_field(a, "filename"),
        url: text_field(a, "url"),
        content_type: text_field(a, "content_type"),
        size: number_field(a, "size"),
    }
}

fn normalize_slack_attachment(f: &Value) -> (r: NormalizedAttachment)
    ensures
        r@ == slack_attachment(json_of(*f)),
{
    NormalizedAttachment {
        id: text_field(f, "id"),
        filename: either_text(f, "name", "title"),
        url: either_text(f, "url_private_download", "url_private"),
        content_type: text_field(f, "mimetype"),
        size: number_field(f, "size"),
    }
}

/// The files of a message, out of one of its fields.
fn attachments_of(m: &Value, key: &str, slack: bool) -> (r: Vec<NormalizedAttachment>)
    ensures
        r@.map_values(|a: NormalizedAttachment| a@) == items_or_none(
            field(json_of(*m), key@),
        ).map_values(
            |a: Json|
                if slack {
                    slack_attachment(a)
                } else {
                    discord_attachment(a)
                },
        ),
{
    let ghost pick = |a: Json|
        if slack {
            slack_attachment(a)
        } else {
            discord_attachment(a)
        };
    let ghost wanted = items_or_none(field(json_of(*m), key@)).map_values(pick);
    let mut out: Vec<NormalizedAttachment> = Vec::new();
    let items = match get(m, key) {
        Some(x) => as_array(x),
        None => None,
    };
    if let Some(items) = items {
        let mut i: usize = 0;
        while i < items.len()
            invariant
                i <= items@.len(),
                items_in(field(json_of(*m), key@)) == Some(
                    items@.map_values(|x: Value| json_of(x)),
                ),
                pick == (|a: Json|
                    if slack {
                        slack_attachment(a)
                    } else {
                        discord_attachment(a)
                    }),
                wanted == items_or_none(field(json_of(*m), key@)).map_values(pick),
                out@.len() == i,
                forall|k: int| 0 <= k < i ==> (#[trigger] out@[k])@ == wanted[k],
            decreases items@.len() - i,
        {
            let a = if slack {
                normalize_slack_attachment(&items[i])
            } else {
                normalize_discord_attachment(&items[i])
            };
            assert(a@ == wanted[i as int]);
            out.push(a);
            i += 1;
        }
    }
    assert(out@.map_values(|a: NormalizedAttachment| a@) =~= wanted);
    out
}

pub fn normalize_discord_message(msg: &Value) -> (r: NormalizedMessage)
    ensures
        r@ == discord_message(json_of(*msg)),
{
    let (author_id, author_name) = match get(msg, "author") {
        Some(author) => (text_field(author, "id"), either_text(author, "global_name", "username")),
        None => (None, None),
    };
    let attachments = attachments_of(msg, "attachments", false);
    let r = NormalizedMessage {
        id: text_or_nothing(msg, "id"),
        author_id,
        author_name,
        timestamp: text_field(msg, "timestamp"),
        text: text_or_nothing(msg, "content"),
        attachments,
    };
    assert(r@.attachments =~= discord_message(json_of(*msg)).attachments);
    r
}

pub fn normalize_slack_message(msg: &Value) -> (r: NormalizedMessage)
    ensures
        r@ == slack_message(json_of(*msg)),
{
    let attachments = attachments_of(msg, "files", true);
    let r = NormalizedMessage {
        id: text_or_nothing(msg, "ts"),
        author_id: either_text(msg, "user", "bot_id"),
        author_name: text_field(msg, "username"),
        timestamp: text_field(msg, "ts"),
        text: text_or_nothing(msg, "text"),
        attachments,
    };
    assert(r@.attachments =~= slack_message(json_of(*msg)).attachments);
    r
}

/// The messages of a thread.
pub open spec fn message_views(messages: Seq<NormalizedMessage>) -> Seq<MessageView> {
    messages.map_values(|m: NormalizedMessage| m@)
}

/// Whether a result is what was read on Discord, which gives the newest message
/// first.
pub open spec fn is_discord_read(
    request: ReadRequest,
    target_id: String,
    is_thread: bool,
    messages: Json,
    limit: usize,
    r: ThreadReadResult,
) -> bool {
    &&& r.platform@ == "discord"@
    &&& r.channel_id == request.channel_id
    &&& r.thread_id == (if is_thread {
        Some(target_id)
    } else {
        None
    })
    &&& r.limit == limit
    &&& message_views(r.messages@) == items_or_none(Some(messages)).map_values(
        |m: Json| discord_message(m),
    ).reverse()
}

/// What is handed back of a Discord channel: its messages, oldest first, where
/// Discord gives the newest first.
pub fn discord_result(
    request: ReadRequest,
    target_id: String,
    is_thread: bool,
    messages: &Value,
    limit: usize,
) -> (r: ThreadReadResult)
    ensures
        is_discord_read(request, target_id, is_thread, json_of(*messages), limit, r),
{
    let ghost wanted = items_or_none(Some(json_of(*messages))).map_values(
        |m: Json| discord_message(m),
    );
    let mut out: Vec<NormalizedMessage> = Vec::new();
    if let Some(items) = as_array(messages) {
        let mut i: usize = items.len();
        while i > 0
            invariant
                i <= items@.len(),
                json_of(*messages) == Json::Array(items@.map_values(|x: Value| json_of(x))),
                wanted == items_or_none(Some(json_of(*messages))).map_values(
                    |m: Json| discord_message(m),
                ),
                out@.len() == items@.len() - i,
                forall|k: int|
                    0 <= k < out@.len() ==> (#[trigger] out@[k])@ == wanted[items@.len() - 1 - k],
            decreases i,
        {
            i -= 1;
            let m = normalize_discord_message(&items[i]);
            assert(m@ == wanted[i as int]);
            out.push(m);
        }
    }
    assert(message_views(out@) =~= wanted.reverse());
    let thread_id = if is_thread {
        Some(target_id)
    } else {
        None
    };
    ThreadReadResult {
        platform: "discord".to_owned(),
        channel_id: request.channel_id,
        thread_id,
        messages: out,
        limit,
    }
}

/// Whether a result is what was read on Slack, which gives the oldest message
/// first.
pub open spec fn is_slack_read(
    request: ReadRequest,
    thread_ts: String,
    reply: Json,
    limit: usize,
    r: ThreadReadResult,
) -> bool {
    &&& r.platform@ == "slack"@
    &&& r.channel_id == request.channel_id
    &&& r.thread_id == Some(thread_ts)
    &&& r.limit == limit
    &&& message_views(r.messages@) == items_or_none(field(reply, "messages"@)).map_values(
        |m: Json| slack_message(m),
    )
}

/// What is handed back of a Slack thread, in the order that Slack gives, unless
/// Slack says that it failed.
pub fn slack_result(request: ReadRequest, thread_ts: String, reply: &Value, limit: usize) -> (r:
    Result<ThreadReadResult, String>)
    ensures
        ({
            let j = json_of(*reply);
            match r {
                Ok(result) => {
                    &&& field(j, "ok"@) == Some(Json::Bool(true))
                    &&& is_slack_read(request, thread_ts, j, limit, result)
                },
                Err(e) => {
                    &&& field(j, "ok"@) != Some(Json::Bool(true))
                    &&& e@ == "Slack API conversations.replies: "@ + (match text_in(
                        field(j, "error"@),
                    ) {
                        Some(why) => why,
                        None => "unknown"@,
                    })
                },
            }
        }),
{
    let ok = match get(reply, "ok") {
        Some(x) => as_bool(x) == Some(true),
        None => false,
    };
    if !ok {
        let mut message = "Slack API conversations.replies: ".to_owned();
        match text_field(reply, "error") {
            Some(why) => {
                message.append(why.as_str());
            },
            None => {
                message.append("unknown");
            },
        }
        return Err(message);
    }
    let ghost wanted = items_or_none(field(json_of(*reply), "messages"@)).map_values(
        |m: Json| slack_message(m),
    );
    let mut out: Vec<NormalizedMessage> = Vec::new();
    let items = match get(reply, "messages") {
        Some(x) => as_array(x),
        None => None,
    };
    if let Some(items) = items {
        let mut i: usize = 0;
        while i < items.len()
            invariant
                i <= items@.len(),
                items_in(field(json_of(*reply), "messages"@)) == Some(
                    items@.map_values(|x: Value| json_of(x)),
                ),
                wanted == items_or_none(field(json_of(*reply), "messages"@)).map_values(
                    |m: Json| slack_message(m),
                ),
                out@.len() == i,
                forall|k: int| 0 <= k < i ==> (#[trigger] out@[k])@ == wanted[k],
            decreases items@.len() - i,
        {
            let m = normalize_slack_message(&items[i]);
            assert(m@ == wanted[i as int]);
            out.push(m);
            i += 1;
        }
    }
    assert(message_views(out@) =~= wanted);
    Ok(
        ThreadReadResult {
            platform: "slack".to_owned(),
            channel_id: request.channel_id,
            thread_id: Some(thread_ts),
            messages: out,
            limit,
        },
    )
}

} // verus!
