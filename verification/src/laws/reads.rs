//! What an agent may read of a conversation, and what it is handed.

use vstd::prelude::*;
use crate::config::{DiscordConfig, SlackConfig};
use crate::context_mcp::{
    argument, asked_limit, discord_attachment, discord_message, error_text, held_limit,
    is_discord_part, is_discord_read, is_dm_type, is_plan_for, is_refusal_for, is_request_in,
    is_slack_part, is_slack_read, is_thread_type, message_views, refusal, request_step, result_text,
    rpc_action, scope_error, slack_attachment, slack_message, ActionView, ContextMcpState,
    DiscordContext, HttpStep, ReadPlan, ReadRequest, RpcFault, SlackContext, ThreadReadResult,
};
use crate::json::{field, json_text, Json};
use crate::text::{decimal, ends, lemma_parts_stand, occurs, stands_at, trimmed, views};

verus! {

// ---------------------------------------------------------------------------
// Requests
// ---------------------------------------------------------------------------

/// A request is read exactly if it posts to the configured path with the
/// configured token; for the usual path the root will do. What is wrong with it
/// is looked for in this order: the method, the path, the token.
pub proof fn requests_are_read_with_the_token(
    is_post: bool,
    path: Seq<char>,
    header: Option<Seq<char>>,
    route: Seq<char>,
    token: Seq<char>,
)
    ensures
        request_step(is_post, path, header, route, token) == HttpStep::ReadBody <==> is_post && (path
            == route || (route == "/mcp"@ && path == "/"@)) && header == Some("Bearer "@ + token),
        !is_post ==> request_step(is_post, path, header, route, token)
            == HttpStep::MethodNotAllowed,
        is_post && path != route && path != "/"@ ==> request_step(is_post, path, header, route, token)
            == HttpStep::NotFound,
        is_post && path == route && header != Some("Bearer "@ + token) ==> request_step(
            is_post,
            path,
            header,
            route,
            token,
        ) == HttpStep::Unauthorized,
{
}

/// Whether a call names a method.
pub open spec fn calls(call: Json, method: Seq<char>) -> bool {
    field(call, "method"@) == Some(Json::Text(method))
}

/// A call of the one tool reads the thread, with the arguments that it gives;
/// a call of another tool fails.
#[verifier::rlimit(40)]
#[verifier::spinoff_prover]
pub proof fn one_tool_can_be_called(call: Json, params: Json, name: Seq<char>)
    requires
        calls(call, "tools/call"@),
        field(call, "params"@) == Some(params),
        field(params, "name"@) == Some(Json::Text(name)),
    ensures
        name == "read_current_thread"@ ==> rpc_action(call) == ActionView::Read(
            field(params, "arguments"@),
        ),
        name != "read_current_thread"@ ==> (rpc_action(call) matches ActionView::Fail(fault, message)
            && fault == RpcFault::InvalidParams && ends(message, name)),
{
    reveal_strlit("initialize");
    reveal_strlit("notifications/initialized");
    reveal_strlit("tools/list");
    reveal_strlit("tools/call");
    assert("tools/call"@[0] == 't' && "tools/call"@[6] == 'c' && "tools/list"@[6] == 'l');
    assert("initialize"@[0] == 'i');
    assert("notifications/initialized"@[0] == 'n');
    let e = Seq::<char>::empty();
    lemma_parts_stand("unknown tool: "@, e, name);
    assert("unknown tool: "@ + e + name =~= "unknown tool: "@ + name);
}

/// Calls of no known method fail, and so do calls without one; no tool is run
/// for them.
pub proof fn other_calls_fail(call: Json, method: Seq<char>)
    ensures
        calls(call, method) && method != "initialize"@ && method != "notifications/initialized"@
            && method != "tools/list"@ && method != "tools/call"@ ==> (rpc_action(
            call,
        ) matches ActionView::Fail(fault, message) && fault == RpcFault::MethodNotFound),
        field(call, "method"@) is None ==> (rpc_action(call) matches ActionView::Fail(fault, message)
            && fault == RpcFault::InvalidRequest),
        rpc_action(call) is Read ==> calls(call, "tools/call"@),
        rpc_action(call) is ListTools ==> calls(call, "tools/list"@),
        rpc_action(call) is Initialize ==> calls(call, "initialize"@),
{
}

/// A reply names the call that it answers, by its id, and holds the result; an
/// error has the number of its kind and its message.
pub proof fn replies_name_their_call(
    id: Seq<char>,
    result: Seq<char>,
    fault: RpcFault,
    message: Seq<char>,
)
    ensures
        occurs(result_text(id, result), "\"id\":"@ + id + ",\"jsonrpc\":\"2.0\""@),
        ends(result_text(id, result), "\"result\":"@ + result + "}"@),
        occurs(error_text(id, fault, message), "\"code\":-"@ + decimal(fault.number())),
        occurs(error_text(id, fault, message), json_text(message)),
        occurs(error_text(id, fault, message), "\"id\":"@ + id + ",\"jsonrpc\":\"2.0\""@),
{
    lemma_result_reply(id, result);
    lemma_error_reply(id, fault, message);
}

#[verifier::rlimit(40)]
#[verifier::spinoff_prover]
proof fn lemma_result_reply(id: Seq<char>, result: Seq<char>)
    ensures
        occurs(result_text(id, result), "\"id\":"@ + id + ",\"jsonrpc\":\"2.0\""@),
        ends(result_text(id, result), "\"result\":"@ + result + "}"@),
{
    reveal_strlit("{\"id\":");
    reveal_strlit("\"id\":");
    reveal_strlit(",\"jsonrpc\":\"2.0\"");
    reveal_strlit(",\"jsonrpc\":\"2.0\",\"result\":");
    reveal_strlit("\"result\":");
    reveal_strlit("}");
    let t = result_text(id, result);
    let said = "\"id\":"@ + id + ",\"jsonrpc\":\"2.0\""@;
    assert(t.subrange(1, 1int + said.len()) =~= said);
    assert(stands_at(t, said, 1));
    let last = "\"result\":"@ + result + "}"@;
    assert(t.subrange(t.len() - last.len(), t.len() as int) =~= last);
}

#[verifier::rlimit(40)]
#[verifier::spinoff_prover]
proof fn lemma_error_reply(id: Seq<char>, fault: RpcFault, message: Seq<char>)
    ensures
        occurs(error_text(id, fault, message), "\"code\":-"@ + decimal(fault.number())),
        occurs(error_text(id, fault, message), json_text(message)),
        occurs(error_text(id, fault, message), "\"id\":"@ + id + ",\"jsonrpc\":\"2.0\""@),
{
    reveal_strlit("{\"error\":{\"code\":-");
    reveal_strlit("\"code\":-");
    reveal_strlit(",\"message\":");
    reveal_strlit("},\"id\":");
    reveal_strlit("\"id\":");
    reveal_strlit(",\"jsonrpc\":\"2.0\"");
    reveal_strlit(",\"jsonrpc\":\"2.0\"}");
    let t = error_text(id, fault, message);
    let n = decimal(fault.number());
    let m = json_text(message);
    let code = "\"code\":-"@ + n;
    assert(t.subrange(10, 10int + code.len()) =~= code);
    assert(stands_at(t, code, 10));
    let front = "{\"error\":{\"code\":-"@ + n + ",\"message\":"@;
    let k = front.len() as int;
    assert(t.subrange(k, k + m.len()) =~= m);
    assert(stands_at(t, m, k));
    let said = "\"id\":"@ + id + ",\"jsonrpc\":\"2.0\""@;
    let at = k + m.len() + 2;
    assert(t.subrange(at, at + said.len()) =~= said);
    assert(stands_at(t, said, at));
}

// ---------------------------------------------------------------------------
// Arguments
// ---------------------------------------------------------------------------

/// An argument is the text given for it, trimmed; one that says nothing, or is
/// no text, counts as not given.
pub proof fn arguments_are_trimmed_texts(args: Json, key: Seq<char>, text: Seq<char>)
    ensures
        field(args, key) == Some(Json::Text(text)) ==> argument(Some(args), key) == (if trimmed(
            text,
        ).len() > 0 {
            Some(trimmed(text))
        } else {
            None
        }),
        field(args, key) is None ==> argument(Some(args), key) is None,
        argument(None, key) is None,
{
}

/// A request asks for what its arguments say: each field comes from the argument
/// of its name, and one that is not given is left open.
pub proof fn requests_are_what_arguments_say(args: Json, req: ReadRequest, s: Seq<char>)
    requires
        is_request_in(Some(args), req),
        trimmed(s) == s,
        s.len() > 0,
    ensures
        field(args, "platform"@) == Some(Json::Text(s)) ==> req.platform@ == s,
        field(args, "channel_id"@) == Some(Json::Text(s)) ==> req.channel_id@ == s,
        field(args, "thread_id"@) == Some(Json::Text(s)) ==> req.thread_id is Some && req.thread_id->0@
            == s,
        field(args, "message_id"@) == Some(Json::Text(s)) ==> req.message_id is Some
            && req.message_id->0@ == s,
        field(args, "thread_id"@) is None ==> req.thread_id is None,
        field(args, "limit"@) is None ==> req.limit is None,
        field(args, "platform"@) is Some && field(args, "channel_id"@) is Some,
{
}

/// The number of messages is the one asked for, or else the usual one, but never
/// more than the most and never none. A zero is as good as nothing.
pub proof fn limits_are_held(requested: Option<usize>, default_limit: usize, max_limit: usize, args: Json, n: u64)
    requires
        1 <= default_limit <= max_limit,
    ensures
        requested is None ==> held_limit(requested, default_limit, max_limit) == default_limit,
        requested matches Some(n) ==> 1 <= n <= max_limit ==> held_limit(
            requested,
            default_limit,
            max_limit,
        ) == n,
        requested matches Some(n) ==> n > max_limit ==> held_limit(requested, default_limit, max_limit)
            == max_limit,
        field(args, "limit"@) == Some(Json::Number(Some(0))) ==> asked_limit(Some(args)) is None,
        0 < n <= usize::MAX && field(args, "limit"@) == Some(Json::Number(Some(n))) ==> asked_limit(
            Some(args),
        ) == Some(n as usize),
        field(args, "limit"@) is None ==> asked_limit(Some(args)) is None,
{
}

// ---------------------------------------------------------------------------
// Permission
// ---------------------------------------------------------------------------

/// Discord can be read where it is configured and not left out by the list of
/// platforms; an empty list leaves nothing out.
pub proof fn discord_is_read_where_configured(state: ContextMcpState, req: ReadRequest)
    requires
        req.platform@ == "discord"@,
    ensures
        refusal(state, req) is None <==> state.discord is Some && (state.allowed_platforms@.len() == 0
            || exists|i: int|
            0 <= i < state.allowed_platforms@.len() && (#[trigger] state.allowed_platforms@[i])@
                == "discord"@),
{
    let list = views(state.allowed_platforms@);
    if list.contains("discord"@) {
        let i = choose|i: int| 0 <= i < list.len() && list[i] == "discord"@;
        assert(state.allowed_platforms@[i]@ == "discord"@);
    }
    if exists|i: int|
        0 <= i < state.allowed_platforms@.len() && (#[trigger] state.allowed_platforms@[i])@
            == "discord"@ {
        let i = choose|i: int|
            0 <= i < state.allowed_platforms@.len() && (#[trigger] state.allowed_platforms@[i])@
                == "discord"@;
        assert(list[i] == "discord"@);
    }
}

/// Slack can be read where it is configured and not left out by the list of
/// platforms, in a thread of an allowed channel.
#[verifier::rlimit(40)]
#[verifier::spinoff_prover]
pub proof fn slack_is_read_in_allowed_threads(state: ContextMcpState, req: ReadRequest)
    requires
        req.platform@ == "slack"@,
    ensures
        refusal(state, req) is None <==> state.slack is Some && req.thread_id is Some && (
        state.slack->0.allow_all_channels || exists|i: int|
            0 <= i < state.slack->0.allowed_channels@.len() && (
            #[trigger] state.slack->0.allowed_channels@[i])@ == req.channel_id@) && (
        state.allowed_platforms@.len() == 0 || exists|i: int|
            0 <= i < state.allowed_platforms@.len() && (#[trigger] state.allowed_platforms@[i])@
                == "slack"@),
{
    reveal_strlit("slack");
    reveal_strlit("discord");
    assert("slack"@.len() == 5 && "discord"@.len() == 7);
    let list = views(state.allowed_platforms@);
    if list.contains("slack"@) {
        let i = choose|i: int| 0 <= i < list.len() && list[i] == "slack"@;
        assert(state.allowed_platforms@[i]@ == "slack"@);
    }
    if exists|i: int|
        0 <= i < state.allowed_platforms@.len() && (#[trigger] state.allowed_platforms@[i])@
            == "slack"@ {
        let i = choose|i: int|
            0 <= i < state.allowed_platforms@.len() && (#[trigger] state.allowed_platforms@[i])@
                == "slack"@;
        assert(list[i] == "slack"@);
    }
    if state.slack is Some {
        let channels = state.slack->0.allowed_channels@;
        if views(channels).contains(req.channel_id@) {
            let i = choose|i: int|
                0 <= i < views(channels).len() && views(channels)[i] == req.channel_id@;
            assert(channels[i]@ == req.channel_id@);
        }
        if exists|i: int| 0 <= i < channels.len() && (#[trigger] channels[i])@ == req.channel_id@ {
            let i = choose|i: int|
                0 <= i < channels.len() && (#[trigger] channels[i])@ == req.channel_id@;
            assert(views(channels)[i] == req.channel_id@);
        }
    }
}

/// What may be read goes by the configuration of each platform: what it lists may
/// be, and where nothing is said on it, all may be if nothing is listed. A
/// platform without a configuration cannot be read.
pub proof fn reading_goes_by_the_platforms(
    d: DiscordConfig,
    s: SlackConfig,
    normal: bool,
    dp: Option<DiscordContext>,
    sp: Option<SlackContext>,
    i: int,
)
    ensures
        is_discord_part(None, normal, dp) ==> dp is None,
        is_slack_part(None, sp) ==> sp is None,
        is_discord_part(Some(&d), normal, dp) ==> {
            &&& dp is Some
            &&& dp->0.token@ == d.bot_token@
            &&& dp->0.allow_normal_channels == normal
            &&& d.allow_all_channels is None ==> (dp->0.allow_all_channels <==> d.allowed_channels@.len()
                == 0)
            &&& d.allow_all_channels matches Some(b) ==> dp->0.allow_all_channels == b
            &&& 0 <= i < d.allowed_channels@.len() ==> views(dp->0.allowed_channels@).contains(
                d.allowed_channels@[i]@,
            )
        },
        is_slack_part(Some(&s), sp) ==> {
            &&& sp is Some
            &&& sp->0.token@ == s.bot_token@
            &&& s.allow_all_channels is None ==> (sp->0.allow_all_channels <==> s.allowed_channels@.len()
                == 0)
            &&& s.allow_all_channels matches Some(b) ==> sp->0.allow_all_channels == b
            &&& 0 <= i < s.allowed_channels@.len() ==> views(sp->0.allowed_channels@).contains(
                s.allowed_channels@[i]@,
            )
        },
{
    if 0 <= i < d.allowed_channels@.len() {
        assert(views(d.allowed_channels@)[i] == d.allowed_channels@[i]@);
    }
    if 0 <= i < s.allowed_channels@.len() {
        assert(views(s.allowed_channels@)[i] == s.allowed_channels@[i]@);
    }
}

/// Each reason to refuse a request has a status of its own, and a request that is
/// read is not refused.
pub proof fn refusals_have_a_status(
    a: HttpStep,
    x: Option<(u16, &'static str)>,
    b: HttpStep,
    y: Option<(u16, &'static str)>,
)
    requires
        is_refusal_for(a, x),
        is_refusal_for(b, y),
    ensures
        x is None <==> a == HttpStep::ReadBody,
        x matches Some((code, text)) ==> y matches Some((other, said)) ==> code == other ==> a == b,
        x matches Some((code, text)) ==> 400 <= code < 500,
        a == HttpStep::Unauthorized ==> (x matches Some((code, text)) && code == 401),
        a == HttpStep::NotFound ==> (x matches Some((code, text)) && code == 404),
        a == HttpStep::MethodNotAllowed ==> (x matches Some((code, text)) && code == 405),
{
}

/// No other platform can be read.
pub proof fn other_platforms_are_refused(state: ContextMcpState, req: ReadRequest)
    requires
        req.platform@ != "discord"@,
        req.platform@ != "slack"@,
    ensures
        refusal(state, req) is Some,
{
}

/// A Discord channel is in scope where it, the one it was asked through or its
/// parent is allowed, or all are; one that is neither a thread nor a direct
/// conversation only where such channels may be read.
pub proof fn scope_goes_by_the_channel_or_its_parent(
    discord: DiscordContext,
    channel_id: Seq<char>,
    target_id: Seq<char>,
    is_thread: bool,
    is_dm: bool,
    parent: Seq<char>,
)
    ensures
        ({
            let allowed = views(discord.allowed_channels@);
            let readable = is_thread || is_dm || discord.allow_normal_channels;
            let e = scope_error(discord, channel_id, target_id, is_thread, is_dm, Some(parent));
            &&& !readable ==> e is Some
            &&& readable && discord.allow_all_channels ==> e is None
            &&& readable && allowed.contains(channel_id) ==> e is None
            &&& readable && allowed.contains(target_id) ==> e is None
            &&& readable && allowed.contains(parent) ==> e is None
            &&& !discord.allow_all_channels && !allowed.contains(channel_id) && !allowed.contains(
                target_id,
            ) && !allowed.contains(parent) ==> e is Some
        }),
{
}

/// Threads of Discord are of three types, direct conversations of two, and no
/// channel is both.
pub proof fn channel_types_are_told_apart(kind: u64)
    ensures
        is_thread_type(kind) <==> kind == 10 || kind == 11 || kind == 12,
        is_dm_type(kind) <==> kind == 1 || kind == 3,
        !(is_thread_type(kind) && is_dm_type(kind)),
{
}

/// A read goes to the platform that was asked for, to the thread that was asked
/// for or else to the channel, for no more messages than may be read.
pub proof fn reads_go_where_asked(state: ContextMcpState, request: ReadRequest, plan: ReadPlan)
    requires
        is_plan_for(state, request, plan),
        1 <= state.default_limit <= state.max_limit,
    ensures
        plan is Discord <==> request.platform@ == "discord"@,
        plan is Slack <==> request.platform@ == "slack"@,
        plan matches ReadPlan::Discord { request: kept, target_id, limit } ==> {
            &&& kept == request
            &&& request.thread_id is Some ==> target_id@ == request.thread_id->0@
            &&& request.thread_id is None ==> target_id@ == request.channel_id@
            &&& 1 <= limit <= state.max_limit
            &&& request.limit is None ==> limit == state.default_limit
        },
        plan matches ReadPlan::Slack { request: kept, thread_ts, limit } ==> {
            &&& kept == request
            &&& request.thread_id is Some ==> thread_ts@ == request.thread_id->0@
            &&& 1 <= limit <= state.max_limit
            &&& request.limit is None ==> limit == state.default_limit
        },
{
    reveal_strlit("discord");
    reveal_strlit("slack");
    assert("slack"@.len() == 5 && "discord"@.len() == 7);
}

/// What is read on Discord comes oldest first, every message once: the last that
/// was given is the first that is handed on.
pub proof fn discord_reads_are_turned_round(
    request: ReadRequest,
    target_id: String,
    is_thread: bool,
    list: Seq<Json>,
    limit: usize,
    r: ThreadReadResult,
    i: int,
)
    requires
        is_discord_read(request, target_id, is_thread, Json::Array(list), limit, r),
    ensures
        r.messages@.len() == list.len(),
        0 <= i < list.len() ==> r.messages@[list.len() - 1 - i]@ == discord_message(list[i]),
        r.channel_id == request.channel_id,
        r.thread_id is Some <==> is_thread,
        is_thread ==> r.thread_id == Some(target_id),
        r.limit == limit,
{
    let views = message_views(r.messages@);
    assert(views.len() == r.messages@.len());
    let all = list.map_values(|m: Json| discord_message(m));
    assert(views == all.reverse());
    if 0 <= i < list.len() {
        assert(views[list.len() - 1 - i] == all[i]);
        assert(views[list.len() - 1 - i] == r.messages@[list.len() - 1 - i]@);
    }
}

/// What is read on Slack stays in its order, every message once.
pub proof fn slack_reads_stay_in_order(
    request: ReadRequest,
    thread_ts: String,
    reply: Json,
    list: Seq<Json>,
    limit: usize,
    r: ThreadReadResult,
    i: int,
)
    requires
        field(reply, "messages"@) == Some(Json::Array(list)),
        is_slack_read(request, thread_ts, reply, limit, r),
    ensures
        r.messages@.len() == list.len(),
        0 <= i < list.len() ==> r.messages@[i]@ == slack_message(list[i]),
        r.channel_id == request.channel_id,
        r.thread_id == Some(thread_ts),
        r.limit == limit,
{
    let views = message_views(r.messages@);
    assert(views.len() == r.messages@.len());
    let all = list.map_values(|m: Json| slack_message(m));
    if 0 <= i < list.len() {
        assert(views[i] == all[i]);
        assert(views[i] == r.messages@[i]@);
    }
}

// ---------------------------------------------------------------------------
// Messages
// ---------------------------------------------------------------------------

/// What is handed on of a Discord message is what it says, under its id, with
/// its time, its author's id and name, and every attachment. The author is
/// named by the name shown to all, or else by the user name.
pub proof fn discord_messages_are_handed_on(
    m: Json,
    author: Json,
    id: Seq<char>,
    text: Seq<char>,
    name: Seq<char>,
    list: Seq<Json>,
)
    requires
        field(m, "author"@) == Some(author),
        field(m, "id"@) == Some(Json::Text(id)),
        field(m, "content"@) == Some(Json::Text(text)),
        field(m, "attachments"@) == Some(Json::Array(list)),
    ensures
        discord_message(m).id == id,
        discord_message(m).text == text,
        field(author, "id"@) == Some(Json::Text(name)) ==> discord_message(m).author_id == Some(name),
        field(author, "global_name"@) == Some(Json::Text(name)) ==> discord_message(m).author_name
            == Some(name),
        field(author, "global_name"@) is None && field(author, "username"@) == Some(Json::Text(name))
            ==> discord_message(m).author_name == Some(name),
        field(m, "timestamp"@) == Some(Json::Text(name)) ==> discord_message(m).timestamp == Some(
            name,
        ),
        discord_message(m).attachments.len() == list.len(),
        forall|i: int|
            0 <= i < list.len() ==> #[trigger] discord_message(m).attachments[i]
                == discord_attachment(list[i]),
{
}

/// What is handed on of a Slack message is what it says, under its time, with
/// the id of its author, be it a person or a bot, and every file.
pub proof fn slack_messages_are_handed_on(
    m: Json,
    ts: Seq<char>,
    text: Seq<char>,
    name: Seq<char>,
    list: Seq<Json>,
)
    requires
        field(m, "ts"@) == Some(Json::Text(ts)),
        field(m, "text"@) == Some(Json::Text(text)),
        field(m, "files"@) == Some(Json::Array(list)),
    ensures
        slack_message(m).id == ts,
        slack_message(m).timestamp == Some(ts),
        slack_message(m).text == text,
        field(m, "user"@) == Some(Json::Text(name)) ==> slack_message(m).author_id == Some(name),
        field(m, "user"@) is None && field(m, "bot_id"@) == Some(Json::Text(name)) ==> slack_message(
            m,
        ).author_id == Some(name),
        field(m, "username"@) == Some(Json::Text(name)) ==> slack_message(m).author_name == Some(name),
        slack_message(m).attachments.len() == list.len(),
        forall|i: int|
            0 <= i < list.len() ==> #[trigger] slack_message(m).attachments[i] == slack_attachment(
                list[i],
            ),
{
}

/// An attachment is handed on with its id, name, address, type and size.
pub proof fn attachments_keep_their_address(a: Json, s: Seq<char>, n: u64)
    ensures
        field(a, "id"@) == Some(Json::Text(s)) ==> discord_attachment(a).id == Some(s)
            && slack_attachment(a).id == Some(s),
        field(a, "filename"@) == Some(Json::Text(s)) ==> discord_attachment(a).filename == Some(s),
        field(a, "url"@) == Some(Json::Text(s)) ==> discord_attachment(a).url == Some(s),
        field(a, "content_type"@) == Some(Json::Text(s)) ==> discord_attachment(a).content_type
            == Some(s),
        field(a, "size"@) == Some(Json::Number(Some(n))) ==> discord_attachment(a).size == Some(n)
            && slack_attachment(a).size == Some(n),
        field(a, "name"@) == Some(Json::Text(s)) ==> slack_attachment(a).filename == Some(s),
        field(a, "name"@) is None && field(a, "title"@) == Some(Json::Text(s)) ==> slack_attachment(
            a,
        ).filename == Some(s),
        field(a, "url_private_download"@) == Some(Json::Text(s)) ==> slack_attachment(a).url == Some(
            s,
        ),
        field(a, "url_private_download"@) is None && field(a, "url_private"@) == Some(Json::Text(s))
            ==> slack_attachment(a).url == Some(s),
        field(a, "mimetype"@) == Some(Json::Text(s)) ==> slack_attachment(a).content_type == Some(s),
{
}

} // verus!
