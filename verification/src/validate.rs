//! The rules that a configuration as a whole meets, in the order in which they
//! are tried, and what is filled in once they hold.

use vstd::prelude::*;
use crate::config::{
    region_of, text_view, AgentConfig, AgentCoreConfig, AgentMcpServerConfig, AgentTransport,
    Config, ContextMcpConfig, PoolConfig,
};
use crate::table::Table;
use crate::text::{
    begins, blank, is_blank, is_one_of, lemma_views_push, pieces, same, split, starts_with, views,
};

verus! {

/// The first of two complaints.
pub open spec fn or_else(a: Option<Seq<char>>, b: Option<Seq<char>>) -> Option<Seq<char>> {
    if a is Some {
        a
    } else {
        b
    }
}

/// The complaint where a demand is not met.
pub open spec fn unless(met: bool, complaint: Seq<char>) -> Option<Seq<char>> {
    if met {
        None
    } else {
        Some(complaint)
    }
}

/// Whether a text is given and is more than white space.
pub open spec fn given(value: Option<String>) -> bool {
    value is Some && !blank(value->0@)
}

fn is_given(value: &Option<String>) -> (r: bool)
    ensures
        r == given(*value),
{
    match value {
        Some(s) => !is_blank(s.as_str()),
        None => false,
    }
}

// ---------------------------------------------------------------------------
// The managed runtime and the agent
// ---------------------------------------------------------------------------

/// The shape `arn:PARTITION:bedrock-agentcore:REGION:ACCOUNT:runtime/ID`.
pub open spec fn is_runtime_arn(arn: Seq<char>) -> bool {
    let parts = pieces(arn, ':');
    &&& parts.len() >= 6
    &&& parts[0] == "arn"@
    &&& parts[2] == "bedrock-agentcore"@
    &&& parts[3].len() > 0
    &&& begins(parts[5], "runtime/"@)
}

pub open spec fn arn_complaint(arn: Seq<char>) -> Seq<char> {
    "agentcore.runtime_arn is not a valid AgentCore Runtime ARN (expected arn:aws:bedrock-agentcore:REGION:ACCOUNT:runtime/ID, got \""@
        + arn + "\")"@
}

pub open spec fn runtime_error(core: Option<AgentCoreConfig>) -> Option<Seq<char>> {
    match core {
        Some(c) => unless(is_runtime_arn(c.runtime_arn@), arn_complaint(c.runtime_arn@)),
        None => None,
    }
}

fn check_runtime(core: &Option<AgentCoreConfig>) -> (r: Option<String>)
    ensures
        text_view(r) == runtime_error(*core),
{
    let c = match core {
        Some(c) => c,
        None => return None,
    };
    let parts = split(c.runtime_arn.as_str(), ':');
    if parts.len() >= 6 {
        assert(views(parts@)[0] == parts@[0]@);
        assert(views(parts@)[2] == parts@[2]@);
        assert(views(parts@)[3] == parts@[3]@);
        assert(views(parts@)[5] == parts@[5]@);
        if same(parts[0].as_str(), "arn") && same(parts[2].as_str(), "bedrock-agentcore")
            && parts[3].as_str().unicode_len() > 0 && starts_with(parts[5].as_str(), "runtime/") {
            return None;
        }
    }
    let mut e =
        "agentcore.runtime_arn is not a valid AgentCore Runtime ARN (expected arn:aws:bedrock-agentcore:REGION:ACCOUNT:runtime/ID, got \"".to_owned();
    e.append(c.runtime_arn.as_str());
    e.append("\")");
    Some(e)
}

/// Whether the command of the agent is made from the managed runtime.
pub open spec fn synthesized(c: Config) -> bool {
    c.agentcore is Some && !c.agent.command_explicit && c.agent.transport == AgentTransport::Stdio
}

/// The arguments of the adapter for the managed runtime.
pub open spec fn adapter_args(core: AgentCoreConfig) -> Seq<Seq<char>> {
    seq![
        "run"@,
        "--script"@,
        "/opt/agentcore/acp/agentcore_acp.py"@,
        "--runtime-arn"@,
        core.runtime_arn@,
        "--region"@,
        region_of(core.runtime_arn@),
        "--cancel-strategy"@,
        core.cancel_strategy.word(),
    ]
}

fn make_adapter_args(core: &AgentCoreConfig) -> (r: Vec<String>)
    ensures
        views(r@) == adapter_args(*core),
{
    let r = vec![
        "run".to_owned(),
        "--script".to_owned(),
        "/opt/agentcore/acp/agentcore_acp.py".to_owned(),
        "--runtime-arn".to_owned(),
        core.runtime_arn.clone(),
        "--region".to_owned(),
        core.region(),
        "--cancel-strategy".to_owned(),
        core.cancel_strategy.to_text(),
    ];
    assert(views(r@) =~= adapter_args(*core));
    r
}

/// The agent's command once the managed runtime has had its say.
pub open spec fn effective_command(c: Config) -> Seq<char> {
    if synthesized(c) {
        "uv"@
    } else {
        c.agent.command@
    }
}

pub open spec fn transport_error(c: Config) -> Option<Seq<char>> {
    match c.agent.transport {
        AgentTransport::Stdio => unless(
            !blank(effective_command(c)),
            "agent.command is required when agent.transport = \"stdio\""@,
        ),
        AgentTransport::WebSocket => unless(
            given(c.agent.url),
            "agent.url is required when agent.transport = \"websocket\""@,
        ),
    }
}

// ---------------------------------------------------------------------------
// The context server
// ---------------------------------------------------------------------------

/// What one setting of the context server demands of another.
pub open spec fn link_error(m: ContextMcpConfig) -> Option<Seq<char>> {
    or_else(
        unless(
            m.handoff_enabled ==> m.enabled,
            "context_mcp.enabled must be true when context_mcp.handoff_enabled = true"@,
        ),
        or_else(
            unless(
                m.handoff_parent_summary_enabled ==> m.handoff_enabled,
                "context_mcp.handoff_enabled must be true when context_mcp.handoff_parent_summary_enabled = true"@,
            ),
            or_else(
                unless(
                    m.inject_into_agent ==> m.enabled,
                    "context_mcp.enabled must be true when context_mcp.inject_into_agent = true"@,
                ),
                or_else(
                    unless(
                        m.inject_into_agent ==> given(m.agent_url),
                        "context_mcp.agent_url is required when context_mcp.inject_into_agent = true"@,
                    ),
                    unless(
                        m.inject_into_agent ==> !blank(m.agent_server_name@),
                        "context_mcp.agent_server_name must not be empty"@,
                    ),
                ),
            ),
        ),
    )
}

fn check_links(m: &ContextMcpConfig) -> (r: Option<String>)
    ensures
        text_view(r) == link_error(*m),
{
    if m.handoff_enabled && !m.enabled {
        return Some(
            "context_mcp.enabled must be true when context_mcp.handoff_enabled = true".to_owned(),
        );
    }
    if m.handoff_parent_summary_enabled && !m.handoff_enabled {
        return Some(
            "context_mcp.handoff_enabled must be true when context_mcp.handoff_parent_summary_enabled = true".to_owned(),
        );
    }
    if m.inject_into_agent {
        if !m.enabled {
            return Some(
                "context_mcp.enabled must be true when context_mcp.inject_into_agent = true".to_owned(),
            );
        }
        if !is_given(&m.agent_url) {
            return Some(
                "context_mcp.agent_url is required when context_mcp.inject_into_agent = true".to_owned(),
            );
        }
        if is_blank(m.agent_server_name.as_str()) {
            return Some("context_mcp.agent_server_name must not be empty".to_owned());
        }
    }
    None
}

/// The names of the platforms that can be read.
pub open spec fn is_context_platform(name: Seq<char>) -> bool {
    name == "discord"@ || name == "slack"@
}

/// The names of the tools that the context server has.
pub open spec fn is_context_tool(name: Seq<char>) -> bool {
    name == "read_current_thread"@ || name == "read_message"@ || name == "handoff_to_thread"@
}

fn all_context_platforms(names: &Vec<String>) -> (r: bool)
    ensures
        r == (forall|i: int| 0 <= i < names@.len() ==> is_context_platform(#[trigger] names@[i]@)),
{
    let mut i: usize = 0;
    while i < names.len()
        invariant
            i <= names@.len(),
            forall|k: int| 0 <= k < i ==> is_context_platform(#[trigger] names@[k]@),
        decreases names@.len() - i,
    {
        if !(same(names[i].as_str(), "discord") || same(names[i].as_str(), "slack")) {
            assert(!is_context_platform(names@[i as int]@));
            return false;
        }
        i += 1;
    }
    true
}

fn all_context_tools(names: &Vec<String>) -> (r: bool)
    ensures
        r == (forall|i: int| 0 <= i < names@.len() ==> is_context_tool(#[trigger] names@[i]@)),
{
    let mut i: usize = 0;
    while i < names.len()
        invariant
            i <= names@.len(),
            forall|k: int| 0 <= k < i ==> is_context_tool(#[trigger] names@[k]@),
        decreases names@.len() - i,
    {
        let name = names[i].as_str();
        if !(same(name, "read_current_thread") || same(name, "read_message") || same(
            name,
            "handoff_to_thread",
        )) {
            assert(!is_context_tool(names@[i as int]@));
            return false;
        }
        i += 1;
    }
    true
}

/// Whether a character stands in a text.
pub open spec fn has_char(s: Seq<char>, c: char) -> bool {
    exists|i: int| 0 <= i < s.len() && #[trigger] s[i] == c
}

pub fn contains_char(s: &str, c: char) -> (r: bool)
    ensures
        r == has_char(s@, c),
{
    let v = crate::text::to_chars(s);
    let mut i: usize = 0;
    while i < v.len()
        invariant
            i <= v@.len(),
            v@ == s@,
            forall|k: int| 0 <= k < i ==> #[trigger] s@[k] != c,
        decreases v@.len() - i,
    {
        if v[i] == c {
            assert(s@[i as int] == c);
            return true;
        }
        i += 1;
    }
    false
}

/// What an enabled context server demands.
pub open spec fn server_error(m: ContextMcpConfig) -> Option<Seq<char>> {
    or_else(
        unless(!blank(m.token@), "context_mcp.token is required when context_mcp.enabled = true"@),
        or_else(
            unless(begins(m.route_path@, "/"@), "context_mcp.route_path must start with /"@),
            or_else(
                unless(
                    !has_char(m.route_path@, '?') && !has_char(m.route_path@, '#'),
                    "context_mcp.route_path must not contain query or fragment"@,
                ),
                or_else(
                    unless(m.default_limit > 0, "context_mcp.default_limit must be > 0"@),
                    or_else(
                        unless(m.max_limit > 0, "context_mcp.max_limit must be > 0"@),
                        or_else(
                            unless(
                                m.default_limit <= m.max_limit,
                                "context_mcp.default_limit must be <= context_mcp.max_limit"@,
                            ),
                            or_else(
                                unless(
                                    forall|i: int|
                                        0 <= i < m.allowed_platforms@.len() ==> is_context_platform(
                                            #[trigger] m.allowed_platforms@[i]@,
                                        ),
                                    "context_mcp.allowed_platforms entries must be \"discord\" or \"slack\""@,
                                ),
                                or_else(
                                    unless(
                                        m.handoff_token_ttl_secs > 0,
                                        "context_mcp.handoff_token_ttl_secs must be > 0"@,
                                    ),
                                    or_else(
                                        unless(
                                            m.handoff_parent_summary_max_chars > 0,
                                            "context_mcp.handoff_parent_summary_max_chars must be > 0"@,
                                        ),
                                        unless(
                                            forall|i: int|
                                                0 <= i < m.agent_allowed_tools@.len()
                                                    ==> is_context_tool(
                                                    #[trigger] m.agent_allowed_tools@[i]@,
                                                ),
                                            "context_mcp.agent_allowed_tools entries must be known OpenAB MCP tools"@,
                                        ),
                                    ),
                                ),
                            ),
                        ),
                    ),
                ),
            ),
        ),
    )
}

fn check_server(m: &ContextMcpConfig) -> (r: Option<String>)
    ensures
        text_view(r) == server_error(*m),
{
    if is_blank(m.token.as_str()) {
        return Some(
            "context_mcp.token is required when context_mcp.enabled = true".to_owned(),
        );
    }
    if !starts_with(m.route_path.as_str(), "/") {
        return Some("context_mcp.route_path must start with /".to_owned());
    }
    if contains_char(m.route_path.as_str(), '?') || contains_char(m.route_path.as_str(), '#') {
        return Some("context_mcp.route_path must not contain query or fragment".to_owned());
    }
    if m.default_limit == 0 {
        return Some("context_mcp.default_limit must be > 0".to_owned());
    }
    if m.max_limit == 0 {
        return Some("context_mcp.max_limit must be > 0".to_owned());
    }
    if m.default_limit > m.max_limit {
        return Some("context_mcp.default_limit must be <= context_mcp.max_limit".to_owned());
    }
    if !all_context_platforms(&m.allowed_platforms) {
        return Some(
            "context_mcp.allowed_platforms entries must be \"discord\" or \"slack\"".to_owned(),
        );
    }
    if m.handoff_token_ttl_secs == 0 {
        return Some("context_mcp.handoff_token_ttl_secs must be > 0".to_owned());
    }
    if m.handoff_parent_summary_max_chars == 0 {
        return Some("context_mcp.handoff_parent_summary_max_chars must be > 0".to_owned());
    }
    if !all_context_tools(&m.agent_allowed_tools) {
        return Some(
            "context_mcp.agent_allowed_tools entries must be known OpenAB MCP tools".to_owned(),
        );
    }
    None
}

// ---------------------------------------------------------------------------
// Tool servers and session parameters
// ---------------------------------------------------------------------------

/// What one tool server lacks.
pub open spec fn tool_server_error(s: AgentMcpServerConfig) -> Option<Seq<char>> {
    or_else(
        unless(!blank(s.name@), "agent.mcp_servers entries must have a non-empty name"@),
        or_else(
            unless(!blank(s.url@), "agent.mcp_servers."@ + s.name@ + ".url must not be empty"@),
            unless(
                s.transport@ == "http"@ || s.transport@ == "streamable-http"@,
                "agent.mcp_servers."@ + s.name@
                    + ".type must be \"http\" or \"streamable-http\""@,
            ),
        ),
    )
}

/// The complaint of the first tool server that lacks something.
pub open spec fn tool_servers_error(list: Seq<AgentMcpServerConfig>) -> Option<Seq<char>>
    decreases list.len(),
{
    if list.len() == 0 {
        None
    } else {
        or_else(tool_servers_error(list.drop_last()), tool_server_error(list.last()))
    }
}

proof fn lemma_tool_servers_error(list: Seq<AgentMcpServerConfig>, k: int)
    requires
        0 <= k <= list.len(),
        tool_servers_error(list.take(k)) is Some,
    ensures
        tool_servers_error(list) == tool_servers_error(list.take(k)),
    decreases list.len() - k,
{
    if k == list.len() {
        assert(list.take(k) =~= list);
    } else {
        assert(list.take(k + 1).drop_last() =~= list.take(k));
        lemma_tool_servers_error(list, k + 1);
    }
}

fn check_tool_server(s: &AgentMcpServerConfig) -> (r: Option<String>)
    ensures
        text_view(r) == tool_server_error(*s),
{
    if is_blank(s.name.as_str()) {
        return Some("agent.mcp_servers entries must have a non-empty name".to_owned());
    }
    if is_blank(s.url.as_str()) {
        let mut e = "agent.mcp_servers.".to_owned();
        e.append(s.name.as_str());
        e.append(".url must not be empty");
        return Some(e);
    }
    if !(same(s.transport.as_str(), "http") || same(s.transport.as_str(), "streamable-http")) {
        let mut e = "agent.mcp_servers.".to_owned();
        e.append(s.name.as_str());
        e.append(".type must be \"http\" or \"streamable-http\"");
        return Some(e);
    }
    None
}

fn check_tool_servers(list: &Vec<AgentMcpServerConfig>) -> (r: Option<String>)
    ensures
        text_view(r) == tool_servers_error(list@),
{
    let mut i: usize = 0;
    while i < list.len()
        invariant
            i <= list@.len(),
            tool_servers_error(list@.take(i as int)) is None,
        decreases list@.len() - i,
    {
        assert(list@.take(i + 1).drop_last() =~= list@.take(i as int));
        let e = check_tool_server(&list[i]);
        if e.is_some() {
            proof {
                lemma_tool_servers_error(list@, i + 1);
            }
            return e;
        }
        i += 1;
    }
    assert(list@.take(list@.len() as int) =~= list@);
    None
}

/// The session fields that cannot be set from outside.
pub open spec fn is_reserved_param(key: Seq<char>) -> bool {
    key == "cwd"@ || key == "sessionId"@ || key == "mcpServers"@ || key == "openabSession"@
}

pub open spec fn reserved_complaint(key: Seq<char>) -> Seq<char> {
    "agent.session_params."@ + key
        + " is reserved; configure working_dir or agent.mcp_servers instead"@
}

/// The complaint of the first reserved field among the rows.
pub open spec fn params_error(rows: Seq<(String, String)>) -> Option<Seq<char>>
    decreases rows.len(),
{
    if rows.len() == 0 {
        None
    } else {
        or_else(
            params_error(rows.drop_last()),
            unless(!is_reserved_param(rows.last().0@), reserved_complaint(rows.last().0@)),
        )
    }
}

proof fn lemma_params_error(rows: Seq<(String, String)>, k: int)
    requires
        0 <= k <= rows.len(),
        params_error(rows.take(k)) is Some,
    ensures
        params_error(rows) == params_error(rows.take(k)),
    decreases rows.len() - k,
{
    if k == rows.len() {
        assert(rows.take(k) =~= rows);
    } else {
        assert(rows.take(k + 1).drop_last() =~= rows.take(k));
        lemma_params_error(rows, k + 1);
    }
}

fn check_params(params: &Table<String>) -> (r: Option<String>)
    ensures
        text_view(r) == params_error(params.rows()),
{
    let n = params.len();
    let mut i: usize = 0;
    while i < n
        invariant
            i <= n,
            n == params.rows().len(),
            params_error(params.rows().take(i as int)) is None,
        decreases n - i,
    {
        let ghost rows = params.rows();
        assert(rows.take(i + 1).drop_last() =~= rows.take(i as int));
        let key = params.key_at(i);
        if same(key, "cwd") || same(key, "sessionId") || same(key, "mcpServers") || same(
            key,
            "openabSession",
        ) {
            let mut e = "agent.session_params.".to_owned();
            e.append(key);
            e.append(" is reserved; configure working_dir or agent.mcp_servers instead");
            proof {
                lemma_params_error(rows, i + 1);
            }
            return Some(e);
        }
        i += 1;
    }
    assert(params.rows().take(n as int) =~= params.rows());
    None
}

// ---------------------------------------------------------------------------
// Platforms and the pool
// ---------------------------------------------------------------------------

pub open spec fn platforms_error(c: Config) -> Option<Seq<char>> {
    or_else(
        match c.discord {
            Some(d) => or_else(
                unless(
                    d.max_buffered_messages > 0,
                    "discord.max_buffered_messages must be > 0"@,
                ),
                unless(d.max_batch_tokens > 0, "discord.max_batch_tokens must be > 0"@),
            ),
            None => None,
        },
        or_else(
            match c.slack {
                Some(s) => or_else(
                    unless(
                        s.max_buffered_messages > 0,
                        "slack.max_buffered_messages must be > 0"@,
                    ),
                    unless(s.max_batch_tokens > 0, "slack.max_batch_tokens must be > 0"@),
                ),
                None => None,
            },
            match c.gateway {
                Some(g) => or_else(
                    unless(
                        g.max_buffered_messages > 0,
                        "gateway.max_buffered_messages must be > 0"@,
                    ),
                    unless(g.max_batch_tokens > 0, "gateway.max_batch_tokens must be > 0"@),
                ),
                None => None,
            },
        ),
    )
}

fn check_platforms(c: &Config) -> (r: Option<String>)
    ensures
        text_view(r) == platforms_error(*c),
{
    if let Some(d) = &c.discord {
        if d.max_buffered_messages == 0 {
            return Some("discord.max_buffered_messages must be > 0".to_owned());
        }
        if d.max_batch_tokens == 0 {
            return Some("discord.max_batch_tokens must be > 0".to_owned());
        }
    }
    if let Some(s) = &c.slack {
        if s.max_buffered_messages == 0 {
            return Some("slack.max_buffered_messages must be > 0".to_owned());
        }
        if s.max_batch_tokens == 0 {
            return Some("slack.max_batch_tokens must be > 0".to_owned());
        }
    }
    if let Some(g) = &c.gateway {
        if g.max_buffered_messages == 0 {
            return Some("gateway.max_buffered_messages must be > 0".to_owned());
        }
        if g.max_batch_tokens == 0 {
            return Some("gateway.max_batch_tokens must be > 0".to_owned());
        }
    }
    None
}

pub open spec fn pool_error(p: PoolConfig) -> Option<Seq<char>> {
    or_else(
        unless(
            p.liveness_check_secs > 0,
            "pool.liveness_check_secs must be > 0 (zero would spin the recv loop)"@,
        ),
        unless(p.session_ttl_positive, "pool.session_ttl_hours must be > 0"@),
    )
}

fn check_pool(p: &PoolConfig) -> (r: Option<String>)
    ensures
        text_view(r) == pool_error(*p),
{
    if p.liveness_check_secs == 0 {
        return Some(
            "pool.liveness_check_secs must be > 0 (zero would spin the recv loop)".to_owned(),
        );
    }
    if !p.session_ttl_positive {
        return Some("pool.session_ttl_hours must be > 0".to_owned());
    }
    None
}

// ---------------------------------------------------------------------------
// The whole
// ---------------------------------------------------------------------------

/// The first complaint about a configuration.
pub open spec fn config_error(c: Config) -> Option<Seq<char>> {
    or_else(
        runtime_error(c.agentcore),
        or_else(
            transport_error(c),
            or_else(
                link_error(c.context_mcp),
                or_else(
                    if c.context_mcp.enabled {
                        server_error(c.context_mcp)
                    } else {
                        None
                    },
                    or_else(
                        tool_servers_error(c.agent.mcp_servers@),
                        or_else(
                            params_error(c.agent.session_params.rows()),
                            or_else(platforms_error(c), pool_error(c.pool)),
                        ),
                    ),
                ),
            ),
        ),
    )
}

/// Whether some tool server has a name.
pub open spec fn has_server(list: Seq<AgentMcpServerConfig>, name: Seq<char>) -> bool {
    exists|i: int| 0 <= i < list.len() && #[trigger] list[i].name@ == name
}

/// Whether the context server is added to the agent's tool servers.
pub open spec fn injects(c: Config) -> bool {
    &&& c.context_mcp.inject_into_agent
    &&& c.context_mcp.agent_url is Some
    &&& !has_server(c.agent.mcp_servers@, c.context_mcp.agent_server_name@)
}

/// The tools of the context server: those listed, and the handoff where it is on.
pub open spec fn offered_tools(m: ContextMcpConfig) -> Seq<Seq<char>> {
    let listed = views(m.agent_allowed_tools@);
    if m.handoff_enabled && !listed.contains("handoff_to_thread"@) {
        listed.push("handoff_to_thread"@)
    } else {
        listed
    }
}

/// The context server as a tool server of the agent.
pub open spec fn is_context_entry(m: ContextMcpConfig, s: AgentMcpServerConfig) -> bool {
    &&& s.name@ == m.agent_server_name@
    &&& s.transport@ == "http"@
    &&& Some(s.url@) == text_view(m.agent_url)
    &&& s.headers@.dom() == set!["Authorization"@]
    &&& s.headers@["Authorization"@]@ == "Bearer "@ + m.token@
    &&& views(s.allowed_tools@) == offered_tools(m)
}

/// What completing a configuration does to the agent.
pub open spec fn agent_completed(c: Config, a: AgentConfig) -> bool {
    &&& a.transport == c.agent.transport
    &&& a.url == c.agent.url
    &&& a.headers == c.agent.headers
    &&& a.working_dir == c.agent.working_dir
    &&& a.per_session_working_dir == c.agent.per_session_working_dir
    &&& a.env == c.agent.env
    &&& a.inherit_env == c.agent.inherit_env
    &&& a.session_params == c.agent.session_params
    &&& a.include_session_context == c.agent.include_session_context
    &&& a.command@ == effective_command(c)
    &&& views(a.args@) == (if synthesized(c) {
        adapter_args(c.agentcore->0)
    } else {
        views(c.agent.args@)
    })
    &&& a.command_explicit == (synthesized(c) || c.agent.command_explicit)
    &&& if injects(c) {
        &&& a.mcp_servers@.len() == c.agent.mcp_servers@.len() + 1
        &&& a.mcp_servers@.drop_last() == c.agent.mcp_servers@
        &&& is_context_entry(c.context_mcp, a.mcp_servers@.last())
    } else {
        a.mcp_servers == c.agent.mcp_servers
    }
}

/// What completing a configuration does: it changes the agent alone.
pub open spec fn completed(c: Config, d: Config) -> bool {
    &&& d == Config { agent: d.agent, ..c }
    &&& agent_completed(c, d.agent)
}

fn names_server(list: &Vec<AgentMcpServerConfig>, name: &str) -> (r: bool)
    ensures
        r == has_server(list@, name@),
{
    let mut i: usize = 0;
    while i < list.len()
        invariant
            i <= list@.len(),
            forall|k: int| 0 <= k < i ==> #[trigger] list@[k].name@ != name@,
        decreases list@.len() - i,
    {
        if same(list[i].name.as_str(), name) {
            assert(list@[i as int].name@ == name@);
            return true;
        }
        i += 1;
    }
    false
}

/// The context server as a tool server of the agent, where its address is given.
fn context_entry(m: &ContextMcpConfig) -> (r: Option<AgentMcpServerConfig>)
    ensures
        match r {
            Some(s) => m.agent_url is Some && is_context_entry(*m, s),
            None => m.agent_url is None,
        },
{
    let url = match &m.agent_url {
        Some(u) => u.clone(),
        None => return None,
    };
    let mut headers: Table<String> = Table::new();
    let mut bearer = "Bearer ".to_owned();
    bearer.append(m.token.as_str());
    headers.insert("Authorization".to_owned(), bearer);
    assert(headers@.dom() =~= set!["Authorization"@]);
    let mut allowed_tools: Vec<String> = Vec::new();
    let mut i: usize = 0;
    while i < m.agent_allowed_tools.len()
        invariant
            i <= m.agent_allowed_tools@.len(),
            views(allowed_tools@) == views(m.agent_allowed_tools@).take(i as int),
        decreases m.agent_allowed_tools@.len() - i,
    {
        let tool = m.agent_allowed_tools[i].clone();
        proof {
            lemma_views_push(allowed_tools@, tool);
            let all = views(m.agent_allowed_tools@);
            assert(all.take(i + 1) =~= all.take(i as int).push(all[i as int]));
        }
        allowed_tools.push(tool);
        i += 1;
    }
    assert(views(m.agent_allowed_tools@).take(i as int) =~= views(m.agent_allowed_tools@));
    if m.handoff_enabled && !is_one_of("handoff_to_thread", &m.agent_allowed_tools) {
        let tool = "handoff_to_thread".to_owned();
        proof {
            lemma_views_push(allowed_tools@, tool);
        }
        allowed_tools.push(tool);
    }
    Some(
        AgentMcpServerConfig {
            name: m.agent_server_name.clone(),
            transport: "http".to_owned(),
            url,
            headers,
            allowed_tools,
        },
    )
}

/// Adds the context server to the agent's tool servers, unless it has no address
/// or its name is taken.
pub fn inject_context_mcp_server(agent: &mut AgentConfig, m: &ContextMcpConfig)
    ensures
        *final(agent) == (AgentConfig { mcp_servers: final(agent).mcp_servers, ..*old(agent) }),
        if m.agent_url is Some && !has_server(old(agent).mcp_servers@, m.agent_server_name@) {
            &&& final(agent).mcp_servers@.len() == old(agent).mcp_servers@.len() + 1
            &&& final(agent).mcp_servers@.drop_last() == old(agent).mcp_servers@
            &&& is_context_entry(*m, final(agent).mcp_servers@.last())
        } else {
            final(agent).mcp_servers == old(agent).mcp_servers
        },
{
    let entry = match context_entry(m) {
        Some(s) => s,
        None => return,
    };
    if names_server(&agent.mcp_servers, m.agent_server_name.as_str()) {
        return;
    }
    agent.mcp_servers.push(entry);
    assert(agent.mcp_servers@.drop_last() =~= old(agent).mcp_servers@);
}

/// Checks a configuration as a whole. The first rule that does not hold is
/// reported; where all hold, the agent's command is made from the managed
/// runtime where none was written out, and the context server is added to the
/// agent's tool servers where it asks for that.
pub fn complete_config(config: Config) -> (r: Result<Config, String>)
    ensures
        match r {
            Ok(d) => config_error(config) is None && completed(config, d),
            Err(e) => config_error(config) == Some(e@),
        },
{
    let ghost c = config;
    let mut config = config;
    if let Some(e) = check_runtime(&config.agentcore) {
        return Err(e);
    }
    let made = config.agentcore.is_some() && !config.agent.command_explicit
        && config.agent.transport == AgentTransport::Stdio;
    assert(made == synthesized(c));
    match config.agent.transport {
        AgentTransport::Stdio => {
            if made {
                proof {
                    lemma_uv_is_not_blank();
                }
            } else if is_blank(config.agent.command.as_str()) {
                return Err(
                    "agent.command is required when agent.transport = \"stdio\"".to_owned(),
                );
            }
        },
        AgentTransport::WebSocket => {
            if !is_given(&config.agent.url) {
                return Err(
                    "agent.url is required when agent.transport = \"websocket\"".to_owned(),
                );
            }
        },
    }
    if let Some(e) = check_links(&config.context_mcp) {
        return Err(e);
    }
    if config.context_mcp.enabled {
        if let Some(e) = check_server(&config.context_mcp) {
            return Err(e);
        }
    }
    if let Some(e) = check_tool_servers(&config.agent.mcp_servers) {
        return Err(e);
    }
    if let Some(e) = check_params(&config.agent.session_params) {
        return Err(e);
    }
    if let Some(e) = check_platforms(&config) {
        return Err(e);
    }
    if let Some(e) = check_pool(&config.pool) {
        return Err(e);
    }
    if made {
        if let Some(core) = &config.agentcore {
            let args = make_adapter_args(core);
            config.agent.command = "uv".to_owned();
            config.agent.args = args;
            config.agent.command_explicit = true;
        }
    }
    if config.context_mcp.inject_into_agent {
        inject_context_mcp_server(&mut config.agent, &config.context_mcp);
    }
    Ok(config)
}

proof fn lemma_uv_is_not_blank()
    ensures
        !blank("uv"@),
{
    reveal_strlit("uv");
    let s = "uv"@;
    assert(!crate::text::is_white_space(s[0]));
    assert(!crate::text::is_white_space(s.last()));
    assert(crate::text::without_front(s, crate::text::white()) == s);
    assert(crate::text::without_back(s, crate::text::white()) == s);
}

/// A completed configuration is accepted, and completing it once more changes
/// nothing.
pub proof fn completing_is_idempotent(c: Config, d: Config, e: Config)
    requires
        config_error(c) is None,
        completed(c, d),
        completed(d, e),
    ensures
        config_error(d) is None,
        e.agent.command@ == d.agent.command@,
        views(e.agent.args@) == views(d.agent.args@),
        e.agent.mcp_servers == d.agent.mcp_servers,
        e == (Config { agent: e.agent, ..d }),
{
    assert(!synthesized(d));
    if synthesized(c) {
        lemma_uv_is_not_blank();
    }
    if injects(c) {
        let list = d.agent.mcp_servers@;
        assert(list[list.len() - 1].name@ == c.context_mcp.agent_server_name@);
        assert(has_server(list, d.context_mcp.agent_server_name@));
        assert(tool_server_error(list.last()) is None);
        assert(tool_servers_error(list) is None);
    }
    assert(!injects(d));
}

/// What an accepted configuration can be relied on for.
pub proof fn accepted_config_is_usable(c: Config, d: Config)
    requires
        config_error(c) is None,
        completed(c, d),
    ensures
        d.agent.transport == AgentTransport::Stdio ==> !blank(d.agent.command@),
        d.agent.transport == AgentTransport::WebSocket ==> given(d.agent.url),
        d.context_mcp.handoff_enabled || d.context_mcp.inject_into_agent ==> d.context_mcp.enabled,
        d.context_mcp.inject_into_agent ==> has_server(
            d.agent.mcp_servers@,
            d.context_mcp.agent_server_name@,
        ),
        d.pool.liveness_check_secs > 0,
        d.pool.session_ttl_positive,
        d.discord is Some ==> d.discord->0.max_buffered_messages > 0
            && d.discord->0.max_batch_tokens > 0,
        d.slack is Some ==> d.slack->0.max_buffered_messages > 0 && d.slack->0.max_batch_tokens > 0,
        d.gateway is Some ==> d.gateway->0.max_buffered_messages > 0
            && d.gateway->0.max_batch_tokens > 0,
{
    if synthesized(c) {
        lemma_uv_is_not_blank();
    }
    if injects(c) {
        let list = d.agent.mcp_servers@;
        assert(list[list.len() - 1].name@ == c.context_mcp.agent_server_name@);
    }
}

} // verus!
