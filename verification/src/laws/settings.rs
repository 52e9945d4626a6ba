//! Which configurations are taken, and what is made of them.

use vstd::prelude::*;
use crate::config::{
    default_args, default_command, filled, is_resolved, region_of, AgentConfig, AgentConfigRaw,
    AgentMcpServerConfig, AgentTransport, Config, ContextMcpConfig, CronConfig, DiscordConfig,
    GatewayConfig, HookConfig, S3Config, SttConfig,
};
use crate::discord_gate::Gate;
use crate::gateway::GatewayParams;
use crate::startup::{
    are_params_of, hook_sources, ids_in, is_gate_of, job_file, origin_of, own_file, platforms,
    refused_ids, remote_error, source_of, stt_key, ConfigOrigin,
};
use crate::text::{
    begins, decimal, decimal_reads_back, ends, free_of, joined, occurs, pieces,
    splitting_undoes_joining, trimmed, unsigned, views, words,
};
use crate::validate::{
    completed, config_error, is_context_entry, offered_tools, params_error, tool_server_error,
    tool_servers_error,
};

verus! {

// ---------------------------------------------------------------------------
// What is taken
// ---------------------------------------------------------------------------

/// Whether a text says something.
pub open spec fn says_something(s: Seq<char>) -> bool {
    trimmed(s).len() > 0
}

/// Whether an optional text is there and says something.
pub open spec fn is_said(s: Option<String>) -> bool {
    s is Some && says_something(s->0@)
}

/// Whether an agent can be reached: over the network at an address, or else by a
/// command, which a runtime brings with it.
pub open spec fn can_be_reached(c: Config) -> bool {
    &&& c.agent.transport == AgentTransport::WebSocket ==> is_said(c.agent.url)
    &&& c.agent.transport == AgentTransport::Stdio ==> says_something(c.agent.command@) || (
    c.agentcore is Some && !c.agent.command_explicit)
    &&& c.agentcore matches Some(core) ==> {
        let parts = pieces(core.runtime_arn@, ':');
        &&& parts.len() >= 6
        &&& parts[0] == "arn"@
        &&& parts[2] == "bedrock-agentcore"@
        &&& parts[3].len() > 0
        &&& begins(parts[5], "runtime/"@)
    }
}

/// Whether the settings for reading conversations fit together.
pub open spec fn can_be_served(m: ContextMcpConfig) -> bool {
    &&& m.handoff_enabled ==> m.enabled
    &&& m.handoff_parent_summary_enabled ==> m.handoff_enabled
    &&& m.inject_into_agent ==> m.enabled && is_said(m.agent_url) && says_something(
        m.agent_server_name@,
    )
    &&& m.enabled ==> {
        &&& says_something(m.token@)
        &&& m.route_path@.len() > 0 && m.route_path@[0] == '/'
        &&& free_of(m.route_path@, '?') && free_of(m.route_path@, '#')
        &&& 0 < m.default_limit <= m.max_limit
        &&& m.handoff_token_ttl_secs > 0
        &&& m.handoff_parent_summary_max_chars > 0
        &&& forall|i: int|
            0 <= i < m.allowed_platforms@.len() ==> (#[trigger] m.allowed_platforms@[i])@ == "discord"@
                || m.allowed_platforms@[i]@ == "slack"@
        &&& forall|i: int|
            0 <= i < m.agent_allowed_tools@.len() ==> (#[trigger] m.agent_allowed_tools@[i])@
                == "read_current_thread"@ || m.agent_allowed_tools@[i]@ == "read_message"@
                || m.agent_allowed_tools@[i]@ == "handoff_to_thread"@
    }
}

/// Whether a server of tools can be used.
pub open spec fn can_be_used(s: AgentMcpServerConfig) -> bool {
    &&& says_something(s.name@)
    &&& says_something(s.url@)
    &&& s.transport@ == "http"@ || s.transport@ == "streamable-http"@
}

/// Whether a parameter of sessions is free to be set.
pub open spec fn can_be_set(key: Seq<char>) -> bool {
    key != "cwd"@ && key != "sessionId"@ && key != "mcpServers"@ && key != "openabSession"@
}

proof fn lemma_servers(list: Seq<AgentMcpServerConfig>)
    ensures
        tool_servers_error(list) is None <==> (forall|i: int|
            0 <= i < list.len() ==> can_be_used(#[trigger] list[i])),
    decreases list.len(),
{
    if list.len() > 0 {
        lemma_servers(list.drop_last());
        assert(forall|i: int| 0 <= i < list.len() - 1 ==> #[trigger] list[i] == list.drop_last()[i]);
        assert(tool_server_error(list.last()) is None <==> can_be_used(list[list.len() - 1]));
        if tool_servers_error(list.drop_last()) is None {
            assert forall|i: int| 0 <= i < list.len() - 1 implies can_be_used(#[trigger] list[i]) by {
                assert(can_be_used(list.drop_last()[i]));
            }
        } else {
            let i = choose|i: int| 0 <= i < list.len() - 1 && !can_be_used(#[trigger] list.drop_last()[i]);
            assert(!can_be_used(list[i]));
        }
    }
}

proof fn lemma_params(rows: Seq<(String, String)>)
    ensures
        params_error(rows) is None <==> (forall|i: int|
            0 <= i < rows.len() ==> can_be_set((#[trigger] rows[i]).0@)),
    decreases rows.len(),
{
    if rows.len() > 0 {
        lemma_params(rows.drop_last());
        assert(forall|i: int| 0 <= i < rows.len() - 1 ==> #[trigger] rows[i] == rows.drop_last()[i]);
        if params_error(rows.drop_last()) is None {
            assert forall|i: int| 0 <= i < rows.len() - 1 implies can_be_set((#[trigger] rows[i]).0@) by {
                assert(can_be_set(rows.drop_last()[i].0@));
            }
        } else {
            let i = choose|i: int|
                0 <= i < rows.len() - 1 && !can_be_set((#[trigger] rows.drop_last()[i]).0@);
            assert(!can_be_set(rows[i].0@));
        }
    }
}

/// A configuration is taken exactly if the agent can be reached, what is served
/// to it fits together, its servers of tools can be used, none of its parameters
/// is reserved, every platform has room for messages, and the pool looks after
/// its sessions.
#[verifier::rlimit(40)]
#[verifier::spinoff_prover]
pub proof fn sound_configurations_are_taken(c: Config)
    ensures
        config_error(c) is None <==> {
            &&& can_be_reached(c)
            &&& can_be_served(c.context_mcp)
            &&& forall|i: int|
                0 <= i < c.agent.mcp_servers@.len() ==> can_be_used(#[trigger] c.agent.mcp_servers@[i])
            &&& forall|i: int|
                0 <= i < c.agent.session_params.rows().len() ==> can_be_set(
                    (#[trigger] c.agent.session_params.rows()[i]).0@,
                )
            &&& c.discord matches Some(d) ==> d.max_buffered_messages > 0 && d.max_batch_tokens > 0
            &&& c.slack matches Some(s) ==> s.max_buffered_messages > 0 && s.max_batch_tokens > 0
            &&& c.gateway matches Some(g) ==> g.max_buffered_messages > 0 && g.max_batch_tokens > 0
            &&& c.pool.liveness_check_secs > 0
            &&& c.pool.session_ttl_positive
        },
{
    lemma_servers(c.agent.mcp_servers@);
    lemma_params(c.agent.session_params.rows());
    lemma_served(c.context_mcp);
    lemma_reached(c);
}

proof fn lemma_reached(c: Config)
    ensures
        can_be_reached(c) <==> crate::validate::runtime_error(c.agentcore) is None
            && crate::validate::transport_error(c) is None,
{
    reveal_strlit("uv");
    assert("uv"@[0] == 'u' && "uv"@[1] == 'v' && "uv"@.len() == 2);
    crate::text::trimmed_text_is_kept("uv"@);
}

#[verifier::rlimit(40)]
#[verifier::spinoff_prover]
proof fn lemma_served(m: ContextMcpConfig)
    ensures
        can_be_served(m) <==> crate::validate::link_error(m) is None && (m.enabled
            ==> crate::validate::server_error(m) is None),
{
    reveal_strlit("/");
    let path = m.route_path@;
    if path.len() > 0 {
        assert(path.subrange(0, 1)[0] == path[0]);
        if path[0] == '/' {
            assert(path.subrange(0, 1) =~= "/"@);
        }
    }
    assert(begins(path, "/"@) <==> path.len() > 0 && path[0] == '/');
    assert(free_of(path, '?') <==> !crate::validate::has_char(path, '?'));
    assert(free_of(path, '#') <==> !crate::validate::has_char(path, '#'));
    assert((forall|i: int|
        0 <= i < m.allowed_platforms@.len() ==> (#[trigger] m.allowed_platforms@[i])@ == "discord"@
            || m.allowed_platforms@[i]@ == "slack"@) <==> (forall|i: int|
        0 <= i < m.allowed_platforms@.len() ==> crate::validate::is_context_platform(
            #[trigger] m.allowed_platforms@[i]@,
        )));
    assert((forall|i: int|
        0 <= i < m.agent_allowed_tools@.len() ==> (#[trigger] m.agent_allowed_tools@[i])@
            == "read_current_thread"@ || m.agent_allowed_tools@[i]@ == "read_message"@
            || m.agent_allowed_tools@[i]@ == "handoff_to_thread"@) <==> (forall|i: int|
        0 <= i < m.agent_allowed_tools@.len() ==> crate::validate::is_context_tool(
            #[trigger] m.agent_allowed_tools@[i]@,
        )));
}

// ---------------------------------------------------------------------------
// What is made of it
// ---------------------------------------------------------------------------

/// A completed configuration keeps every server of tools it had, at its place,
/// and differs from the given one only in the agent's command, arguments and
/// servers. A command that was given, or that no runtime replaces, is kept.
pub proof fn completing_keeps_what_was_given(c: Config, d: Config)
    requires
        completed(c, d),
    ensures
        d == (Config { agent: d.agent, ..c }),
        d.agent.mcp_servers@.len() >= c.agent.mcp_servers@.len(),
        forall|i: int|
            0 <= i < c.agent.mcp_servers@.len() ==> #[trigger] d.agent.mcp_servers@[i]
                == c.agent.mcp_servers@[i],
        c.agentcore is None || c.agent.command_explicit || c.agent.transport
            == AgentTransport::WebSocket ==> d.agent.command@ == c.agent.command@ && views(
            d.agent.args@,
        ) == views(c.agent.args@),
        !c.context_mcp.inject_into_agent ==> d.agent.mcp_servers@ == c.agent.mcp_servers@,
        d.agent.env == c.agent.env && d.agent.inherit_env == c.agent.inherit_env && d.agent.working_dir
            == c.agent.working_dir && d.agent.url == c.agent.url && d.agent.headers == c.agent.headers,
{
    assert forall|i: int| 0 <= i < c.agent.mcp_servers@.len() implies #[trigger] d.agent.mcp_servers@[i]
        == c.agent.mcp_servers@[i] by {
        if d.agent.mcp_servers@.len() > c.agent.mcp_servers@.len() {
            assert(d.agent.mcp_servers@.drop_last()[i] == d.agent.mcp_servers@[i]);
        }
    }
}

/// An agent of a runtime is started through the adapter, which is told the
/// runtime, its region and what cancelling does.
pub proof fn runtimes_are_started_through_the_adapter(c: Config, d: Config)
    requires
        completed(c, d),
        c.agentcore is Some,
        !c.agent.command_explicit,
        c.agent.transport == AgentTransport::Stdio,
    ensures
        ({
            let args = views(d.agent.args@);
            exists|i: int, j: int, k: int|
                {
                    &&& 0 <= i < args.len() - 1 && 0 <= j < args.len() - 1 && 0 <= k < args.len() - 1
                    &&& #[trigger] args[i] == "--runtime-arn"@ && args[i + 1]
                        == c.agentcore->0.runtime_arn@
                    &&& #[trigger] args[j] == "--region"@ && args[j + 1] == region_of(
                        c.agentcore->0.runtime_arn@,
                    )
                    &&& #[trigger] args[k] == "--cancel-strategy"@ && args[k + 1]
                        == c.agentcore->0.cancel_strategy.word()
                }
        }),
{
    let args = views(d.agent.args@);
    assert(args == crate::validate::adapter_args(c.agentcore->0));
    assert(args[3] == "--runtime-arn"@ && args[5] == "--region"@ && args[7] == "--cancel-strategy"@);
    assert(args[4] == c.agentcore->0.runtime_arn@);
}

/// The region of a runtime stands behind the third colon of its name.
pub proof fn regions_are_read_from_the_name(parts: Seq<Seq<char>>)
    requires
        parts.len() >= 4,
        forall|i: int| 0 <= i < parts.len() ==> free_of(#[trigger] parts[i], ':'),
        parts[3].len() > 0,
    ensures
        region_of(joined(parts, seq![':'])) == parts[3],
{
    splitting_undoes_joining(parts, ':');
}

/// The server that is put in for the agent is the one that was configured, under
/// its name and address, opened by its token. It offers every tool that is
/// listed, and the one that hands tasks on where that is turned on.
#[verifier::rlimit(40)]
#[verifier::spinoff_prover]
pub proof fn injected_servers_offer_their_tools(m: ContextMcpConfig, s: AgentMcpServerConfig, i: int)
    requires
        is_context_entry(m, s),
    ensures
        s.name@ == m.agent_server_name@,
        m.agent_url is Some && s.url@ == m.agent_url->0@,
        s.headers@.contains_key("Authorization"@),
        ends(s.headers@["Authorization"@]@, m.token@),
        0 <= i < m.agent_allowed_tools@.len() ==> views(s.allowed_tools@).contains(
            m.agent_allowed_tools@[i]@,
        ),
        m.handoff_enabled ==> views(s.allowed_tools@).contains("handoff_to_thread"@),
        s.allowed_tools@.len() <= m.agent_allowed_tools@.len() + 1,
        !m.handoff_enabled ==> views(s.allowed_tools@) == views(m.agent_allowed_tools@),
{
    let e = Seq::<char>::empty();
    crate::text::lemma_parts_stand("Bearer "@, e, m.token@);
    assert("Bearer "@ + e + m.token@ =~= "Bearer "@ + m.token@);
    let listed = views(m.agent_allowed_tools@);
    let offered = offered_tools(m);
    assert(set!["Authorization"@].contains("Authorization"@));
    if 0 <= i < m.agent_allowed_tools@.len() {
        assert(offered[i] == listed[i]);
    }
    if m.handoff_enabled && !listed.contains("handoff_to_thread"@) {
        assert(offered[listed.len() as int] == "handoff_to_thread"@);
    }
    assert(views(s.allowed_tools@).len() == s.allowed_tools@.len());
}

/// A server that the configuration lists under the name is not put in again.
pub proof fn listed_servers_are_not_put_in_again(c: Config, d: Config, i: int)
    requires
        completed(c, d),
        0 <= i < c.agent.mcp_servers@.len(),
        c.agent.mcp_servers@[i].name@ == c.context_mcp.agent_server_name@,
    ensures
        d.agent.mcp_servers@ == c.agent.mcp_servers@,
{
    assert(crate::validate::has_server(
        c.agent.mcp_servers@,
        c.context_mcp.agent_server_name@,
    ));
}

/// The words of a setting are the command of the agent and its arguments, in
/// their order; without any there is a command all the same, and no argument.
pub proof fn settings_are_read_as_words(setting: Option<Seq<char>>)
    ensures
        setting matches Some(s) ==> words(s).len() > 0 ==> seq![default_command(setting)]
            + default_args(setting) == words(s),
        setting matches Some(s) ==> words(s).len() == 0 ==> default_command(setting)
            == default_command(None) && default_args(setting).len() == 0,
        default_args(None).len() == 0,
        default_command(None).len() > 0,
{
    reveal_strlit("openab-agent");
    if setting is Some && words(setting->0).len() > 0 {
        let w = words(setting->0);
        assert(seq![w[0]] + w.skip(1) =~= w);
    }
}

/// A value counts as given where it says something, and is trimmed then.
pub proof fn blank_values_are_not_given(s: Seq<char>)
    ensures
        filled(Some(s)) is Some <==> trimmed(s).len() > 0,
        filled(Some(s)) matches Some(t) ==> t == trimmed(s) && filled(Some(t)) == Some(t),
        filled(None) is None,
{
    crate::text::trimming_is_idempotent(s);
}

// ---------------------------------------------------------------------------
// At the start
// ---------------------------------------------------------------------------

/// A configuration from elsewhere is read exactly if it is text and no larger
/// than a mebibyte.
pub proof fn remote_configurations_are_small_texts(url: Seq<char>, bytes: Seq<u8>)
    ensures
        remote_error(url, bytes) is None <==> bytes.len() <= 1_048_576 && vstd::utf8::valid_utf8(bytes),
{
}

/// Files are put elsewhere only where that is turned on and the bucket, its
/// region and the directory are all given.
pub proof fn offloading_needs_a_place(s: S3Config)
    ensures
        s.usable() <==> s.enabled && is_said(s.bucket) && is_said(s.region) && is_said(s.directory),
{
}

/// The configuration is read from where it is asked for, or else from the usual
/// file.
pub proof fn configuration_is_read_from_where_asked(source: Seq<char>)
    ensures
        source_of(Some(source)) == source,
        source_of(None) == "config.toml"@,
{
}

/// A configuration is fetched exactly if its source is a web address, of one kind
/// or the other; anything else is a file.
#[verifier::rlimit(40)]
#[verifier::spinoff_prover]
pub proof fn sources_are_told_apart(rest: Seq<char>, source: Seq<char>)
    ensures
        origin_of("https://"@ + rest) == ConfigOrigin::Https,
        origin_of("http://"@ + rest) == ConfigOrigin::Http,
        !begins(source, "http"@) ==> origin_of(source) == ConfigOrigin::File,
{
    reveal_strlit("https://");
    reveal_strlit("http://");
    reveal_strlit("http");
    let a = "https://"@ + rest;
    let b = "http://"@ + rest;
    assert(a.subrange(0, 8) =~= "https://"@);
    assert(b.subrange(0, 7) =~= "http://"@);
    if begins(b, "https://"@) {
        assert(b.subrange(0, 8)[4] == b[4]);
    }
    if begins(source, "https://"@) {
        assert(source.subrange(0, 4) =~= source.subrange(0, 8).take(4));
        assert("https://"@.take(4) =~= "http"@);
    }
    if begins(source, "http://"@) {
        assert(source.subrange(0, 4) =~= source.subrange(0, 7).take(4));
        assert("http://"@.take(4) =~= "http"@);
    }
}

/// A hook has one source exactly if one of the three is set and no other.
pub proof fn hooks_have_one_source(h: HookConfig)
    ensures
        hook_sources(h) == 1 <==> (h.script is Some && h.inline is None && h.url is None) || (h.script
            is None && h.inline is Some && h.url is None) || (h.script is None && h.inline is None
            && h.url is Some),
{
}

/// The key for speech is the one configured; only where there is none, and the
/// service is the one that the other key is for, is that one taken.
pub proof fn configured_keys_come_first(stt: SttConfig, groq_key: Option<Seq<char>>)
    ensures
        stt.api_key@.len() > 0 ==> stt_key(stt, groq_key) == stt.api_key@,
        groq_key is None ==> stt_key(stt, groq_key) == stt.api_key@,
        !occurs(stt.base_url@, "groq.com"@) ==> stt_key(stt, groq_key) == stt.api_key@,
        stt.api_key@.len() == 0 && occurs(stt.base_url@, "groq.com"@) && groq_key is Some ==> stt_key(
            stt,
            groq_key,
        ) == groq_key->0,
{
}

/// A platform is configured exactly if it has a section.
#[verifier::rlimit(40)]
#[verifier::spinoff_prover]
pub proof fn platforms_are_those_with_a_section(discord: bool, slack: bool, name: Seq<char>)
    ensures
        platforms(discord, slack).contains(name) <==> (discord && name == "discord"@) || (slack && name
            == "slack"@),
{
    let p = platforms(discord, slack);
    if discord {
        assert(p[0] == "discord"@);
        if slack {
            assert(p[1] == "slack"@);
        }
    } else if slack {
        assert(p[0] == "slack"@);
    }
    if p.contains(name) {
        let i = choose|i: int| 0 <= i < p.len() && p[i] == name;
        assert(i == 0 || i == 1);
    }
}

/// The user's file of jobs is read only where that is turned on and a path is
/// given: the path itself if it starts at the root, else below the project's own
/// directory.
#[verifier::rlimit(40)]
#[verifier::spinoff_prover]
pub proof fn job_files_are_found(cron: CronConfig, home: Option<Seq<char>>)
    ensures
        job_file(cron, home) is Some <==> cron.usercron_enabled && cron.usercron_path is Some,
        job_file(cron, home) matches Some(p) ==> ends(p, cron.usercron_path->0@),
        job_file(cron, home) matches Some(p) ==> begins(cron.usercron_path->0@, "/"@) ==> p
            == cron.usercron_path->0@,
        job_file(cron, home) matches Some(p) ==> !begins(cron.usercron_path->0@, "/"@)
            && home is Some ==> begins(p, home->0) && occurs(p, ".openab/"@),
{
    if cron.usercron_enabled && cron.usercron_path is Some {
        let path = cron.usercron_path->0@;
        assert(path.subrange(0, path.len() as int) =~= path);
        if !begins(path, "/"@) {
            lemma_own_file(home, path);
        }
    }
}

#[verifier::rlimit(40)]
#[verifier::spinoff_prover]
proof fn lemma_own_file(home: Option<Seq<char>>, name: Seq<char>)
    ensures
        ends(own_file(home, name), name),
        home is Some ==> begins(own_file(home, name), home->0),
        occurs(own_file(home, name), ".openab/"@),
{
    reveal_strlit(".openab");
    reveal_strlit(".openab/");
    reveal_strlit("/");
    let h = match home {
        Some(h) => h,
        None => Seq::empty(),
    };
    let dir = crate::pool::below(h, ".openab"@);
    let t = own_file(home, name);
    assert(dir.last() == 'b');
    assert(t == dir + "/"@ + name);
    crate::text::lemma_parts_stand(dir, "/"@, name);
    assert(t.subrange(0, h.len() as int) =~= h);
    let n = dir.len() - 7;
    assert(dir.subrange(n, dir.len() as int) =~= ".openab"@);
    assert(t.subrange(n, n + 8) =~= ".openab/"@) by {
        assert(forall|i: int|
            0 <= i < 7 ==> #[trigger] dir[n + i] == dir.subrange(n, dir.len() as int)[i]);
        assert(".openab/"@.take(7) =~= ".openab"@);
        assert(forall|i: int| 0 <= i < 7 ==> #[trigger] ".openab/"@[i] == ".openab/"@.take(7)[i]);
    }
    assert(crate::text::stands_at(t, ".openab/"@, n));
}

/// Every id in a list is among those read, and nothing else is; a list is
/// refused only where it is not empty and none of its entries is an id.
pub proof fn listed_ids_are_read(raw: Seq<Seq<char>>, id: u64, i: int)
    ensures
        0 <= i < raw.len() && raw[i] == decimal(id as nat) ==> ids_in(raw).contains(id)
            && !refused_ids(raw),
        ids_in(raw).contains(id) ==> exists|k: int|
            0 <= k < raw.len() && #[trigger] unsigned(raw[k], u64::MAX as nat) == Some(id as nat),
        raw.len() == 0 ==> !refused_ids(raw),
{
    decimal_reads_back(id as nat, u64::MAX as nat);
    if 0 <= i < raw.len() && raw[i] == decimal(id as nat) {
        assert(unsigned(raw[i], u64::MAX as nat) == Some(id as nat));
        assert(ids_in(raw).contains(id));
    }
}

/// Every user, channel, role and bot that a configuration lists is let in by its
/// gate. Where nothing is said on it, a list that is not empty keeps all others
/// out, and an empty one keeps nobody out; what is said on it counts.
#[verifier::rlimit(40)]
#[verifier::spinoff_prover]
pub proof fn gates_let_in_what_is_listed(
    config: DiscordConfig,
    bot_id: u64,
    g: Gate,
    i: int,
    id: u64,
)
    requires
        is_gate_of(config, bot_id, g),
    ensures
        g.bot_id == bot_id,
        0 <= i < config.allowed_users@.len() && config.allowed_users@[i]@ == decimal(id as nat)
            ==> g.allowed_users@.contains(id),
        0 <= i < config.allowed_channels@.len() && config.allowed_channels@[i]@ == decimal(id as nat)
            ==> g.allowed_channels@.contains(id),
        0 <= i < config.allowed_role_ids@.len() && config.allowed_role_ids@[i]@ == decimal(id as nat)
            ==> g.allowed_role_ids@.contains(id),
        0 <= i < config.trusted_bot_ids@.len() && config.trusted_bot_ids@[i]@ == decimal(id as nat)
            ==> g.trusted_bot_ids@.contains(id),
        config.allow_all_users is None ==> (g.allow_all_users <==> config.allowed_users@.len() == 0),
        config.allow_all_channels is None ==> (g.allow_all_channels <==> config.allowed_channels@.len()
            == 0),
        config.allow_all_users matches Some(b) ==> g.allow_all_users == b,
        config.allow_all_channels matches Some(b) ==> g.allow_all_channels == b,
        g.allow_dm == config.allow_dm,
        g.allow_bot_messages == config.allow_bot_messages,
        g.allow_user_messages == config.allow_user_messages,
{
    listed_ids_are_read(views(config.allowed_users@), id, i);
    listed_ids_are_read(views(config.allowed_channels@), id, i);
    listed_ids_are_read(views(config.allowed_role_ids@), id, i);
    listed_ids_are_read(views(config.trusted_bot_ids@), id, i);
}

/// A gateway lets in whom its configuration lists. Where nothing is said on it, a
/// list that is not empty keeps all others out; what is said on it counts.
pub proof fn gateways_let_in_what_is_listed(config: GatewayConfig, p: GatewayParams)
    requires
        are_params_of(config, p),
    ensures
        p.allowed_users == config.allowed_users,
        p.allowed_channels == config.allowed_channels,
        config.allow_all_users is None ==> (p.allow_all_users <==> config.allowed_users@.len() == 0),
        config.allow_all_channels is None ==> (p.allow_all_channels <==> config.allowed_channels@.len()
            == 0),
        config.allow_all_users matches Some(b) ==> p.allow_all_users == b,
        config.allow_all_channels matches Some(b) ==> p.allow_all_channels == b,
        p.bot_username == config.bot_username && p.url == config.url && p.token == config.token
            && p.platform == config.platform && p.streaming == config.streaming,
{
}

/// A command that is given comes with the arguments that are given, and with no
/// others. Arguments that are given count whatever the command. Only where
/// neither is given does the setting count for both.
#[verifier::rlimit(40)]
#[verifier::spinoff_prover]
pub proof fn given_commands_keep_their_arguments(
    raw: AgentConfigRaw,
    setting: Option<Seq<char>>,
    home: Option<Seq<char>>,
    a: AgentConfig,
)
    requires
        is_resolved(raw, setting, home, a),
    ensures
        raw.command matches Some(c) ==> a.command@ == c@ && a.command_explicit,
        raw.args matches Some(given) ==> views(a.args@) == views(given@),
        raw.command is Some && raw.args is None ==> a.args@.len() == 0,
        raw.command is None ==> !a.command_explicit,
        raw.command is None && raw.args is None && setting is Some && words(setting->0).len() > 0
            ==> seq![a.command@] + views(a.args@) == words(setting->0),
        raw.working_dir matches Some(d) ==> a.working_dir@ == d@,
        raw.working_dir is None && home is Some ==> a.working_dir@ == home->0,
        a.url == raw.url && a.env == raw.env && a.headers == raw.headers && a.mcp_servers
            == raw.mcp_servers && a.transport == raw.transport && a.session_params
            == raw.session_params,
{
    settings_are_read_as_words(setting);
    assert(views(a.args@).len() == a.args@.len());
}

} // verus!
