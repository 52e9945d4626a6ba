//! What people are told when something is wrong.

use vstd::prelude::*;
use crate::config::{AgentMcpServerConfig, AgentTransport, Config, ContextMcpConfig, CronJobConfig};
use crate::export::requested_filter;
use crate::laws::settings::{is_said, says_something};
use crate::scheduler::{expr_error, is_zone, job_error, translated};
use crate::text::{begins, debug_form, decimal, ends, lemma_parts_stand, occurs, words};
use crate::validate::{
    config_error, link_error, platforms_error, pool_error, runtime_error, server_error,
    tool_server_error, transport_error,
};

verus! {

/// Of several things that are wrong with a configuration the first is told: the
/// runtime comes before the way to the agent, that before what is served to the
/// agent, and the platforms and the pool come last.
pub proof fn first_complaint_is_told(c: Config)
    ensures
        runtime_error(c.agentcore) is Some ==> config_error(c) == runtime_error(c.agentcore),
        runtime_error(c.agentcore) is None && transport_error(c) is Some ==> config_error(c)
            == transport_error(c),
        runtime_error(c.agentcore) is None && transport_error(c) is None && link_error(c.context_mcp)
            is Some ==> config_error(c) == link_error(c.context_mcp),
        runtime_error(c.agentcore) is None && transport_error(c) is None && link_error(c.context_mcp)
            is None && c.context_mcp.enabled && server_error(c.context_mcp) is Some ==> config_error(c)
            == server_error(c.context_mcp),
        config_error(c) is Some ==> {
            ||| config_error(c) == runtime_error(c.agentcore)
            ||| config_error(c) == transport_error(c)
            ||| config_error(c) == link_error(c.context_mcp)
            ||| config_error(c) == server_error(c.context_mcp)
            ||| config_error(c) == crate::validate::tool_servers_error(c.agent.mcp_servers@)
            ||| config_error(c) == crate::validate::params_error(c.agent.session_params.rows())
            ||| config_error(c) == platforms_error(c)
            ||| config_error(c) == pool_error(c.pool)
        },
{
}

/// A complaint names the setting that is missing or does not fit: the one for the
/// way to the agent, the ones that depend on another, and the limits that are
/// zero.
#[verifier::rlimit(40)]
#[verifier::spinoff_prover]
pub proof fn complaints_name_the_setting(c: Config, m: ContextMcpConfig)
    ensures
        c.agent.transport == AgentTransport::WebSocket && !is_said(c.agent.url) ==> transport_error(c)
            is Some && begins(transport_error(c)->0, "agent.url "@),
        c.agent.transport == AgentTransport::Stdio && transport_error(c) is Some ==> begins(
            transport_error(c)->0,
            "agent.command "@,
        ),
        m.handoff_enabled && !m.enabled ==> link_error(m) is Some && begins(
            link_error(m)->0,
            "context_mcp.enabled "@,
        ),
        m.inject_into_agent && m.enabled && !is_said(m.agent_url) && (m.handoff_parent_summary_enabled
            ==> m.handoff_enabled) ==> link_error(m) is Some && begins(
            link_error(m)->0,
            "context_mcp.agent_url "@,
        ),
        !says_something(m.token@) ==> server_error(m) is Some && begins(
            server_error(m)->0,
            "context_mcp.token "@,
        ),
        c.pool.liveness_check_secs == 0 ==> pool_error(c.pool) is Some && begins(
            pool_error(c.pool)->0,
            "pool.liveness_check_secs "@,
        ),
        c.pool.liveness_check_secs > 0 && !c.pool.session_ttl_positive ==> pool_error(c.pool) is Some
            && begins(pool_error(c.pool)->0, "pool.session_ttl_hours "@),
{
    lemma_begins_url();
    lemma_begins_command();
    lemma_begins_enabled();
    lemma_begins_agent_url();
    lemma_begins_token();
    lemma_begins_liveness();
    lemma_begins_ttl();
}

proof fn lemma_begins_url()
    ensures
        begins("agent.url is required when agent.transport = \"websocket\""@, "agent.url "@),
{
    reveal_strlit("agent.url is required when agent.transport = \"websocket\"");
    reveal_strlit("agent.url ");
    assert("agent.url is required when agent.transport = \"websocket\""@.subrange(0, 10)
        =~= "agent.url "@);
}

proof fn lemma_begins_command()
    ensures
        begins("agent.command is required when agent.transport = \"stdio\""@, "agent.command "@),
{
    reveal_strlit("agent.command is required when agent.transport = \"stdio\"");
    reveal_strlit("agent.command ");
    assert("agent.command is required when agent.transport = \"stdio\""@.subrange(0, 14)
        =~= "agent.command "@);
}

proof fn lemma_begins_enabled()
    ensures
        begins(
            "context_mcp.enabled must be true when context_mcp.handoff_enabled = true"@,
            "context_mcp.enabled "@,
        ),
{
    reveal_strlit("context_mcp.enabled must be true when context_mcp.handoff_enabled = true");
    reveal_strlit("context_mcp.enabled ");
    assert("context_mcp.enabled must be true when context_mcp.handoff_enabled = true"@.subrange(0, 20)
        =~= "context_mcp.enabled "@);
}

proof fn lemma_begins_agent_url()
    ensures
        begins(
            "context_mcp.agent_url is required when context_mcp.inject_into_agent = true"@,
            "context_mcp.agent_url "@,
        ),
{
    reveal_strlit("context_mcp.agent_url is required when context_mcp.inject_into_agent = true");
    reveal_strlit("context_mcp.agent_url ");
    assert("context_mcp.agent_url is required when context_mcp.inject_into_agent = true"@.subrange(
        0,
        22,
    ) =~= "context_mcp.agent_url "@);
}

proof fn lemma_begins_token()
    ensures
        begins(
            "context_mcp.token is required when context_mcp.enabled = true"@,
            "context_mcp.token "@,
        ),
{
    reveal_strlit("context_mcp.token is required when context_mcp.enabled = true");
    reveal_strlit("context_mcp.token ");
    assert("context_mcp.token is required when context_mcp.enabled = true"@.subrange(0, 18)
        =~= "context_mcp.token "@);
}

proof fn lemma_begins_liveness()
    ensures
        begins(
            "pool.liveness_check_secs must be > 0 (zero would spin the recv loop)"@,
            "pool.liveness_check_secs "@,
        ),
{
    reveal_strlit("pool.liveness_check_secs must be > 0 (zero would spin the recv loop)");
    reveal_strlit("pool.liveness_check_secs ");
    assert("pool.liveness_check_secs must be > 0 (zero would spin the recv loop)"@.subrange(0, 25)
        =~= "pool.liveness_check_secs "@);
}

proof fn lemma_begins_ttl()
    ensures
        begins("pool.session_ttl_hours must be > 0"@, "pool.session_ttl_hours "@),
{
    reveal_strlit("pool.session_ttl_hours must be > 0");
    reveal_strlit("pool.session_ttl_hours ");
    assert("pool.session_ttl_hours must be > 0"@.subrange(0, 23) =~= "pool.session_ttl_hours "@);
}

/// What is wrong with a server of tools is told under its name.
#[verifier::rlimit(40)]
#[verifier::spinoff_prover]
pub proof fn tool_servers_are_named(s: AgentMcpServerConfig)
    requires
        says_something(s.name@),
    ensures
        tool_server_error(s) matches Some(e) ==> occurs(e, s.name@),
{
    if tool_server_error(s) is Some {
        let e = tool_server_error(s)->0;
        let n = "agent.mcp_servers."@.len();
        let tail = e.skip((n + s.name@.len()) as int);
        lemma_parts_stand("agent.mcp_servers."@, s.name@, tail);
        assert("agent.mcp_servers."@ + s.name@ + tail =~= e);
    }
}

/// What is wrong with a job is told with the text that is wrong: its expression,
/// its time zone, or its platform.
#[verifier::rlimit(40)]
#[verifier::spinoff_prover]
pub proof fn job_errors_show_what_is_wrong(job: CronJobConfig, platforms: Seq<Seq<char>>)
    ensures
        expr_error(job.schedule@) is Some ==> job_error(job, platforms) is Some && occurs(
            job_error(job, platforms)->0,
            debug_form(job.schedule@),
        ) && ends(job_error(job, platforms)->0, expr_error(job.schedule@)->0),
        expr_error(job.schedule@) is None && !is_zone(job.timezone@) ==> job_error(job, platforms)
            is Some && occurs(job_error(job, platforms)->0, debug_form(job.timezone@)),
        expr_error(job.schedule@) is None && is_zone(job.timezone@) && !platforms.contains(
            job.platform@,
        ) ==> job_error(job, platforms) is Some && occurs(
            job_error(job, platforms)->0,
            debug_form(job.platform@),
        ),
{
    let d = debug_form(job.schedule@);
    let z = debug_form(job.timezone@);
    let p = debug_form(job.platform@);
    if expr_error(job.schedule@) is Some {
        let why = expr_error(job.schedule@)->0;
        lemma_parts_stand("invalid cron expression "@, d, ": "@ + why);
        assert("invalid cron expression "@ + d + (": "@ + why) =~= job_error(job, platforms)->0);
        lemma_parts_stand("invalid cron expression "@ + d, ": "@, why);
    } else if !is_zone(job.timezone@) {
        let rest = ": "@ + "failed to parse timezone"@;
        lemma_parts_stand("invalid timezone "@, z, rest);
        assert("invalid timezone "@ + z + rest =~= job_error(job, platforms)->0);
    } else if !platforms.contains(job.platform@) {
        let e = job_error(job, platforms)->0;
        lemma_parts_stand("unknown platform "@, p, e.skip(("unknown platform "@ + p).len() as int));
        lemma_parts_stand("platform "@, p, e.skip(("platform "@ + p).len() as int));
        if crate::scheduler::is_known_platform(job.platform@) {
            assert("platform "@ + p + e.skip(("platform "@ + p).len() as int) =~= e);
        } else {
            assert("unknown platform "@ + p + e.skip(("unknown platform "@ + p).len() as int) =~= e);
        }
    }
}

/// An expression with the wrong number of fields is refused with that number and
/// the expression.
pub proof fn field_counts_are_told(expr: Seq<char>)
    requires
        words(expr).len() != 5,
    ensures
        translated(expr) matches Err(e) && ends(
            e,
            decimal(words(expr).len()) + ": "@ + debug_form(expr),
        ),
{
    let head = "expected 5 whitespace-separated cron fields, got "@;
    let said = decimal(words(expr).len()) + ": "@ + debug_form(expr);
    let e = translated(expr)->Err_0;
    assert(e =~= head + said);
    assert(e.subrange(e.len() - said.len(), e.len() as int) =~= said);
}

/// What is wrong with the filter of an export names the filter.
#[verifier::rlimit(40)]
#[verifier::spinoff_prover]
pub proof fn filter_errors_name_the_filter(n: i64, now_ms: u64)
    ensures
        !(1 <= n <= 5000) ==> (requested_filter(Some(n), None, None, false, now_ms) matches Err(e)
            && occurs(e, "`limit`"@)),
        !(1 <= n <= 365) ==> (requested_filter(None, None, Some(n), false, now_ms) matches Err(e)
            && occurs(e, "`days`"@)),
{
    reveal_strlit("⚠️ `limit` must be between 1 and 5000.");
    reveal_strlit("⚠️ ");
    reveal_strlit("`limit`");
    reveal_strlit(" must be between 1 and 5000.");
    reveal_strlit("⚠️ `days` must be between 1 and 365.");
    reveal_strlit("`days`");
    reveal_strlit(" must be between 1 and 365.");
    lemma_parts_stand("⚠️ "@, "`limit`"@, " must be between 1 and 5000."@);
    assert("⚠️ "@ + "`limit`"@ + " must be between 1 and 5000."@
        =~= "⚠️ `limit` must be between 1 and 5000."@);
    lemma_parts_stand("⚠️ "@, "`days`"@, " must be between 1 and 365."@);
    assert("⚠️ "@ + "`days`"@ + " must be between 1 and 365."@
        =~= "⚠️ `days` must be between 1 and 365."@);
}

} // verus!
