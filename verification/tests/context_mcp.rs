//! The tool that reads threads: who may call it, and what it hands back.

use openab::config::ContextMcpConfig;
use openab::context_mcp::{
    api_url, authorized, check_discord_channel, clamp_limit, discord_error, discord_result,
    handle_rpc, immediate_reply, json_rpc_error, json_rpc_result, messages_path,
    normalize_discord_message, normalize_slack_message, on_request, parse_body,
    parse_read_request, plan_read, read_result, route_matches, slack_result,
    validate_discord_channel_scope, ContextMcpState, DiscordContext, HttpStep, ReadPlan,
    ReadRequest, RpcAction, RpcFault, SlackContext, TOOL_READ_CURRENT_THREAD,
};
use serde_json::Value;

fn json(text: &str) -> Value {
    serde_json::from_str(text).unwrap()
}

fn test_state() -> ContextMcpState {
    ContextMcpState {
        token: "secret".into(),
        route_path: "/mcp".into(),
        default_limit: 50,
        max_limit: 100,
        allowed_platforms: Vec::new(),
        discord: None,
        slack: None,
    }
}

#[test]
fn clamp_limit_uses_default_and_max() {
    assert_eq!(clamp_limit(None, 50, 100), 50);
    assert_eq!(clamp_limit(Some(150), 50, 100), 100);
    assert_eq!(clamp_limit(Some(10), 50, 100), 10);
}

#[test]
fn bearer_auth_requires_matching_token() {
    assert!(!authorized(None, "secret"));
    assert!(!authorized(Some("Bearer wrong"), "secret"));
    assert!(authorized(Some("Bearer secret"), "secret"));
}

#[test]
fn route_matching_uses_configured_path() {
    assert!(route_matches("/openab-codex/", "/openab-codex/"));
    assert!(!route_matches("/mcp", "/openab-codex/"));
    assert!(route_matches("/", "/mcp"));
}

#[test]
fn requests_are_refused_in_order() {
    let state = test_state();
    assert_eq!(on_request(false, "/x", None, &state), HttpStep::MethodNotAllowed);
    assert_eq!(on_request(true, "/x", None, &state), HttpStep::NotFound);
    assert_eq!(on_request(true, "/", None, &state), HttpStep::Unauthorized);
    assert_eq!(on_request(true, "/", Some("Bearer secret"), &state), HttpStep::ReadBody);
    assert_eq!(HttpStep::Unauthorized.refusal(), Some((401, "unauthorized")));
}

fn discord_context(allow_normal_channels: bool) -> DiscordContext {
    DiscordContext {
        token: "token".into(),
        allow_all_channels: false,
        allowed_channels: vec!["C1".into()],
        allow_normal_channels,
    }
}

fn request(platform: &str, channel_id: &str) -> ReadRequest {
    ReadRequest {
        platform: platform.into(),
        channel_id: channel_id.into(),
        thread_id: None,
        message_id: None,
        limit: None,
    }
}

#[test]
fn discord_normal_channel_requires_explicit_opt_in() {
    let req = request("discord", "C1");
    let err = validate_discord_channel_scope(&discord_context(false), &req, "C1", false, false, None)
        .unwrap_err();
    assert!(err.contains("Discord normal channel history is not available"));
    validate_discord_channel_scope(&discord_context(true), &req, "C1", false, false, None).unwrap();
}

#[test]
fn tools_list_exposes_read_current_thread() {
    let call = json(r#"{"jsonrpc": "2.0", "id": 1, "method": "tools/list"}"#);
    let body = immediate_reply(&handle_rpc(&call), "1.0").unwrap();
    let value = json(&body);
    assert_eq!(value["id"], 1);
    assert_eq!(value["result"]["tools"][0]["name"], TOOL_READ_CURRENT_THREAD);
    assert_eq!(
        value["result"]["tools"][0]["inputSchema"]["required"][0],
        "platform"
    );
}

#[test]
fn tools_call_rejects_unknown_tool() {
    let call = json(
        r#"{"jsonrpc": "2.0", "id": 1, "method": "tools/call",
            "params": {"name": "unknown", "arguments": {}}}"#,
    );
    let value = json(&immediate_reply(&handle_rpc(&call), "1.0").unwrap());
    assert_eq!(value["error"]["code"], -32602);
    assert!(value["error"]["message"].as_str().unwrap().contains("unknown tool"));
}

#[test]
fn tools_call_reads_slack_thread_and_clamps_limit() {
    let mut state = test_state();
    state.slack = Some(SlackContext {
        token: "t".into(),
        allow_all_channels: true,
        allowed_channels: Vec::new(),
    });
    let call = json(
        r#"{"jsonrpc": "2.0", "id": 1, "method": "tools/call",
            "params": {"name": "read_current_thread", "arguments": {
                "platform": "slack", "channel_id": "C1", "thread_id": "171000.1", "limit": 500}}}"#,
    );
    let step = handle_rpc(&call);
    let args = match step.action {
        RpcAction::Read(args) => args,
        _ => panic!("expected a read"),
    };
    let req = parse_read_request(args).unwrap();
    let (request, thread_ts, limit) = match plan_read(&state, req).unwrap() {
        ReadPlan::Slack { request, thread_ts, limit } => (request, thread_ts, limit),
        _ => panic!("expected Slack"),
    };
    let reply = json(r#"{"ok": true, "messages": [{"ts": "171000.1", "user": "U1", "text": "root"}]}"#);
    let result = slack_result(request, thread_ts, &reply, limit).unwrap();
    assert_eq!(result.limit, 100);
    assert_eq!(result.messages[0].text, "root");
    let body = json_rpc_result(step.id, &read_result("pretty \"text\"", "{\"limit\":100}"));
    let value = json(&body);
    assert_eq!(value["result"]["structuredContent"]["limit"], 100);
    assert_eq!(value["result"]["content"][0]["text"], "pretty \"text\"");
}

#[test]
fn calls_are_answered_by_their_method() {
    let reply = |text: &str| immediate_reply(&handle_rpc(&json(text)), "9.9");
    assert_eq!(reply(r#"{"method": "notifications/initialized"}"#), None);
    let value = json(&reply(r#"{"id": "x", "method": "initialize"}"#).unwrap());
    assert_eq!(value["id"], "x");
    assert_eq!(value["result"]["serverInfo"]["version"], "9.9");
    assert_eq!(value["result"]["protocolVersion"], "2025-06-18");
    let value = json(&reply(r#"{"id": 3}"#).unwrap());
    assert_eq!(value["error"]["code"], -32600);
    let value = json(&reply(r#"{"method": "nope"}"#).unwrap());
    assert_eq!(value["error"]["code"], -32601);
    assert_eq!(value["error"]["message"], "method not found: nope");
    assert_eq!(value["id"], Value::Null);
    let value = json(&json_rpc_error(None, RpcFault::Parse, "x"));
    assert_eq!(value["error"]["code"], -32700);
    let value = json(&json_rpc_error(None, RpcFault::Failed, "x"));
    assert_eq!(value["error"]["code"], -32000);
}

#[test]
fn bodies_that_are_no_json_are_refused() {
    assert!(parse_body(b"{").unwrap_err().starts_with("invalid JSON: "));
    assert_eq!(parse_body(b"{\"a\":1}").unwrap()["a"], 1);
}

#[test]
fn parse_read_request_requires_platform_and_channel() {
    let args = json(r#"{"platform": "discord", "channel_id": "C1", "thread_id": "T1", "limit": 25}"#);
    let parsed = parse_read_request(Some(&args)).unwrap();
    assert_eq!(parsed.platform, "discord");
    assert_eq!(parsed.channel_id, "C1");
    assert_eq!(parsed.thread_id.as_deref(), Some("T1"));
    assert_eq!(parsed.limit, Some(25));
    assert!(parse_read_request(Some(&json(r#"{"platform": "discord"}"#))).is_err());
    assert_eq!(
        parse_read_request(None).unwrap_err(),
        "missing required argument: platform"
    );
}

#[test]
fn reads_are_refused_where_they_are_not_allowed() {
    let mut state = test_state();
    assert_eq!(
        plan_read(&state, request("discord", "C1")).unwrap_err(),
        "Discord is not configured"
    );
    assert_eq!(
        plan_read(&state, request("teams", "C1")).unwrap_err(),
        "unsupported platform: teams"
    );
    assert_eq!(
        plan_read(&state, request("slack", "C1")).unwrap_err(),
        "Slack is not configured"
    );
    state.slack = Some(SlackContext {
        token: "t".into(),
        allow_all_channels: false,
        allowed_channels: vec!["C2".into()],
    });
    assert_eq!(
        plan_read(&state, request("slack", "C1")).unwrap_err(),
        "Slack channel is not allowed for context reads"
    );
    assert_eq!(
        plan_read(&state, request("slack", "C2")).unwrap_err(),
        "Slack thread_id is required for context reads"
    );
    state.allowed_platforms = vec!["slack".into()];
    assert_eq!(
        plan_read(&state, request("discord", "C1")).unwrap_err(),
        "platform is not enabled for context MCP: discord"
    );
}

#[test]
fn a_thread_is_allowed_through_its_parent() {
    let d = discord_context(false);
    let req = request("discord", "X");
    let thread = json(r#"{"type": 11, "parent_id": "C1"}"#);
    assert_eq!(check_discord_channel(&d, &req, "T9", &thread), Ok(true));
    let stranger = json(r#"{"type": 11, "parent_id": "C9"}"#);
    assert!(check_discord_channel(&d, &req, "T9", &stranger)
        .unwrap_err()
        .contains("not allowed"));
    let plain = json(r#"{"type": 0}"#);
    assert!(check_discord_channel(&d, &req, "C1", &plain)
        .unwrap_err()
        .contains("normal channel"));
}

#[test]
fn discord_messages_come_oldest_first() {
    let messages = json(r#"[{"id": "2", "content": "b"}, {"id": "1", "content": "a"}]"#);
    let result = discord_result(request("discord", "C1"), "T1".to_string(), true, &messages, 10);
    assert_eq!(result.messages[0].id, "1");
    assert_eq!(result.messages[1].id, "2");
    assert_eq!(result.thread_id.as_deref(), Some("T1"));
}

#[test]
fn slack_failures_are_passed_on() {
    let reply = json(r#"{"ok": false, "error": "not_in_channel"}"#);
    assert_eq!(
        slack_result(request("slack", "C1"), "1.2".to_string(), &reply, 10).unwrap_err(),
        "Slack API conversations.replies: not_in_channel"
    );
}

#[test]
fn addresses_are_put_together() {
    assert_eq!(api_url("https://x/api//", "/channels/1"), "https://x/api/channels/1");
    assert_eq!(messages_path("7", 20), "/channels/7/messages?limit=20");
    assert_eq!(
        discord_error("403 Forbidden", &json(r#"{"message": "Missing Access"}"#)),
        "Discord API returned 403 Forbidden: Missing Access"
    );
    assert_eq!(
        discord_error("500", &Value::Null),
        "Discord API returned 500: Discord API error"
    );
}

#[test]
fn normalizes_discord_attachments_without_body_download() {
    let msg = normalize_discord_message(&json(
        r#"{
            "id": "123",
            "content": "hello",
            "timestamp": "2026-06-30T00:00:00.000000+00:00",
            "author": {"id": "U1", "username": "alice"},
            "attachments": [{
                "id": "A1",
                "filename": "demo.txt",
                "url": "https://cdn.discordapp.com/demo.txt",
                "content_type": "text/plain",
                "size": 12
            }]
        }"#,
    ));
    assert_eq!(msg.id, "123");
    assert_eq!(msg.author_name.as_deref(), Some("alice"));
    assert_eq!(msg.attachments.len(), 1);
    assert_eq!(msg.attachments[0].filename.as_deref(), Some("demo.txt"));
    assert_eq!(msg.attachments[0].size, Some(12));
}

#[test]
fn normalizes_slack_files_without_body_download() {
    let msg = normalize_slack_message(&json(
        r#"{
            "ts": "171000.1",
            "text": "hello",
            "user": "U1",
            "files": [{
                "id": "F1",
                "name": "demo.txt",
                "url_private_download": "https://files.slack.com/demo.txt",
                "mimetype": "text/plain",
                "size": 12
            }]
        }"#,
    ));
    assert_eq!(msg.id, "171000.1");
    assert_eq!(msg.author_id.as_deref(), Some("U1"));
    assert_eq!(msg.attachments.len(), 1);
    assert_eq!(
        msg.attachments[0].url.as_deref(),
        Some("https://files.slack.com/demo.txt")
    );
}

#[test]
fn the_server_goes_by_its_configuration() {
    let config = ContextMcpConfig {
        token: "t".into(),
        allow_normal_channels: true,
        ..ContextMcpConfig::default()
    };
    let state = ContextMcpState::from_config(&config, None, None);
    assert_eq!(state.token, "t");
    assert_eq!(state.max_limit, 100);
    assert!(state.discord.is_none() && state.slack.is_none());
}

#[test]
fn slack_reads_need_a_thread_whatever_the_message() {
    let mut state = test_state();
    state.slack = Some(SlackContext {
        token: "t".into(),
        allow_all_channels: true,
        allowed_channels: Vec::new(),
    });
    let mut req = request("slack", "C1");
    req.message_id = Some("171000.1".into());
    assert_eq!(
        plan_read(&state, req).unwrap_err(),
        "Slack thread_id is required for context reads"
    );
    let mut req = request("slack", "C1");
    req.thread_id = Some("171000.2".into());
    req.message_id = Some("171000.1".into());
    match plan_read(&state, req).unwrap() {
        ReadPlan::Slack { thread_ts, .. } => assert_eq!(thread_ts, "171000.2"),
        other => panic!("{other:?}"),
    }
}
