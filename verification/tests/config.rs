//! Configuration: defaults, the rules that a configuration must meet, and what
//! completing it adds.

use openab::config::{
    default_agent_command, default_gateway_platform, default_max_batch_tokens,
    default_max_bot_turns, default_max_buffered_messages, default_true, resolve_allow_all,
    AgentConfigRaw, AgentCoreCancelStrategy, AgentCoreConfig, AgentMcpServerConfig,
    AgentTransport, AllowBots, AllowUsers, AwsSecretsConfig, Config, ContextMcpConfig, CronConfig,
    DiscordConfig, DiscordNormalChannelReplyMode, ExecSecretsConfig, GatewayConfig, HooksConfig,
    MarkdownConfig, MessageProcessingMode, OnFailure, PoolConfig, ReactionsConfig, S3Config,
    SecretsConfig, SlackConfig, SlackNormalChannelReplyMode, SttConfig, TableMode,
    ToolDisplay, WorkspaceConfig,
};
use openab::patterns::expand_env_vars;
use openab::startup::{check_adapters, configured_platforms, discord_gate, gateway_params};
use openab::table::Table;
use openab::validate::complete_config;

fn discord(bot_token: &str) -> DiscordConfig {
    DiscordConfig {
        bot_token: bot_token.into(),
        allow_all_channels: None,
        allow_all_users: None,
        allowed_channels: Vec::new(),
        allowed_users: Vec::new(),
        allow_bot_messages: AllowBots::default(),
        trusted_bot_ids: Vec::new(),
        allow_user_messages: AllowUsers::default(),
        max_bot_turns: default_max_bot_turns(),
        allowed_role_ids: Vec::new(),
        allow_dm: false,
        message_processing_mode: MessageProcessingMode::default(),
        normal_channel_reply_mode: DiscordNormalChannelReplyMode::default(),
        max_buffered_messages: default_max_buffered_messages(),
        max_batch_tokens: default_max_batch_tokens(),
    }
}

fn slack() -> SlackConfig {
    SlackConfig {
        bot_token: "x".into(),
        app_token: "y".into(),
        allow_all_channels: None,
        allow_all_users: None,
        allowed_channels: Vec::new(),
        allowed_users: Vec::new(),
        allow_bot_messages: AllowBots::default(),
        trusted_bot_ids: Vec::new(),
        allow_user_messages: AllowUsers::default(),
        max_bot_turns: default_max_bot_turns(),
        message_processing_mode: MessageProcessingMode::default(),
        normal_channel_reply_mode: SlackNormalChannelReplyMode::default(),
        max_buffered_messages: default_max_buffered_messages(),
        max_batch_tokens: default_max_batch_tokens(),
        assistant_mode: default_true(),
    }
}

fn gateway(url: &str) -> GatewayConfig {
    GatewayConfig {
        url: url.into(),
        platform: default_gateway_platform(),
        token: None,
        bot_username: None,
        allow_all_channels: None,
        allow_all_users: None,
        allowed_channels: Vec::new(),
        allowed_users: Vec::new(),
        streaming: false,
        message_processing_mode: MessageProcessingMode::default(),
        max_buffered_messages: default_max_buffered_messages(),
        max_batch_tokens: default_max_batch_tokens(),
    }
}

fn config(agent: AgentConfigRaw) -> Config {
    Config {
        discord: Some(discord("test-token")),
        slack: None,
        gateway: None,
        agentcore: None,
        context_mcp: ContextMcpConfig::default(),
        agent: agent.resolve(None, Some("/home/test")),
        pool: PoolConfig::default(),
        reactions: ReactionsConfig::default(),
        stt: SttConfig::default(),
        s3: None,
        markdown: MarkdownConfig::default(),
        cron: CronConfig::default(),
        hooks: HooksConfig::default(),
        workspace: WorkspaceConfig::default(),
        secrets: SecretsConfig::default(),
    }
}

fn echo() -> AgentConfigRaw {
    let mut agent = AgentConfigRaw::empty();
    agent.command = Some("echo".into());
    agent
}

fn minimal() -> Config {
    config(echo())
}

fn with_runtime(arn: &str) -> Config {
    let mut cfg = config(AgentConfigRaw::empty());
    cfg.agentcore = Some(AgentCoreConfig {
        runtime_arn: arn.into(),
        shell_command: openab::config::default_agentcore_shell_command(),
        cancel_strategy: AgentCoreCancelStrategy::default(),
    });
    cfg
}

fn table(rows: &[(&str, &str)]) -> Table<String> {
    let mut t = Table::new();
    for (k, v) in rows {
        t.insert(k.to_string(), v.to_string());
    }
    t
}

#[test]
fn parse_minimal_config() {
    let cfg = complete_config(minimal()).unwrap();
    assert_eq!(cfg.discord.unwrap().bot_token, "test-token");
    assert_eq!(cfg.agent.command, "echo");
    assert_eq!(cfg.agent.transport, AgentTransport::Stdio);
    assert!(!cfg.agent.per_session_working_dir);
    assert_eq!(cfg.pool.max_sessions, 10);
    assert_eq!(cfg.pool.session_ttl_secs, 4 * 3600);
    assert!(cfg.reactions.enabled);
}

#[test]
fn parse_fractional_session_ttl_hours() {
    let mut cfg = minimal();
    cfg.pool.session_ttl_secs = 1800;
    assert_eq!(complete_config(cfg).unwrap().pool.session_ttl_secs, 1800);
}

#[test]
fn reject_non_positive_session_ttl_hours() {
    let mut cfg = minimal();
    cfg.pool.session_ttl_secs = 0;
    cfg.pool.session_ttl_positive = false;
    let err = complete_config(cfg).unwrap_err();
    assert!(err.contains("pool.session_ttl_hours must be > 0"));
}

#[test]
fn parse_agent_per_session_working_dir() {
    let mut agent = echo();
    agent.per_session_working_dir = true;
    assert!(complete_config(config(agent)).unwrap().agent.per_session_working_dir);
}

#[test]
fn parse_agent_session_params() {
    let mut agent = echo();
    agent.session_params = table(&[("permissionMode", "\"acceptEdits\""), ("maxTurns", "3")]);
    let cfg = complete_config(config(agent)).unwrap();
    assert_eq!(
        cfg.agent.session_params.get("permissionMode").map(String::as_str),
        Some("\"acceptEdits\"")
    );
    assert_eq!(cfg.agent.session_params.get("maxTurns").map(String::as_str), Some("3"));
}

#[test]
fn parse_agent_include_session_context() {
    let mut agent = echo();
    agent.include_session_context = true;
    assert!(complete_config(config(agent)).unwrap().agent.include_session_context);
}

#[test]
fn reject_reserved_agent_session_params() {
    let mut agent = echo();
    agent.session_params = table(&[("cwd", "\"/tmp/other\"")]);
    let err = complete_config(config(agent)).unwrap_err();
    assert!(err.contains("agent.session_params.cwd is reserved"));
}

#[test]
fn parse_websocket_agent_config() {
    let mut agent = AgentConfigRaw::empty();
    agent.transport = AgentTransport::WebSocket;
    agent.url = Some("ws://127.0.0.1:3000".into());
    agent.headers = table(&[("Authorization", "Bearer token")]);
    let cfg = complete_config(config(agent)).unwrap();
    assert_eq!(cfg.agent.transport, AgentTransport::WebSocket);
    assert_eq!(cfg.agent.url.as_deref(), Some("ws://127.0.0.1:3000"));
    assert_eq!(
        cfg.agent.headers.get("Authorization").map(String::as_str),
        Some("Bearer token")
    );
    assert_eq!(cfg.agent.command, default_agent_command(None));
}

#[test]
fn websocket_agent_requires_url() {
    let mut agent = AgentConfigRaw::empty();
    agent.transport = AgentTransport::WebSocket;
    let err = complete_config(config(agent)).unwrap_err();
    assert!(err.contains("agent.url is required"));
}

#[test]
fn stdio_agent_defaults_command() {
    let cfg = complete_config(config(AgentConfigRaw::empty())).unwrap();
    assert_eq!(cfg.agent.command, default_agent_command(None));
}

#[test]
fn the_agent_command_can_come_from_a_setting() {
    assert_eq!(default_agent_command(Some("my agent --flag")), "my");
}

#[test]
fn expand_env_vars_replaces_known_var() {
    let vars = table(&[("AB_TEST_VAR", "hello")]);
    assert_eq!(expand_env_vars("token=${AB_TEST_VAR}", &vars), "token=hello");
}

#[test]
fn expand_env_vars_unknown_becomes_empty() {
    assert_eq!(expand_env_vars("token=${AB_NONEXISTENT_12345}", &Table::new()), "token=");
}

#[test]
fn expand_env_vars_in_config() {
    let vars = table(&[("AB_TEST_TOKEN", "secret-bot-token")]);
    let text = "[discord]\nbot_token = \"${AB_TEST_TOKEN}\"\n\n[agent]\ncommand = \"echo\"\n";
    assert_eq!(
        expand_env_vars(text, &vars),
        "[discord]\nbot_token = \"secret-bot-token\"\n\n[agent]\ncommand = \"echo\"\n"
    );
}

#[test]
fn variables_with_other_marks_are_left_alone() {
    assert_eq!(
        expand_env_vars("${secrets.token} $HOME {X}", &Table::new()),
        "${secrets.token} $HOME {X}"
    );
}

#[test]
fn s3_config_absent_by_default() {
    assert!(complete_config(minimal()).unwrap().s3.is_none());
}

#[test]
fn context_mcp_defaults_to_disabled() {
    let cfg = complete_config(minimal()).unwrap();
    assert!(!cfg.context_mcp.enabled);
    assert_eq!(cfg.context_mcp.bind, "127.0.0.1:18080");
    assert_eq!(cfg.context_mcp.route_path, "/mcp");
    assert!(cfg.context_mcp.token.is_empty());
    assert_eq!(cfg.context_mcp.default_limit, 50);
    assert_eq!(cfg.context_mcp.max_limit, 100);
    assert!(cfg.context_mcp.allowed_platforms.is_empty());
    assert!(!cfg.context_mcp.allow_normal_channels);
    assert!(!cfg.context_mcp.handoff_enabled);
    assert_eq!(cfg.context_mcp.handoff_token_ttl_secs, 300);
    assert!(!cfg.context_mcp.handoff_parent_summary_enabled);
    assert_eq!(cfg.context_mcp.handoff_parent_summary_max_chars, 400);
    assert!(!cfg.context_mcp.inject_into_agent);
    assert!(cfg.context_mcp.agent_url.is_none());
    assert_eq!(cfg.context_mcp.agent_server_name, "openab_context");
    assert_eq!(
        cfg.context_mcp.agent_allowed_tools,
        vec!["read_current_thread", "read_message"]
    );
    assert!(cfg.agent.mcp_servers.is_empty());
}

fn server() -> ContextMcpConfig {
    ContextMcpConfig {
        enabled: true,
        token: "secret".into(),
        ..ContextMcpConfig::default()
    }
}

fn complaint(context_mcp: ContextMcpConfig) -> String {
    let mut cfg = minimal();
    cfg.context_mcp = context_mcp;
    complete_config(cfg).unwrap_err()
}

#[test]
fn context_mcp_enabled_requires_token() {
    let err = complaint(ContextMcpConfig {
        enabled: true,
        ..ContextMcpConfig::default()
    });
    assert!(err.contains("context_mcp.token is required"));
}

#[test]
fn context_mcp_validates_limits_and_platforms() {
    let err = complaint(ContextMcpConfig {
        default_limit: 101,
        max_limit: 100,
        ..server()
    });
    assert!(err.contains("context_mcp.default_limit must be <= context_mcp.max_limit"));
    let err = complaint(ContextMcpConfig {
        allowed_platforms: vec!["discord".into(), "teams".into()],
        ..server()
    });
    assert!(err.contains("context_mcp.allowed_platforms entries"));
    let err = complaint(ContextMcpConfig {
        route_path: "app/mcp".into(),
        ..server()
    });
    assert!(err.contains("context_mcp.route_path must start with /"));
}

#[test]
fn context_mcp_validates_handoff_and_agent_injection() {
    let err = complaint(ContextMcpConfig {
        handoff_enabled: true,
        ..ContextMcpConfig::default()
    });
    assert!(err.contains("context_mcp.enabled must be true"));
    let err = complaint(ContextMcpConfig {
        handoff_parent_summary_enabled: true,
        ..server()
    });
    assert!(err.contains("context_mcp.handoff_enabled must be true"));
    let err = complaint(ContextMcpConfig {
        handoff_enabled: true,
        handoff_parent_summary_enabled: true,
        handoff_parent_summary_max_chars: 0,
        ..server()
    });
    assert!(err.contains("context_mcp.handoff_parent_summary_max_chars must be > 0"));
    let err = complaint(ContextMcpConfig {
        inject_into_agent: true,
        ..server()
    });
    assert!(err.contains("context_mcp.agent_url is required"));
    let err = complaint(ContextMcpConfig {
        agent_allowed_tools: vec!["read_current_thread".into(), "unknown".into()],
        ..server()
    });
    assert!(err.contains("context_mcp.agent_allowed_tools entries"));
}

#[test]
fn context_mcp_parses_enabled_config() {
    let vars = table(&[("AB_TEST_APP_NAME", "openab-codex")]);
    let mut cfg = minimal();
    cfg.context_mcp = ContextMcpConfig {
        enabled: true,
        bind: "0.0.0.0:18080".into(),
        route_path: expand_env_vars("/${AB_TEST_APP_NAME}/", &vars),
        token: "secret".into(),
        default_limit: 10,
        max_limit: 20,
        allowed_platforms: vec!["discord".into()],
        allow_normal_channels: true,
        handoff_enabled: true,
        handoff_token_ttl_secs: 120,
        handoff_parent_summary_enabled: true,
        handoff_parent_summary_max_chars: 240,
        inject_into_agent: true,
        agent_url: Some("http://openab-core:18080/openab-codex/".into()),
        agent_server_name: "openab_handoff".into(),
        agent_allowed_tools: vec!["read_current_thread".into()],
    };
    let cfg = complete_config(cfg).unwrap();
    assert!(cfg.context_mcp.enabled);
    assert_eq!(cfg.context_mcp.bind, "0.0.0.0:18080");
    assert_eq!(cfg.context_mcp.route_path, "/openab-codex/");
    assert_eq!(cfg.context_mcp.token, "secret");
    assert_eq!(cfg.context_mcp.default_limit, 10);
    assert_eq!(cfg.context_mcp.max_limit, 20);
    assert_eq!(cfg.context_mcp.allowed_platforms, vec!["discord"]);
    assert!(cfg.context_mcp.allow_normal_channels);
    assert!(cfg.context_mcp.handoff_enabled);
    assert_eq!(cfg.context_mcp.handoff_token_ttl_secs, 120);
    assert!(cfg.context_mcp.handoff_parent_summary_enabled);
    assert_eq!(cfg.context_mcp.handoff_parent_summary_max_chars, 240);
    assert!(cfg.context_mcp.inject_into_agent);
    assert_eq!(
        cfg.context_mcp.agent_url.as_deref(),
        Some("http://openab-core:18080/openab-codex/")
    );
    assert_eq!(cfg.context_mcp.agent_server_name, "openab_handoff");
    assert_eq!(cfg.context_mcp.agent_allowed_tools, vec!["read_current_thread"]);
    assert_eq!(cfg.agent.mcp_servers.len(), 1);
    let server = &cfg.agent.mcp_servers[0];
    assert_eq!(server.name, "openab_handoff");
    assert_eq!(server.transport, "http");
    assert_eq!(server.url, "http://openab-core:18080/openab-codex/");
    assert_eq!(
        server.headers.get("Authorization").map(String::as_str),
        Some("Bearer secret")
    );
    assert_eq!(
        server.allowed_tools,
        vec!["read_current_thread", "handoff_to_thread"]
    );
    let again = complete_config(cfg).unwrap();
    assert_eq!(again.agent.mcp_servers.len(), 1);
}

#[test]
fn agent_mcp_servers_parse_explicit_config() {
    let mut agent = echo();
    agent.mcp_servers.push(AgentMcpServerConfig {
        name: "linear".into(),
        transport: "http".into(),
        url: "https://mcp.linear.app/mcp".into(),
        headers: table(&[("Authorization", "Bearer token")]),
        allowed_tools: vec!["create_issue".into()],
    });
    let cfg = complete_config(config(agent)).unwrap();
    assert_eq!(cfg.agent.mcp_servers.len(), 1);
    let server = &cfg.agent.mcp_servers[0];
    assert_eq!(server.name, "linear");
    assert_eq!(server.transport, "http");
    assert_eq!(server.url, "https://mcp.linear.app/mcp");
    assert_eq!(
        server.headers.get("Authorization").map(String::as_str),
        Some("Bearer token")
    );
    assert_eq!(server.allowed_tools, vec!["create_issue"]);
}

#[test]
fn tool_servers_need_a_name_an_address_and_a_type() {
    let entry = |name: &str, url: &str, transport: &str| AgentMcpServerConfig {
        name: name.into(),
        transport: transport.into(),
        url: url.into(),
        headers: Table::new(),
        allowed_tools: Vec::new(),
    };
    let complain = |e: AgentMcpServerConfig| {
        let mut agent = echo();
        agent.mcp_servers.push(e);
        complete_config(config(agent)).unwrap_err()
    };
    assert!(complain(entry(" ", "u", "http")).contains("non-empty name"));
    assert!(complain(entry("a", " ", "http")).contains("agent.mcp_servers.a.url"));
    assert!(complain(entry("a", "u", "ftp")).contains("agent.mcp_servers.a.type"));
}

fn bucket(enabled: bool) -> S3Config {
    S3Config {
        enabled,
        bucket: Some("bucket".into()),
        region: Some("us-east-1".into()),
        endpoint_url: None,
        force_path_style: false,
        directory: Some("discarded".into()),
        access_key_id: Some("ak".into()),
        secret_access_key: Some("sk".into()),
        session_token: Some("token".into()),
    }
}

#[test]
fn s3_config_requires_enabled_and_required_fields() {
    assert!(bucket(false).offload_settings().is_none());
    let settings = bucket(true).offload_settings().unwrap();
    assert_eq!(settings.bucket, "bucket");
    assert!(!settings.force_path_style);
    assert_eq!(settings.directory, "discarded");
    assert_eq!(settings.access_key_id.as_deref(), Some("ak"));
    assert_eq!(settings.secret_access_key.as_deref(), Some("sk"));
    assert_eq!(settings.session_token.as_deref(), Some("token"));
    let mut lacking = bucket(true);
    lacking.region = Some("  ".into());
    assert!(lacking.offload_settings().is_none());
}

#[test]
fn parse_gateway_config_defaults() {
    let mut cfg = minimal();
    cfg.discord = None;
    cfg.gateway = Some(gateway("ws://gw:8080/ws"));
    let gw = complete_config(cfg).unwrap().gateway.unwrap();
    assert_eq!(gw.url, "ws://gw:8080/ws");
    assert_eq!(gw.platform, "telegram");
    assert!(gw.allowed_users.is_empty());
    assert!(gw.allowed_channels.is_empty());
    assert!(gw.allow_all_users.is_none());
    assert!(gw.allow_all_channels.is_none());
    assert!(resolve_allow_all(gw.allow_all_users, &gw.allowed_users));
    assert!(resolve_allow_all(gw.allow_all_channels, &gw.allowed_channels));
}

#[test]
fn parse_gateway_config_with_allowlists() {
    let mut gw = gateway("ws://gw:8080/ws");
    gw.platform = "line".into();
    gw.allowed_users = vec!["U1".into(), "U2".into()];
    gw.allowed_channels = vec!["C1".into()];
    let mut cfg = minimal();
    cfg.gateway = Some(gw);
    let gw = complete_config(cfg).unwrap().gateway.unwrap();
    assert_eq!(gw.platform, "line");
    assert_eq!(gw.allowed_users, vec!["U1", "U2"]);
    assert_eq!(gw.allowed_channels, vec!["C1"]);
    assert!(!resolve_allow_all(gw.allow_all_users, &gw.allowed_users));
    assert!(!resolve_allow_all(gw.allow_all_channels, &gw.allowed_channels));
}

#[test]
fn parse_gateway_config_explicit_allow_all_overrides_list() {
    let mut gw = gateway("ws://gw:8080/ws");
    gw.allow_all_users = Some(true);
    gw.allowed_users = vec!["U1".into()];
    assert!(resolve_allow_all(gw.allow_all_users, &gw.allowed_users));
}

#[test]
fn platforms_need_room_for_messages() {
    let mut cfg = minimal();
    cfg.slack = Some(slack());
    cfg.slack.as_mut().unwrap().max_batch_tokens = 0;
    assert_eq!(
        complete_config(cfg).unwrap_err(),
        "slack.max_batch_tokens must be > 0"
    );
    let mut cfg = minimal();
    cfg.discord.as_mut().unwrap().max_buffered_messages = 0;
    assert_eq!(
        complete_config(cfg).unwrap_err(),
        "discord.max_buffered_messages must be > 0"
    );
    let mut cfg = minimal();
    cfg.pool.liveness_check_secs = 0;
    assert!(complete_config(cfg).unwrap_err().contains("pool.liveness_check_secs must be > 0"));
}

#[test]
fn tool_display_default_is_full() {
    assert_eq!(ToolDisplay::default(), ToolDisplay::Full);
}

#[test]
fn message_processing_mode_parses_per_message() {
    assert_eq!(
        MessageProcessingMode::parse("per-message"),
        Ok(MessageProcessingMode::Message)
    );
}

#[test]
fn message_processing_mode_parses_per_thread() {
    assert_eq!(
        MessageProcessingMode::parse("per-thread"),
        Ok(MessageProcessingMode::Thread)
    );
}

#[test]
fn message_processing_mode_parses_per_lane() {
    assert_eq!(MessageProcessingMode::parse("per-lane"), Ok(MessageProcessingMode::Lane));
}

#[test]
fn message_processing_mode_batched_is_rejected() {
    assert!(MessageProcessingMode::parse("batched").is_err());
}

#[test]
fn message_processing_mode_default_is_per_message() {
    let cfg = complete_config(minimal()).unwrap();
    assert_eq!(
        cfg.discord.unwrap().message_processing_mode,
        MessageProcessingMode::Message
    );
}

#[test]
fn normal_channel_reply_mode_default_is_thread() {
    let cfg = complete_config(minimal()).unwrap();
    assert_eq!(
        cfg.discord.unwrap().normal_channel_reply_mode,
        DiscordNormalChannelReplyMode::Thread
    );
}

#[test]
fn normal_channel_reply_mode_parses_inline() {
    assert_eq!(
        DiscordNormalChannelReplyMode::parse("inline"),
        Ok(DiscordNormalChannelReplyMode::Inline)
    );
}

#[test]
fn normal_channel_reply_mode_unknown_value_errors() {
    assert!(DiscordNormalChannelReplyMode::parse("channel").is_err());
}

#[test]
fn message_processing_mode_unknown_value_errors() {
    assert!(MessageProcessingMode::parse("bogus").is_err());
}

#[test]
fn stt_echo_transcript_defaults_to_false() {
    let cfg = SttConfig::default();
    assert!(!cfg.echo_transcript, "echo_transcript should default to false");
}

#[test]
fn stt_echo_transcript_respects_explicit_false() {
    let mut cfg = minimal();
    cfg.discord = None;
    cfg.stt.enabled = true;
    cfg.stt.api_key = "test".into();
    cfg.stt.echo_transcript = false;
    let cfg = complete_config(cfg).unwrap();
    assert!(cfg.stt.enabled);
    assert!(!cfg.stt.echo_transcript);
}

#[test]
fn parse_secrets_config() {
    let mut cfg = minimal();
    cfg.secrets = SecretsConfig {
        aws: AwsSecretsConfig {
            region: Some("ap-northeast-1".into()),
            endpoint_url: Some("http://localhost:4566".into()),
        },
        exec_provider: ExecSecretsConfig { timeout_seconds: 15 },
        refs: table(&[
            ("discord_token", "aws-sm://openab/prod#discord_bot_token"),
            (
                "github_pat",
                "exec:///home/agent/.local/bin/get-secret.sh vault/openab github_pat",
            ),
        ]),
    };
    let cfg = complete_config(cfg).unwrap();
    assert_eq!(cfg.secrets.refs.len(), 2);
    assert_eq!(
        cfg.secrets.refs.get("discord_token").unwrap(),
        "aws-sm://openab/prod#discord_bot_token"
    );
    assert_eq!(
        cfg.secrets.refs.get("github_pat").unwrap(),
        "exec:///home/agent/.local/bin/get-secret.sh vault/openab github_pat"
    );
    assert_eq!(cfg.secrets.aws.region.as_deref(), Some("ap-northeast-1"));
    assert_eq!(
        cfg.secrets.aws.endpoint_url.as_deref(),
        Some("http://localhost:4566")
    );
    assert_eq!(cfg.secrets.exec_provider.timeout_seconds, 15);
}

#[test]
fn parse_secrets_config_defaults() {
    let cfg = complete_config(minimal()).unwrap();
    assert_eq!(cfg.secrets.refs.len(), 0);
    assert!(cfg.secrets.aws.region.is_none());
    assert!(cfg.secrets.aws.endpoint_url.is_none());
    assert_eq!(cfg.secrets.exec_provider.timeout_seconds, 10);
}

#[test]
fn slack_assistant_mode_defaults_true_and_parses_false() {
    let cfg = slack();
    assert!(cfg.assistant_mode, "assistant_mode must default to true");
    let mut whole = minimal();
    whole.slack = Some(SlackConfig { assistant_mode: false, ..slack() });
    let whole = complete_config(whole).unwrap();
    assert!(!whole.slack.unwrap().assistant_mode);
    assert_eq!(cfg.normal_channel_reply_mode, SlackNormalChannelReplyMode::Thread);
    assert_eq!(
        SlackNormalChannelReplyMode::parse("inline"),
        Ok(SlackNormalChannelReplyMode::Inline)
    );
}

const ARN: &str = "arn:aws:bedrock-agentcore:us-east-1:123456789012:runtime/my-agent";

#[test]
fn agentcore_config_synthesizes_agent_command() {
    let cfg = complete_config(with_runtime(ARN)).unwrap();
    assert_eq!(cfg.agent.command, "uv");
    assert!(cfg.agent.args.contains(&"--runtime-arn".to_string()));
    assert!(cfg.agent.args.contains(&ARN.to_string()));
}

#[test]
fn agentcore_config_does_not_override_explicit_agent() {
    let mut agent = AgentConfigRaw::empty();
    agent.command = Some("my-custom-agent".into());
    let mut cfg = config(agent);
    cfg.agentcore = with_runtime(ARN).agentcore;
    assert_eq!(complete_config(cfg).unwrap().agent.command, "my-custom-agent");
}

#[test]
fn agentcore_config_defaults() {
    let cfg = complete_config(with_runtime(
        "arn:aws:bedrock-agentcore:us-east-1:123456789012:runtime/test",
    ))
    .unwrap();
    let ac = cfg.agentcore.unwrap();
    assert_eq!(ac.region(), "us-east-1");
    assert_eq!(ac.cancel_strategy, AgentCoreCancelStrategy::Stop);
}

#[test]
fn agentcore_rejects_invalid_arn() {
    let err = complete_config(with_runtime("not-a-valid-arn")).unwrap_err();
    assert!(err.contains("not a valid AgentCore Runtime ARN"));
}

#[test]
fn agentcore_rejects_arn_wrong_service() {
    let err = complete_config(with_runtime("arn:aws:s3:us-east-1:123456789012:bucket/my-bucket"))
        .unwrap_err();
    assert!(err.contains("not a valid AgentCore Runtime ARN"));
}

#[test]
fn agentcore_rejects_arn_missing_runtime_prefix() {
    let err = complete_config(with_runtime(
        "arn:aws:bedrock-agentcore:us-east-1:123456789012:agent/my-agent",
    ))
    .unwrap_err();
    assert!(err.contains("not a valid AgentCore Runtime ARN"));
}

#[test]
fn agentcore_rejects_invalid_cancel_strategy() {
    assert_eq!(AgentCoreCancelStrategy::parse("stopp"), Err("stopp".to_string()));
}

#[test]
fn agentcore_extracts_region_from_arn() {
    let cfg = complete_config(with_runtime(
        "arn:aws:bedrock-agentcore:ap-northeast-1:123456789012:runtime/tokyo-agent",
    ))
    .unwrap();
    assert!(cfg.agent.args.contains(&"ap-northeast-1".to_string()));
}

#[test]
fn agentcore_cancel_strategy_noop() {
    assert_eq!(
        AgentCoreCancelStrategy::parse("noop"),
        Ok(AgentCoreCancelStrategy::Noop)
    );
    assert_eq!(AgentCoreCancelStrategy::Noop.to_text(), "noop");
}

#[test]
fn words_of_settings_are_read() {
    assert_eq!(OnFailure::parse("ignore").is_ok(), false);
    assert_eq!(ToolDisplay::parse("none"), Ok(ToolDisplay::Hidden));
    assert_eq!(AllowBots::parse("all"), Ok(AllowBots::All));
    assert_eq!(AllowUsers::parse("multibot-mentions"), Ok(AllowUsers::MultibotMentions));
    assert_eq!(AgentTransport::parse("websocket"), Ok(AgentTransport::WebSocket));
}

#[test]
fn a_platform_is_needed() {
    let mut cfg = minimal();
    assert!(check_adapters(&cfg).is_ok());
    assert_eq!(configured_platforms(&cfg), ["discord"]);
    cfg.slack = Some(slack());
    assert_eq!(configured_platforms(&cfg), ["discord", "slack"]);
    cfg.discord = None;
    cfg.slack = None;
    assert_eq!(
        check_adapters(&cfg).unwrap_err(),
        "no adapter configured — add [discord], [slack], and/or [gateway] to config.toml"
    );
    cfg.gateway = Some(gateway("ws://gw"));
    assert!(check_adapters(&cfg).is_ok());
    assert!(configured_platforms(&cfg).is_empty());
}

#[test]
fn lists_decide_who_is_answered() {
    let mut d = discord("t");
    d.allowed_users = vec!["7".into(), "x".into()];
    let gate = discord_gate(&d, 1).unwrap();
    assert!(gate.allow_all_channels);
    assert!(!gate.allow_all_users);
    assert_eq!(gate.bot_id, 1);
    assert!(gate.allowed_users.contains(&7));
    assert_eq!(gate.allowed_users.len(), 1);
    d.allowed_role_ids = vec!["x".into()];
    assert_eq!(
        discord_gate(&d, 1).unwrap_err(),
        "all discord.allowed_role_ids entries failed to parse — refusing to start with an empty allowlist"
    );

    let mut g = gateway("ws://gw");
    g.allowed_channels = vec!["c".into()];
    let params = gateway_params(g, SttConfig::default());
    assert!(!params.allow_all_channels);
    assert!(params.allow_all_users);
    assert_eq!(params.url, "ws://gw");
}

#[test]
fn table_modes_are_read() {
    assert_eq!(MarkdownConfig::default().tables, TableMode::Code);
    assert_eq!(TableMode::parse("Bullets"), Ok(TableMode::Bullets));
    assert_eq!(TableMode::parse("off"), Ok(TableMode::Off));
    assert_eq!(TableMode::parse("html"), Err("html".to_string()));
}
