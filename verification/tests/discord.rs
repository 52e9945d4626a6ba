//! The Discord side: mentions, threads, who is answered, history and exports.

use openab::adapter::{ChannelRef, ChatAdapter, ContentBlock};
use openab::bot_turns::{
    BotTurnTracker, TurnResult, BOT_TURN_LIMIT_WARNING_PREFIX, HARD_BOT_TURN_LIMIT,
};
use openab::commands::{
    build_config_components, build_config_select, claim_reminders, parse_page_request,
    route_command, route_component, route_modal, ConfigOption, ConfigValue, Route,
    HISTORY_BUTTON_PREFIX,
};
use openab::config::{AllowBots, AllowUsers, DiscordNormalChannelReplyMode};
use openab::discord::{
    build_sender_context, inline_discord_session_key, is_thread_already_exists_error,
    resolve_mentions, should_skip_thread_creation, should_use_inline_normal_channel_reply,
    thread_title, video_attachment_block, DiscordAdapter,
};
use openab::discord_gate::{
    detect_thread, is_denied_user, is_trusted_bot_mention, on_channel, on_message,
    should_process_bot_message, should_process_dm, should_process_user_message,
    turn_limit_warning_present, Arrival, ChannelKind, Gate, GateStep, Verdict,
};
use openab::export::{
    assemble_export, build_history_buttons, build_history_prompt, export_channel_messages,
    export_target, format_export_message, handle_export_thread_command, handle_history_modal,
    history_button_id, history_modal_id, modal_input_value, parse_history_button_custom_id,
    parse_history_modal_custom_id, sanitize_filename_component, sort_by_id,
    timestamp_ms_to_snowflake, ExportAttachment, ExportFilter, ExportMessage, ExportRun,
    FetchStep, FormField, HistorySelectionMode, DISCORD_EPOCH_MS, THREAD_EXPORT_MESSAGE_LIMIT,
};
use openab::table::Table;
use std::collections::HashSet;


const BOT: u64 = 1000;
const OTHER: u64 = 2000;
const PARENT_CH: u64 = 100;
const CATEGORY: u64 = 200;

fn allowed(ids: &[u64]) -> HashSet<u64> {
    ids.iter().copied().collect()
}

fn should_admit_bot_message(
    allow_bot_messages: AllowBots,
    is_mentioned: bool,
    trusted_bot_ids: &HashSet<u64>,
    author_id: u64,
) -> bool {
    should_process_bot_message(allow_bot_messages, is_mentioned, trusted_bot_ids, author_id, false)
}

#[test]
fn resolve_mentions_strips_bot_mention() {
    let bot_id = 111;
    let result = resolve_mentions("hello <@111> world", bot_id, &HashSet::new());
    assert_eq!(result, "hello  world");
}

#[test]
fn resolve_mentions_strips_bot_mention_legacy() {
    let bot_id = 111;
    let result = resolve_mentions("hello <@!111> world", bot_id, &HashSet::new());
    assert_eq!(result, "hello  world");
}

#[test]
fn resolve_mentions_preserves_other_user_mentions() {
    let bot_id = 111;
    let result = resolve_mentions("<@111> say hi to <@222>", bot_id, &HashSet::new());
    assert_eq!(result, "say hi to <@222>");
}

#[test]
fn resolve_mentions_replaces_role_mentions() {
    let bot_id = 111;
    let result = resolve_mentions("hello <@&999>", bot_id, &HashSet::new());
    assert_eq!(result, "hello @(role)");
}

#[test]
fn resolve_mentions_empty_after_strip() {
    let bot_id = 111;
    let result = resolve_mentions("<@111>", bot_id, &HashSet::new());
    assert_eq!(result, "");
}

#[test]
fn resolve_mentions_strips_allowed_role() {
    let bot_id = 111;
    let roles: HashSet<u64> = [999].into_iter().collect();
    let result = resolve_mentions("hello <@&999> world", bot_id, &roles);
    assert_eq!(result, "hello  world");
}

#[test]
fn resolve_mentions_keeps_other_roles_as_placeholder() {
    let bot_id = 111;
    let roles: HashSet<u64> = [999].into_iter().collect();
    let result = resolve_mentions("<@&999> check <@&888>", bot_id, &roles);
    assert_eq!(result, "check @(role)");
}

#[test]
fn video_attachment_block_includes_actionable_metadata() {
    let block = video_attachment_block(
        "demo.mp4",
        Some("video/mp4"),
        12345,
        "https://cdn.discordapp.com/attachments/demo.mp4",
    );

    let ContentBlock::Text { text } = block else {
        panic!("video attachments must be forwarded as text metadata");
    };

    assert!(text.contains("[Video attachment]"));
    assert!(text.contains("filename: demo.mp4"));
    assert!(text.contains("content_type: video/mp4"));
    assert!(text.contains("size_bytes: 12345"));
    assert!(text.contains("url: https://cdn.discordapp.com/attachments/demo.mp4"));
}

#[test]
fn is_thread_already_exists_matches_code() {
    let err = r#"HTTP error: {"code": 160004, "message": "A thread has already been created for this message."}"#;
    assert!(is_thread_already_exists_error(err));
}

#[test]
fn is_thread_already_exists_matches_message() {
    let err = "A thread has already been created for this message.";
    assert!(is_thread_already_exists_error(err));
}

#[test]
fn is_thread_already_exists_ignores_other_errors() {
    let err = "Missing Permissions";
    assert!(!is_thread_already_exists_error(err));
    let err = "rate limit exceeded";
    assert!(!is_thread_already_exists_error(err));
}

#[test]
fn sanitize_filename_component_keeps_safe_ascii() {
    assert_eq!(
        sanitize_filename_component("release notes_v2"),
        "release-notes_v2"
    );
}

#[test]
fn sanitize_filename_component_falls_back_for_empty_result() {
    let result = sanitize_filename_component("///...");
    // Fallback is a YYYYMMDD date string
    assert_eq!(result.len(), 8);
    assert!(result.chars().all(|c| c.is_ascii_digit()));
}

#[test]
fn assemble_export_empty_entries_returns_header_only() {
    let (out, written, truncated) = assemble_export("HDR\n", &[], 1024);
    assert_eq!(out, "HDR\n");
    assert_eq!(written, 0);
    assert!(!truncated);
}

#[test]
fn assemble_export_single_oversized_entry_writes_zero_and_marks_truncated() {
    let entries = vec!["x".repeat(200)];
    let (out, written, truncated) = assemble_export("h\n", &entries, 50);
    assert_eq!(written, 0);
    assert!(truncated);
    // Footer needs ~56 bytes; max_bytes 50 leaves ≤48 of room, so it is
    // intentionally omitted (it can't be appended without exceeding the
    // limit). The header is still present.
    assert!(out.starts_with("h\n"));
    assert!(!out.contains("xx"));
}

#[test]
fn assemble_export_entry_at_exact_boundary_is_included() {
    // header(2) + entry(3) == max_bytes(5); the strict-greater check
    // keeps the entry in.
    let (out, written, truncated) = assemble_export("h\n", &["abc".to_string()], 5);
    assert_eq!(written, 1);
    assert!(!truncated);
    assert_eq!(out, "h\nabc");
}

#[test]
fn assemble_export_entry_one_byte_over_boundary_is_excluded() {
    // header(2) + entry(4) == 6 > max_bytes(5); entry is dropped.
    let (out, written, truncated) = assemble_export("h\n", &["abcd".to_string()], 5);
    assert_eq!(written, 0);
    assert!(truncated);
    assert!(out.starts_with("h\n"));
    assert!(!out.contains("abcd"));
}

#[test]
fn assemble_export_appends_footer_when_room_remains() {
    // First two short entries fit; the long third entry would overflow,
    // and the remaining headroom is enough for the truncation footer.
    let entries = vec!["a\n".to_string(), "b\n".to_string(), "c".repeat(500)];
    let (out, written, truncated) = assemble_export("h\n", &entries, 200);
    assert_eq!(written, 2);
    assert!(truncated);
    assert!(out.contains("[Export truncated"));
}

#[test]
fn timestamp_ms_to_snowflake_known_value() {
    // 2026-05-10 00:00:00 UTC = 1778572800000 ms since Unix epoch
    // Discord ms = 1778572800000 - 1420070400000 = 358502400000
    // Snowflake = 358502400000 << 22 = 1503238553600000000 (approx)
    let ts_ms: u64 = 1_778_572_800_000;
    let snowflake = timestamp_ms_to_snowflake(ts_ms);
    // Verify round-trip: extract timestamp back from snowflake
    let extracted_ms = (snowflake >> 22) + DISCORD_EPOCH_MS;
    assert_eq!(extracted_ms, ts_ms);
}

#[test]
fn timestamp_ms_to_snowflake_at_discord_epoch_is_one() {
    // At exactly the Discord epoch, discord_ms=0, shifted=0, clamped to 1
    let snowflake = timestamp_ms_to_snowflake(DISCORD_EPOCH_MS);
    assert_eq!(snowflake, 1);
}

#[test]
fn timestamp_ms_to_snowflake_before_epoch_saturates() {
    // Timestamp before Discord epoch should saturate to 1
    let snowflake = timestamp_ms_to_snowflake(1_000_000_000_000);
    assert_eq!(snowflake, 1);
}

#[test]
fn export_filter_default_cap_is_100() {
    // Default (no params) uses Limit(100)
    let filter = ExportFilter::Limit(100);
    let cap = filter.cap();
    assert_eq!(cap, 100);
}

#[test]
fn export_filter_all_cap_is_5000() {
    let filter = ExportFilter::All;
    let cap = filter.cap();
    assert_eq!(cap, THREAD_EXPORT_MESSAGE_LIMIT);
    assert_eq!(cap, 5000);
}

#[test]
fn export_filter_limit_uses_custom_cap() {
    let filter = ExportFilter::Limit(250);
    let cap = filter.cap();
    assert_eq!(cap, 250);
}

#[test]
fn export_filter_after_uses_global_cap() {
    let filter = ExportFilter::After(123456789);
    let cap = filter.cap();
    assert_eq!(cap, THREAD_EXPORT_MESSAGE_LIMIT);
}

#[test]
fn multibot_mentions_single_bot_thread_no_mention() {
    assert!(should_process_user_message(
        AllowUsers::MultibotMentions,
        false, // is_mentioned
        true,  // in_thread
        true,  // involved
        false, // other_bot_present
    ));
}

#[test]
fn multibot_mentions_multi_bot_thread_no_mention() {
    assert!(!should_process_user_message(
        AllowUsers::MultibotMentions,
        false, // is_mentioned
        true,  // in_thread
        true,  // involved
        true,  // other_bot_present ← another bot posted
    ));
}

#[test]
fn multibot_mentions_multi_bot_thread_with_mention() {
    assert!(should_process_user_message(
        AllowUsers::MultibotMentions,
        true, // is_mentioned
        true, // in_thread
        true, // involved
        true, // other_bot_present
    ));
}

#[test]
fn multibot_mentions_main_channel_no_mention() {
    assert!(!should_process_user_message(
        AllowUsers::MultibotMentions,
        false, // is_mentioned
        false, // in_thread (main channel)
        false, // involved
        false, // other_bot_present
    ));
}

#[test]
fn multibot_mentions_not_involved() {
    assert!(!should_process_user_message(
        AllowUsers::MultibotMentions,
        false, // is_mentioned
        true,  // in_thread
        false, // involved ← bot hasn't posted here
        false, // other_bot_present
    ));
}

#[test]
fn involved_mode_ignores_multibot() {
    assert!(should_process_user_message(
        AllowUsers::Involved,
        false, // is_mentioned
        true,  // in_thread
        true,  // involved
        true,  // other_bot_present ← ignored in involved mode
    ));
}

#[test]
fn mentions_mode_always_requires_mention() {
    assert!(!should_process_user_message(
        AllowUsers::Mentions,
        false, // is_mentioned
        true,  // in_thread
        true,  // involved
        false, // other_bot_present
    ));
}

#[test]
fn build_sender_context_in_thread() {
    let ctx = build_sender_context(
        "user1",
        "alice",
        "Alice",
        "thread_ch",
        Some("parent_ch"),
        false,
        "2026-05-01T00:00:00Z",
        "msg123",
        "bot99",
    );
    assert_eq!(ctx.channel_id, "parent_ch");
    assert_eq!(ctx.thread_id, Some("thread_ch".to_string()));
    assert_eq!(ctx.channel, "discord");
    assert_eq!(ctx.sender_id, "user1");
    assert!(!ctx.is_bot);
    assert_eq!(ctx.receiver_id, Some("bot99".to_string()));
}

#[test]
fn build_sender_context_not_in_thread() {
    let ctx = build_sender_context(
        "user1",
        "alice",
        "Alice",
        "main_ch",
        None,
        false,
        "2026-05-01T00:00:00Z",
        "msg456",
        "bot99",
    );
    assert_eq!(ctx.channel_id, "main_ch");
    assert_eq!(ctx.thread_id, None);
}

#[test]
fn build_sender_context_bot_sender() {
    let ctx = build_sender_context(
        "bot1",
        "mybot",
        "MyBot",
        "ch",
        Some("parent"),
        true,
        "2026-05-01T00:00:00Z",
        "msg789",
        "bot99",
    );
    assert!(ctx.is_bot);
    assert_eq!(ctx.channel_id, "parent");
    assert_eq!(ctx.thread_id, Some("ch".to_string()));
}

struct Case {
    name: &'static str,
    has_thread_metadata: bool,
    parent_id: Option<u64>,
    owner_id: Option<u64>,
    bot_id: u64,
    allowed_channels: HashSet<u64>,
    allow_all: bool,
    in_allowed: bool,
    expect: (bool, Option<bool>),
}

#[test]
fn detect_thread_table() {
    let cases = vec![
        // --- Non-thread channels: thread_metadata = None ---
        Case {
            name: "text channel under category (regression #506)",
            has_thread_metadata: false,
            parent_id: Some(CATEGORY), // points to category, NOT a thread
            owner_id: None,
            bot_id: BOT,
            allowed_channels: allowed(&[]),
            allow_all: false,
            in_allowed: true,
            expect: (false, None),
        },
        Case {
            name: "top-level text channel (no category)",
            has_thread_metadata: false,
            parent_id: None,
            owner_id: None,
            bot_id: BOT,
            allowed_channels: allowed(&[]),
            allow_all: false,
            in_allowed: true,
            expect: (false, None),
        },
        Case {
            name: "voice channel under category",
            has_thread_metadata: false,
            parent_id: Some(CATEGORY),
            owner_id: None,
            bot_id: BOT,
            allowed_channels: allowed(&[]),
            allow_all: false,
            in_allowed: false,
            expect: (false, None),
        },
        // --- Thread channels: thread_metadata = Some ---
        Case {
            name: "public thread, parent in allowlist, bot owns",
            has_thread_metadata: true,
            parent_id: Some(PARENT_CH),
            owner_id: Some(BOT),
            bot_id: BOT,
            allowed_channels: allowed(&[PARENT_CH]),
            allow_all: false,
            in_allowed: false,
            expect: (true, Some(true)),
        },
        Case {
            name: "public thread, parent in allowlist, other user owns",
            has_thread_metadata: true,
            parent_id: Some(PARENT_CH),
            owner_id: Some(OTHER),
            bot_id: BOT,
            allowed_channels: allowed(&[PARENT_CH]),
            allow_all: false,
            in_allowed: false,
            expect: (true, Some(false)),
        },
        Case {
            name: "thread, parent NOT in allowlist, not allow_all",
            has_thread_metadata: true,
            parent_id: Some(PARENT_CH),
            owner_id: Some(BOT),
            bot_id: BOT,
            allowed_channels: allowed(&[]),
            allow_all: false,
            in_allowed: false,
            expect: (false, Some(true)),
        },
        Case {
            name: "thread, allow_all_channels = true",
            has_thread_metadata: true,
            parent_id: Some(PARENT_CH),
            owner_id: Some(OTHER),
            bot_id: BOT,
            allowed_channels: allowed(&[]),
            allow_all: true,
            in_allowed: false,
            expect: (true, Some(false)),
        },
        Case {
            name: "thread, in_allowed_channel = true (parent is the allowed channel)",
            has_thread_metadata: true,
            parent_id: Some(PARENT_CH),
            owner_id: None,
            bot_id: BOT,
            allowed_channels: allowed(&[]),
            allow_all: false,
            in_allowed: true,
            expect: (true, Some(false)),
        },
        // --- Defensive: partial data ---
        Case {
            name: "thread with parent_id = None (defensive, partial API data)",
            has_thread_metadata: true,
            parent_id: None,
            owner_id: Some(BOT),
            bot_id: BOT,
            allowed_channels: allowed(&[PARENT_CH]),
            allow_all: false,
            in_allowed: false,
            expect: (false, Some(true)), // can't verify parent → not allowed, but bot still owns
        },
    ];

    for c in &cases {
        let result = detect_thread(
            c.has_thread_metadata,
            c.parent_id,
            c.owner_id,
            c.bot_id,
            &c.allowed_channels,
            c.allow_all,
            c.in_allowed,
        );
        assert_eq!(result, c.expect, "FAILED: {}", c.name);
    }
}

#[test]
fn detect_thread_rejects_category_child_in_warn_and_stop() {
    let category_id: u64 = 200;
    let allowed = HashSet::from([category_id]);
    // Category child: has parent_id (the category) but NO thread_metadata.
    let (in_thread, _) =
        detect_thread(false, Some(category_id), None, 1000, &allowed, false, false);
    assert!(
        !in_thread,
        "category child must not match allowed_channels via parent_id"
    );
}

#[test]
fn discord_streams_when_no_other_bot() {
    let adapter = DiscordAdapter::new();
    assert!(adapter.use_streaming(false));
}

#[test]
fn discord_no_stream_when_other_bot_present() {
    let adapter = DiscordAdapter::new();
    assert!(!adapter.use_streaming(true));
}

#[test]
fn resolve_channel_uses_channel_id_when_no_thread() {
    let ch = ChannelRef {
        platform: "discord".into(),
        channel_id: "111".into(),
        thread_id: None,
        parent_id: None,
        origin_event_id: None,
    };
    assert_eq!(ch.resolve_channel(), "111");
}

#[test]
fn resolve_channel_prefers_thread_id_when_set() {
    let ch = ChannelRef {
        platform: "discord".into(),
        channel_id: "111".into(),
        thread_id: Some("222".into()),
        parent_id: None,
        origin_event_id: None,
    };
    assert_eq!(ch.resolve_channel(), "222");
}

#[test]
fn denied_user_human_not_in_allowlist() {
    let allowed = HashSet::from([100]);
    assert!(is_denied_user(false, false, &allowed, 999));
}

#[test]
fn denied_user_human_in_allowlist() {
    let allowed = HashSet::from([100]);
    assert!(!is_denied_user(false, false, &allowed, 100));
}

#[test]
fn denied_user_bot_skips_allowlist() {
    let allowed = HashSet::from([100]);
    assert!(!is_denied_user(true, false, &allowed, 999));
}

#[test]
fn trusted_bot_mention_bypasses_gate() {
    let trusted = HashSet::from([42]);
    assert!(is_trusted_bot_mention(true, &trusted, 42));
}

#[test]
fn untrusted_bot_mention_no_bypass() {
    let trusted = HashSet::from([42]);
    assert!(!is_trusted_bot_mention(true, &trusted, 99));
}

#[test]
fn trusted_bot_no_mention_no_bypass() {
    let trusted = HashSet::from([42]);
    assert!(!is_trusted_bot_mention(false, &trusted, 42));
}

#[test]
fn empty_trusted_ids_no_bypass() {
    let trusted: HashSet<u64> = HashSet::new();
    assert!(!is_trusted_bot_mention(true, &trusted, 42));
}

#[test]
fn bot_admission_trusted_mention_overrides_off() {
    let trusted = HashSet::from([42]);
    assert!(should_admit_bot_message(AllowBots::Off, true, &trusted, 42));
}

#[test]
fn bot_admission_untrusted_mention_blocked_by_off() {
    let trusted = HashSet::from([42]);
    assert!(!should_admit_bot_message(
        AllowBots::Off,
        true,
        &trusted,
        99
    ));
}

#[test]
fn bot_admission_trusted_no_mention_blocked_by_off() {
    let trusted = HashSet::from([42]);
    assert!(!should_admit_bot_message(
        AllowBots::Off,
        false,
        &trusted,
        42
    ));
}

#[test]
fn bot_admission_empty_trusted_ids_off_mode() {
    let trusted: HashSet<u64> = HashSet::new();
    assert!(!should_admit_bot_message(
        AllowBots::Off,
        true,
        &trusted,
        42
    ));
}

#[test]
fn bot_admission_mentions_mode_trusted_mention() {
    let trusted = HashSet::from([42]);
    assert!(should_admit_bot_message(
        AllowBots::Mentions,
        true,
        &trusted,
        42
    ));
}

#[test]
fn bot_admission_all_mode_untrusted_bot_rejected() {
    let trusted = HashSet::from([42]);
    assert!(!should_admit_bot_message(
        AllowBots::All,
        false,
        &trusted,
        99
    ));
}

#[test]
fn dm_rejected_when_allow_dm_false() {
    assert!(!should_process_dm(false));
}

#[test]
fn dm_accepted_when_allow_dm_true() {
    assert!(should_process_dm(true));
}

#[test]
fn dm_denied_user_still_enforced() {
    let allowed = HashSet::from([100]);
    // DM passes allow_dm gate, but user gate still applies
    assert!(should_process_dm(true));
    assert!(is_denied_user(false, false, &allowed, 999));
}

#[test]
fn dm_allowed_user_passes() {
    let allowed = HashSet::from([100]);
    assert!(should_process_dm(true));
    assert!(!is_denied_user(false, false, &allowed, 100));
}

#[test]
fn dm_must_bypass_user_message_gating() {
    // Without the `!is_dm` bypass, a DM would be rejected by Involved mode
    // because is_mentioned=false and in_thread=false.
    assert!(!should_process_user_message(
        AllowUsers::Involved,
        false, // is_mentioned (DMs don't have @mention)
        false, // in_thread (DMs are not threads)
        false, // involved
        false, // other_bot_present
    ));
}

#[test]
fn dm_skips_thread_creation() {
    assert!(should_skip_thread_creation(false, true));
}

#[test]
fn existing_thread_skips_thread_creation() {
    assert!(should_skip_thread_creation(true, false));
}

#[test]
fn normal_channel_creates_thread() {
    assert!(!should_skip_thread_creation(false, false));
}

#[test]
fn normal_channel_default_reply_mode_uses_thread_creation() {
    assert!(!should_use_inline_normal_channel_reply(
        false,
        false,
        DiscordNormalChannelReplyMode::Thread
    ));
    assert!(!should_skip_thread_creation(false, false));
}

#[test]
fn normal_channel_explicit_thread_reply_mode_uses_thread_creation() {
    assert!(!should_use_inline_normal_channel_reply(
        false,
        false,
        DiscordNormalChannelReplyMode::Thread
    ));
}

#[test]
fn normal_channel_inline_reply_mode_uses_current_channel() {
    assert!(should_use_inline_normal_channel_reply(
        false,
        false,
        DiscordNormalChannelReplyMode::Inline
    ));
}

#[test]
fn existing_thread_ignores_inline_reply_mode() {
    assert!(!should_use_inline_normal_channel_reply(
        true,
        false,
        DiscordNormalChannelReplyMode::Inline
    ));
    assert!(should_skip_thread_creation(true, false));
}

#[test]
fn dm_ignores_inline_reply_mode() {
    assert!(!should_use_inline_normal_channel_reply(
        false,
        true,
        DiscordNormalChannelReplyMode::Inline
    ));
    assert!(should_skip_thread_creation(false, true));
}

#[test]
fn inline_session_key_is_deterministic_and_distinct_from_thread_key() {
    let inline = inline_discord_session_key(123);
    assert_eq!(inline, "discord-inline:123");
    assert_ne!(inline, "discord:123");
}

#[test]
fn dedup_detects_existing_bot_warning() {
    let msg = format!(
        "{} (20/20). A human must reply.",
        BOT_TURN_LIMIT_WARNING_PREFIX
    );
    assert!(turn_limit_warning_present(&vec![(true, msg)]));
}

#[test]
fn dedup_ignores_human_warning_text() {
    let msg = format!(
        "{} (20/20). A human must reply.",
        BOT_TURN_LIMIT_WARNING_PREFIX
    );
    assert!(!turn_limit_warning_present(&vec![(false, msg)]));
}

#[test]
fn dedup_returns_false_when_no_warning() {
    assert!(!turn_limit_warning_present(&vec![
        (true, "hello".to_string()),
        (false, "world".to_string())
    ]));
}

#[test]
fn dedup_returns_false_for_empty_messages() {
    assert!(!turn_limit_warning_present(&Vec::new()));
}

#[test]
fn parse_history_button_custom_id_round_trip() {
    let custom_id = format!(
        "{HISTORY_BUTTON_PREFIX}{}:{}",
        HistorySelectionMode::Before20.code(),
        123456789012345678u64
    );
    let parsed = parse_history_button_custom_id(&custom_id)
        .expect("history button id should parse");
    assert!(matches!(parsed.0, HistorySelectionMode::Before20));
    assert_eq!(parsed.1, 123456789012345678);
}

#[test]
fn parse_history_button_custom_id_rejects_invalid_shape() {
    assert!(parse_history_button_custom_id("ctxhist:bogus").is_none());
    assert!(parse_history_button_custom_id("bogus:b10:123").is_none());
}

fn message(id: u64, content: &str) -> ExportMessage {
    ExportMessage {
        id,
        timestamp: "2026-05-10T00:00:00Z".into(),
        author_name: "alice".into(),
        author_id: 7,
        author_is_bot: false,
        content: content.into(),
        attachments: Vec::new(),
    }
}

#[test]
fn a_message_is_written_out_with_its_files() {
    let mut m = message(1, "");
    m.author_is_bot = true;
    m.attachments.push(ExportAttachment {
        filename: "a.txt".into(),
        size: 12,
        content_type: None,
        url: "https://cdn/a.txt".into(),
    });
    assert_eq!(
        format_export_message(&m),
        "[2026-05-10T00:00:00Z] alice [bot] (7)\n(no text)\n[attachment] a.txt (12 bytes, unknown): https://cdn/a.txt\n\n"
    );
}

#[test]
fn an_export_never_grows_past_its_size() {
    let entries: Vec<String> = (0..40).map(|_| "é".repeat(30)).collect();
    for max in [10usize, 70, 130, 500, 5000] {
        let (out, _, _) = assemble_export("h\n", &entries, max);
        assert!(out.len() <= max);
    }
}

#[test]
fn export_options_are_checked_in_order() {
    let now: u64 = 1_778_572_800_000;
    let ask = |limit, since, days, all| {
        handle_export_thread_command(false, true, limit, since, days, all, now)
    };
    assert_eq!(ask(None, None, None, false), Ok(ExportFilter::Limit(100)));
    assert_eq!(ask(None, None, None, true), Ok(ExportFilter::All));
    assert_eq!(ask(Some(7), None, None, false), Ok(ExportFilter::Limit(7)));
    assert_eq!(
        ask(Some(0), None, None, false),
        Err("⚠️ `limit` must be between 1 and 5000.".to_string())
    );
    assert_eq!(ask(None, Some("42"), None, false), Ok(ExportFilter::After(42)));
    assert!(ask(None, Some("0"), None, false).unwrap_err().contains("`since` must be"));
    assert_eq!(
        ask(None, None, Some(1), false),
        Ok(ExportFilter::After((now - 86_400_000 - DISCORD_EPOCH_MS) << 22))
    );
    assert_eq!(
        ask(None, None, Some(366), false),
        Err("⚠️ `days` must be between 1 and 365.".to_string())
    );
    assert!(ask(Some(1), None, None, true).unwrap_err().contains("only one filter"));
    assert_eq!(
        handle_export_thread_command(true, true, None, None, None, false, now),
        Err("🚫 You are not allowed to use this bot.".to_string())
    );
    assert_eq!(
        handle_export_thread_command(false, false, None, None, None, false, now),
        Err("⚠️ Run this command inside an allowed Discord thread or DM.".to_string())
    );
}

#[test]
fn an_export_fetches_page_by_page_and_puts_the_oldest_first() {
    let mut run = ExportRun::new(ExportFilter::Limit(3));
    assert_eq!(run.next_step(), FetchStep::Fetch { before: None, limit: 3 });
    run.on_batch(vec![message(30, "c"), message(20, "b"), message(10, "a")], 3);
    assert_eq!(run.next_step(), FetchStep::Probe { before: Some(10) });
    run.on_probe(Some(&vec![5]));
    assert_eq!(run.next_step(), FetchStep::Finished);
    let result = export_channel_messages(run, 9, "release notes", 1_000_000);
    assert_eq!(result.filename, "discord-thread-release-notes-9.txt");
    assert_eq!(result.fetched, 3);
    assert_eq!(result.written, 3);
    assert!(result.hit_cap);
    assert!(!result.byte_truncated);
    let a = result.transcript.find("a\n").unwrap();
    let c = result.transcript.rfind("c\n").unwrap();
    assert!(a < c);
}

#[test]
fn an_export_stops_at_its_boundary() {
    let mut run = ExportRun::new(ExportFilter::After(15));
    assert_eq!(run.next_step(), FetchStep::Fetch { before: None, limit: 100 });
    run.on_batch(vec![message(30, "c"), message(20, "b"), message(10, "a")], 3);
    assert_eq!(run.next_step(), FetchStep::Finished);
    let (messages, cut) = run.finish();
    assert_eq!(messages.iter().map(|m| m.id).collect::<Vec<_>>(), vec![20, 30]);
    assert!(!cut);
}

#[test]
fn a_full_export_with_nothing_behind_it_is_not_cut() {
    let mut run = ExportRun::new(ExportFilter::Limit(1));
    run.on_batch(vec![message(30, "c")], 1);
    assert_eq!(run.next_step(), FetchStep::Probe { before: Some(30) });
    run.on_probe(Some(&Vec::new()));
    assert_eq!(run.next_step(), FetchStep::Finished);
    assert!(!run.finish().1);
}

#[test]
fn file_names_are_cut_to_sixty_four() {
    assert_eq!(sanitize_filename_component(&"a".repeat(100)).len(), 64);
    assert_eq!(sanitize_filename_component("--a.b--"), "a-b");
}

#[test]
fn history_ids_read_back_as_they_were_made() {
    for mode in [
        HistorySelectionMode::Before10,
        HistorySelectionMode::Before20,
        HistorySelectionMode::ToNow,
        HistorySelectionMode::Recent100,
    ] {
        assert_eq!(
            parse_history_button_custom_id(&history_button_id(mode, 77)),
            Some((mode, 77))
        );
        assert_eq!(
            parse_history_modal_custom_id(&history_modal_id(mode, 77)),
            Some((mode, 77))
        );
    }
    let rows = build_history_buttons(77);
    assert_eq!(rows[1][0].custom_id, "ctxhist:tonow:77");
    assert_eq!(rows[0][1].label, "前 20 条");
    assert!(rows[0][0].primary && !rows[1][1].primary);
}

#[test]
fn the_first_filled_field_of_a_form_counts() {
    let field = |id: &str, value: Option<&str>| FormField {
        custom_id: id.into(),
        value: value.map(|v| v.to_string()),
    };
    let fields = vec![field("other", Some("x")), field("prompt", None), field("prompt", Some("go"))];
    assert_eq!(modal_input_value(&fields, "prompt").as_deref(), Some("go"));
    assert_eq!(modal_input_value(&fields, "absent"), None);
}

#[test]
fn messages_are_put_in_order() {
    let sorted = sort_by_id(vec![message(3, "c"), message(1, "a"), message(2, "b")]);
    assert_eq!(sorted.iter().map(|m| m.id).collect::<Vec<_>>(), vec![1, 2, 3]);
}

#[test]
fn a_picked_message_comes_with_its_history() {
    let g = gate();
    let target = message(5, "  what now?  ");
    let place = openab::discord_gate::inspect_context_channel(&g, 100, &guild(false, None));
    let plan = handle_history_modal(
        &target,
        100,
        place,
        Ok(vec![message(5, "what now?"), message(4, "before")]),
        HistorySelectionMode::Before10,
        "",
    )
    .unwrap();
    assert!(!plan.in_place);
    assert!(plan.prompt.contains("User instruction:\nNo extra instruction provided.\n"));
    assert!(plan.prompt.contains("Selected message text:\nwhat now?\n"));
    assert!(plan.history.starts_with("<discord_history>\nSource channel: 100\nSelection: 前 10 条\nMessages: 2\n\n"));
    assert!(plan.history.find("before").unwrap() < plan.history.rfind("what now?").unwrap());
    assert_eq!(
        handle_history_modal(&target, 100, None, Ok(Vec::new()), HistorySelectionMode::ToNow, "")
            .unwrap_err(),
        "⚠️ This channel is not allowed."
    );
    assert_eq!(
        handle_history_modal(&target, 100, place, Ok(Vec::new()), HistorySelectionMode::ToNow, "")
            .unwrap_err(),
        "⚠️ No history messages found."
    );
    assert_eq!(
        handle_history_modal(
            &target,
            100,
            place,
            Err("gone".to_string()),
            HistorySelectionMode::ToNow,
            ""
        )
        .unwrap_err(),
        "⚠️ Failed to read message history: gone"
    );
    assert!(build_history_prompt("", "d", HistorySelectionMode::ToNow, " do it ")
        .contains("User instruction:\ndo it\n"));
}

fn gate() -> Gate {
    Gate {
        bot_id: BOT,
        allow_all_channels: false,
        allow_all_users: false,
        allowed_channels: allowed(&[PARENT_CH]),
        allowed_users: allowed(&[7]),
        allow_bot_messages: AllowBots::Off,
        trusted_bot_ids: allowed(&[]),
        allow_user_messages: AllowUsers::Mentions,
        allowed_role_ids: allowed(&[]),
        allow_dm: false,
    }
}

fn guild(thread: bool, parent_id: Option<u64>) -> ChannelKind {
    ChannelKind::Guild {
        has_thread_metadata: thread,
        parent_id,
        owner_id: None,
    }
}

fn arrival(author_id: u64, mentions_bot: bool) -> Arrival {
    Arrival {
        author_id,
        author_is_bot: false,
        channel_id: PARENT_CH,
        content: "hello".into(),
        mentions_bot,
        role_mentions: Vec::new(),
    }
}

#[test]
fn the_bot_does_not_answer_itself() {
    assert_eq!(
        on_message(&gate(), &arrival(BOT, true)),
        GateStep::Done(Verdict::Ignore)
    );
}

#[test]
fn strangers_are_shown_that_they_are_kept_out() {
    assert_eq!(
        on_channel(&gate(), &arrival(8, true), &guild(false, None)),
        GateStep::Done(Verdict::Deny)
    );
    assert_eq!(
        on_channel(&gate(), &arrival(7, true), &guild(false, None)),
        GateStep::Done(Verdict::Answer)
    );
}

#[test]
fn exports_need_a_thread_or_a_direct_message() {
    let g = gate();
    assert_eq!(
        export_target(&g, 5, &guild(true, Some(PARENT_CH)), "notes"),
        (true, "notes".to_string())
    );
    assert_eq!(
        export_target(&g, PARENT_CH, &guild(false, None), "notes"),
        (false, "notes".to_string())
    );
    assert_eq!(export_target(&g, 5, &ChannelKind::Private, "x"), (false, "dm".to_string()));
    assert_eq!(export_target(&g, 5, &ChannelKind::Other, "x"), (false, "channel".to_string()));
}

#[test]
fn titles_are_cut_to_a_hundred() {
    assert_eq!(thread_title(&"é".repeat(120)).chars().count(), 100);
}

#[test]
fn interactions_find_their_way() {
    assert_eq!(route_command("models"), Route::Models);
    assert_eq!(route_component("ctxhist:b10:1"), Route::HistoryButton);
    assert_eq!(route_modal("ctxmodal:b10:1"), Route::HistoryModal);
}

fn option(count: usize, current: usize) -> ConfigOption {
    ConfigOption {
        id: "model".into(),
        category: Some("model".into()),
        current_value: format!("v{current}"),
        options: (0..count)
            .map(|i| ConfigValue {
                value: format!("v{i}"),
                name: format!("Name {i}"),
                description: None,
            })
            .collect(),
    }
}

#[test]
fn the_first_page_shows_the_current_value_first() {
    let options = vec![option(60, 59)];
    let components = build_config_components(&options, "model", None).unwrap();
    assert_eq!(components.menu.items[0].value, "v59");
    assert!(components.menu.items[0].selected);
    assert!(components.buttons.is_some());
    assert!(build_config_select(&options, "agent", 0).is_none());
}

#[test]
fn page_buttons_name_their_page() {
    let options = vec![option(60, 0)];
    let components = build_config_components(&options, "model", Some(1)).unwrap();
    let buttons = components.buttons.unwrap();
    let pages: Vec<usize> = buttons
        .iter()
        .filter_map(|b| parse_page_request(&b.custom_id))
        .map(|p| p.1)
        .collect();
    assert_eq!(pages, [0, 2]);
    let labels: Vec<&str> = buttons.iter().map(|b| b.label.as_str()).collect();
    assert_eq!(labels, ["◀", "2/3", "▶"]);
}

#[test]
fn reminders_are_taken_up_once() {
    let mut scheduled: Table<bool> = Table::new();
    scheduled.insert("a".to_string(), true);
    let pending = vec!["a".to_string(), "b".to_string(), "b".to_string(), "c".to_string()];
    assert_eq!(claim_reminders(&pending, &mut scheduled), vec![1, 3]);
    assert_eq!(claim_reminders(&pending, &mut scheduled), Vec::<usize>::new());
}

#[test]
fn soft_limit_warn_once_semantics() {
    let mut t = BotTurnTracker::new(20);
    for _ in 0..19 {
        assert_eq!(t.on_bot_message("t1"), TurnResult::Within);
    }
    assert_eq!(t.on_bot_message("t1"), TurnResult::SoftLimit(20));
    assert_eq!(t.on_bot_message("t1"), TurnResult::Throttled);
    assert_eq!(t.on_bot_message("t1"), TurnResult::Throttled);
}

#[test]
fn hard_limit_warn_once_semantics() {
    let mut t = BotTurnTracker::new(HARD_BOT_TURN_LIMIT + 1);
    for _ in 0..HARD_BOT_TURN_LIMIT - 1 {
        assert_eq!(t.on_bot_message("t1"), TurnResult::Within);
    }
    assert_eq!(t.on_bot_message("t1"), TurnResult::HardLimit);
    assert_eq!(t.on_bot_message("t1"), TurnResult::Stopped);
}

#[test]
fn system_message_does_not_reset_counter() {
    let mut t = BotTurnTracker::new(3);
    assert_eq!(t.on_bot_message("t1"), TurnResult::Within);
    assert_eq!(t.on_bot_message("t1"), TurnResult::Within);
    assert_eq!(t.on_bot_message("t1"), TurnResult::SoftLimit(3));
}
