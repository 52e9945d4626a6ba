//! Exports and histories in words.

use openab::export::{
    export_budget, export_failure, export_filename, export_reply, format_thread_export,
    history_modal_title, history_reply, keep_name, parse_export_filter, render_history_block,
    thread_seed, timestamp_ms_to_snowflake, ExportFilter, ExportMessage, HistorySelectionMode,
};

const DAY_MS: u64 = 24 * 60 * 60 * 1000;
const NOW: u64 = 1_778_400_000_000;

fn message(id: u64, content: &str) -> ExportMessage {
    ExportMessage {
        id,
        timestamp: "2026-05-11T07:30:00Z".to_string(),
        author_name: "ann".to_string(),
        author_id: 7,
        author_is_bot: false,
        content: content.to_string(),
        attachments: Vec::new(),
    }
}

#[test]
fn one_filter_at_a_time() {
    let filter = |limit, since, days, all| parse_export_filter(limit, since, days, all, NOW);
    assert_eq!(filter(None, None, None, false), Ok(ExportFilter::Limit(100)));
    assert_eq!(filter(None, None, None, true), Ok(ExportFilter::All));
    assert_eq!(filter(Some(5000), None, None, false), Ok(ExportFilter::Limit(5000)));
    assert_eq!(filter(None, Some("123"), None, false), Ok(ExportFilter::After(123)));
    assert_eq!(
        filter(None, None, Some(2), false),
        Ok(ExportFilter::After(timestamp_ms_to_snowflake(NOW - 2 * DAY_MS)))
    );
    assert_eq!(
        filter(Some(5), None, None, true).unwrap_err(),
        "⚠️ Please specify only one filter: `limit`, `since`, `days`, or `all`."
    );
    assert_eq!(
        filter(Some(0), None, None, false).unwrap_err(),
        "⚠️ `limit` must be between 1 and 5000."
    );
    assert_eq!(
        filter(None, Some("0"), None, false).unwrap_err(),
        "⚠️ `since` must be a valid message ID (right-click a message → Copy Message ID)."
    );
    assert_eq!(
        filter(None, None, Some(366), false).unwrap_err(),
        "⚠️ `days` must be between 1 and 365."
    );
}

#[test]
fn an_export_has_a_head_and_its_messages() {
    let messages = vec![message(1, "one"), message(2, "two")];
    let (text, written, truncated) = format_thread_export(55, "notes", &messages, 100_000);
    assert!(text.starts_with("Discord thread export\nChannel: notes (55)\nMessages: 2\n\n"));
    assert!(text.contains("one"));
    assert!(text.contains("two"));
    assert_eq!(written, 2);
    assert!(!truncated);
    let (_, written, truncated) = format_thread_export(55, "notes", &messages, 100);
    assert!(written < 2);
    assert!(truncated);
}

#[test]
fn an_export_stays_under_the_limit() {
    assert_eq!(export_budget(0), 1024);
    assert_eq!(export_budget(2047), 1024);
    assert_eq!(export_budget(10_000), 8976);
}

#[test]
fn an_export_tells_what_is_missing() {
    assert_eq!(export_reply(3, 3, false, false), "Exported 3 messages.");
    assert_eq!(
        export_reply(3, 3, true, false),
        "Exported 3 messages. Only the most recent 3 messages were fetched — older messages were not included."
    );
    assert_eq!(
        export_reply(2, 3, false, true),
        "Exported 2 messages. Transcript truncated to fit Discord's attachment size limit (2 of 3 fetched messages included)."
    );
    assert_eq!(export_failure("denied"), "⚠️ Failed to export thread: denied");
}

#[test]
fn files_get_plain_names() {
    assert_eq!(keep_name("a b/c.d!"), "a-b-c-d");
    assert_eq!(keep_name("..."), "");
    assert_eq!(keep_name(&"x".repeat(70)).len(), 64);
    assert_eq!(export_filename(55, "my notes"), "discord-thread-my-notes-55.txt");
    let unnamed = export_filename(55, "!!!");
    assert!(unnamed.starts_with("discord-thread-"));
    assert!(unnamed.ends_with("-55.txt"));
    assert_ne!(unnamed, "discord-thread--55.txt");
}

#[test]
fn a_history_is_framed() {
    let block = render_history_block(55, &vec![message(1, "one")], HistorySelectionMode::ToNow);
    assert!(block.starts_with("<discord_history>\nSource channel: 55\nSelection: "));
    assert!(block.contains("\nMessages: 1\n\n"));
    assert!(block.ends_with("</discord_history>"));
    assert!(!block.contains("[History truncated"));
    let long = vec![message(1, &"x".repeat(200_000))];
    let block = render_history_block(55, &long, HistorySelectionMode::ToNow);
    assert!(block.ends_with("\n[History truncated to fit prompt budget]\n</discord_history>"));
}

#[test]
fn a_history_says_where_it_is_read() {
    let mode = HistorySelectionMode::from_code("b10").unwrap();
    assert_eq!(mode, HistorySelectionMode::Before10);
    assert!(HistorySelectionMode::from_code("b11").is_none());
    assert_eq!(history_modal_title(mode), format!("读取历史: {}", mode.label()));
    assert_eq!(
        history_reply(mode, true, false, "5", false),
        format!("已读取 `{}` 历史，正在 this DM 中加载上下文。", mode.label())
    );
    assert_eq!(
        history_reply(mode, false, false, "5", true),
        format!("已读取 `{}` 历史，正在 <#5> 中加载上下文。", mode.label())
    );
    assert_eq!(
        history_reply(mode, false, false, "5", false),
        format!("已读取 `{}` 历史，正在 this thread 中加载上下文。", mode.label())
    );
    assert_eq!(thread_seed("  "), "read context");
    assert_eq!(thread_seed("hi"), "hi");
}
