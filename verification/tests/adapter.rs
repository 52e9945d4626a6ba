//! Channels, output directives, tool lines and progress lines.

use openab::adapter::{
    compose_display, pack_arrival_event, parse_output_directives, progress_status_line,
    sanitize_title, thread_key, ChannelRef, ChatAdapter, ContentBlock, ProgressPhase,
    ProgressState, ToolEntry, ToolState,
};
use openab::config::ToolDisplay;
use openab::turn::next_streaming_edit_candidate;

fn progress_state(phase: ProgressPhase, elapsed_secs: u64, idle_secs: u64) -> ProgressState {
    ProgressState { phase, elapsed_secs, idle_secs }
}

fn tool(id: &str, title: &str, state: ToolState) -> ToolEntry {
    ToolEntry {
        id: id.into(),
        title: title.into(),
        state,
    }
}

#[test]
fn progress_status_thinking() {
    let state = progress_state(ProgressPhase::Thinking, 12, 3);
    assert_eq!(progress_status_line(&state), "⏳ Thinking... 12s");
}

#[test]
fn progress_status_tool() {
    let state = progress_state(ProgressPhase::Tool("exec_command".into()), 38, 4);
    assert_eq!(
        progress_status_line(&state),
        "🔧 Running `exec_command`... 38s"
    );
}

#[test]
fn progress_status_waiting() {
    let state = progress_state(ProgressPhase::Thinking, 20, 18);
    assert_eq!(
        progress_status_line(&state),
        "⏳ Waiting for agent output... 20s"
    );
}

#[test]
fn progress_status_still_working() {
    let state = progress_state(ProgressPhase::Thinking, 52, 46);
    assert_eq!(progress_status_line(&state), "⚠️ Still working... 52s");
}

#[test]
fn origin_event_id_excluded_from_eq() {
    let a = ChannelRef {
        platform: "line".into(),
        channel_id: "U123".into(),
        thread_id: None,
        parent_id: None,
        origin_event_id: Some("evt_aaa".into()),
    };
    let b = ChannelRef {
        platform: "line".into(),
        channel_id: "U123".into(),
        thread_id: None,
        parent_id: None,
        origin_event_id: Some("evt_bbb".into()),
    };
    assert_eq!(a, b, "same channel with different event IDs must be equal");
}

#[test]
fn origin_event_id_survives_clone() {
    let ch = ChannelRef {
        platform: "line".into(),
        channel_id: "U123".into(),
        thread_id: None,
        parent_id: None,
        origin_event_id: Some("evt_abc".into()),
    };
    // Simulates create_thread propagation: clone preserves origin_event_id
    let thread_ch = ChannelRef {
        thread_id: Some("topic_1".into()),
        origin_event_id: ch.origin_event_id.clone(),
        ..ch.clone()
    };
    assert_eq!(thread_ch.origin_event_id.as_deref(), Some("evt_abc"));
}

#[test]
fn compose_display_full_shows_complete_title() {
    let tools = vec![tool(
        "1",
        "curl -s https://example.com",
        ToolState::Completed,
    )];
    let out = compose_display(&tools, "done", false, ToolDisplay::Full);
    assert!(out.contains("`curl -s https://example.com`"));
}

#[test]
fn compose_display_compact_shows_count_summary() {
    let tools = vec![
        tool("1", "curl -s https://example.com", ToolState::Completed),
        tool("2", "grep -r pattern src/", ToolState::Completed),
        tool("3", "cat /etc/hosts", ToolState::Failed),
    ];
    let out = compose_display(&tools, "done", false, ToolDisplay::Compact);
    assert!(out.contains("✅ 2"), "expected completed count: {out}");
    assert!(out.contains("❌ 1"), "expected failed count: {out}");
    assert!(out.contains("tool(s)"), "expected tool(s) label: {out}");
    // Must NOT contain individual tool names
    assert!(!out.contains("curl"), "should not show tool names: {out}");
    assert!(!out.contains("grep"), "should not show tool names: {out}");
}

#[test]
fn compose_display_compact_shows_running_count() {
    let tools = vec![
        tool("1", "curl", ToolState::Completed),
        tool("2", "npm install", ToolState::Running),
    ];
    let out = compose_display(&tools, "", true, ToolDisplay::Compact);
    assert!(out.contains("✅ 1"), "expected completed count: {out}");
    assert!(out.contains("🔧 1"), "expected running count: {out}");
}

#[test]
fn compose_display_none_hides_tools() {
    let tools = vec![tool(
        "1",
        "curl -s https://example.com",
        ToolState::Completed,
    )];
    let out = compose_display(&tools, "response text", false, ToolDisplay::Hidden);
    assert_eq!(out, "response text");
}

#[test]
fn parse_reply_to_directive() {
    let input = "[[reply_to:1502606076451885136]]\nHello world";
    let (directives, content) = parse_output_directives(input);
    assert_eq!(directives.reply_to, Some("1502606076451885136".to_string()));
    assert_eq!(content, "Hello world");
}

#[test]
fn parse_no_directives() {
    let input = "Just plain content\nwith multiple lines";
    let (directives, content) = parse_output_directives(input);
    assert_eq!(directives.reply_to, None);
    assert_eq!(content, input);
}

#[test]
fn parse_multiple_directives() {
    let input = "[[reply_to:123456]]\n[[unknown_key:value]]\nContent here";
    let (directives, content) = parse_output_directives(input);
    assert_eq!(directives.reply_to, Some("123456".to_string()));
    assert_eq!(content, "Content here");
}

#[test]
fn parse_invalid_reply_to_rejects_whitespace() {
    let input = "[[reply_to:has spaces]]\nContent";
    let (directives, content) = parse_output_directives(input);
    assert_eq!(directives.reply_to, None);
    assert_eq!(content, "Content");
}

#[test]
fn parse_slack_ts_format_accepted() {
    let input = "[[reply_to:1234567890.123456]]\nContent";
    let (directives, content) = parse_output_directives(input);
    assert_eq!(directives.reply_to, Some("1234567890.123456".to_string()));
    assert_eq!(content, "Content");
}

#[test]
fn parse_empty_reply_to() {
    let input = "[[reply_to:]]\nContent";
    let (directives, content) = parse_output_directives(input);
    assert_eq!(directives.reply_to, None);
    assert_eq!(content, "Content");
}

#[test]
fn parse_crlf_line_endings() {
    let input = "[[reply_to:999]]\r\nContent with CRLF";
    let (directives, content) = parse_output_directives(input);
    assert_eq!(directives.reply_to, Some("999".to_string()));
    assert_eq!(content, "Content with CRLF");
}

#[test]
fn parse_directive_only_no_content() {
    let input = "[[reply_to:123]]";
    let (directives, content) = parse_output_directives(input);
    assert_eq!(directives.reply_to, Some("123".to_string()));
    assert_eq!(content, "");
}

#[test]
fn parse_non_directive_line_stops_parsing() {
    let input = "Normal first line\n[[reply_to:123]]\nMore content";
    let (directives, content) = parse_output_directives(input);
    assert_eq!(directives.reply_to, None);
    assert_eq!(content, input);
}

#[test]
fn parse_duplicate_reply_to_last_wins() {
    let input = "[[reply_to:111]]\n[[reply_to:222]]\nContent";
    let (directives, content) = parse_output_directives(input);
    // Last value wins
    assert_eq!(directives.reply_to, Some("222".to_string()));
    assert_eq!(content, "Content");
}

#[test]
fn parse_crlf_multiple_directives() {
    let input = "[[reply_to:456]]\r\n[[unknown:x]]\r\nContent after CRLF";
    let (directives, content) = parse_output_directives(input);
    assert_eq!(directives.reply_to, Some("456".to_string()));
    assert_eq!(content, "Content after CRLF");
}

#[test]
fn parse_bracket_without_colon_preserved() {
    // [[Note]] has no colon — not a directive, preserved as content
    let input = "[[Summary]]\nThis is body text";
    let (directives, content) = parse_output_directives(input);
    assert_eq!(directives.reply_to, None);
    assert_eq!(content, input);
}

#[test]
fn parse_reply_to_with_inline_content() {
    // Agent puts content on same line as directive — should still parse
    let input = "[[reply_to:1502724086474870926]]  @BOT I'm on standby";
    let (directives, content) = parse_output_directives(input);
    assert_eq!(directives.reply_to, Some("1502724086474870926".to_string()));
    assert_eq!(content, "@BOT I'm on standby");
}

#[test]
fn parse_reply_to_inline_with_more_lines() {
    let input = "[[reply_to:123]]  First line\nSecond line\nThird line";
    let (directives, content) = parse_output_directives(input);
    assert_eq!(directives.reply_to, Some("123".to_string()));
    assert_eq!(content, "First line\nSecond line\nThird line");
}

#[test]
fn parse_reply_to_no_space_before_content() {
    // No space between ]] and content
    let input = "[[reply_to:1502724086474870926]]收到";
    let (directives, content) = parse_output_directives(input);
    assert_eq!(directives.reply_to, Some("1502724086474870926".to_string()));
    assert_eq!(content, "收到");
}

#[test]
fn parse_reply_to_inline_with_mention() {
    // Real-world case: directive followed by Discord mention
    let input = "[[reply_to:1502724086474870926]]  <@1490365068863606784> 我 standby";
    let (directives, content) = parse_output_directives(input);
    assert_eq!(directives.reply_to, Some("1502724086474870926".to_string()));
    assert_eq!(content, "<@1490365068863606784> 我 standby");
}

#[test]
fn parse_reply_to_inline_only_spaces() {
    // Trailing spaces only — no real content, should be empty
    let input = "[[reply_to:123]]   ";
    let (directives, content) = parse_output_directives(input);
    assert_eq!(directives.reply_to, Some("123".to_string()));
    assert_eq!(content, "");
}

#[test]
fn parse_reply_to_with_brackets_in_content() {
    // Content after ]] contains brackets — should not confuse parser
    let input = "[[reply_to:456]]  看看 [[這個]] 怎麼樣";
    let (directives, content) = parse_output_directives(input);
    assert_eq!(directives.reply_to, Some("456".to_string()));
    assert_eq!(content, "看看 [[這個]] 怎麼樣");
}

struct TestAdapter;

impl ChatAdapter for TestAdapter {
    fn platform(&self) -> &'static str {
        "test"
    }

    fn message_limit(&self) -> usize {
        2000
    }

    fn use_streaming(&self, _other_bot_present: bool) -> bool {
        false
    }
}

#[test]
fn use_streaming_is_required_method() {
    let adapter = TestAdapter;
    assert!(!adapter.use_streaming(false));
    assert!(!adapter.renders_native_tables());
    assert!(!adapter.uses_assistant_status_for(&ChannelRef::plain("test", "1")));
}

#[test]
fn rapid_response_shutdown_does_not_emit_final_thinking_frame() {
    let state = progress_state(ProgressPhase::Thinking, 2, 2);
    let mut started = false;
    let first = next_streaming_edit_candidate(true, None, &mut started, &state);
    assert_eq!(first.as_deref(), Some("⏳ Thinking... 2s"));
    let second = next_streaming_edit_candidate(true, Some("hi".to_string()), &mut started, &state);
    assert_eq!(second.as_deref(), Some("hi"));
    let third = next_streaming_edit_candidate(false, None, &mut started, &state);
    assert_eq!(third, None);
}

fn channel(thread_id: Option<&str>) -> ChannelRef {
    ChannelRef {
        platform: "slack".into(),
        channel_id: "C1".into(),
        thread_id: thread_id.map(|t| t.to_string()),
        parent_id: None,
        origin_event_id: None,
    }
}

#[test]
fn session_key_prefers_the_thread() {
    assert_eq!(thread_key("slack", &channel(None)), "slack:C1");
    assert_eq!(thread_key("slack", &channel(Some("17.5"))), "slack:17.5");
}

#[test]
fn different_threads_are_different_places() {
    assert!(channel(None) != channel(Some("17.5")));
}

#[test]
fn titles_lose_what_would_break_their_line() {
    assert_eq!(sanitize_title("a`b\r\nc"), "a'b ; c");
}

#[test]
fn arrival_event_puts_transcripts_first() {
    let blocks = pack_arrival_event(
        "{}",
        "hi",
        vec![ContentBlock::Image {
            media_type: "image/png".into(),
            data: "AA".into(),
        }],
    );
    assert_eq!(blocks.len(), 3);
    match &blocks[0] {
        ContentBlock::Text { text } => {
            assert_eq!(text, "<sender_context>\n{}\n</sender_context>");
        }
        _ => panic!("expected the sender first"),
    }
}

#[test]
fn compact_tools_look_alike() {
    let a = [tool("1", "curl", ToolState::Completed), tool("2", "ls", ToolState::Failed)];
    let b = [tool("8", "make", ToolState::Completed), tool("9", "rm", ToolState::Failed)];
    assert_eq!(
        compose_display(&a, "done", false, ToolDisplay::Compact),
        compose_display(&b, "done", false, ToolDisplay::Compact)
    );
}
