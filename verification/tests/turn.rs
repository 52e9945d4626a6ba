//! A turn of the agent, from its first event to the delivery of its reply.

use openab::adapter::{progress_status_line, ChannelRef, MessageRef};
use openab::config::{ReactionsConfig, TableMode, ToolDisplay};
use openab::turn::{
    build_handoff_summary_prompt, check_liveness, classify_incoming, close_reactions, draft_text,
    event_of, final_reply, internal_result, placeholder_text, summary_request, summary_text,
    table_mode, Delivery, DeliveryPlan, HandoffCompletionNotification, Incoming, Turn, TurnAction, TurnEvent,
    TurnSettings,
};

fn settings() -> TurnSettings {
    TurnSettings {
        streaming: true,
        native: false,
        assistant_status: false,
        tool_display: ToolDisplay::Full,
        reset: false,
        initial_reply_to: None,
    }
}

fn started(id: &str, title: &str) -> TurnEvent {
    TurnEvent::ToolStart { id: id.to_string(), title: title.to_string() }
}

fn done(id: &str, title: &str, status: &str) -> TurnEvent {
    TurnEvent::ToolDone { id: id.to_string(), title: title.to_string(), status: status.to_string() }
}

fn texts(steps: &[Delivery]) -> Vec<String> {
    steps
        .iter()
        .map(|s| match s {
            Delivery::ClearStatus => "clear".to_string(),
            Delivery::AppendStream(t) => format!("append {t}"),
            Delivery::FinishStream(t) => format!("finish {t}"),
            Delivery::Send(t) => format!("send {t}"),
            Delivery::Reply { text, to } => format!("reply {text} to {to}"),
            Delivery::EditPlaceholder(t) => format!("edit {t}"),
            Delivery::DeletePlaceholder => "delete".to_string(),
        })
        .collect()
}

#[test]
fn text_is_drafted_as_it_grows() {
    let mut turn = Turn::start(settings(), false);
    let (acts, heard) = turn.on_event(TurnEvent::Text("Hello".to_string()), false);
    assert!(heard);
    assert_eq!(acts.len(), 1);
    assert!(matches!(&acts[0], TurnAction::ShowDraft(t) if t == "Hello"));
    let (acts, _) = turn.on_event(TurnEvent::Text(" there".to_string()), false);
    assert!(matches!(&acts[0], TurnAction::ShowDraft(t) if t == "Hello there"));
    let end = turn.finish(None);
    assert_eq!(end.content, "Hello there");
    assert!(end.reply_to.is_none());
}

#[test]
fn a_tool_is_shown_once_however_often_it_reports() {
    let mut turn = Turn::start(settings(), false);
    let (acts, _) = turn.on_event(started("1", "`cargo test`"), false);
    assert_eq!(acts.len(), 2);
    assert!(matches!(&acts[0], TurnAction::ReactTool(t) if t == "`cargo test`"));
    assert!(matches!(&acts[1], TurnAction::ShowDraft(_)));
    assert_eq!(progress_status_line(&turn.progress(5, 0)), "🔧 Running `'cargo test'`... 5s");
    turn.on_event(started("1", "cargo test --all"), false);
    let (acts, _) = turn.on_event(done("1", "", "completed"), false);
    assert!(matches!(&acts[0], TurnAction::ReactThinking));
    turn.on_event(done("2", "ls", "failed"), false);
    let end = turn.finish(None);
    assert_eq!(end.content, "✅ `cargo test --all`\n❌ `ls`\n\n");
}

#[test]
fn a_tool_without_a_title_is_no_sign_of_life() {
    let mut turn = Turn::start(settings(), false);
    let (acts, heard) = turn.on_event(started("1", ""), false);
    assert!(acts.is_empty());
    assert!(!heard);
    let (acts, heard) = turn.on_event(TurnEvent::Other, false);
    assert!(acts.is_empty());
    assert!(!heard);
    let (acts, heard) = turn.on_event(TurnEvent::ConfigUpdate, false);
    assert!(matches!(&acts[0], TurnAction::KeepOptions));
    assert!(heard);
}

#[test]
fn a_platform_stream_gets_what_has_gathered() {
    let native = TurnSettings { native: true, assistant_status: true, ..settings() };
    let mut turn = Turn::start(native, true);
    let (acts, _) = turn.on_event(TurnEvent::Text("a".to_string()), false);
    assert!(acts.is_empty());
    let (acts, _) = turn.on_event(TurnEvent::Text("b".to_string()), true);
    assert!(matches!(&acts[0], TurnAction::AppendStream(t) if t == "ab"));
    turn.on_event(TurnEvent::Text("c".to_string()), false);
    let (acts, _) = turn.on_event(TurnEvent::Thinking, false);
    assert!(matches!(&acts[0], TurnAction::SetStatus(t) if t == "Thinking…"));
    let end = turn.finish(None);
    assert_eq!(end.content, "abc");
    assert_eq!(end.pending, "c");
}

#[test]
fn the_agent_may_name_the_message_to_reply_to() {
    let with_default = TurnSettings { initial_reply_to: Some("1".to_string()), ..settings() };
    let mut turn = Turn::start(with_default, false);
    turn.on_event(TurnEvent::Text("[[reply_to:42]]\nfine".to_string()), false);
    let end = turn.finish(None);
    assert_eq!(end.reply_to.as_deref(), Some("42"));
    assert_eq!(end.content, "fine");

    let with_default = TurnSettings { initial_reply_to: Some("1".to_string()), ..settings() };
    let end = Turn::start(with_default, false).finish(None);
    assert_eq!(end.reply_to.as_deref(), Some("1"));
}

#[test]
fn a_lost_session_is_told() {
    let lost = TurnSettings { reset: true, ..settings() };
    assert_eq!(
        placeholder_text(&lost).as_deref(),
        Some("⚠️ _Session expired, starting fresh..._\n\n…")
    );
    assert_eq!(placeholder_text(&settings()).as_deref(), Some("…"));
    let quiet = TurnSettings { streaming: false, ..settings() };
    assert!(placeholder_text(&quiet).is_none());
    let end = Turn::start(lost, false).finish(None);
    assert!(end.content.starts_with("⚠️ _Session expired"));
}

#[test]
fn a_reply_is_never_empty() {
    assert_eq!(final_reply("", &None), "_(no response)_");
    assert_eq!(final_reply("done", &None), "done");
    let error = Some("boom".to_string());
    assert_eq!(final_reply("", &error), "⚠️ boom");
    assert_eq!(final_reply("half", &error), "⚠️ boom\n\nhalf");
}

#[test]
fn a_dead_or_slow_agent_is_given_up() {
    assert_eq!(check_liveness(false, 0, 10).as_deref(), Some("Agent process died"));
    assert!(check_liveness(true, 10_000, 10).is_none());
    assert_eq!(
        check_liveness(true, 10_001, 10).as_deref(),
        Some("Agent exceeded hard timeout (10s)")
    );
    assert!(check_liveness(true, u64::MAX, u64::MAX).is_none());
}

#[test]
fn answers_to_older_requests_are_stale() {
    assert!(matches!(classify_incoming(None, 3, None), Incoming::Report));
    assert!(matches!(classify_incoming(Some(2), 3, None), Incoming::Stale));
    assert!(matches!(classify_incoming(Some(3), 3, None), Incoming::Answer(None)));
    let e = classify_incoming(Some(3), 3, Some("no".to_string()));
    assert!(matches!(e, Incoming::Answer(Some(t)) if t == "no"));
}

#[test]
fn a_long_draft_shows_its_end() {
    assert_eq!(draft_text("short", 200), "short");
    let long = "a".repeat(100) + "b";
    let shown = draft_text(&long, 200);
    assert_eq!(shown, format!("…{}b", "a".repeat(99)));
}

#[test]
fn reactions_close_by_the_outcome() {
    let config = ReactionsConfig::default();
    assert!(close_reactions(true, true, &config).is_none());
    let closing = close_reactions(true, false, &config).unwrap();
    assert!(closing.done);
    let kept = ReactionsConfig { remove_after_reply: true, ..ReactionsConfig::default() };
    let closing = close_reactions(false, false, &kept).unwrap();
    assert!(!closing.done);
    assert_eq!(closing.clear_after_ms, Some(kept.timing.error_hold_ms));
}

fn plan() -> DeliveryPlan {
    DeliveryPlan {
        assistant_status: false,
        native: false,
        stream_open: false,
        placeholder: false,
        reply_to: None,
        pending: String::new(),
    }
}

#[test]
fn delivery_takes_the_way_that_is_open() {
    let chunks = vec!["one".to_string(), "two".to_string()];
    assert_eq!(texts(&plan().steps("one two", &chunks)), ["send one", "send two"]);

    let edited = DeliveryPlan { placeholder: true, ..plan() };
    assert_eq!(texts(&edited.steps("one two", &chunks)), ["edit one", "send two"]);

    let replied = DeliveryPlan { reply_to: Some("9".to_string()), ..plan() };
    assert_eq!(texts(&replied.steps("one two", &chunks)), ["reply one to 9", "send two"]);

    let swapped = DeliveryPlan { placeholder: true, reply_to: Some("9".to_string()), ..plan() };
    assert_eq!(
        texts(&swapped.steps("one two", &chunks)),
        ["reply one to 9", "send two"]
    );

    let streamed = DeliveryPlan {
        assistant_status: true,
        native: true,
        stream_open: true,
        pending: "rest".to_string(),
        reply_to: Some("9".to_string()),
        ..plan()
    };
    assert_eq!(
        texts(&streamed.steps("one two", &chunks)),
        ["clear", "append rest", "finish one", "send two"]
    );
    assert_eq!(texts(&streamed.steps("whole", &vec![])), ["clear", "append rest", "finish whole"]);

    let unopened = DeliveryPlan { native: true, reply_to: Some("9".to_string()), ..plan() };
    assert_eq!(texts(&unopened.steps("one two", &chunks)), ["send one", "send two"]);
}

#[test]
fn inner_prompts_come_back_bare() {
    assert_eq!(internal_result("[[reply_to:1]]\n  ok \n", None), Ok("ok".to_string()));
    assert_eq!(internal_result("x", Some("late".to_string())), Err("late".to_string()));
}

fn completion() -> HandoffCompletionNotification {
    let channel = ChannelRef::plain("discord", "1");
    HandoffCompletionNotification {
        parent_session_key: "discord:1".to_string(),
        parent_trigger_msg: MessageRef { channel: channel.clone(), message_id: "2".to_string() },
        parent_channel: channel,
        child_display: "<#5>".to_string(),
        original_prompt: "find it".to_string(),
        max_summary_chars: 300,
    }
}

#[test]
fn a_handed_off_task_is_summed_up() {
    let prompt = build_handoff_summary_prompt(&completion(), "found");
    assert!(prompt.contains("- Keep it within 300 characters."));
    assert!(prompt.contains("full details are in <#5> when useful"));
    assert!(prompt.contains("<original_request>\nfind it\n</original_request>"));
    assert!(prompt.ends_with("<child_result>\nfound\n</child_result>"));
    assert_eq!(summary_request(&completion(), "found"), Some(prompt));
    assert!(summary_request(&completion(), " \n").is_none());
    assert_eq!(summary_text(&completion(), Some(" it is here ".to_string())), "it is here");
    let fallback = "Task completed. Details are in <#5>.";
    assert_eq!(summary_text(&completion(), Some("  ".to_string())), fallback);
    assert_eq!(summary_text(&completion(), None), fallback);
}

fn event(text: &str) -> TurnEvent {
    event_of(&serde_json::from_str(text).unwrap())
}

#[test]
fn message_chunk_brings_its_text() {
    let e = event(
        r#"{"params":{"update":{"sessionUpdate":"agent_message_chunk","content":{"text":"hi"}}}}"#,
    );
    assert!(matches!(e, TurnEvent::Text(t) if t == "hi"));
    let e = event(r#"{"params":{"update":{"sessionUpdate":"agent_message_chunk"}}}"#);
    assert!(matches!(e, TurnEvent::Text(t) if t.is_empty()));
}

#[test]
fn thoughts_and_options_are_told_apart() {
    let e = event(r#"{"params":{"update":{"sessionUpdate":"agent_thought_chunk"}}}"#);
    assert!(matches!(e, TurnEvent::Thinking));
    let e = event(r#"{"params":{"update":{"sessionUpdate":"config_option_update"}}}"#);
    assert!(matches!(e, TurnEvent::ConfigUpdate));
}

#[test]
fn tool_is_done_when_completed_or_failed() {
    let report = |kind: &str, status: &str| {
        event(&format!(
            r#"{{"params":{{"update":{{"sessionUpdate":"{kind}","toolCallId":"t1","title":"ls","status":"{status}"}}}}}}"#
        ))
    };
    for status in ["completed", "failed"] {
        match report("tool_call_update", status) {
            TurnEvent::ToolDone { id, title, status: s } => {
                assert_eq!((&*id, &*title, &*s), ("t1", "ls", status));
            }
            other => panic!("{other:?}"),
        }
    }
    for (kind, status) in [("tool_call_update", "in_progress"), ("tool_call", "completed")] {
        match report(kind, status) {
            TurnEvent::ToolStart { id, title } => assert_eq!((&*id, &*title), ("t1", "ls")),
            other => panic!("{other:?}"),
        }
    }
}

#[test]
fn report_without_an_update_tells_nothing() {
    for text in [
        "{}",
        r#"{"params":{}}"#,
        r#"{"params":{"update":7}}"#,
        r#"{"params":{"update":{"sessionUpdate":"plan"}}}"#,
    ] {
        assert!(matches!(event(text), TurnEvent::Other));
    }
}

#[test]
fn the_stand_in_goes_only_after_a_reply_that_was_sent() {
    let sent = Some(Ok(MessageRef {
        channel: ChannelRef::plain("discord", "5"),
        message_id: "10".to_string(),
    }));
    let failed = Some(Err("gone".to_string()));
    let swapped = DeliveryPlan { placeholder: true, reply_to: Some("9".to_string()), ..plan() };
    assert!(matches!(swapped.last_step(&sent), Some(Delivery::DeletePlaceholder)));
    assert!(swapped.last_step(&failed).is_none());
    assert!(swapped.last_step(&None).is_none());
    let edited = DeliveryPlan { placeholder: true, ..plan() };
    assert!(edited.last_step(&sent).is_none());
    let replied = DeliveryPlan { reply_to: Some("9".to_string()), ..plan() };
    assert!(replied.last_step(&sent).is_none());
    let native = DeliveryPlan { native: true, ..swapped };
    assert!(native.last_step(&sent).is_none());
}

#[test]
fn a_summary_is_cut_to_its_length() {
    let short = HandoffCompletionNotification { max_summary_chars: 4, ..completion() };
    assert_eq!(summary_text(&short, Some("  日本語テスト ".to_string())), "日本語テ");
    assert_eq!(summary_text(&short, Some(" abcd ".to_string())), "abcd");
    assert_eq!(summary_text(&short, None), "Task");
}

#[test]
fn native_tables_are_left_as_they_are() {
    assert_eq!(table_mode(true, TableMode::Code), TableMode::Off);
    assert_eq!(table_mode(false, TableMode::Bullets), TableMode::Bullets);
    assert_eq!(table_mode(false, TableMode::Code), TableMode::Code);
}
