//! Work that moves to a thread.

use openab::adapter::{thread_key, ChannelRef, MessageRef};
use openab::handoff::{
    build_child_prompt, format_thread_display, queue_failure, started, thread_failure,
    HandoffBroker, HandoffRegistration,
};

fn channel(id: &str, thread: Option<&str>, platform: &str) -> ChannelRef {
    ChannelRef {
        platform: platform.into(),
        channel_id: id.into(),
        thread_id: thread.map(|t| t.to_string()),
        parent_id: None,
        origin_event_id: None,
    }
}

fn registration() -> HandoffRegistration {
    HandoffRegistration {
        adapter: 1,
        dispatcher: 1,
        parent_channel: channel("parent", None, "discord"),
        trigger_msg: MessageRef {
            channel: channel("parent", None, "discord"),
            message_id: "msg".into(),
        },
        sender_json: "{}".into(),
        sender_name: "alice".into(),
        sender_id: "u1".into(),
        original_prompt: "original".into(),
        extra_blocks: Vec::new(),
        other_bot_present: false,
    }
}

#[test]
fn token_is_single_use() {
    let mut broker = HandoffBroker::new(60_000);
    let token = broker.register(registration(), 0);
    assert!(broker.consume(&token, 10).is_ok());
    let err = match broker.consume(&token, 10) {
        Ok(_) => panic!("second consume should fail"),
        Err(err) => err,
    };
    assert!(err.contains("invalid") || err.contains("already used"));
}

#[test]
fn expired_token_is_rejected() {
    let mut broker = HandoffBroker::new(1);
    let token = broker.register(registration(), 100);
    let err = match broker.consume(&token, 105) {
        Ok(_) => panic!("expired consume should fail"),
        Err(err) => err,
    };
    assert!(err.contains("expired"));
    let token = broker.register(registration(), 100);
    assert!(broker.consume(&token, 101).is_ok());
}

#[test]
fn tokens_differ_and_are_uuids() {
    let mut broker = HandoffBroker::new(1);
    let a = broker.register(registration(), 0);
    let b = broker.register(registration(), 0);
    assert_ne!(a, b);
    assert_eq!(a.len(), 36);
    assert_eq!(&a[8..9], "-");
}

#[test]
fn start_thread_task_anchors_original_message_and_dispatches_child_prompt() {
    let mut broker = HandoffBroker::new(60_000);
    let token = broker.register(registration(), 0);
    let (entry, title, prompt) = broker
        .start_thread_task(&token, "Investigate a complex issue", "child task prompt", 1)
        .unwrap();
    assert_eq!(title, "Investigate a complex issue");
    assert_eq!(entry.registration.parent_channel.channel_id, "parent");
    assert_eq!(entry.registration.trigger_msg.message_id, "msg");
    let thread = ChannelRef {
        parent_id: Some("parent".into()),
        ..channel("thread", None, "discord")
    };
    let told = started(&thread);
    assert_eq!(told.status, "started");
    assert_eq!(told.channel_id, "thread");
    assert_eq!(thread_key("discord", &thread), "discord:thread");
    let text = build_child_prompt(&prompt, &entry.registration);
    assert!(text.contains("<openab_handoff_context>"));
    assert!(text.contains("original_message:\noriginal"));
    assert!(text.contains("child task prompt"));
}

#[test]
fn start_thread_task_uses_slack_thread_root_route() {
    let mut broker = HandoffBroker::new(60_000);
    let token = broker.register(registration(), 0);
    let (_, title, prompt) = broker
        .start_thread_task(&token, "Investigate", "child task prompt", 1)
        .expect("handoff should start");
    assert_eq!(title, "Investigate");
    assert_eq!(prompt, "child task prompt");
    let thread = channel("C1", Some("111.222"), "slack");
    let told = started(&thread);
    assert_eq!(told.platform, "slack");
    assert_eq!(told.channel_id, "C1");
    assert_eq!(told.thread_id.as_deref(), Some("111.222"));
    assert_eq!(thread_key("slack", &thread), "slack:111.222");
    assert_eq!(told.display, "slack thread 111.222");
}

#[test]
fn tasks_that_are_not_well_put_do_not_spend_the_token() {
    let mut broker = HandoffBroker::new(60_000);
    let token = broker.register(registration(), 0);
    assert_eq!(
        broker.start_thread_task(&token, " ", "p", 1).unwrap_err(),
        "handoff title must not be empty"
    );
    assert_eq!(
        broker.start_thread_task(&token, "t", "\n", 1).unwrap_err(),
        "handoff prompt must not be empty"
    );
    let (_, title, prompt) = broker.start_thread_task(&token, " t ", "\np ", 1).unwrap();
    assert_eq!((&*title, &*prompt), ("t", "p"));
}

#[test]
fn threads_and_failures_are_told() {
    assert_eq!(
        format_thread_display(&channel("C1", None, "discord")),
        "discord channel C1"
    );
    assert_eq!(thread_failure("x"), "failed to create handoff thread: x");
    assert_eq!(queue_failure("x"), "failed to enqueue handoff task: x");
}
