//! The gateway: its events, what comes with them, and the replies.

use openab::adapter::{ChannelRef, ChatAdapter, ContentBlock, MessageRef};
use openab::commands::{ConfigOption, ConfigValue};
use openab::config::SttConfig;
use openab::gateway::{
    accepts_event, cancel_message, collect_choices, connect_url, event_channel, event_sender,
    event_session_key, handle_config_command, is_response, locate_bytes, message_command,
    message_reply, needs_topic, next_backoff, on_bytes, on_event, on_transcript,
    parse_slash_command,
    request_id, reset_message, sent_message_id, switch_reply, topic_channel, topic_request,
    AttachmentStep, BytesSource, ConfigCommand, ConfigStep, EventStep, GatewayAdapter, GatewayEvent,
    GatewayParams, GatewayResponse, GwAttachment, GwChannel, GwContent, GwSender, MessageCommand,
    SlashCommand,
};

fn params() -> GatewayParams {
    GatewayParams {
        url: "ws://gw".into(),
        platform: "telegram".into(),
        token: None,
        bot_username: Some("bot".into()),
        allow_all_channels: true,
        allowed_channels: Vec::new(),
        allow_all_users: true,
        allowed_users: Vec::new(),
        streaming: false,
        stt: SttConfig::default(),
    }
}

fn event(channel_type: &str, thread_id: Option<&str>) -> GatewayEvent {
    GatewayEvent {
        schema: "s".into(),
        event_id: "e1".into(),
        timestamp: String::new(),
        platform: "telegram".into(),
        channel: GwChannel {
            id: "c1".into(),
            channel_type: channel_type.into(),
            thread_id: thread_id.map(|t| t.to_string()),
        },
        sender: GwSender {
            id: "u1".into(),
            name: "alice".into(),
            display_name: "Alice".into(),
            is_bot: false,
        },
        content: GwContent {
            content_type: "text".into(),
            text: "hi".into(),
            attachments: Vec::new(),
        },
        mentions: Vec::new(),
        message_id: "m1".into(),
    }
}

#[test]
fn tokens_are_added_to_the_address() {
    assert_eq!(connect_url("ws://gw", &None), "ws://gw");
    assert_eq!(connect_url("ws://gw", &Some("t".into())), "ws://gw?token=t");
    assert_eq!(connect_url("ws://gw?a=1", &Some("t".into())), "ws://gw?a=1&token=t");
}

#[test]
fn pauses_double_up_to_thirty_seconds() {
    let mut pauses = vec![1u64];
    for _ in 0..6 {
        pauses.push(next_backoff(*pauses.last().unwrap()));
    }
    assert_eq!(pauses, vec![1, 2, 4, 8, 16, 30, 30]);
}

#[test]
fn groups_need_a_mention_outside_threads() {
    let p = params();
    assert!(accepts_event(&p, &event("private", None)));
    assert!(!accepts_event(&p, &event("group", None)));
    assert!(accepts_event(&p, &event("supergroup", Some("t"))));
    let mut mentioned = event("group", None);
    mentioned.mentions.push("bot".into());
    assert!(accepts_event(&p, &mentioned));
    let mut nameless = params();
    nameless.bot_username = None;
    assert!(accepts_event(&nameless, &event("group", None)));
}

#[test]
fn bots_and_strangers_are_ignored() {
    let mut e = event("private", None);
    e.sender.is_bot = true;
    assert!(!accepts_event(&params(), &e));
    let mut p = params();
    p.allow_all_users = false;
    p.allowed_users = vec!["u2".into()];
    assert!(!accepts_event(&p, &event("private", None)));
    let mut p = params();
    p.allow_all_channels = false;
    p.allowed_channels = vec!["c1".into()];
    assert!(accepts_event(&p, &event("private", None)));
}

#[test]
fn events_name_their_channel_and_sender() {
    let e = event("supergroup", Some("t1"));
    let channel = event_channel(&e);
    assert_eq!(channel.thread_id.as_deref(), Some("t1"));
    assert_eq!(channel.origin_event_id.as_deref(), Some("e1"));
    let sender = event_sender(&e, "now");
    assert_eq!(sender.timestamp.as_deref(), Some("now"));
    assert_eq!(sender.message_id.as_deref(), Some("m1"));
    assert_eq!(event_session_key(&e), "telegram:t1");
    assert_eq!(event_session_key(&event("private", None)), "telegram:c1");
    assert!(needs_topic(&event("supergroup", None)));
    assert!(!needs_topic(&e));
}

fn attachment(kind: &str, data: &str) -> GwAttachment {
    GwAttachment {
        attachment_type: kind.into(),
        filename: "f.txt".into(),
        mime_type: "image/png".into(),
        data: data.into(),
        size: 3,
        path: None,
    }
}

fn bytes_of(a: &GwAttachment) -> Result<Vec<u8>, String> {
    match locate_bytes(a) {
        BytesSource::File(_) => panic!("expected bytes"),
        BytesSource::Known(b) => b,
    }
}

#[test]
fn images_keep_their_bytes() {
    let a = attachment("image", "YWJj");
    let bytes = bytes_of(&a);
    assert_eq!(bytes, Ok(b"abc".to_vec()));
    match on_bytes(&a, bytes, false) {
        AttachmentStep::Block(ContentBlock::Image { media_type, data }) => {
            assert_eq!(media_type, "image/png");
            assert_eq!(data, "YWJj");
        }
        _ => panic!("expected an image"),
    }
}

#[test]
fn texts_go_into_a_fence() {
    let a = attachment("text_file", "YWJj");
    match on_bytes(&a, bytes_of(&a), false) {
        AttachmentStep::Block(ContentBlock::Text { text }) => {
            assert_eq!(text, "```f.txt\nabc\n```");
        }
        _ => panic!("expected text"),
    }
}

#[test]
fn recordings_are_turned_into_text_where_that_is_set_up() {
    let a = attachment("audio", "YWJj");
    assert!(matches!(on_bytes(&a, Ok(vec![1]), true), AttachmentStep::Transcribe(_)));
    assert!(matches!(on_bytes(&a, Ok(vec![1]), false), AttachmentStep::Offload(_)));
    match on_bytes(&a, Err("gone".into()), true) {
        AttachmentStep::Block(ContentBlock::Text { text }) => {
            assert_eq!(text, "[Voice message — read failed for f.txt]");
        }
        _ => panic!("expected text"),
    }
    match on_transcript(&a, Some("hello".into())) {
        ContentBlock::Text { text } => assert_eq!(text, "[Voice message transcript]: hello"),
        _ => panic!("expected text"),
    }
    match on_transcript(&a, None) {
        ContentBlock::Text { text } => {
            assert_eq!(text, "[Voice message — transcription failed for f.txt]");
        }
        _ => panic!("expected text"),
    }
}

#[test]
fn what_cannot_be_read_is_skipped() {
    assert_eq!(bytes_of(&attachment("image", "")), Err("no path or data".to_string()));
    assert!(bytes_of(&attachment("image", "***")).is_err());
    let a = attachment("image", "");
    assert!(matches!(on_bytes(&a, bytes_of(&a), true), AttachmentStep::Skip));
    let other = attachment("video", "YWJj");
    assert!(matches!(on_bytes(&other, bytes_of(&other), true), AttachmentStep::Offload(_)));
    let mut at_path = attachment("image", "YWJj");
    at_path.path = Some("/x".into());
    assert!(matches!(locate_bytes(&at_path), BytesSource::File("/x")));
}

fn command(text: &str) -> ConfigCommand {
    match parse_slash_command(text) {
        SlashCommand::Config(c) => c,
        _ => panic!("expected a command"),
    }
}

#[test]
fn commands_are_read() {
    assert!(matches!(parse_slash_command(" /reset "), SlashCommand::Reset));
    assert!(matches!(parse_slash_command("/cancel"), SlashCommand::Cancel));
    assert!(matches!(parse_slash_command("/modelx"), SlashCommand::Absent));
    assert!(matches!(parse_slash_command("hello"), SlashCommand::Absent));
    let c = command("/models");
    assert!(!c.agents);
    assert_eq!((c.action.as_str(), c.arg.as_str()), ("list", ""));
    let c = command("/agent set  Big One ");
    assert!(c.agents);
    assert_eq!((c.action.as_str(), c.arg.as_str()), ("set", "Big One"));
}

fn options() -> Vec<ConfigOption> {
    let value = |v: &str, n: &str| ConfigValue {
        value: v.into(),
        name: n.into(),
        description: None,
    };
    vec![
        ConfigOption {
            id: "m".into(),
            category: Some("model".into()),
            current_value: "b".into(),
            options: vec![value("a", "Alpha"), value("b", "Beta")],
        },
        ConfigOption {
            id: "x".into(),
            category: Some("mode".into()),
            current_value: "q".into(),
            options: vec![value("q", "Quick")],
        },
    ]
}

fn reply(text: &str) -> String {
    let c = command(text);
    match handle_config_command(&c, &collect_choices(&options(), c.agents)) {
        ConfigStep::Reply(s) => s,
        ConfigStep::SwitchTo(i) => format!("switch {i}"),
    }
}

#[test]
fn options_are_listed_and_chosen() {
    assert_eq!(
        reply("/models"),
        "🔧 Available models:\n  1. Alpha\n  2. Beta ✅\n\nUsage: /model set <number or name>"
    );
    assert_eq!(reply("/model set 1"), "switch 0");
    assert_eq!(reply("/model set BETA"), "switch 1");
    assert_eq!(reply("/agent set quick"), "switch 0");
    assert_eq!(reply("/model set 3"), "⚠️ Invalid number. Use 1–2.");
    assert_eq!(
        reply("/model set nope"),
        "⚠️ No model matching \"nope\". Use /model list to see options."
    );
    assert_eq!(reply("/model set"), "Usage: /model set <number or name>");
    assert_eq!(
        reply("/model drop"),
        "Unknown action \"drop\". Usage: /model list | /model set <name>"
    );
    let c = command("/models");
    match handle_config_command(&c, &collect_choices(&Vec::new(), false)) {
        ConfigStep::Reply(s) => {
            assert_eq!(s, "⚠️ No model options available. Start a conversation first.");
        }
        _ => panic!("expected a reply"),
    }
    assert_eq!(switch_reply("Alpha", &None), "✅ Switched to **Alpha**");
    assert_eq!(switch_reply("Alpha", &Some("x".into())), "❌ Failed to switch: x");
}

#[test]
fn resets_and_cancels_are_answered() {
    assert_eq!(reset_message(true, 0), "🔄 Session reset. Start a new conversation!");
    assert_eq!(
        reset_message(true, 2),
        "🔄 Session reset. Dropped 2 buffered message(s). Start a new conversation!"
    );
    assert_eq!(reset_message(false, 0), "⚠️ No active session to reset.");
    assert_eq!(
        reset_message(false, 1),
        "🔄 Dropped 1 buffered message(s). No active session to reset."
    );
    assert_eq!(cancel_message(&None), "🛑 Cancel signal sent.");
    assert_eq!(cancel_message(&Some("x".into())), "⚠️ x");
}

fn channel() -> ChannelRef {
    ChannelRef {
        platform: "telegram".into(),
        channel_id: "c1".into(),
        thread_id: Some("t1".into()),
        parent_id: None,
        origin_event_id: Some("e1".into()),
    }
}

#[test]
fn replies_are_put_together() {
    let r = message_reply(&channel(), "hi", Some("req".into()), Some("m9"));
    assert_eq!(r.schema, "openab.gateway.reply.v1");
    assert_eq!(r.reply_to, "e1");
    assert_eq!(r.channel.thread_id.as_deref(), Some("t1"));
    assert_eq!(r.quote_message_id.as_deref(), Some("m9"));
    let r = topic_request(&channel(), "title", "req");
    assert_eq!(r.reply_to, "");
    assert_eq!(r.channel.thread_id, None);
    assert_eq!(r.command.as_deref(), Some("create_topic"));
    let msg = MessageRef {
        channel: channel(),
        message_id: "m1".into(),
    };
    let r = message_command(&msg, MessageCommand::EditMessage, "new");
    assert_eq!(r.reply_to, "m1");
    assert_eq!(r.command.as_deref(), Some("edit_message"));
    assert_eq!(r.content.text, "new");
    assert!(request_id().starts_with("req_"));
    assert_eq!(request_id().len(), 40);
    assert!(is_response("openab.gateway.response.v1"));
    assert!(!is_response("openab.gateway.event.v1"));
}

fn response(success: bool) -> GatewayResponse {
    GatewayResponse {
        schema: "openab.gateway.response.v1".into(),
        request_id: "req".into(),
        success,
        thread_id: Some("t2".into()),
        message_id: Some("m2".into()),
        error: None,
    }
}

#[test]
fn responses_decide_what_was_sent_where() {
    assert_eq!(sent_message_id(&Some(response(true))), "m2");
    assert_eq!(sent_message_id(&Some(response(false))), "gw_sent");
    assert_eq!(sent_message_id(&None), "gw_sent");
    assert_eq!(
        topic_channel(&channel(), &Some(response(true))).thread_id.as_deref(),
        Some("t2")
    );
    assert_eq!(
        topic_channel(&channel(), &None).thread_id.as_deref(),
        Some("t1")
    );
}

#[test]
fn the_adapter_tells_of_itself() {
    let adapter = GatewayAdapter::new("line", true);
    assert_eq!(adapter.platform(), "line");
    assert_eq!(adapter.message_limit(), 4096);
    assert!(adapter.use_streaming(true));
}

#[test]
fn events_are_for_the_broker_or_for_the_agent() {
    let mut e = event("supergroup", None);
    assert!(matches!(on_event(&params(), &e), EventStep::Ignore));
    e.mentions = vec!["bot".into()];
    assert!(matches!(on_event(&params(), &e), EventStep::Prompt { own_topic: true }));
    e.channel.thread_id = Some("9".into());
    assert!(matches!(on_event(&params(), &e), EventStep::Prompt { own_topic: false }));
    e.content.text = " /reset ".into();
    match on_event(&params(), &e) {
        EventStep::Command { key, command } => {
            assert_eq!(key, event_session_key(&e));
            assert!(matches!(command, SlashCommand::Reset));
        }
        _ => panic!("a reset is for the broker"),
    }
}
