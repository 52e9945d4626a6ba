//! The steps by which a message on Discord is looked at, and how it is answered.

use openab::adapter::{ChannelRef, ContentBlock};
use openab::bot_turns::{BotTurnTracker, TurnAction, TurnSeverity};
use openab::config::{AllowBots, AllowUsers, DiscordNormalChannelReplyMode};
use openab::discord::{
    apply_discord_reply_context, backfill_thread, build_sender_context, clean_mime,
    discord_msg_ref, has_content, image_warning, lane_platform, on_attachment, on_no_image,
    on_refetched, on_thread_created, plan_answer, put_transcript, transcript_block,
    unavailable_path, FileStep, Reference, ReferencedAuthor, TextBudget, ThreadStep, UnusedFile,
};
use openab::discord_gate::{
    bot_participated_in_thread, earlier_authors, is_capped, locate, may_warn, on_channel,
    on_history, on_message, on_participation, warning_allowed, Arrival, ChannelKind, Gate, GateStep,
    Participation, Place, Remembered, ThreadCache, Verdict, MAX_CONSECUTIVE_BOT_TURNS,
};
use std::collections::HashSet;

const BOT: u64 = 1;

fn gate() -> Gate {
    Gate {
        bot_id: BOT,
        allow_all_channels: false,
        allow_all_users: true,
        allowed_channels: [100].into_iter().collect(),
        allowed_users: HashSet::new(),
        allow_bot_messages: AllowBots::All,
        trusted_bot_ids: HashSet::new(),
        allow_user_messages: AllowUsers::Involved,
        allowed_role_ids: HashSet::new(),
        allow_dm: true,
    }
}

fn arrival(author_id: u64, author_is_bot: bool) -> Arrival {
    Arrival {
        author_id,
        author_is_bot,
        channel_id: 500,
        content: "hi".to_string(),
        mentions_bot: false,
        role_mentions: Vec::new(),
    }
}

fn thread(owner: u64) -> ChannelKind {
    ChannelKind::Guild {
        has_thread_metadata: true,
        parent_id: Some(100),
        owner_id: Some(owner),
    }
}

#[test]
fn other_bots_wait_for_the_history() {
    let step = on_message(&gate(), &arrival(9, true));
    assert_eq!(step, GateStep::FetchHistory);
    assert_eq!(on_history(&gate(), &arrival(9, true), false), GateStep::InspectChannel);
    assert_eq!(on_history(&gate(), &arrival(9, true), true), GateStep::Done(Verdict::Ignore));
}

#[test]
fn bots_alone_come_to_an_end() {
    let mut recent: Vec<(bool, u64)> = vec![(true, 9); MAX_CONSECUTIVE_BOT_TURNS as usize - 1];
    assert!(!is_capped(&recent, BOT));
    recent.push((true, 8));
    assert!(is_capped(&recent, BOT));
    recent[4] = (false, 7);
    assert!(!is_capped(&recent, BOT));
    recent[4] = (true, BOT);
    assert!(!is_capped(&recent, BOT));
}

#[test]
fn a_thread_is_answered_where_the_bot_takes_part() {
    let g = gate();
    let m = arrival(7, false);
    assert_eq!(on_channel(&g, &m, &thread(3)), GateStep::CheckParticipation);
    assert_eq!(on_participation(&g, &m, &thread(3), true, false), Verdict::Answer);
    assert_eq!(on_participation(&g, &m, &thread(3), false, false), Verdict::Ignore);
    let elsewhere = ChannelKind::Guild {
        has_thread_metadata: true,
        parent_id: Some(101),
        owner_id: Some(BOT),
    };
    assert_eq!(on_participation(&g, &m, &elsewhere, true, false), Verdict::Ignore);
    let strict = Gate { allow_all_users: false, ..gate() };
    assert_eq!(on_participation(&strict, &m, &thread(BOT), true, false), Verdict::Deny);
}

#[test]
fn places_are_told_apart() {
    let own = locate(&gate(), 500, &thread(BOT));
    let expected = Place {
        in_thread: true,
        bot_owns_thread: true,
        thread_parent_id: Some(100),
        is_dm: false,
    };
    assert_eq!(own, expected);
    assert!(locate(&gate(), 500, &ChannelKind::Private).is_dm);
    assert!(!locate(&gate(), 500, &ChannelKind::Other).in_thread);
    assert!(warning_allowed(&gate(), 500, &thread(3)));
    assert!(warning_allowed(&gate(), 100, &ChannelKind::Other));
    assert!(!warning_allowed(&gate(), 500, &ChannelKind::Private));
}

#[test]
fn taking_part_is_learned_from_the_latest_messages() {
    let list = vec![(7, false), (BOT, true), (9, true)];
    assert_eq!(bot_participated_in_thread(false, false, Some(&list), BOT), (true, true));
    assert_eq!(bot_participated_in_thread(true, false, None, BOT), (true, false));
    assert_eq!(bot_participated_in_thread(false, true, None, BOT), (false, false));
    let people = vec![(7, false)];
    assert_eq!(bot_participated_in_thread(false, true, Some(&people), BOT), (false, true));
}

#[test]
fn warnings_are_posted_once() {
    assert!(may_warn(false, true, true, false));
    assert!(!may_warn(true, true, true, false));
    assert!(!may_warn(false, false, true, false));
    assert!(!may_warn(false, true, false, false));
    assert!(!may_warn(false, true, true, true));
}

#[test]
fn threads_are_noted_once() {
    let mut cache = ThreadCache::new();
    cache.note(5, 10);
    cache.note(5, 99);
    assert!(cache.contains(5));
    assert!(!cache.contains(6));
}

#[test]
fn answers_go_where_they_belong() {
    let in_thread = Place {
        in_thread: true,
        bot_owns_thread: false,
        thread_parent_id: Some(100),
        is_dm: false,
    };
    let plan = plan_answer(&in_thread, DiscordNormalChannelReplyMode::Inline, 500, 42);
    let channel = plan.channel.unwrap();
    assert_eq!(channel.channel_id, "500");
    assert_eq!(channel.parent_id.as_deref(), Some("100"));
    assert!(plan.initial_reply_to.is_none());

    let open = Place { in_thread: false, thread_parent_id: None, ..in_thread };
    let plan = plan_answer(&open, DiscordNormalChannelReplyMode::Inline, 500, 42);
    assert_eq!(plan.initial_reply_to.as_deref(), Some("42"));
    assert_eq!(plan.session_key_override.as_deref(), Some("discord-inline:500"));
    assert_eq!(lane_platform(true), "discord-inline");

    let plan = plan_answer(&open, DiscordNormalChannelReplyMode::Thread, 500, 42);
    assert!(plan.channel.is_none());
    assert!(plan.session_key_override.is_none());
    assert_eq!(lane_platform(false), "discord");
}

#[test]
fn a_thread_that_another_opened_is_used() {
    let made = ChannelRef::plain("discord", "5");
    assert!(matches!(on_thread_created(Ok(made)), ThreadStep::Use(c) if c.channel_id == "5"));
    assert!(matches!(
        on_thread_created(Err("A thread has already been created".to_string())),
        ThreadStep::Refetch
    ));
    assert!(matches!(
        on_thread_created(Err("denied".to_string())),
        ThreadStep::Fail(e) if e == "denied"
    ));
    assert!(matches!(
        on_refetched(Ok(Some(7)), 100),
        ThreadStep::Use(c) if c.channel_id == "7" && c.parent_id.as_deref() == Some("100")
    ));
    assert!(matches!(
        on_refetched(Ok(None), 100),
        ThreadStep::Fail(e)
            if e == "thread_already_exists (race), but message has no thread after refetch"
    ));
    assert!(matches!(
        on_refetched(Err("gone".to_string()), 100),
        ThreadStep::Fail(e) if e == "thread_already_exists (race), but refetch failed: gone"
    ));
}

#[test]
fn a_sender_is_told_what_the_message_refers_to() {
    let mut sender =
        build_sender_context("7", "ann", "Ann", "500", None, false, "now", "42", "1");
    let refers = Reference {
        message_id: Some(41),
        channel_id: 500,
        author: Some(ReferencedAuthor { id: 8, global_name: None, name: "bob".to_string() }),
    };
    apply_discord_reply_context(&mut sender, &Some(refers));
    assert_eq!(sender.referenced_message_id.as_deref(), Some("41"));
    assert_eq!(sender.referenced_channel_id.as_deref(), Some("500"));
    assert_eq!(sender.referenced_author_id.as_deref(), Some("8"));
    assert_eq!(sender.referenced_author_name.as_deref(), Some("bob"));

    let mut sender =
        build_sender_context("7", "ann", "Ann", "500", None, false, "now", "42", "1");
    apply_discord_reply_context(
        &mut sender,
        &Some(Reference { message_id: None, channel_id: 500, author: None }),
    );
    assert!(sender.referenced_channel_id.is_none());
    let opened = ChannelRef {
        parent_id: Some("500".to_string()),
        ..ChannelRef::plain("discord", "600")
    };
    backfill_thread(&mut sender, &ChannelRef::plain("discord", "600"));
    assert!(sender.thread_id.is_none());
    backfill_thread(&mut sender, &opened);
    assert_eq!(sender.thread_id.as_deref(), Some("600"));
    let message = discord_msg_ref(500, 42);
    assert_eq!(message.channel.channel_id, "500");
    assert_eq!(message.message_id, "42");
}

#[test]
fn files_have_bounds() {
    let mut budget = TextBudget::new();
    for _ in 0..5 {
        assert!(budget.has_room(1000));
        budget.take(1000);
    }
    assert!(!budget.has_room(1));
    let budget = TextBudget::new();
    assert!(budget.has_room(1024 * 1024));
    assert!(!budget.has_room(1024 * 1024 + 1));
    assert_eq!(clean_mime("text/plain; charset=utf-8"), "text/plain");
    assert_eq!(unavailable_path("a/b\\c"), "<unavailable>/a_b_c");
    assert!(matches!(
        transcript_block("hello"),
        ContentBlock::Text { text } if text == "[Voice message transcript]: hello"
    ));
    assert!(image_warning(&vec![]).is_none());
    assert_eq!(
        image_warning(&vec!["a`.png".to_string(), "b".to_string()]).unwrap(),
        ":warning: I couldn't process the image(s) you shared (`a'.png`, `b`). The files may be inaccessible or in an unsupported format (PNG/JPEG/GIF/WebP only)."
    );
}

#[test]
fn files_are_taken_by_their_kind() {
    let none = TextBudget::new();
    assert_eq!(on_attachment(true, true, 1, true, &none), FileStep::Transcribe);
    assert_eq!(on_attachment(true, false, 1, false, &none), FileStep::Mute);
    assert_eq!(on_attachment(false, true, 1, true, &none), FileStep::ReadText);
    assert_eq!(on_attachment(false, false, u64::MAX, true, &none), FileStep::TryImage);
    assert_eq!(on_attachment(false, true, u64::MAX, true, &none), FileStep::Skip);
    let full = TextBudget { bytes: 0, count: 5 };
    assert_eq!(on_attachment(false, true, 1, true, &full), FileStep::Skip);
    assert_eq!(on_no_image(true, true, true), (false, UnusedFile::Offload));
    assert_eq!(on_no_image(true, false, true), (false, UnusedFile::LinkVideo));
    assert_eq!(on_no_image(true, false, false), (false, UnusedFile::Drop));
    assert_eq!(on_no_image(false, false, true), (true, UnusedFile::Drop));
    assert_eq!(on_no_image(false, true, false), (true, UnusedFile::Offload));
    assert!(has_content("", 1));
    assert!(!has_content("", 0));
    let mut blocks = vec![transcript_block("second")];
    put_transcript(&mut blocks, "first");
    assert!(matches!(&blocks[0], ContentBlock::Text { text } if text.ends_with("first")));
    assert_eq!(blocks.len(), 2);
}

fn mention(author_id: u64) -> Arrival {
    Arrival { mentions_bot: true, ..arrival(author_id, false) }
}

#[test]
fn mentions_are_needed_outside_threads() {
    let open = ChannelKind::Guild { has_thread_metadata: false, parent_id: None, owner_id: None };
    let m = Arrival { channel_id: 100, ..arrival(7, false) };
    assert_eq!(on_participation(&gate(), &m, &open, true, false), Verdict::Ignore);
    let m = Arrival { channel_id: 100, ..mention(7) };
    assert_eq!(on_participation(&gate(), &m, &open, false, true), Verdict::Answer);
}

#[test]
fn the_mode_for_mentions_asks_for_them_everywhere() {
    let strict = Gate { allow_user_messages: AllowUsers::Mentions, ..gate() };
    assert_eq!(
        on_participation(&strict, &arrival(7, false), &thread(BOT), true, false),
        Verdict::Ignore
    );
    assert_eq!(on_participation(&strict, &mention(7), &thread(3), false, true), Verdict::Answer);
}

#[test]
fn direct_messages_count_as_mentions() {
    let m = arrival(7, false);
    assert_eq!(on_channel(&gate(), &m, &ChannelKind::Private), GateStep::Done(Verdict::Answer));
    let closed = Gate { allow_dm: false, ..gate() };
    assert_eq!(on_channel(&closed, &m, &ChannelKind::Private), GateStep::Done(Verdict::Ignore));
}

#[test]
fn history_is_asked_about_bots_alone() {
    assert_eq!(on_history(&gate(), &arrival(7, false), true), GateStep::InspectChannel);
    assert_eq!(on_history(&gate(), &arrival(BOT, true), false), GateStep::Done(Verdict::Ignore));
}

#[test]
fn earlier_messages_come_newest_first() {
    let m = |id: u64, author_is_bot: bool| Remembered { id, author_is_bot, author_id: id + 100 };
    let list = vec![m(3, true), m(9, false), m(5, false), m(12, true), m(4, true)];
    assert_eq!(
        earlier_authors(&list, 9),
        vec![(false, 105), (true, 104), (true, 103)]
    );
    assert!(earlier_authors(&list, 3).is_empty());
    let many: Vec<Remembered> = (0..1200).map(|id| m(id, true)).collect();
    let row = earlier_authors(&many, 1200);
    assert_eq!(row.len(), 1000);
    assert_eq!(row[0], (true, 1299));
    assert!(is_capped(&row, BOT));
    assert!(!is_capped(&earlier_authors(&many, 999), BOT));
}

#[test]
fn taking_part_is_remembered_and_absence_is_not() {
    let mut p = Participation::new();
    assert!(p.needs_messages(5, 0, 100));
    assert_eq!(p.learn(5, 0, 100, None, BOT), (false, false));
    assert!(p.needs_messages(5, 1, 100));
    let list = vec![(BOT, true), (9, true)];
    assert_eq!(p.learn(5, 1, 100, Some(&list), BOT), (true, true));
    assert!(!p.needs_messages(5, 50, 100));
    assert!(p.needs_messages(6, 50, 100));
    assert_eq!(p.learn(5, 50, 100, None, BOT), (true, true));
    assert!(p.needs_messages(5, 101, 100));
}

#[test]
fn another_bots_message_is_noted_at_once() {
    let mut p = Participation::new();
    let mut m = arrival(9, true);
    m.channel_id = 77;
    p.note_author(&m, BOT, 3);
    assert!(p.multibot.contains(77));
    let mut own = arrival(BOT, true);
    own.channel_id = 78;
    p.note_author(&own, BOT, 3);
    assert!(!p.multibot.contains(78));
    let mut person = arrival(7, false);
    person.channel_id = 79;
    p.note_author(&person, BOT, 3);
    assert!(!p.multibot.contains(79));
}

#[test]
fn bots_are_stopped_until_a_person_speaks() {
    let mut t = BotTurnTracker::new(2);
    assert!(matches!(t.on_message("a", true, true, "x"), TurnAction::Continue));
    match t.on_message("a", true, true, "x") {
        TurnAction::WarnAndStop { severity, turns, user_message } => {
            assert_eq!(severity, TurnSeverity::Soft);
            assert_eq!(turns, 2);
            assert_eq!(user_message, "⚠️ Bot turn limit reached (2/2). A human must reply.");
        }
        other => panic!("{other:?}"),
    }
    assert!(matches!(t.on_message("a", true, true, "x"), TurnAction::SilentStop));
    assert!(matches!(t.on_message("b", true, true, "x"), TurnAction::Continue));
    // A notice and an empty message leave the count as it is.
    assert!(matches!(t.on_message("a", false, false, "pinned"), TurnAction::Continue));
    assert!(matches!(t.on_message("a", false, true, ""), TurnAction::Continue));
    assert!(matches!(t.on_message("a", true, true, "x"), TurnAction::SilentStop));
    assert!(matches!(t.on_message("a", false, true, "go on"), TurnAction::Continue));
    assert!(matches!(t.on_message("a", true, true, "x"), TurnAction::Continue));
}
