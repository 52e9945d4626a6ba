//! Discord: what is read out of a message, where it is answered, how its
//! attachments are passed on, and what the commands reply.

use std::collections::HashSet;
use vstd::prelude::*;
use crate::adapter::{ChannelRef, ChatAdapter, ContentBlock, MessageRef, SenderContext};
use crate::config::{setting_view, text_view, DiscordNormalChannelReplyMode, NormalChannelReplyMode};
use crate::discord_gate::Place;
use crate::patterns::{replace_role_mentions, texts_between, ROLE_MENTION};
use crate::text::{
    append_decimal, contains, decimal, decimal_string, join, joined, lemma_longer_is_absent,
    lemma_nothing_to_replace, lemma_views_push, mapped, occurs, pieces, replace, replace_char,
    replaced, split, trim, trimmed, views,
};

verus! {

broadcast use vstd::std_specs::hash::group_hash_axioms;

/// What the Discord adapter tells of itself.
#[derive(Debug)]
pub struct DiscordAdapter {}

impl DiscordAdapter {
    pub fn new() -> (r: Self) {
        DiscordAdapter {  }
    }
}

impl ChatAdapter for DiscordAdapter {
    fn platform(&self) -> (r: &'static str)
        ensures
            r@ == "discord"@,
    {
        "discord"
    }

    fn message_limit(&self) -> (r: usize)
        ensures
            r == 2000,
    {
        2000
    }

    fn use_streaming(&self, other_bot_present: bool) -> (r: bool)
        ensures
            r == !other_bot_present,
    {
        !other_bot_present
    }
}

/// A thread's title of at most 100 characters.
pub fn thread_title(title: &str) -> (r: &str)
    ensures
        r@ == (if title@.len() > 100 {
            title@.take(100)
        } else {
            title@
        }),
{
    if title.unicode_len() > 100 {
        let cut = title.substring_char(0, 100);
        assert(cut@ =~= title@.take(100));
        cut
    } else {
        title
    }
}

// ---------------------------------------------------------------------------
// Mentions
// ---------------------------------------------------------------------------

/// A number between two texts.
pub open spec fn tag(open: Seq<char>, id: nat) -> Seq<char> {
    open + decimal(id) + ">"@
}

fn make_tag(open: &str, id: u64) -> (r: String)
    ensures
        r@ == tag(open@, id as nat),
        r@.len() > 0,
{
    let mut out = open.to_owned();
    append_decimal(&mut out, id);
    out.append(">");
    proof {
        reveal_strlit(">");
    }
    out
}

/// A text without the mentions of the first `k` roles, taken out one after the other.
pub open spec fn without_roles(s: Seq<char>, roles: Seq<u64>, k: int) -> Seq<char>
    decreases k,
{
    if k <= 0 {
        s
    } else {
        replaced(without_roles(s, roles, k - 1), tag("<@&"@, roles[k - 1] as nat), ""@)
    }
}

/// A text without the mentions of the bot.
pub open spec fn without_bot(s: Seq<char>, bot_id: u64) -> Seq<char> {
    replaced(replaced(s, tag("<@"@, bot_id as nat), ""@), tag("<@!"@, bot_id as nat), ""@)
}

/// The prompt in a message: without the mentions of the bot and of its roles,
/// with a placeholder for other roles, and without white space around it.
pub open spec fn prompt_of(content: Seq<char>, bot_id: u64, roles: Seq<u64>) -> Seq<char> {
    trimmed(
        joined(
            texts_between(
                ROLE_MENTION@,
                without_roles(without_bot(content, bot_id), roles, roles.len() as int),
            ),
            "@(role)"@,
        ),
    )
}

/// A text without mentions is kept by taking mentions out.
proof fn lemma_no_mentions(s: Seq<char>, bot_id: u64, roles: Seq<u64>, k: int)
    requires
        !occurs(s, "<@"@),
        0 <= k <= roles.len(),
    ensures
        without_roles(without_bot(s, bot_id), roles, k) == s,
        !occurs(s, "<@&"@),
    decreases k,
{
    reveal_strlit("<@");
    reveal_strlit("<@!");
    reveal_strlit("<@&");
    assert("<@!"@ =~= "<@"@ + seq!['!']);
    assert("<@&"@ =~= "<@"@ + seq!['&']);
    lemma_longer_is_absent(s, "<@"@, decimal(bot_id as nat) + ">"@);
    assert("<@"@ + (decimal(bot_id as nat) + ">"@) =~= tag("<@"@, bot_id as nat));
    lemma_longer_is_absent(s, "<@"@, seq!['!'] + decimal(bot_id as nat) + ">"@);
    assert("<@"@ + (seq!['!'] + decimal(bot_id as nat) + ">"@) =~= tag("<@!"@, bot_id as nat));
    lemma_longer_is_absent(s, "<@"@, seq!['&']);
    lemma_nothing_to_replace(s, tag("<@"@, bot_id as nat), ""@);
    lemma_nothing_to_replace(s, tag("<@!"@, bot_id as nat), ""@);
    if k > 0 {
        let id = roles[k - 1] as nat;
        lemma_no_mentions(s, bot_id, roles, k - 1);
        lemma_longer_is_absent(s, "<@&"@, decimal(id) + ">"@);
        assert("<@&"@ + (decimal(id) + ">"@) =~= tag("<@&"@, id));
        lemma_nothing_to_replace(s, tag("<@&"@, id), ""@);
    }
}

/// Takes the prompt out of a message. The bot's roles are taken out in some
/// order; where no mention is made up of parts of others, the order is all one.
pub fn resolve_mentions(content: &str, bot_id: u64, allowed_role_ids: &HashSet<u64>) -> (r: String)
    ensures
        exists|roles: Seq<u64>|
            roles.no_duplicates() && roles.to_set() == allowed_role_ids@ && r@ == #[trigger] prompt_of(
                content@,
                bot_id,
                roles,
            ),
        !occurs(content@, "<@"@) ==> r@ == trimmed(content@),
{
    let a = replace(content, make_tag("<@", bot_id).as_str(), "");
    let mut out = replace(a.as_str(), make_tag("<@!", bot_id).as_str(), "");
    let ghost bare = without_bot(content@, bot_id);
    let ghost mut roles: Seq<u64> = Seq::empty();
    for id in it: allowed_role_ids.iter()
        invariant
            roles == it.seq().unref().take(it.index()),
            it.seq().unref().to_set() == allowed_role_ids@,
            it.seq().no_duplicates(),
            out@ == without_roles(bare, roles, roles.len() as int),
            it.index() == it.seq().len() ==> roles.no_duplicates() && roles.to_set()
                == allowed_role_ids@,
    {
        let ghost before = out@;
        let ghost earlier = roles;
        out = replace(out.as_str(), make_tag("<@&", *id).as_str(), "");
        proof {
            roles = roles.push(*id);
            lemma_without_roles_prefix(bare, earlier, roles, earlier.len() as int);
            assert(it.seq().unref()[it.index()] == *id);
            assert(it.seq().unref().take(it.index() + 1) =~= it.seq().unref().take(
                it.index(),
            ).push(*id));
            assert(it.seq().unref().no_duplicates());
            assert(it.index() + 1 == it.seq().len() ==> it.seq().unref().take(it.index() + 1)
                =~= it.seq().unref());
        }
    }
    let replaced_roles = replace_role_mentions(out.as_str(), "@(role)");
    let r = trim(replaced_roles.as_str()).to_owned();
    assert(r@ == prompt_of(content@, bot_id, roles));
    proof {
        if !occurs(content@, "<@"@) {
            lemma_no_mentions(content@, bot_id, roles, roles.len() as int);
        }
    }
    r
}

proof fn lemma_without_roles_prefix(s: Seq<char>, a: Seq<u64>, b: Seq<u64>, k: int)
    requires
        0 <= k <= a.len() <= b.len(),
        forall|i: int| 0 <= i < a.len() ==> a[i] == b[i],
    ensures
        without_roles(s, a, k) == without_roles(s, b, k),
    decreases k,
{
    if k > 0 {
        lemma_without_roles_prefix(s, a, b, k - 1);
    }
}


// ---------------------------------------------------------------------------
// Senders
// ---------------------------------------------------------------------------

/// The name that a person is shown under: the one in the server, or else the one
/// shown to all, or else the user name.
pub open spec fn shown_name(
    nick: Option<Seq<char>>,
    global_name: Option<Seq<char>>,
    name: Seq<char>,
) -> Seq<char> {
    match (nick, global_name) {
        (Some(n), _) => n,
        (None, Some(g)) => g,
        (None, None) => name,
    }
}

/// The name that a person is shown under: in this server, or else everywhere, or
/// else the account's.
pub fn display_name(nick: &Option<String>, global_name: &Option<String>, name: &str) -> (r: String)
    ensures
        r@ == shown_name(text_view(*nick), text_view(*global_name), name@),
{
    match nick {
        Some(n) => n.clone(),
        None => match global_name {
            Some(g) => g.clone(),
            None => name.to_owned(),
        },
    }
}

/// Whether a sender is told of as standing in a channel, which may be a thread of
/// another.
pub open spec fn stands_in(channel_id: Seq<char>, parent: Option<Seq<char>>, s: SenderContext) -> bool {
    &&& s.channel_id@ == (match parent {
        Some(p) => p,
        None => channel_id,
    })
    &&& text_view(s.thread_id) == (if parent is Some {
        Some(channel_id)
    } else {
        None
    })
}

/// Who sent a message, as the agent is told. In a thread the channel is the one
/// that the thread belongs to.
pub fn build_sender_context(
    sender_id: &str,
    sender_name: &str,
    display_name: &str,
    msg_channel_id: &str,
    thread_parent_id: Option<&str>,
    is_bot: bool,
    timestamp: &str,
    message_id: &str,
    receiver_id: &str,
) -> (r: SenderContext)
    ensures
        r.schema@ == "openab.sender.v1"@,
        r.sender_id@ == sender_id@,
        r.sender_name@ == sender_name@,
        r.display_name@ == display_name@,
        r.channel@ == "discord"@,
        stands_in(msg_channel_id@, setting_view(thread_parent_id), r),
        r.is_bot == is_bot,
        text_view(r.timestamp) == Some(timestamp@),
        text_view(r.message_id) == Some(message_id@),
        text_view(r.receiver_id) == Some(receiver_id@),
        r.handoff_token is None,
        r.referenced_message_id is None,
        r.referenced_channel_id is None,
        r.referenced_author_id is None,
        r.referenced_author_name is None,
{
    let (channel_id, thread_id) = match thread_parent_id {
        Some(parent) => (parent.to_owned(), Some(msg_channel_id.to_owned())),
        None => (msg_channel_id.to_owned(), None),
    };
    SenderContext {
        schema: "openab.sender.v1".to_owned(),
        sender_id: sender_id.to_owned(),
        sender_name: sender_name.to_owned(),
        display_name: display_name.to_owned(),
        channel: "discord".to_owned(),
        channel_id,
        thread_id,
        is_bot,
        timestamp: Some(timestamp.to_owned()),
        message_id: Some(message_id.to_owned()),
        receiver_id: Some(receiver_id.to_owned()),
        handoff_token: None,
        referenced_message_id: None,
        referenced_channel_id: None,
        referenced_author_id: None,
        referenced_author_name: None,
    }
}

/// The author of a message that another refers to.
#[derive(Debug)]
pub struct ReferencedAuthor {
    pub id: u64,
    pub global_name: Option<String>,
    pub name: String,
}

/// What a message refers to.
#[derive(Debug)]
pub struct Reference {
    pub message_id: Option<u64>,
    pub channel_id: u64,
    /// The author, where the message came along.
    pub author: Option<ReferencedAuthor>,
}

/// Whether what is told of a sender has come to say which message they refer to.
pub open spec fn refers_to(before: SenderContext, reference: Option<Reference>, after: SenderContext) -> bool {
    match reference {
        Some(f) => if f.message_id is Some {
            &&& text_view(after.referenced_message_id) == Some(decimal(f.message_id->0 as nat))
            &&& text_view(after.referenced_channel_id) == Some(decimal(f.channel_id as nat))
            &&& match f.author {
                Some(a) => {
                    &&& text_view(after.referenced_author_id) == Some(decimal(a.id as nat))
                    &&& text_view(after.referenced_author_name) == (match a.global_name {
                        Some(g) => Some(g@),
                        None => Some(a.name@),
                    })
                },
                None => {
                    &&& after.referenced_author_id == before.referenced_author_id
                    &&& after.referenced_author_name == before.referenced_author_name
                },
            }
            &&& after == (SenderContext {
                referenced_message_id: after.referenced_message_id,
                referenced_channel_id: after.referenced_channel_id,
                referenced_author_id: after.referenced_author_id,
                referenced_author_name: after.referenced_author_name,
                ..before
            })
        } else {
            after == before
        },
        None => after == before,
    }
}

/// Adds to a sender what the message refers to.
pub fn apply_discord_reply_context(sender: &mut SenderContext, reference: &Option<Reference>)
    ensures
        refers_to(*old(sender), *reference, *final(sender)),
{
    let f = match reference {
        Some(f) => f,
        None => return,
    };
    let message_id = match f.message_id {
        Some(id) => id,
        None => return,
    };
    sender.referenced_message_id = Some(decimal_string(message_id));
    sender.referenced_channel_id = Some(decimal_string(f.channel_id));
    if let Some(a) = &f.author {
        sender.referenced_author_id = Some(decimal_string(a.id));
        sender.referenced_author_name = match &a.global_name {
            Some(g) => Some(g.clone()),
            None => Some(a.name.clone()),
        };
    }
}

/// A message of a channel.
pub fn discord_msg_ref(channel_id: u64, message_id: u64) -> (r: MessageRef)
    ensures
        r.channel.platform@ == "discord"@,
        r.channel.channel_id@ == decimal(channel_id as nat),
        r.channel.thread_id is None,
        r.channel.parent_id is None,
        r.channel.origin_event_id is None,
        r.message_id@ == decimal(message_id as nat),
{
    let channel = decimal_string(channel_id);
    MessageRef {
        channel: ChannelRef::plain("discord", channel.as_str()),
        message_id: decimal_string(message_id),
    }
}

// ---------------------------------------------------------------------------
// Where a message is answered
// ---------------------------------------------------------------------------

/// Whether a message is answered where it stands, in a thread or a direct message.
pub fn should_skip_thread_creation(in_thread: bool, is_dm: bool) -> (r: bool)
    ensures
        r == (in_thread || is_dm),
{
    in_thread || is_dm
}

/// Whether a message in a normal channel is answered in that channel.
pub fn should_use_inline_normal_channel_reply(
    in_thread: bool,
    is_dm: bool,
    mode: DiscordNormalChannelReplyMode,
) -> (r: bool)
    ensures
        r == (!in_thread && !is_dm && mode == NormalChannelReplyMode::Inline),
{
    !in_thread && !is_dm && mode == NormalChannelReplyMode::Inline
}

/// The key of the session of a normal channel that is answered in place.
pub fn inline_discord_session_key(channel_id: u64) -> (r: String)
    ensures
        r@ == "discord-inline:"@ + decimal(channel_id as nat),
{
    let mut out = "discord-inline:".to_owned();
    append_decimal(&mut out, channel_id);
    out
}

/// The session of a channel that is answered in place is not that of a thread
/// with the same number.
pub proof fn inline_sessions_are_apart(a: nat, b: nat)
    ensures
        "discord-inline:"@ + decimal(a) != "discord:"@ + decimal(b),
{
    reveal_strlit("discord-inline:");
    reveal_strlit("discord:");
    assert(("discord-inline:"@ + decimal(a))[7] == '-');
    assert(("discord:"@ + decimal(b))[7] == ':');
}

/// How a message is answered.
#[derive(Debug)]
pub struct Answer {
    /// Where; none where a thread is to be opened first.
    pub channel: Option<ChannelRef>,
    /// The message that the first reply refers to.
    pub initial_reply_to: Option<String>,
    /// The session, where it is not that of the channel.
    pub session_key_override: Option<String>,
}

/// Whether a reference is to a Discord channel with a parent.
pub open spec fn is_discord_channel(c: ChannelRef, channel_id: nat, parent: Option<Seq<char>>) -> bool {
    &&& c.platform@ == "discord"@
    &&& c.channel_id@ == decimal(channel_id)
    &&& c.thread_id is None
    &&& text_view(c.parent_id) == parent
    &&& c.origin_event_id is None
}

/// The number of a channel as a text.
pub open spec fn number_text(id: Option<u64>) -> Option<Seq<char>> {
    match id {
        Some(n) => Some(decimal(n as nat)),
        None => None,
    }
}

/// Whether a message is answered in this way: in the thread or direct
/// conversation that it stands in, inline in its channel where that is the mode,
/// and else in a thread that is still to be made.
pub open spec fn is_answer_in(
    place: Place,
    mode: DiscordNormalChannelReplyMode,
    channel_id: u64,
    message_id: u64,
    a: Answer,
) -> bool {
    let inline = !place.in_thread && !place.is_dm && mode == NormalChannelReplyMode::Inline;
    &&& match a.channel {
        Some(c) => (place.in_thread || place.is_dm || inline) && is_discord_channel(
            c,
            channel_id as nat,
            number_text(place.thread_parent_id),
        ),
        None => !(place.in_thread || place.is_dm || inline),
    }
    &&& text_view(a.initial_reply_to) == (if inline {
        Some(decimal(message_id as nat))
    } else {
        None
    })
    &&& text_view(a.session_key_override) == (if inline {
        Some("discord-inline:"@ + decimal(channel_id as nat))
    } else {
        None
    })
}

/// Decides how a message is answered: where it stands in a thread, in a direct
/// message, or in a channel that is answered in place, and else in a thread that
/// is opened for it.
pub fn plan_answer(
    place: &Place,
    mode: DiscordNormalChannelReplyMode,
    channel_id: u64,
    message_id: u64,
) -> (r: Answer)
    ensures
        is_answer_in(*place, mode, channel_id, message_id, r),
{
    let inline = should_use_inline_normal_channel_reply(place.in_thread, place.is_dm, mode);
    let channel = if should_skip_thread_creation(place.in_thread, place.is_dm) || inline {
        let parent_id = match place.thread_parent_id {
            Some(p) => Some(decimal_string(p)),
            None => None,
        };
        Some(
            ChannelRef {
                platform: "discord".to_owned(),
                channel_id: decimal_string(channel_id),
                thread_id: None,
                parent_id,
                origin_event_id: None,
            },
        )
    } else {
        None
    };
    if inline {
        Answer {
            channel,
            initial_reply_to: Some(decimal_string(message_id)),
            session_key_override: Some(inline_discord_session_key(channel_id)),
        }
    } else {
        Answer { channel, initial_reply_to: None, session_key_override: None }
    }
}

/// The platform that a message's lane is kept under.
pub fn lane_platform(inline: bool) -> (r: &'static str)
    ensures
        r@ == (if inline {
            "discord-inline"@
        } else {
            "discord"@
        }),
{
    if inline {
        "discord-inline"
    } else {
        "discord"
    }
}

/// A sender who was in no thread, in the thread that was made for them.
pub open spec fn with_thread(s: SenderContext, channel: ChannelRef) -> SenderContext {
    if s.thread_id is None && channel.parent_id is Some {
        SenderContext { thread_id: Some(channel.channel_id), ..s }
    } else {
        s
    }
}

/// Tells a sender of the thread that was opened for the message.
pub fn backfill_thread(sender: &mut SenderContext, channel: &ChannelRef)
    ensures
        *final(sender) == with_thread(*old(sender), *channel),
{
    if sender.thread_id.is_none() && channel.parent_id.is_some() {
        sender.thread_id = Some(channel.channel_id.clone());
    }
}

/// Whether an error says that the message has a thread already: another bot was
/// faster.
pub fn is_thread_already_exists_error(message: &str) -> (r: bool)
    ensures
        r == (occurs(message@, "160004"@) || occurs(message@, "already been created"@)),
{
    contains(message, "160004") || contains(message, "already been created")
}

/// What opening a thread came to.
#[derive(Debug)]
pub enum ThreadStep {
    /// The thread to answer in.
    Use(ChannelRef),
    /// Look the message up again: it has a thread.
    Refetch,
    Fail(String),
}

/// What follows the attempt to make a thread.
pub open spec fn thread_step(result: Result<ChannelRef, String>) -> ThreadStep {
    match result {
        Ok(c) => ThreadStep::Use(c),
        Err(e) => if occurs(e@, "160004"@) || occurs(e@, "already been created"@) {
            ThreadStep::Refetch
        } else {
            ThreadStep::Fail(e)
        },
    }
}

/// The step once a thread was asked for.
pub fn on_thread_created(result: Result<ChannelRef, String>) -> (r: ThreadStep)
    ensures
        r == thread_step(result),
{
    match result {
        Ok(c) => ThreadStep::Use(c),
        Err(e) => if is_thread_already_exists_error(e.as_str()) {
            ThreadStep::Refetch
        } else {
            ThreadStep::Fail(e)
        },
    }
}

/// The step once the message was looked up again: its thread, if it has one.
pub fn on_refetched(refetched: Result<Option<u64>, String>, channel_id: u64) -> (r: ThreadStep)
    ensures
        match refetched {
            Ok(Some(thread)) => r matches ThreadStep::Use(c) && is_discord_channel(
                c,
                thread as nat,
                Some(decimal(channel_id as nat)),
            ),
            Ok(None) => r matches ThreadStep::Fail(e) && e@
                == "thread_already_exists (race), but message has no thread after refetch"@,
            Err(fe) => r matches ThreadStep::Fail(e) && e@
                == "thread_already_exists (race), but refetch failed: "@ + fe@,
        },
{
    match refetched {
        Ok(Some(thread)) => ThreadStep::Use(
            ChannelRef {
                platform: "discord".to_owned(),
                channel_id: decimal_string(thread),
                thread_id: None,
                parent_id: Some(decimal_string(channel_id)),
                origin_event_id: None,
            },
        ),
        Ok(None) => ThreadStep::Fail(
            "thread_already_exists (race), but message has no thread after refetch".to_owned(),
        ),
        Err(fe) => {
            let mut e = "thread_already_exists (race), but refetch failed: ".to_owned();
            e.append(fe.as_str());
            ThreadStep::Fail(e)
        },
    }
}

// ---------------------------------------------------------------------------
// Attachments
// ---------------------------------------------------------------------------

/// The most bytes of text files that a message brings.
pub const TEXT_TOTAL_CAP: u64 = 1_048_576;

/// The most text files that a message brings.
pub const TEXT_FILE_COUNT_CAP: u32 = 5;

/// The text files that a message has brought so far.
#[derive(Debug, Clone, Copy)]
pub struct TextBudget {
    pub bytes: u64,
    pub count: u32,
}

impl TextBudget {
    pub fn new() -> (r: Self)
        ensures
            r.bytes == 0,
            r.count == 0,
    {
        TextBudget { bytes: 0, count: 0 }
    }

    /// Whether a file of a size can still be taken.
    pub fn has_room(&self, size: u64) -> (r: bool)
        ensures
            r == (self.count < TEXT_FILE_COUNT_CAP && self.bytes + size <= TEXT_TOTAL_CAP),
    {
        self.count < TEXT_FILE_COUNT_CAP && self.bytes <= TEXT_TOTAL_CAP && size <= TEXT_TOTAL_CAP
            - self.bytes
    }

    /// Counts a file in, by the bytes that it really had.
    pub fn take(&mut self, actual_bytes: u64)
        requires
            old(self).count < TEXT_FILE_COUNT_CAP,
            old(self).bytes + actual_bytes <= u64::MAX,
        ensures
            final(self).bytes == old(self).bytes + actual_bytes,
            final(self).count == old(self).count + 1,
            final(self).count <= TEXT_FILE_COUNT_CAP,
    {
        self.bytes = self.bytes + actual_bytes;
        self.count = self.count + 1;
    }
}

/// Whether a message holds anything to answer: a text or a file.
pub fn has_content(prompt: &str, files: usize) -> (r: bool)
    ensures
        r == (prompt@.len() > 0 || files > 0),
{
    prompt.unicode_len() > 0 || files > 0
}

/// What is done about a file of a message.
#[derive(Debug, Clone, Copy, PartialEq, Eq, Structural)]
pub enum FileStep {
    /// Have the recording written down.
    Transcribe,
    /// Show that recordings are not listened to.
    Mute,
    /// Take the text in.
    ReadText,
    /// See whether it is an image.
    TryImage,
    /// Leave it out: the texts of the message are too many or too large.
    Skip,
}

/// What is done about a file, from its kind and from the room that is left for
/// texts.
pub open spec fn file_step(
    is_audio: bool,
    is_text: bool,
    size: u64,
    stt_enabled: bool,
    taken: TextBudget,
) -> FileStep {
    if is_audio {
        if stt_enabled {
            FileStep::Transcribe
        } else {
            FileStep::Mute
        }
    } else if !is_text {
        FileStep::TryImage
    } else if taken.count < TEXT_FILE_COUNT_CAP && taken.bytes + size <= TEXT_TOTAL_CAP {
        FileStep::ReadText
    } else {
        FileStep::Skip
    }
}

/// Decides about a file of a message, by its kind and by the texts taken so far.
/// What is both a recording and a text counts as a recording.
pub fn on_attachment(
    is_audio: bool,
    is_text: bool,
    size: u64,
    stt_enabled: bool,
    taken: &TextBudget,
) -> (r: FileStep)
    ensures
        r == file_step(is_audio, is_text, size, stt_enabled, *taken),
{
    if is_audio {
        if stt_enabled {
            FileStep::Transcribe
        } else {
            FileStep::Mute
        }
    } else if !is_text {
        FileStep::TryImage
    } else if taken.has_room(size) {
        FileStep::ReadText
    } else {
        FileStep::Skip
    }
}

/// What becomes of a file that gave no image.
#[derive(Debug, Clone, Copy, PartialEq, Eq, Structural)]
pub enum UnusedFile {
    /// Put it where the agent can reach it.
    Offload,
    /// Give the agent its address.
    LinkVideo,
    Drop,
}

/// What is done about a file that is no image after all.
pub open spec fn unused_file(not_an_image: bool, can_offload: bool, is_video: bool) -> UnusedFile {
    if can_offload {
        UnusedFile::Offload
    } else if not_an_image && is_video {
        UnusedFile::LinkVideo
    } else {
        UnusedFile::Drop
    }
}

/// Decides about a file that gave no image, because it is none or because it could
/// not be had. Only in the latter case is its author told.
pub fn on_no_image(not_an_image: bool, can_offload: bool, is_video: bool) -> (r: (bool, UnusedFile))
    ensures
        r.0 == !not_an_image,
        r.1 == unused_file(not_an_image, can_offload, is_video),
{
    let unused = if can_offload {
        UnusedFile::Offload
    } else if not_an_image && is_video {
        UnusedFile::LinkVideo
    } else {
        UnusedFile::Drop
    };
    (!not_an_image, unused)
}

/// Puts what was said before all else that a message brought.
pub fn put_transcript(blocks: &mut Vec<ContentBlock>, transcript: &str)
    ensures
        final(blocks)@.len() == old(blocks)@.len() + 1,
        final(blocks)@[0] matches ContentBlock::Text { text } && text@
            == "[Voice message transcript]: "@ + transcript@,
        final(blocks)@.skip(1) == old(blocks)@,
{
    blocks.insert(0, transcript_block(transcript));
    assert(blocks@.skip(1) =~= old(blocks)@);
}

/// The type of a file without its parameters.
pub fn clean_mime(mime: &str) -> (r: String)
    ensures
        r@ == trimmed(pieces(mime@, ';')[0]),
{
    let parts = split(mime, ';');
    assert(views(parts@)[0] == parts@[0]@);
    trim(parts[0].as_str()).to_owned()
}

/// The block for a voice message.
pub fn transcript_block(transcript: &str) -> (r: ContentBlock)
    ensures
        r matches ContentBlock::Text { text } && text@ == "[Voice message transcript]: "@
            + transcript@,
{
    let mut text = "[Voice message transcript]: ".to_owned();
    text.append(transcript);
    ContentBlock::Text { text }
}

/// What the agent is told of a video.
pub open spec fn video_text(
    filename: Seq<char>,
    content_type: Option<Seq<char>>,
    size: nat,
    url: Seq<char>,
) -> Seq<char> {
    "[Video attachment]\nfilename: "@ + filename + "\ncontent_type: "@ + (match content_type {
        Some(t) => t,
        None => "unknown"@,
    }) + "\nsize_bytes: "@ + decimal(size) + "\nurl: "@ + url
}

/// The block for a video: where it is, not what is in it.
pub fn video_attachment_block(filename: &str, content_type: Option<&str>, size: u64, url: &str) -> (r:
    ContentBlock)
    ensures
        r matches ContentBlock::Text { text } && text@ == video_text(
            filename@,
            setting_view(content_type),
            size as nat,
            url@,
        ),
{
    let mut text = "[Video attachment]\nfilename: ".to_owned();
    text.append(filename);
    text.append("\ncontent_type: ");
    match content_type {
        Some(t) => {
            text.append(t);
        },
        None => {
            text.append("unknown");
        },
    }
    text.append("\nsize_bytes: ");
    append_decimal(&mut text, size);
    text.append("\nurl: ");
    text.append(url);
    ContentBlock::Text { text }
}

/// Where a file would be that could not be stored.
pub fn unavailable_path(filename: &str) -> (r: String)
    ensures
        r@ == "<unavailable>/"@ + mapped(mapped(filename@, '/', '_'), '\\', '_'),
{
    let mut out = "<unavailable>/".to_owned();
    let a = replace_char(filename, '/', '_');
    out.append(replace_char(a.as_str(), '\\', '_').as_str());
    out
}

/// A file's name between backquotes.
pub open spec fn quoted(name: Seq<char>) -> Seq<char> {
    "`"@ + replaced(name, "`"@, "'"@) + "`"@
}

/// What people are told of images that could not be processed, if there are any.
pub open spec fn images_refused(failed: Seq<Seq<char>>) -> Option<Seq<char>> {
    if failed.len() == 0 {
        None
    } else {
        Some(
            ":warning: I couldn't process the image(s) you shared ("@ + joined(
                failed.map_values(|n: Seq<char>| quoted(n)),
                ", "@,
            )
                + "). The files may be inaccessible or in an unsupported format (PNG/JPEG/GIF/WebP only)."@,
        )
    }
}

/// What a message's author is told of images that could not be used; nothing
/// where all could.
pub fn image_warning(failed: &Vec<String>) -> (r: Option<String>)
    ensures
        text_view(r) == images_refused(views(failed@)),
{
    if failed.len() == 0 {
        return None;
    }
    let ghost all = views(failed@).map_values(|n: Seq<char>| quoted(n));
    let mut names: Vec<String> = Vec::new();
    let mut i: usize = 0;
    proof {
        reveal_strlit("`");
    }
    assert(views(names@) =~= all.take(0));
    while i < failed.len()
        invariant
            i <= failed@.len(),
            "`"@.len() == 1,
            all == views(failed@).map_values(|n: Seq<char>| quoted(n)),
            views(names@) == all.take(i as int),
        decreases failed@.len() - i,
    {
        let mut name = "`".to_owned();
        name.append(replace(failed[i].as_str(), "`", "'").as_str());
        name.append("`");
        proof {
            assert(all[i as int] == name@);
            lemma_views_push(names@, name);
            assert(all.take(i + 1) =~= all.take(i as int).push(all[i as int]));
        }
        names.push(name);
        i += 1;
    }
    assert(all.take(all.len() as int) =~= all);
    let mut out = ":warning: I couldn't process the image(s) you shared (".to_owned();
    out.append(join(&names, ", ").as_str());
    out.append(
        "). The files may be inaccessible or in an unsupported format (PNG/JPEG/GIF/WebP only).",
    );
    Some(out)
}

} // verus!
