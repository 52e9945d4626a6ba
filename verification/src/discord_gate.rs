//! Which Discord messages are answered: by other bots and by people, in
//! channels, in threads and in direct messages.

use std::collections::HashSet;
use vstd::prelude::*;
use crate::bot_turns::BOT_TURN_LIMIT_WARNING_PREFIX;
use crate::config::{AllowBots, AllowUsers};
use crate::text::{contains, decimal, occurs};

verus! {

broadcast use vstd::std_specs::hash::group_hash_axioms;

/// The most messages of other bots in a row that are taken up.
pub const MAX_CONSECUTIVE_BOT_TURNS: u32 = 1000;

/// The most entries of a cache of threads.
pub const PARTICIPATION_CACHE_MAX: usize = 1000;

/// Whom and where the bot answers.
#[derive(Debug)]
pub struct Gate {
    pub bot_id: u64,
    pub allow_all_channels: bool,
    pub allow_all_users: bool,
    pub allowed_channels: HashSet<u64>,
    pub allowed_users: HashSet<u64>,
    pub allow_bot_messages: AllowBots,
    pub trusted_bot_ids: HashSet<u64>,
    pub allow_user_messages: AllowUsers,
    /// The roles whose mention is a mention of the bot.
    pub allowed_role_ids: HashSet<u64>,
    pub allow_dm: bool,
}

/// A message as it comes in.
#[derive(Debug)]
pub struct Arrival {
    pub author_id: u64,
    pub author_is_bot: bool,
    pub channel_id: u64,
    pub content: String,
    /// Whether Discord lists the bot among the mentioned.
    pub mentions_bot: bool,
    pub role_mentions: Vec<u64>,
}

/// A channel, as Discord describes it.
#[derive(Debug, Clone, Copy)]
pub enum ChannelKind {
    Guild { has_thread_metadata: bool, parent_id: Option<u64>, owner_id: Option<u64> },
    Private,
    /// Something else, or nothing that could be learned.
    Other,
}

/// Where a message stands.
#[derive(Debug, Clone, Copy, PartialEq, Eq, Structural)]
pub struct Place {
    pub in_thread: bool,
    pub bot_owns_thread: bool,
    pub thread_parent_id: Option<u64>,
    pub is_dm: bool,
}

// ---------------------------------------------------------------------------
// Single rules
// ---------------------------------------------------------------------------

/// Whether a channel is a thread in an allowed place, and, if it is a thread at
/// all, whether the bot owns it.
pub open spec fn thread_status(
    has_thread_metadata: bool,
    parent_id: Option<u64>,
    owner_id: Option<u64>,
    bot_id: u64,
    allowed_channels: Set<u64>,
    allow_all_channels: bool,
    in_allowed_channel: bool,
) -> (bool, Option<bool>) {
    if !has_thread_metadata {
        (false, None)
    } else {
        (
            in_allowed_channel || allow_all_channels || (parent_id is Some
                && allowed_channels.contains(parent_id->0)),
            Some(owner_id == Some(bot_id)),
        )
    }
}

/// Tells threads by their metadata: a channel in a category has a parent too.
pub fn detect_thread(
    has_thread_metadata: bool,
    parent_id: Option<u64>,
    owner_id: Option<u64>,
    bot_id: u64,
    allowed_channels: &HashSet<u64>,
    allow_all_channels: bool,
    in_allowed_channel: bool,
) -> (r: (bool, Option<bool>))
    ensures
        r == thread_status(
            has_thread_metadata,
            parent_id,
            owner_id,
            bot_id,
            allowed_channels@,
            allow_all_channels,
            in_allowed_channel,
        ),
{
    if !has_thread_metadata {
        return (false, None);
    }
    let parent_allowed = match parent_id {
        Some(pid) => allowed_channels.contains(&pid),
        None => false,
    };
    let bot_owns = match owner_id {
        Some(oid) => oid == bot_id,
        None => false,
    };
    (in_allowed_channel || allow_all_channels || parent_allowed, Some(bot_owns))
}

/// Whether somebody is a person who is not let in.
pub open spec fn is_stranger(is_bot: bool, allow_all_users: bool, allowed: Set<u64>, user: u64) -> bool {
    !is_bot && !allow_all_users && !allowed.contains(user)
}

/// Whether an author is kept out by the list of users. Bots are not: other rules
/// hold for them.
pub fn is_denied_user(
    is_bot: bool,
    allow_all_users: bool,
    allowed_users: &HashSet<u64>,
    user_id: u64,
) -> (r: bool)
    ensures
        r == is_stranger(is_bot, allow_all_users, allowed_users@, user_id),
{
    !is_bot && !allow_all_users && !allowed_users.contains(&user_id)
}

/// Whether a bot that is trusted calls for this one.
pub fn is_trusted_bot_mention(
    is_mentioned: bool,
    trusted_bot_ids: &HashSet<u64>,
    author_id: u64,
) -> (r: bool)
    ensures
        r == (is_mentioned && trusted_bot_ids@.contains(author_id)),
{
    is_mentioned && trusted_bot_ids.contains(&author_id)
}

/// Whether a direct message is taken up.
pub fn should_process_dm(allow_dm: bool) -> (r: bool)
    ensures
        r == allow_dm,
{
    allow_dm
}

/// Whether a message that mentions the bot or not, in a thread or not, is taken
/// up from a person.
pub open spec fn user_passes(
    mode: AllowUsers,
    is_mentioned: bool,
    in_thread: bool,
    involved: bool,
    other_bot_present: bool,
) -> bool {
    is_mentioned || match mode {
        AllowUsers::Mentions => false,
        AllowUsers::Involved => in_thread && involved,
        AllowUsers::MultibotMentions => in_thread && involved && !other_bot_present,
    }
}

pub fn should_process_user_message(
    mode: AllowUsers,
    is_mentioned: bool,
    in_thread: bool,
    involved: bool,
    other_bot_present: bool,
) -> (r: bool)
    ensures
        r == user_passes(mode, is_mentioned, in_thread, involved, other_bot_present),
{
    if is_mentioned {
        return true;
    }
    match mode {
        AllowUsers::Mentions => false,
        AllowUsers::Involved => in_thread && involved,
        AllowUsers::MultibotMentions => in_thread && involved && !other_bot_present,
    }
}

/// Whether a message of another bot is taken up. `capped` tells that too many
/// messages of bots came before it.
pub open spec fn bot_passes(
    mode: AllowBots,
    is_mentioned: bool,
    trusted: Set<u64>,
    author_id: u64,
    capped: bool,
) -> bool {
    ||| is_mentioned && trusted.contains(author_id)
    ||| {
        &&& match mode {
            AllowBots::Off => false,
            AllowBots::Mentions => is_mentioned,
            AllowBots::All => !capped,
        }
        &&& trusted.is_empty() || trusted.contains(author_id)
    }
}

/// Whether a message of another bot is taken up.
pub fn should_process_bot_message(
    mode: AllowBots,
    is_mentioned: bool,
    trusted_bot_ids: &HashSet<u64>,
    author_id: u64,
    capped: bool,
) -> (r: bool)
    ensures
        r == bot_passes(mode, is_mentioned, trusted_bot_ids@, author_id, capped),
{
    if is_trusted_bot_mention(is_mentioned, trusted_bot_ids, author_id) {
        return true;
    }
    let passes = match mode {
        AllowBots::Off => false,
        AllowBots::Mentions => is_mentioned,
        AllowBots::All => !capped,
    };
    passes && (trusted_bot_ids.is_empty() || trusted_bot_ids.contains(&author_id))
}

/// How many of the newest messages, newest first, are of other bots without a break.
pub open spec fn bots_in_a_row(recent: Seq<(bool, u64)>, bot_id: u64) -> nat
    decreases recent.len(),
{
    if recent.len() > 0 && recent[0].0 && recent[0].1 != bot_id {
        1 + bots_in_a_row(recent.drop_first(), bot_id)
    } else {
        0
    }
}

/// Whether too many messages of other bots came in a row, the newest first, each
/// with its author.
pub fn is_capped(recent: &Vec<(bool, u64)>, bot_id: u64) -> (r: bool)
    ensures
        r == (bots_in_a_row(recent@, bot_id) >= MAX_CONSECUTIVE_BOT_TURNS),
{
    let mut i: usize = 0;
    assert(recent@.skip(0) =~= recent@);
    while i < recent.len() && recent[i].0 && recent[i].1 != bot_id
        invariant
            i <= recent@.len(),
            bots_in_a_row(recent@, bot_id) == i + bots_in_a_row(recent@.skip(i as int), bot_id),
        decreases recent@.len() - i,
    {
        assert(recent@.skip(i as int).drop_first() =~= recent@.skip(i + 1));
        i += 1;
    }
    assert(bots_in_a_row(recent@.skip(i as int), bot_id) == 0);
    i >= MAX_CONSECUTIVE_BOT_TURNS as usize
}

/// A message of a channel, as it is remembered.
#[derive(Debug, Clone, Copy)]
pub struct Remembered {
    pub id: u64,
    pub author_is_bot: bool,
    pub author_id: u64,
}

/// Whether a remembered message came before another one.
pub open spec fn came_before(m: Remembered, id: u64) -> bool {
    m.id < id
}

/// Whether messages stand newest first.
pub open spec fn newest_first(messages: Seq<Remembered>) -> bool {
    forall|i: int, j: int|
        0 <= i < j < messages.len() ==> (#[trigger] messages[i]).id >= (#[trigger] messages[j]).id
}

/// Who wrote messages: whether a bot did, and which author.
pub open spec fn authors(messages: Seq<Remembered>) -> Seq<(bool, u64)> {
    messages.map_values(|m: Remembered| (m.author_is_bot, m.author_id))
}

/// The messages that came before one, newest first, and no more than count.
pub open spec fn is_earlier_row(
    messages: Seq<Remembered>,
    id: u64,
    row: Seq<Remembered>,
    r: Seq<(bool, u64)>,
) -> bool {
    &&& newest_first(row)
    &&& row.to_multiset() == messages.filter(|m: Remembered| came_before(m, id)).to_multiset()
    &&& r == authors(
        row.take(
            if row.len() > MAX_CONSECUTIVE_BOT_TURNS {
                MAX_CONSECUTIVE_BOT_TURNS as int
            } else {
                row.len() as int
            },
        ),
    )
}

/// The authors of the messages that came before one, newest first, as many as count.
pub fn earlier_authors(messages: &Vec<Remembered>, id: u64) -> (r: Vec<(bool, u64)>)
    ensures
        exists|row: Seq<Remembered>| is_earlier_row(messages@, id, row, r@),
{
    let ghost keep = |m: Remembered| came_before(m, id);
    let mut row: Vec<Remembered> = Vec::new();
    let mut i: usize = 0;
    proof {
        reveal(Seq::filter);
        assert(messages@.take(0).filter(keep) =~= row@);
    }
    while i < messages.len()
        invariant
            i <= messages@.len(),
            keep == (|m: Remembered| came_before(m, id)),
            newest_first(row@),
            row@.to_multiset() == messages@.take(i as int).filter(keep).to_multiset(),
        decreases messages@.len() - i,
    {
        let m = messages[i];
        proof {
            reveal(Seq::filter);
            assert(messages@.take(i + 1).drop_last() =~= messages@.take(i as int));
            assert(messages@.take(i + 1).last() == m);
        }
        if m.id < id {
            let mut k = row.len();
            while k > 0 && row[k - 1].id < m.id
                invariant
                    k <= row@.len(),
                    forall|j: int| k <= j < row@.len() ==> (#[trigger] row@[j]).id < m.id,
                decreases k,
            {
                k -= 1;
            }
            proof {
                broadcast use vstd::seq_lib::group_to_multiset_ensures;

                vstd::seq_lib::to_multiset_insert(row@, k as int, m);
            }
            row.insert(k, m);
        }
        i += 1;
    }
    assert(messages@.take(messages@.len() as int) =~= messages@);
    let mut out: Vec<(bool, u64)> = Vec::new();
    let mut n: usize = 0;
    while n < row.len() && n < MAX_CONSECUTIVE_BOT_TURNS as usize
        invariant
            n <= row@.len(),
            n <= MAX_CONSECUTIVE_BOT_TURNS,
            out@ == authors(row@.take(n as int)),
        decreases row@.len() - n,
    {
        out.push((row[n].author_is_bot, row[n].author_id));
        n += 1;
        assert(out@ =~= authors(row@.take(n as int)));
    }
    assert(is_earlier_row(messages@, id, row@, out@));
    out
}

/// Whether a message mentions the bot: by Discord's word, in its text, or by one
/// of the bot's roles.
pub open spec fn mentions(g: Gate, m: Arrival) -> bool {
    ||| m.mentions_bot
    ||| occurs(m.content@, "<@"@ + decimal(g.bot_id as nat) + ">"@)
    ||| exists|i: int|
        0 <= i < m.role_mentions@.len() && g.allowed_role_ids@.contains(
            #[trigger] m.role_mentions@[i],
        )
}

pub fn is_mentioned(g: &Gate, m: &Arrival) -> (r: bool)
    ensures
        r == mentions(*g, *m),
{
    if m.mentions_bot {
        return true;
    }
    let mut mark = "<@".to_owned();
    crate::text::append_decimal(&mut mark, g.bot_id);
    mark.append(">");
    if contains(m.content.as_str(), mark.as_str()) {
        return true;
    }
    let mut i: usize = 0;
    while i < m.role_mentions.len()
        invariant
            i <= m.role_mentions@.len(),
            forall|k: int|
                0 <= k < i ==> !g.allowed_role_ids@.contains(#[trigger] m.role_mentions@[k]),
        decreases m.role_mentions@.len() - i,
    {
        if g.allowed_role_ids.contains(&m.role_mentions[i]) {
            assert(g.allowed_role_ids@.contains(m.role_mentions@[i as int]));
            return true;
        }
        i += 1;
    }
    false
}

/// Whether a channel itself is allowed.
pub open spec fn channel_allowed(g: Gate, channel_id: u64) -> bool {
    g.allow_all_channels || g.allowed_channels@.contains(channel_id)
}

/// Where a message in a channel stands.
pub open spec fn place_in(g: Gate, channel_id: u64, kind: ChannelKind) -> Place {
    match kind {
        ChannelKind::Guild { has_thread_metadata, parent_id, owner_id } => {
            let (in_thread, owns) = thread_status(
                has_thread_metadata,
                parent_id,
                owner_id,
                g.bot_id,
                g.allowed_channels@,
                g.allow_all_channels,
                channel_allowed(g, channel_id),
            );
            Place {
                in_thread,
                bot_owns_thread: owns == Some(true),
                thread_parent_id: if in_thread {
                    parent_id
                } else {
                    None
                },
                is_dm: false,
            }
        },
        ChannelKind::Private => Place {
            in_thread: false,
            bot_owns_thread: false,
            thread_parent_id: None,
            is_dm: true,
        },
        ChannelKind::Other => Place {
            in_thread: false,
            bot_owns_thread: false,
            thread_parent_id: None,
            is_dm: false,
        },
    }
}

pub fn locate(g: &Gate, channel_id: u64, kind: &ChannelKind) -> (r: Place)
    ensures
        r == place_in(*g, channel_id, *kind),
{
    match kind {
        ChannelKind::Guild { has_thread_metadata, parent_id, owner_id } => {
            let in_allowed_channel = g.allow_all_channels || g.allowed_channels.contains(
                &channel_id,
            );
            let (in_thread, owns) = detect_thread(
                *has_thread_metadata,
                *parent_id,
                *owner_id,
                g.bot_id,
                &g.allowed_channels,
                g.allow_all_channels,
                in_allowed_channel,
            );
            let bot_owns_thread = match owns {
                Some(b) => b,
                None => false,
            };
            Place {
                in_thread,
                bot_owns_thread,
                thread_parent_id: if in_thread {
                    *parent_id
                } else {
                    None
                },
                is_dm: false,
            }
        },
        ChannelKind::Private => Place {
            in_thread: false,
            bot_owns_thread: false,
            thread_parent_id: None,
            is_dm: true,
        },
        ChannelKind::Other => Place {
            in_thread: false,
            bot_owns_thread: false,
            thread_parent_id: None,
            is_dm: false,
        },
    }
}

/// Whether messages in a place can be answered at all.
pub open spec fn place_allowed(g: Gate, channel_id: u64, p: Place) -> bool {
    if p.is_dm {
        g.allow_dm
    } else {
        channel_allowed(g, channel_id) || p.in_thread
    }
}

/// The place of a message that is picked out to be read, where it can be: in an
/// allowed channel or thread, or in a direct message where those are allowed.
pub fn inspect_context_channel(g: &Gate, channel_id: u64, kind: &ChannelKind) -> (r: Option<Place>)
    ensures
        match r {
            Some(p) => p == place_in(*g, channel_id, *kind) && place_allowed(*g, channel_id, p)
                && !(kind is Other),
            None => kind is Other || !place_allowed(*g, channel_id, place_in(*g, channel_id, *kind)),
        },
{
    let p = locate(g, channel_id, kind);
    let known = match kind {
        ChannelKind::Other => false,
        _ => true,
    };
    let allowed = if p.is_dm {
        g.allow_dm
    } else {
        g.allow_all_channels || g.allowed_channels.contains(&channel_id) || p.in_thread
    };
    if known && allowed {
        Some(p)
    } else {
        None
    }
}

// ---------------------------------------------------------------------------
// The whole decision
// ---------------------------------------------------------------------------

/// What becomes of a message.
#[derive(Debug, Clone, Copy, PartialEq, Eq, Structural)]
pub enum Verdict {
    /// It is left alone.
    Ignore,
    /// Its author is shown to be kept out.
    Deny,
    /// It is answered.
    Answer,
}

/// Whether a message gets past the rules on bots.
pub open spec fn past_bots(g: Gate, m: Arrival, capped: bool) -> bool {
    &&& m.author_id != g.bot_id
    &&& m.author_is_bot ==> bot_passes(
        g.allow_bot_messages,
        mentions(g, m),
        g.trusted_bot_ids@,
        m.author_id,
        capped,
    )
}

/// What becomes of a message that is past the rules on bots.
pub open spec fn verdict_in_place(
    g: Gate,
    m: Arrival,
    kind: ChannelKind,
    participated: bool,
    other_bot: bool,
) -> Verdict {
    let p = place_in(g, m.channel_id, kind);
    if !place_allowed(g, m.channel_id, p) {
        Verdict::Ignore
    } else if !p.is_dm && !user_passes(
        g.allow_user_messages,
        mentions(g, m),
        p.in_thread,
        p.bot_owns_thread || participated,
        other_bot,
    ) {
        Verdict::Ignore
    } else if !m.author_is_bot && !g.allow_all_users && !g.allowed_users@.contains(m.author_id) {
        Verdict::Deny
    } else {
        Verdict::Answer
    }
}

/// What becomes of a message, given whether too many bots spoke before it, its
/// channel, whether the bot has spoken in its thread, and whether another bot has.
pub open spec fn verdict(
    g: Gate,
    m: Arrival,
    capped: bool,
    kind: ChannelKind,
    participated: bool,
    other_bot: bool,
) -> Verdict {
    if past_bots(g, m, capped) {
        verdict_in_place(g, m, kind, participated, other_bot)
    } else {
        Verdict::Ignore
    }
}

/// What is to be learned next about a message, or what becomes of it.
#[derive(Debug, Clone, Copy, PartialEq, Eq, Structural)]
pub enum GateStep {
    /// Learn who spoke before it.
    FetchHistory,
    /// Learn about its channel.
    InspectChannel,
    /// Learn who has spoken in its thread.
    CheckParticipation,
    Done(Verdict),
}

/// The first step: it decides where nothing needs to be learned.
pub fn on_message(g: &Gate, m: &Arrival) -> (r: GateStep)
    ensures
        match r {
            GateStep::Done(v) => v == Verdict::Ignore && forall|capped: bool| !past_bots(*g, *m, capped),
            GateStep::FetchHistory => past_bots(*g, *m, false) && !past_bots(*g, *m, true),
            GateStep::InspectChannel => forall|capped: bool| past_bots(*g, *m, capped),
            GateStep::CheckParticipation => false,
        },
{
    if m.author_id == g.bot_id {
        return GateStep::Done(Verdict::Ignore);
    }
    if m.author_is_bot {
        let mentioned = is_mentioned(g, m);
        if !should_process_bot_message(
            g.allow_bot_messages,
            mentioned,
            &g.trusted_bot_ids,
            m.author_id,
            false,
        ) {
            return GateStep::Done(Verdict::Ignore);
        }
        if !should_process_bot_message(
            g.allow_bot_messages,
            mentioned,
            &g.trusted_bot_ids,
            m.author_id,
            true,
        ) {
            return GateStep::FetchHistory;
        }
    }
    GateStep::InspectChannel
}

/// The step once it is known who spoke before. That it could not be learned
/// counts as too many.
pub fn on_history(g: &Gate, m: &Arrival, capped: bool) -> (r: GateStep)
    ensures
        r == (if past_bots(*g, *m, capped) {
            GateStep::InspectChannel
        } else {
            GateStep::Done(Verdict::Ignore)
        }),
{
    let passes = m.author_id != g.bot_id && (!m.author_is_bot || should_process_bot_message(
        g.allow_bot_messages,
        is_mentioned(g, m),
        &g.trusted_bot_ids,
        m.author_id,
        capped,
    ));
    if passes {
        GateStep::InspectChannel
    } else {
        GateStep::Done(Verdict::Ignore)
    }
}

/// The step once the channel is known.
pub fn on_channel(g: &Gate, m: &Arrival, kind: &ChannelKind) -> (r: GateStep)
    ensures
        match r {
            GateStep::Done(v) => forall|participated: bool, other: bool|
                verdict_in_place(*g, *m, *kind, participated, other) == v,
            GateStep::CheckParticipation => verdict_in_place(*g, *m, *kind, true, false)
                != verdict_in_place(*g, *m, *kind, false, true),
            _ => false,
        },
{
    let p = locate(g, m.channel_id, kind);
    let allowed = if p.is_dm {
        g.allow_dm
    } else {
        g.allow_all_channels || g.allowed_channels.contains(&m.channel_id) || p.in_thread
    };
    if !allowed {
        return GateStep::Done(Verdict::Ignore);
    }
    if !p.is_dm && !is_mentioned(g, m) {
        match g.allow_user_messages {
            AllowUsers::Mentions => {
                return GateStep::Done(Verdict::Ignore);
            },
            AllowUsers::Involved => {
                if !p.in_thread {
                    return GateStep::Done(Verdict::Ignore);
                }
                if !p.bot_owns_thread {
                    return GateStep::CheckParticipation;
                }
            },
            AllowUsers::MultibotMentions => {
                if !p.in_thread {
                    return GateStep::Done(Verdict::Ignore);
                }
                return GateStep::CheckParticipation;
            },
        }
    }
    GateStep::Done(
        if is_denied_user(m.author_is_bot, g.allow_all_users, &g.allowed_users, m.author_id) {
            Verdict::Deny
        } else {
            Verdict::Answer
        },
    )
}

/// The step once it is known who has spoken in the thread.
pub fn on_participation(
    g: &Gate,
    m: &Arrival,
    kind: &ChannelKind,
    participated: bool,
    other_bot: bool,
) -> (r: Verdict)
    ensures
        r == verdict_in_place(*g, *m, *kind, participated, other_bot),
{
    let p = locate(g, m.channel_id, kind);
    let allowed = if p.is_dm {
        g.allow_dm
    } else {
        g.allow_all_channels || g.allowed_channels.contains(&m.channel_id) || p.in_thread
    };
    if !allowed {
        return Verdict::Ignore;
    }
    if !p.is_dm && !should_process_user_message(
        g.allow_user_messages,
        is_mentioned(g, m),
        p.in_thread,
        p.bot_owns_thread || participated,
        other_bot,
    ) {
        return Verdict::Ignore;
    }
    if is_denied_user(m.author_is_bot, g.allow_all_users, &g.allowed_users, m.author_id) {
        Verdict::Deny
    } else {
        Verdict::Answer
    }
}

/// The bot never answers itself.
pub proof fn own_messages_are_ignored(
    g: Gate,
    m: Arrival,
    capped: bool,
    kind: ChannelKind,
    participated: bool,
    other_bot: bool,
)
    requires
        m.author_id == g.bot_id,
    ensures
        verdict(g, m, capped, kind, participated, other_bot) == Verdict::Ignore,
{
}

/// A trusted bot's mention is heard whatever the setting for bots, and as a
/// person's mention is.
pub proof fn trusted_mention_overrides_mode(
    g: Gate,
    m: Arrival,
    capped: bool,
    kind: ChannelKind,
    participated: bool,
    other_bot: bool,
)
    requires
        m.author_is_bot,
        m.author_id != g.bot_id,
        mentions(g, m),
        g.trusted_bot_ids@.contains(m.author_id),
    ensures
        verdict(g, m, capped, kind, participated, other_bot) == (if place_allowed(
            g,
            m.channel_id,
            place_in(g, m.channel_id, kind),
        ) {
            Verdict::Answer
        } else {
            Verdict::Ignore
        }),
{
}

/// Where bots are listed, a bot that is not listed is never answered.
pub proof fn unlisted_bots_are_ignored(
    g: Gate,
    m: Arrival,
    capped: bool,
    kind: ChannelKind,
    participated: bool,
    other_bot: bool,
)
    requires
        m.author_is_bot,
        !g.trusted_bot_ids@.is_empty(),
        !g.trusted_bot_ids@.contains(m.author_id),
    ensures
        verdict(g, m, capped, kind, participated, other_bot) == Verdict::Ignore,
{
}

/// A person that is not listed is never answered, not in a direct message either.
pub proof fn unlisted_people_are_never_answered(
    g: Gate,
    m: Arrival,
    capped: bool,
    kind: ChannelKind,
    participated: bool,
    other_bot: bool,
)
    requires
        !m.author_is_bot,
        !g.allow_all_users,
        !g.allowed_users@.contains(m.author_id),
    ensures
        verdict(g, m, capped, kind, participated, other_bot) != Verdict::Answer,
{
}

/// Outside threads and direct messages, nothing is answered that does not mention
/// the bot, whatever the mode.
pub proof fn channels_need_a_mention(
    g: Gate,
    m: Arrival,
    capped: bool,
    kind: ChannelKind,
    participated: bool,
    other_bot: bool,
)
    requires
        !mentions(g, m),
        !place_in(g, m.channel_id, kind).in_thread,
        !(kind is Private),
    ensures
        verdict(g, m, capped, kind, participated, other_bot) == Verdict::Ignore,
{
}

/// In the mode that asks for mentions, the bot's own threads do too.
pub proof fn mentions_mode_needs_a_mention(
    g: Gate,
    m: Arrival,
    capped: bool,
    kind: ChannelKind,
    participated: bool,
    other_bot: bool,
)
    requires
        g.allow_user_messages == AllowUsers::Mentions,
        !mentions(g, m),
        !(kind is Private),
    ensures
        verdict(g, m, capped, kind, participated, other_bot) == Verdict::Ignore,
{
}

/// A person who is allowed, and mentions the bot where it is allowed, is answered,
/// whatever the mode and whoever else is there.
pub proof fn mentions_are_answered(
    g: Gate,
    m: Arrival,
    capped: bool,
    kind: ChannelKind,
    participated: bool,
    other_bot: bool,
)
    requires
        !m.author_is_bot,
        m.author_id != g.bot_id,
        mentions(g, m),
        place_allowed(g, m.channel_id, place_in(g, m.channel_id, kind)),
        g.allow_all_users || g.allowed_users@.contains(m.author_id),
    ensures
        verdict(g, m, capped, kind, participated, other_bot) == Verdict::Answer,
{
}

/// A direct message counts as a mention: it is answered where direct messages are
/// allowed, and else ignored.
pub proof fn direct_messages_need_no_mention(
    g: Gate,
    m: Arrival,
    capped: bool,
    participated: bool,
    other_bot: bool,
)
    requires
        !m.author_is_bot,
        m.author_id != g.bot_id,
        g.allow_all_users || g.allowed_users@.contains(m.author_id),
    ensures
        verdict(g, m, capped, ChannelKind::Private, participated, other_bot) == (if g.allow_dm {
            Verdict::Answer
        } else {
            Verdict::Ignore
        }),
{
}

/// In a thread with other bots, and with the setting that says so, a person must
/// mention the bot.
pub proof fn multibot_threads_need_a_mention(
    g: Gate,
    m: Arrival,
    capped: bool,
    kind: ChannelKind,
    participated: bool,
)
    requires
        g.allow_user_messages == AllowUsers::MultibotMentions,
        !(kind is Private),
        !mentions(g, m),
    ensures
        verdict(g, m, capped, kind, participated, true) == Verdict::Ignore,
{
}

// ---------------------------------------------------------------------------
// Who has spoken in a thread
// ---------------------------------------------------------------------------

/// Whether the bot, and whether another bot, is among the authors.
pub open spec fn spoken(messages: Seq<(u64, bool)>, bot_id: u64) -> (bool, bool) {
    (
        exists|i: int| 0 <= i < messages.len() && (#[trigger] messages[i]).0 == bot_id,
        exists|i: int|
            0 <= i < messages.len() && (#[trigger] messages[i]).1 && messages[i].0 != bot_id,
    )
}

/// Whether the bot takes part in a thread, and whether another bot does.
pub open spec fn part_taken(
    known_involved: bool,
    known_multibot: bool,
    messages: Option<&Vec<(u64, bool)>>,
    bot_id: u64,
) -> (bool, bool) {
    if known_involved {
        (true, known_multibot)
    } else {
        match messages {
            None => (false, false),
            Some(list) => (spoken(list@, bot_id).0, known_multibot || spoken(list@, bot_id).1),
        }
    }
}

/// Whether the bot takes part in a thread, and whether another bot does, from
/// what is known already and from the latest messages, each with its author and
/// whether that is a bot. Where the messages could not be had, neither does.
pub fn bot_participated_in_thread(
    known_involved: bool,
    known_multibot: bool,
    messages: Option<&Vec<(u64, bool)>>,
    bot_id: u64,
) -> (r: (bool, bool))
    ensures
        r == part_taken(known_involved, known_multibot, messages, bot_id),
{
    if known_involved {
        return (true, known_multibot);
    }
    let list = match messages {
        None => return (false, false),
        Some(list) => list,
    };
    let mut involved = false;
    let mut other = false;
    let mut i: usize = 0;
    while i < list.len()
        invariant
            i <= list@.len(),
            involved == (exists|k: int| 0 <= k < i && (#[trigger] list@[k]).0 == bot_id),
            other == (exists|k: int|
                0 <= k < i && (#[trigger] list@[k]).1 && list@[k].0 != bot_id),
        decreases list@.len() - i,
    {
        if list[i].0 == bot_id {
            involved = true;
        } else if list[i].1 {
            other = true;
        }
        i += 1;
    }
    (involved, known_multibot || other)
}

/// Threads with the time at which something was learned of them; each once.
#[derive(Debug)]
pub struct ThreadCache {
    entries: Vec<(u64, u64)>,
}

/// No thread occurs twice.
pub open spec fn distinct_threads(entries: Seq<(u64, u64)>) -> bool {
    forall|i: int, j: int|
        0 <= i < j < entries.len() ==> (#[trigger] entries[i]).0 != (#[trigger] entries[j]).0
}

/// Whether an entry is from within the last `ttl`.
pub open spec fn is_recent(entry: (u64, u64), now: u64, ttl: u64) -> bool {
    now - entry.1 < ttl
}

impl ThreadCache {
    pub closed spec fn rows(&self) -> Seq<(u64, u64)> {
        self.entries@
    }

    pub open spec fn wf(&self) -> bool {
        distinct_threads(self.rows())
    }

    pub open spec fn has(&self, thread: u64) -> bool {
        exists|i: int| 0 <= i < self.rows().len() && (#[trigger] self.rows()[i]).0 == thread
    }

    /// Whether something is known of a thread and is recent.
    pub open spec fn fresh(&self, thread: u64, now: u64, ttl: u64) -> bool {
        exists|i: int|
            0 <= i < self.rows().len() && (#[trigger] self.rows()[i]).0 == thread && is_recent(
                self.rows()[i],
                now,
                ttl,
            )
    }

    pub fn new() -> (r: Self)
        ensures
            r.wf(),
            r.rows().len() == 0,
    {
        ThreadCache { entries: Vec::new() }
    }

    fn find(&self, thread: u64) -> (r: Option<usize>)
        ensures
            match r {
                Some(i) => i < self.rows().len() && self.rows()[i as int].0 == thread,
                None => !self.has(thread),
            },
    {
        let mut i: usize = 0;
        while i < self.entries.len()
            invariant
                i <= self.rows().len(),
                self.rows() == self.entries@,
                forall|k: int| 0 <= k < i ==> (#[trigger] self.rows()[k]).0 != thread,
            decreases self.rows().len() - i,
        {
            if self.entries[i].0 == thread {
                return Some(i);
            }
            i += 1;
        }
        None
    }

    /// Whether anything is known of a thread, however old.
    pub fn contains(&self, thread: u64) -> (r: bool)
        ensures
            r == self.has(thread),
    {
        match self.find(thread) {
            Some(i) => {
                assert(self.rows()[i as int].0 == thread);
                true
            },
            None => false,
        }
    }

    /// Whether something is known of a thread and is recent.
    pub fn is_fresh(&self, thread: u64, now: u64, ttl: u64) -> (r: bool)
        requires
            self.wf(),
        ensures
            r == self.fresh(thread, now, ttl),
    {
        match self.find(thread) {
            Some(i) => {
                let at = self.entries[i].1;
                let fresh = now < at || now - at < ttl;
                proof {
                    let rows = self.rows();
                    assert(rows[i as int].0 == thread);
                    if now < at {
                        assert(now - at < ttl);
                    }
                    assert forall|k: int|
                        0 <= k < rows.len() && (#[trigger] rows[k]).0 == thread implies k == i by {
                        if k < i {
                            assert(rows[k].0 != rows[i as int].0);
                        } else if i < k {
                            assert(rows[i as int].0 != rows[k].0);
                        }
                    }
                }
                fresh
            },
            None => false,
        }
    }

    /// Notes a thread, unless it is noted already.
    pub fn note(&mut self, thread: u64, now: u64)
        requires
            old(self).wf(),
        ensures
            final(self).wf(),
            final(self).rows() == (if old(self).has(thread) {
                old(self).rows()
            } else {
                old(self).rows().push((thread, now))
            }),
    {
        if !self.contains(thread) {
            self.entries.push((thread, now));
        }
    }

    /// Notes a thread anew. Where there are too many then, those that are not
    /// recent go, and if there are still too many, the older half.
    pub fn insert(&mut self, thread: u64, now: u64, ttl: u64)
        requires
            old(self).wf(),
        ensures
            final(self).wf(),
            is_inserted(old(self).rows(), thread, now, ttl, final(self).rows()),
    {
        let ghost before = self.entries@;
        match self.find(thread) {
            Some(i) => {
                self.entries.set(i, (thread, now));
                assert(before[i as int].0 == thread);
            },
            None => {
                self.entries.push((thread, now));
            },
        }
        let ghost full = self.entries@;
        assert(is_noted(before, thread, now, full));
        if self.entries.len() > PARTICIPATION_CACHE_MAX {
            let kept = keep_recent(&self.entries, now, ttl);
            self.entries = kept;
            if self.entries.len() > PARTICIPATION_CACHE_MAX {
                let count = self.entries.len() / 2;
                evict_oldest(&mut self.entries, count);
            }
        }
        assert(is_cut_down(full, now, ttl, self.rows()));
    }
}

/// In which threads the bot takes part, and in which another bot does.
#[derive(Debug)]
pub struct Participation {
    pub participated: ThreadCache,
    pub multibot: ThreadCache,
}

/// Whether what was found of a thread is kept: noted where it holds and was not
/// known, and nothing changed otherwise.
pub open spec fn is_kept(
    before: ThreadCache,
    thread: u64,
    now: u64,
    ttl: u64,
    holds: bool,
    after: ThreadCache,
) -> bool {
    if holds && !before.fresh(thread, now, ttl) {
        is_inserted(before.rows(), thread, now, ttl, after.rows())
    } else {
        after == before
    }
}

/// The threads with other bots in them, once the author of a message is noted.
pub open spec fn with_author(known: ThreadCache, m: Arrival, bot_id: u64, now: u64) -> Seq<(u64, u64)> {
    if m.author_is_bot && m.author_id != bot_id && !known.has(m.channel_id) {
        known.rows().push((m.channel_id, now))
    } else {
        known.rows()
    }
}

/// The entries after a thread was noted anew.
pub open spec fn is_inserted(
    before: Seq<(u64, u64)>,
    thread: u64,
    now: u64,
    ttl: u64,
    after: Seq<(u64, u64)>,
) -> bool {
    exists|full: Seq<(u64, u64)>|
        is_noted(before, thread, now, full) && is_cut_down(full, now, ttl, after)
}

impl Participation {
    pub open spec fn wf(&self) -> bool {
        self.participated.wf() && self.multibot.wf()
    }

    pub fn new() -> (r: Self)
        ensures
            r.wf(),
            r.participated.rows().len() == 0,
            r.multibot.rows().len() == 0,
    {
        Participation { participated: ThreadCache::new(), multibot: ThreadCache::new() }
    }

    /// Notes that a message came in: another bot's makes its thread one with other
    /// bots, from the first such message on.
    pub fn note_author(&mut self, m: &Arrival, bot_id: u64, now: u64)
        requires
            old(self).wf(),
        ensures
            final(self).wf(),
            final(self).participated == old(self).participated,
            final(self).multibot.rows() == with_author(old(self).multibot, *m, bot_id, now),
    {
        if m.author_is_bot && m.author_id != bot_id {
            self.multibot.note(m.channel_id, now);
        }
    }

    /// Whether the latest messages of a thread have to be read to know who takes
    /// part in it.
    pub fn needs_messages(&self, thread: u64, now: u64, ttl: u64) -> (r: bool)
        requires
            self.wf(),
        ensures
            r == !self.participated.fresh(thread, now, ttl),
    {
        !self.participated.is_fresh(thread, now, ttl)
    }

    /// Whether the bot takes part in a thread, and whether another bot does. What is
    /// newly found to be so is noted; that something is not so never is.
    pub fn learn(
        &mut self,
        thread: u64,
        now: u64,
        ttl: u64,
        messages: Option<&Vec<(u64, bool)>>,
        bot_id: u64,
    ) -> (r: (bool, bool))
        requires
            old(self).wf(),
        ensures
            final(self).wf(),
            r == part_taken(
                old(self).participated.fresh(thread, now, ttl),
                old(self).multibot.fresh(thread, now, ttl),
                messages,
                bot_id,
            ),
            is_kept(old(self).participated, thread, now, ttl, r.0, final(self).participated),
            is_kept(old(self).multibot, thread, now, ttl, r.1, final(self).multibot),
    {
        let involved = self.participated.is_fresh(thread, now, ttl);
        let multibot = self.multibot.is_fresh(thread, now, ttl);
        let found = bot_participated_in_thread(involved, multibot, messages, bot_id);
        if found.0 && !involved {
            self.participated.insert(thread, now, ttl);
        }
        if found.1 && !multibot {
            self.multibot.insert(thread, now, ttl);
        }
        found
    }
}

/// The entries with a thread noted at a time: in its place, or behind the others.
pub open spec fn is_noted(
    before: Seq<(u64, u64)>,
    thread: u64,
    now: u64,
    after: Seq<(u64, u64)>,
) -> bool {
    if exists|i: int| 0 <= i < before.len() && (#[trigger] before[i]).0 == thread {
        exists|i: int|
            0 <= i < before.len() && (#[trigger] before[i]).0 == thread && after == before.update(
                i,
                (thread, now),
            )
    } else {
        after == before.push((thread, now))
    }
}

/// The entries without the older half.
pub open spec fn is_younger_half(kept: Seq<(u64, u64)>, after: Seq<(u64, u64)>) -> bool {
    &&& after.len() == kept.len() - kept.len() / 2
    &&& forall|e: (u64, u64)| #[trigger] after.contains(e) ==> kept.contains(e)
    &&& forall|e: (u64, u64), k: (u64, u64)|
        #![trigger kept.contains(e), after.contains(k)]
        kept.contains(e) && !after.contains(e) && after.contains(k) ==> e.1 <= k.1
}

/// The entries brought down to size: all of them where they are few enough, else
/// the recent ones, and of those, where they are still too many, the younger half.
pub open spec fn is_cut_down(full: Seq<(u64, u64)>, now: u64, ttl: u64, after: Seq<(u64, u64)>) -> bool {
    let kept = full.filter(|e: (u64, u64)| is_recent(e, now, ttl));
    if full.len() <= PARTICIPATION_CACHE_MAX {
        after == full
    } else if kept.len() <= PARTICIPATION_CACHE_MAX {
        after == kept
    } else {
        is_younger_half(kept, after)
    }
}

/// The entries that are recent, in their order.
fn keep_recent(entries: &Vec<(u64, u64)>, now: u64, ttl: u64) -> (r: Vec<(u64, u64)>)
    requires
        distinct_threads(entries@),
    ensures
        r@ == entries@.filter(|e: (u64, u64)| is_recent(e, now, ttl)),
        distinct_threads(r@),
        r@.len() <= entries@.len(),
        forall|e: (u64, u64)| #[trigger] r@.contains(e) ==> entries@.contains(e),
{
    let ghost keep = |e: (u64, u64)| is_recent(e, now, ttl);
    let mut out: Vec<(u64, u64)> = Vec::new();
    let mut i: usize = 0;
    proof {
        reveal(Seq::filter);
    }
    while i < entries.len()
        invariant
            i <= entries@.len(),
            distinct_threads(entries@),
            keep == (|e: (u64, u64)| is_recent(e, now, ttl)),
            out@ == entries@.take(i as int).filter(keep),
            out@.len() <= i,
            distinct_threads(out@),
            forall|a: int|
                0 <= a < out@.len() ==> exists|b: int|
                    0 <= b < i && #[trigger] entries@[b] == #[trigger] out@[a],
        decreases entries@.len() - i,
    {
        let ghost earlier = out@;
        proof {
            reveal(Seq::filter);
            assert(entries@.take(i + 1).drop_last() =~= entries@.take(i as int));
            assert(entries@.take(i + 1).last() == entries@[i as int]);
        }
        let at = entries[i].1;
        if now < at || now - at < ttl {
            out.push(entries[i]);
            assert forall|a: int, b: int| 0 <= a < b < out@.len() implies (#[trigger] out@[a]).0 != (
            #[trigger] out@[b]).0 by {
                if b < earlier.len() {
                    assert(earlier[a].0 != earlier[b].0);
                } else {
                    let c = choose|c: int|
                        0 <= c < i && #[trigger] entries@[c] == earlier[a];
                    assert(entries@[c].0 != entries@[i as int].0);
                }
            }
            assert forall|a: int| 0 <= a < out@.len() implies exists|b: int|
                0 <= b < i + 1 && #[trigger] entries@[b] == #[trigger] out@[a] by {
                if a < earlier.len() {
                    assert(out@[a] == earlier[a]);
                    let c = choose|c: int|
                        0 <= c < i && #[trigger] entries@[c] == earlier[a];
                    assert(entries@[c] == out@[a]);
                } else {
                    assert(entries@[i as int] == out@[a]);
                }
            }
        }
        i += 1;
    }
    assert(entries@.take(entries@.len() as int) =~= entries@);
    assert forall|e: (u64, u64)| #[trigger] out@.contains(e) implies entries@.contains(e) by {
        let a = choose|a: int| 0 <= a < out@.len() && out@[a] == e;
        let b = choose|b: int| 0 <= b < entries@.len() && #[trigger] entries@[b] == out@[a];
        assert(entries@[b] == e);
    }
    out
}

/// Takes the `count` oldest entries out.
fn evict_oldest(entries: &mut Vec<(u64, u64)>, count: usize)
    requires
        distinct_threads(old(entries)@),
        count <= old(entries)@.len(),
    ensures
        distinct_threads(final(entries)@),
        final(entries)@.len() == old(entries)@.len() - count,
        forall|e: (u64, u64)| #[trigger]
            final(entries)@.contains(e) ==> old(entries)@.contains(e),
        forall|e: (u64, u64), k: (u64, u64)|
            old(entries)@.contains(e) && !final(entries)@.contains(e) && final(entries)@.contains(k)
                ==> e.1 <= k.1,
{
    let ghost before = entries@;
    let mut done: usize = 0;
    while done < count
        invariant
            done <= count,
            count <= before.len(),
            entries@.len() == before.len() - done,
            distinct_threads(entries@),
            forall|e: (u64, u64)| #[trigger] entries@.contains(e) ==> before.contains(e),
            forall|e: (u64, u64), k: (u64, u64)|
                before.contains(e) && !entries@.contains(e) && entries@.contains(k) ==> e.1 <= k.1,
        decreases count - done,
    {
        let ghost now = entries@;
        let mut at: usize = 0;
        let mut i: usize = 1;
        while i < entries.len()
            invariant
                entries@ == now,
                now.len() > 0,
                1 <= i <= now.len(),
                at < i,
                forall|k: int| 0 <= k < i ==> now[at as int].1 <= (#[trigger] now[k]).1,
            decreases now.len() - i,
        {
            if entries[i].1 < entries[at].1 {
                at = i;
            }
            i += 1;
        }
        let oldest = entries.remove(at);
        proof {
            assert forall|a: int, b: int| 0 <= a < b < entries@.len() implies (
            #[trigger] entries@[a]).0 != (#[trigger] entries@[b]).0 by {
                let a2 = if a < at {
                    a
                } else {
                    a + 1
                };
                let b2 = if b < at {
                    b
                } else {
                    b + 1
                };
                assert(now[a2].0 != now[b2].0);
            }
            assert forall|e: (u64, u64)| #[trigger] entries@.contains(e) implies now.contains(e) by {
                let a = choose|a: int| 0 <= a < entries@.len() && entries@[a] == e;
                let a2 = if a < at {
                    a
                } else {
                    a + 1
                };
                assert(now[a2] == e);
            }
            assert forall|e: (u64, u64)| now.contains(e) && e != oldest implies #[trigger] entries@.contains(
                e,
            ) by {
                let a = choose|a: int| 0 <= a < now.len() && now[a] == e;
                let a2 = if a < at {
                    a
                } else {
                    a - 1
                };
                assert(entries@[a2] == e);
            }
            assert forall|e: (u64, u64), k: (u64, u64)|
                before.contains(e) && !entries@.contains(e) && entries@.contains(k) implies e.1
                <= k.1 by {
                assert(now.contains(k));
                if now.contains(e) {
                    assert(e == oldest);
                    let a = choose|a: int| 0 <= a < now.len() && now[a] == k;
                    assert(now[at as int].1 <= now[a].1);
                }
            }
        }
        done += 1;
    }
}

/// Whether the warning about bot turns has been posted by some bot, among
/// messages given as whether a bot wrote them and their text.
pub fn turn_limit_warning_present(messages: &Vec<(bool, String)>) -> (r: bool)
    ensures
        r == (exists|i: int|
            0 <= i < messages@.len() && (#[trigger] messages@[i]).0 && occurs(
                messages@[i].1@,
                BOT_TURN_LIMIT_WARNING_PREFIX@,
            )),
{
    let mut i: usize = 0;
    while i < messages.len()
        invariant
            i <= messages@.len(),
            forall|k: int|
                0 <= k < i ==> !((#[trigger] messages@[k]).0 && occurs(
                    messages@[k].1@,
                    BOT_TURN_LIMIT_WARNING_PREFIX@,
                )),
        decreases messages@.len() - i,
    {
        if messages[i].0 && contains(messages[i].1.as_str(), BOT_TURN_LIMIT_WARNING_PREFIX) {
            assert(messages@[i as int].0);
            return true;
        }
        i += 1;
    }
    false
}

/// Whether a thread is told that its bots have reached their limit.
pub open spec fn is_warning_due(
    own_message: bool,
    allowed_here: bool,
    participated: bool,
    already_warned: bool,
) -> bool {
    !own_message && allowed_here && participated && !already_warned
}

/// Whether the warning about bot turns may be posted: not for the bot's own
/// message, and only where the bot is allowed and takes part, and no other bot
/// has posted it.
pub fn may_warn(own_message: bool, allowed_here: bool, participated: bool, already_warned: bool) -> (r:
    bool)
    ensures
        r == is_warning_due(own_message, allowed_here, participated, already_warned),
{
    !own_message && allowed_here && participated && !already_warned
}

/// Whether the bot may post a warning in a channel: the channel is allowed, or is
/// a thread in an allowed place.
pub fn warning_allowed(g: &Gate, channel_id: u64, kind: &ChannelKind) -> (r: bool)
    ensures
        r == (channel_allowed(*g, channel_id) || place_in(*g, channel_id, *kind).in_thread),
{
    g.allow_all_channels || g.allowed_channels.contains(&channel_id) || locate(
        g,
        channel_id,
        kind,
    ).in_thread
}

} // verus!
