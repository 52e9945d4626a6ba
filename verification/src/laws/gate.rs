//! Which messages are answered.

use vstd::prelude::*;
use crate::config::{AllowBots, AllowUsers};
use crate::discord_gate::{
    bots_in_a_row, is_cut_down, is_earlier_row, is_inserted, is_kept, is_noted, is_recent,
    is_stranger, is_warning_due, mentions, part_taken, place_in, with_author, verdict, Arrival,
    ChannelKind, Gate, Remembered, ThreadCache, Verdict, MAX_CONSECUTIVE_BOT_TURNS,
};
use crate::text::{decimal, occurs};

verus! {

/// Whether a person's messages may be answered.
pub open spec fn is_welcome(g: Gate, m: Arrival) -> bool {
    &&& !m.author_is_bot
    &&& m.author_id != g.bot_id
    &&& g.allow_all_users || g.allowed_users@.contains(m.author_id)
}

/// Whether the channel of a message may be answered in, for its own sake.
pub open spec fn is_open_channel(g: Gate, m: Arrival, kind: ChannelKind) -> bool {
    !(kind is Private) && (g.allow_all_channels || g.allowed_channels@.contains(m.channel_id))
}

/// An allowed role among those that a message mentions makes the message a
/// mention of the bot; from an allowed person in an allowed channel it is
/// answered, in every mode.
pub proof fn allowed_roles_are_mentions(
    g: Gate,
    m: Arrival,
    i: int,
    capped: bool,
    kind: ChannelKind,
    participated: bool,
    other_bot: bool,
)
    requires
        0 <= i < m.role_mentions@.len(),
        g.allowed_role_ids@.contains(m.role_mentions@[i]),
    ensures
        mentions(g, m),
        is_welcome(g, m) && is_open_channel(g, m, kind) ==> verdict(
            g,
            m,
            capped,
            kind,
            participated,
            other_bot,
        ) == Verdict::Answer,
{
}

/// A message that the platform reports as a mention of the bot, or that holds
/// the bot's id in the form of a mention, is one; from an allowed person in an
/// allowed channel it is answered, in every mode.
pub proof fn written_mentions_are_mentions(
    g: Gate,
    m: Arrival,
    capped: bool,
    kind: ChannelKind,
    participated: bool,
    other_bot: bool,
)
    requires
        m.mentions_bot || occurs(m.content@, "<@"@ + decimal(g.bot_id as nat) + ">"@),
    ensures
        mentions(g, m),
        is_welcome(g, m) && is_open_channel(g, m, kind) ==> verdict(
            g,
            m,
            capped,
            kind,
            participated,
            other_bot,
        ) == Verdict::Answer,
{
}

/// A message that is not reported as a mention, does not hold the bot's id as
/// one and mentions no allowed role is no mention of the bot: outside threads
/// and direct messages it is never answered.
pub proof fn nothing_else_is_a_mention(
    g: Gate,
    m: Arrival,
    capped: bool,
    kind: ChannelKind,
    participated: bool,
    other_bot: bool,
)
    requires
        !m.mentions_bot,
        !occurs(m.content@, "<@"@ + decimal(g.bot_id as nat) + ">"@),
        forall|i: int|
            0 <= i < m.role_mentions@.len() ==> !g.allowed_role_ids@.contains(
                #[trigger] m.role_mentions@[i],
            ),
    ensures
        !mentions(g, m),
        kind matches ChannelKind::Guild { has_thread_metadata, parent_id, owner_id }
            && !has_thread_metadata ==> verdict(g, m, capped, kind, participated, other_bot)
            == Verdict::Ignore,
        kind is Other ==> verdict(g, m, capped, kind, participated, other_bot) == Verdict::Ignore,
        g.allow_user_messages == AllowUsers::Mentions && !(kind is Private) ==> verdict(
            g,
            m,
            capped,
            kind,
            participated,
            other_bot,
        ) == Verdict::Ignore,
{
}

/// A thread is as open as the channel it belongs to: where the parent is
/// allowed, a mention by an allowed person in the thread is answered.
pub proof fn threads_of_allowed_channels_are_open(
    g: Gate,
    m: Arrival,
    capped: bool,
    parent: u64,
    owner_id: Option<u64>,
    participated: bool,
    other_bot: bool,
)
    requires
        is_welcome(g, m),
        mentions(g, m),
        g.allowed_channels@.contains(parent),
    ensures
        verdict(
            g,
            m,
            capped,
            ChannelKind::Guild { has_thread_metadata: true, parent_id: Some(parent), owner_id },
            participated,
            other_bot,
        ) == Verdict::Answer,
{
}

/// Where neither the channel nor its parent is allowed, nothing is answered,
/// mention or not, and nobody is told so.
pub proof fn other_channels_are_ignored(
    g: Gate,
    m: Arrival,
    capped: bool,
    kind: ChannelKind,
    participated: bool,
    other_bot: bool,
)
    requires
        !g.allow_all_channels,
        !g.allowed_channels@.contains(m.channel_id),
        match kind {
            ChannelKind::Guild { has_thread_metadata, parent_id, owner_id } => !has_thread_metadata
                || parent_id is None || !g.allowed_channels@.contains(parent_id->0),
            ChannelKind::Private => false,
            ChannelKind::Other => true,
        },
    ensures
        verdict(g, m, capped, kind, participated, other_bot) == Verdict::Ignore,
{
}

/// In a thread that the bot owns or has spoken in, an allowed person is
/// answered without a mention, unless every message needs one. Where every
/// message needs one once other bots are there, it is answered as long as none
/// is.
pub proof fn involved_threads_need_no_mention(
    g: Gate,
    m: Arrival,
    capped: bool,
    parent_id: Option<u64>,
    owner_id: Option<u64>,
    participated: bool,
    other_bot: bool,
)
    requires
        is_welcome(g, m),
        g.allow_all_channels || g.allowed_channels@.contains(m.channel_id) || (parent_id is Some
            && g.allowed_channels@.contains(parent_id->0)),
        participated || owner_id == Some(g.bot_id),
        g.allow_user_messages == AllowUsers::Involved || (g.allow_user_messages
            == AllowUsers::MultibotMentions && !other_bot),
    ensures
        verdict(
            g,
            m,
            capped,
            ChannelKind::Guild { has_thread_metadata: true, parent_id, owner_id },
            participated,
            other_bot,
        ) == Verdict::Answer,
{
}

/// In a thread that is not the bot's and that it has not spoken in, nothing is
/// answered without a mention.
pub proof fn strange_threads_need_a_mention(
    g: Gate,
    m: Arrival,
    capped: bool,
    parent_id: Option<u64>,
    owner_id: Option<u64>,
    other_bot: bool,
)
    requires
        !mentions(g, m),
        owner_id != Some(g.bot_id),
    ensures
        verdict(
            g,
            m,
            capped,
            ChannelKind::Guild { has_thread_metadata: true, parent_id, owner_id },
            false,
            other_bot,
        ) == Verdict::Ignore,
{
}

/// A person who is not allowed is told so where a person who is allowed would
/// be answered, and ignored everywhere else.
#[verifier::rlimit(40)]
#[verifier::spinoff_prover]
pub proof fn strangers_are_told(
    g: Gate,
    m: Arrival,
    welcome: Arrival,
    capped: bool,
    kind: ChannelKind,
    participated: bool,
    other_bot: bool,
)
    requires
        is_welcome(g, welcome),
        welcome == (Arrival { author_id: welcome.author_id, ..m }),
        !g.allow_all_users,
        !g.allowed_users@.contains(m.author_id),
        m.author_id != g.bot_id,
    ensures
        verdict(g, welcome, capped, kind, participated, other_bot) == Verdict::Answer ==> verdict(
            g,
            m,
            capped,
            kind,
            participated,
            other_bot,
        ) == Verdict::Deny,
        verdict(g, welcome, capped, kind, participated, other_bot) != Verdict::Answer ==> verdict(
            g,
            m,
            capped,
            kind,
            participated,
            other_bot,
        ) == Verdict::Ignore,
{
    assert(welcome.role_mentions@ == m.role_mentions@);
    assert(welcome.content@ == m.content@);
    assert(mentions(g, m) ==> mentions(g, welcome)) by {
        if exists|i: int|
            0 <= i < m.role_mentions@.len() && g.allowed_role_ids@.contains(
                #[trigger] m.role_mentions@[i],
            ) {
            let i = choose|i: int|
                0 <= i < m.role_mentions@.len() && g.allowed_role_ids@.contains(
                    #[trigger] m.role_mentions@[i],
                );
            assert(g.allowed_role_ids@.contains(welcome.role_mentions@[i]));
        }
    }
    assert(mentions(g, welcome) ==> mentions(g, m)) by {
        if exists|i: int|
            0 <= i < welcome.role_mentions@.len() && g.allowed_role_ids@.contains(
                #[trigger] welcome.role_mentions@[i],
            ) {
            let i = choose|i: int|
                0 <= i < welcome.role_mentions@.len() && g.allowed_role_ids@.contains(
                    #[trigger] welcome.role_mentions@[i],
                );
            assert(g.allowed_role_ids@.contains(m.role_mentions@[i]));
        }
    }
}

/// Another bot is answered where the mode lets it through and the list of
/// trusted bots, if there is one, has it: with a mention where one is needed,
/// and else as long as bots have not answered each other too often. The list of
/// allowed people does not count for it.
pub proof fn admitted_bots_are_answered(
    g: Gate,
    m: Arrival,
    capped: bool,
    kind: ChannelKind,
    participated: bool,
    other_bot: bool,
)
    requires
        m.author_is_bot,
        m.author_id != g.bot_id,
        g.trusted_bot_ids@.is_empty() || g.trusted_bot_ids@.contains(m.author_id),
        mentions(g, m),
        g.allow_bot_messages == AllowBots::Mentions || (g.allow_bot_messages == AllowBots::All
            && !capped),
        is_open_channel(g, m, kind),
    ensures
        verdict(g, m, capped, kind, participated, other_bot) == Verdict::Answer,
{
}

/// Other bots are ignored where bots are turned off, where a mention is needed
/// and not there, and where bots have answered each other too often; a mention
/// by a trusted bot is the one exception.
pub proof fn other_bots_are_ignored(
    g: Gate,
    m: Arrival,
    capped: bool,
    kind: ChannelKind,
    participated: bool,
    other_bot: bool,
)
    requires
        m.author_is_bot,
        !(mentions(g, m) && g.trusted_bot_ids@.contains(m.author_id)),
        match g.allow_bot_messages {
            AllowBots::Off => true,
            AllowBots::Mentions => !mentions(g, m),
            AllowBots::All => capped,
        },
    ensures
        verdict(g, m, capped, kind, participated, other_bot) == Verdict::Ignore,
{
}

/// A direct message is answered or denied only where direct messages are
/// allowed; which channels are allowed does not matter there, nor does a
/// mention.
pub proof fn direct_messages_go_by_their_own_switch(
    g: Gate,
    m: Arrival,
    capped: bool,
    participated: bool,
    other_bot: bool,
)
    requires
        !m.author_is_bot,
        m.author_id != g.bot_id,
    ensures
        verdict(g, m, capped, ChannelKind::Private, participated, other_bot) == (if !g.allow_dm {
            Verdict::Ignore
        } else if g.allow_all_users || g.allowed_users@.contains(m.author_id) {
            Verdict::Answer
        } else {
            Verdict::Deny
        }),
{
}

/// A message in a thread knows the channel that the thread belongs to, and
/// whether the thread is the bot's; one outside threads knows neither.
pub proof fn places_know_their_parent(g: Gate, channel_id: u64, kind: ChannelKind)
    ensures
        kind matches ChannelKind::Guild { has_thread_metadata, parent_id, owner_id } ==> {
            let p = place_in(g, channel_id, kind);
            &&& !p.is_dm
            &&& !has_thread_metadata ==> !p.in_thread && !p.bot_owns_thread && p.thread_parent_id is None
            &&& p.in_thread ==> p.thread_parent_id == parent_id
            &&& has_thread_metadata ==> (p.bot_owns_thread <==> owner_id == Some(g.bot_id))
            &&& has_thread_metadata && (g.allow_all_channels || g.allowed_channels@.contains(channel_id)
                || (parent_id is Some && g.allowed_channels@.contains(parent_id->0))) ==> p.in_thread
            &&& p.in_thread ==> has_thread_metadata
        },
        kind is Private ==> place_in(g, channel_id, kind).is_dm && !place_in(
            g,
            channel_id,
            kind,
        ).in_thread,
        kind is Other ==> !place_in(g, channel_id, kind).is_dm && !place_in(
            g,
            channel_id,
            kind,
        ).in_thread,
{
}

/// The authors that are looked at are those of the messages before the one
/// named, the newest of them first: every one of them as long as they are not
/// too many, and no message from the one named on.
#[verifier::rlimit(40)]
#[verifier::spinoff_prover]
pub proof fn earlier_authors_are_the_newest(
    messages: Seq<Remembered>,
    id: u64,
    row: Seq<Remembered>,
    r: Seq<(bool, u64)>,
    i: int,
)
    requires
        is_earlier_row(messages, id, row, r),
    ensures
        r.len() <= MAX_CONSECUTIVE_BOT_TURNS,
        r.len() == row.len() || r.len() == MAX_CONSECUTIVE_BOT_TURNS,
        0 <= i < r.len() ==> r[i] == (row[i].author_is_bot, row[i].author_id) && row[i].id < id
            && messages.contains(row[i]),
        0 <= i < messages.len() && messages[i].id < id ==> row.contains(messages[i]),
        forall|a: int, b: int|
            0 <= a < b < row.len() ==> (#[trigger] row[a]).id >= (#[trigger] row[b]).id,
{
    broadcast use vstd::seq_lib::group_to_multiset_ensures;

    let earlier = |m: Remembered| crate::discord_gate::came_before(m, id);
    let kept = messages.filter(earlier);
    if 0 <= i < r.len() {
        assert(row.contains(row[i]));
        assert(row.to_multiset().count(row[i]) > 0);
        assert(kept.contains(row[i]));
        let k = choose|k: int| 0 <= k < kept.len() && kept[k] == row[i];
        messages.lemma_filter_pred(earlier, k);
        messages.lemma_filter_contains_rev(earlier, row[i]);
    }
    if 0 <= i < messages.len() && messages[i].id < id {
        messages.lemma_filter_contains(earlier, i);
        assert(kept.to_multiset().count(messages[i]) > 0);
        assert(row.to_multiset().count(messages[i]) > 0);
    }
}

/// Only people can be strangers, and none is where all are let in.
pub proof fn only_people_are_strangers(is_bot: bool, allow_all: bool, allowed: Set<u64>, user: u64)
    ensures
        is_bot || allow_all || allowed.contains(user) <==> !is_stranger(is_bot, allow_all, allowed, user),
{
}

/// A thread is warned at most once, only where the bot may speak and has, and
/// never because of the bot's own message.
pub proof fn warnings_are_given_once(own: bool, allowed: bool, participated: bool, warned: bool)
    ensures
        is_warning_due(own, allowed, participated, warned) <==> !own && allowed && participated && !warned,
{
}

/// The bots that spoke last, one after the other, are counted from the newest
/// message on: the first ones are all other bots', and the next, if there is
/// one, is a person's or the bot's own.
pub proof fn bots_are_counted_from_the_newest(recent: Seq<(bool, u64)>, bot_id: u64)
    ensures
        bots_in_a_row(recent, bot_id) <= recent.len(),
        forall|i: int|
            0 <= i < bots_in_a_row(recent, bot_id) ==> (#[trigger] recent[i]).0 && recent[i].1
                != bot_id,
        bots_in_a_row(recent, bot_id) < recent.len() ==> !recent[bots_in_a_row(
            recent,
            bot_id,
        ) as int].0 || recent[bots_in_a_row(recent, bot_id) as int].1 == bot_id,
    decreases recent.len(),
{
    if recent.len() > 0 && recent[0].0 && recent[0].1 != bot_id {
        bots_are_counted_from_the_newest(recent.drop_first(), bot_id);
        assert forall|i: int| 0 <= i < bots_in_a_row(recent, bot_id) implies (
        #[trigger] recent[i]).0 && recent[i].1 != bot_id by {
            if i > 0 {
                assert(recent.drop_first()[i - 1] == recent[i]);
            }
        }
    }
}

/// The bot has taken part in a thread where that is known or where one of the
/// messages read is its own; another bot is there where that is known or a
/// message read is another bot's. Nothing is found where nothing was read.
pub proof fn part_taken_is_read_from_messages(
    known_multibot: bool,
    messages: Vec<(u64, bool)>,
    bot_id: u64,
    i: int,
)
    requires
        0 <= i < messages@.len(),
    ensures
        messages@[i].0 == bot_id ==> part_taken(false, known_multibot, Some(&messages), bot_id).0,
        messages@[i].1 && messages@[i].0 != bot_id ==> part_taken(
            false,
            known_multibot,
            Some(&messages),
            bot_id,
        ).1,
        part_taken(true, known_multibot, Some(&messages), bot_id) == (true, known_multibot),
        known_multibot ==> part_taken(false, known_multibot, Some(&messages), bot_id).1,
{
    assert(messages@[i] == messages@[i]);
}

/// A thread that was just noted is remembered with the time of the note, and so
/// is every other thread that was, as long as the memory is not full.
pub proof fn noted_threads_are_remembered(
    before: Seq<(u64, u64)>,
    thread: u64,
    now: u64,
    ttl: u64,
    after: Seq<(u64, u64)>,
)
    requires
        before.len() < crate::discord_gate::PARTICIPATION_CACHE_MAX,
        is_inserted(before, thread, now, ttl, after),
    ensures
        after.contains((thread, now)),
        forall|i: int|
            0 <= i < before.len() && (#[trigger] before[i]).0 != thread ==> after.contains(before[i]),
        before.len() <= after.len() <= before.len() + 1,
{
    let full = choose|full: Seq<(u64, u64)>|
        is_noted(before, thread, now, full) && is_cut_down(full, now, ttl, after);
    assert(after == full);
    if exists|i: int| 0 <= i < before.len() && (#[trigger] before[i]).0 == thread {
        let i = choose|i: int|
            0 <= i < before.len() && (#[trigger] before[i]).0 == thread && after == before.update(
                i,
                (thread, now),
            );
        assert(after[i] == (thread, now));
        assert forall|k: int|
            0 <= k < before.len() && (#[trigger] before[k]).0 != thread implies after.contains(
            before[k],
        ) by {
            assert(after[k] == before[k]);
        }
    } else {
        assert(after[before.len() as int] == (thread, now));
        assert forall|k: int|
            0 <= k < before.len() && (#[trigger] before[k]).0 != thread implies after.contains(
            before[k],
        ) by {
            assert(after[k] == before[k]);
        }
    }
}

/// What was found of a thread is known from then on, for as long as it may be
/// kept; and what was known of another thread still is, as long as the memory is
/// not full.
#[verifier::rlimit(40)]
#[verifier::spinoff_prover]
pub proof fn findings_are_known_for_their_time(
    before: ThreadCache,
    thread: u64,
    now: u64,
    ttl: u64,
    after: ThreadCache,
    later: u64,
    other: u64,
)
    requires
        is_kept(before, thread, now, ttl, true, after),
        before.rows().len() < crate::discord_gate::PARTICIPATION_CACHE_MAX,
        now <= later,
        other != thread,
    ensures
        !before.fresh(thread, now, ttl) && later - now < ttl ==> after.fresh(thread, later, ttl),
        before.fresh(thread, now, ttl) ==> after == before,
        before.fresh(other, later, ttl) ==> after.fresh(other, later, ttl),
        is_kept(before, thread, now, ttl, false, after) ==> after == before,
{
    if !before.fresh(thread, now, ttl) {
        noted_threads_are_remembered(before.rows(), thread, now, ttl, after.rows());
        let k = choose|k: int| 0 <= k < after.rows().len() && after.rows()[k] == (thread, now);
        if later - now < ttl {
            assert(after.rows()[k].0 == thread && is_recent(after.rows()[k], later, ttl));
        }
        if before.fresh(other, later, ttl) {
            let i = choose|i: int|
                0 <= i < before.rows().len() && (#[trigger] before.rows()[i]).0 == other && is_recent(
                    before.rows()[i],
                    later,
                    ttl,
                );
            assert(after.rows().contains(before.rows()[i]));
            let j = choose|j: int| 0 <= j < after.rows().len() && after.rows()[j] == before.rows()[i];
            assert(after.rows()[j].0 == other && is_recent(after.rows()[j], later, ttl));
        }
    }
}

/// What is known of a thread is known only for a time: once that is over, it
/// has to be found anew.
pub proof fn findings_grow_old(c: ThreadCache, thread: u64, now: u64, ttl: u64)
    requires
        forall|i: int|
            0 <= i < c.rows().len() && (#[trigger] c.rows()[i]).0 == thread ==> now - c.rows()[i].1
                >= ttl,
    ensures
        !c.fresh(thread, now, ttl),
{
}

/// The author of a message makes its thread one with other bots exactly if they
/// are a bot, and not this one. Nothing known is forgotten by it.
pub proof fn other_bots_are_noted(known: ThreadCache, m: Arrival, bot_id: u64, now: u64, i: int)
    ensures
        m.author_is_bot && m.author_id != bot_id && !known.has(m.channel_id) ==> with_author(
            known,
            m,
            bot_id,
            now,
        ).contains((m.channel_id, now)),
        !m.author_is_bot || m.author_id == bot_id ==> with_author(known, m, bot_id, now)
            == known.rows(),
        0 <= i < known.rows().len() ==> with_author(known, m, bot_id, now)[i] == known.rows()[i],
{
    if m.author_is_bot && m.author_id != bot_id && !known.has(m.channel_id) {
        let r = with_author(known, m, bot_id, now);
        assert(r[known.rows().len() as int] == (m.channel_id, now));
    }
}

/// A full memory is cut down: what is too old goes first, and if that is not
/// enough the older half of the rest. Nothing new comes in by it.
#[verifier::rlimit(40)]
#[verifier::spinoff_prover]
pub proof fn full_memories_are_cut_down(
    full: Seq<(u64, u64)>,
    now: u64,
    ttl: u64,
    after: Seq<(u64, u64)>,
)
    requires
        full.len() == crate::discord_gate::PARTICIPATION_CACHE_MAX + 1,
        is_cut_down(full, now, ttl, after),
    ensures
        after.len() <= crate::discord_gate::PARTICIPATION_CACHE_MAX,
        forall|i: int| 0 <= i < after.len() ==> full.contains(#[trigger] after[i]),
        forall|i: int| 0 <= i < after.len() ==> now - (#[trigger] after[i]).1 < ttl,
{
    broadcast use vstd::seq_lib::group_filter_ensures;

    let young = |e: (u64, u64)| crate::discord_gate::is_recent(e, now, ttl);
    let kept = full.filter(young);
    assert forall|e: (u64, u64)| #[trigger] kept.contains(e) implies full.contains(e) && now - e.1
        < ttl by {
        let k = choose|k: int| 0 <= k < kept.len() && kept[k] == e;
        full.lemma_filter_pred(young, k);
        full.lemma_filter_contains_rev(young, e);
    }
    assert forall|i: int| 0 <= i < after.len() implies full.contains(#[trigger] after[i]) && now
        - after[i].1 < ttl by {
        assert(after.contains(after[i]));
        assert(kept.contains(after[i]));
    }
}

} // verus!
