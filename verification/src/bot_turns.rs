//! How many messages bots may write in a thread before a person speaks up.

use vstd::prelude::*;
use crate::table::Table;
use crate::text::{append_decimal, decimal};

verus! {

/// The most messages of bots in a row, whatever is configured.
pub const HARD_BOT_TURN_LIMIT: u32 = 1000;

/// How every warning about the limit begins.
pub const BOT_TURN_LIMIT_WARNING_PREFIX: &'static str = "⚠️ Bot turn limit reached";

/// What a bot's message comes to.
#[derive(Debug, Clone, Copy, PartialEq, Eq, Structural)]
pub enum TurnResult {
    /// No limit is reached.
    Within,
    /// The configured limit is hit just now, with this many messages.
    SoftLimit(u32),
    /// The configured limit was hit before.
    Throttled,
    /// The fixed limit is hit just now.
    HardLimit,
    /// The fixed limit was hit before.
    Stopped,
}

/// Which limit it is.
#[derive(Debug, Clone, Copy, PartialEq, Eq, Structural)]
pub enum TurnSeverity {
    Soft,
    Hard,
}

/// What is done about a bot's message.
#[derive(Debug)]
pub enum TurnAction {
    Continue,
    /// Leave the message alone, and say so.
    WarnAndStop { severity: TurnSeverity, turns: u32, user_message: String },
    /// Leave the message alone.
    SilentStop,
}

/// What the `n`th message of bots in a row comes to.
pub open spec fn turn_result(soft_limit: u32, n: u32) -> TurnResult {
    if n > HARD_BOT_TURN_LIMIT {
        TurnResult::Stopped
    } else if n == HARD_BOT_TURN_LIMIT {
        TurnResult::HardLimit
    } else if n > soft_limit {
        TurnResult::Throttled
    } else if n == soft_limit {
        TurnResult::SoftLimit(n)
    } else {
        TurnResult::Within
    }
}

/// The warning about a limit.
pub open spec fn warning(turns: u32, limit: u32) -> Seq<char> {
    BOT_TURN_LIMIT_WARNING_PREFIX@ + " ("@ + decimal(turns as nat) + "/"@ + decimal(limit as nat)
        + "). A human must reply."@
}

/// Whether an action is the one for a result.
pub open spec fn is_action_for(a: TurnAction, r: TurnResult, soft_limit: u32) -> bool {
    match r {
        TurnResult::Within => a is Continue,
        TurnResult::SoftLimit(n) => a matches TurnAction::WarnAndStop {
            severity,
            turns,
            user_message,
        } && severity == TurnSeverity::Soft && turns == n && user_message@ == warning(
            n,
            soft_limit,
        ),
        TurnResult::HardLimit => a matches TurnAction::WarnAndStop {
            severity,
            turns,
            user_message,
        } && severity == TurnSeverity::Hard && turns == HARD_BOT_TURN_LIMIT && user_message@
            == warning(HARD_BOT_TURN_LIMIT, HARD_BOT_TURN_LIMIT),
        TurnResult::Throttled | TurnResult::Stopped => a is SilentStop,
    }
}

fn write_warning(turns: u32, limit: u32) -> (r: String)
    ensures
        r@ == warning(turns, limit),
{
    let mut s = BOT_TURN_LIMIT_WARNING_PREFIX.to_owned();
    s.append(" (");
    append_decimal(&mut s, turns as u64);
    s.append("/");
    append_decimal(&mut s, limit as u64);
    s.append("). A human must reply.");
    s
}

/// The count of each thread.
#[derive(Debug)]
pub struct BotTurnTracker {
    soft_limit: u32,
    counts: Table<u32>,
}

/// Whether a message was counted, and this is what it comes to.
pub open spec fn has_counted(
    before: BotTurnTracker,
    thread: Seq<char>,
    by_bot: bool,
    ordinary: bool,
    content: Seq<char>,
    action: TurnAction,
    after: BotTurnTracker,
) -> bool {
    &&& after.limit() == before.limit()
    &&& by_bot ==> after.counts() == before.counts().insert(thread, before.next_count(thread))
        && is_action_for(
        action,
        turn_result(before.limit(), before.next_count(thread)),
        before.limit(),
    )
    &&& !by_bot ==> action is Continue && after.counts() == (if ordinary && content.len() > 0 {
        before.counts().remove(thread)
    } else {
        before.counts()
    })
}

impl BotTurnTracker {
    pub closed spec fn limit(&self) -> u32 {
        self.soft_limit
    }

    pub closed spec fn counts(&self) -> Map<Seq<char>, u32> {
        self.counts@
    }

    /// How many messages bots have written in a thread since a person last did.
    pub open spec fn count_of(&self, thread: Seq<char>) -> u32 {
        if self.counts().contains_key(thread) {
            self.counts()[thread]
        } else {
            0
        }
    }

    /// The count with one message more, as far as can be counted.
    pub open spec fn next_count(&self, thread: Seq<char>) -> u32 {
        if self.count_of(thread) == u32::MAX {
            u32::MAX
        } else {
            (self.count_of(thread) + 1) as u32
        }
    }

    pub fn new(soft_limit: u32) -> (r: Self)
        ensures
            r.limit() == soft_limit,
            r.counts() == Map::<Seq<char>, u32>::empty(),
    {
        BotTurnTracker { soft_limit, counts: Table::new() }
    }

    /// Counts a bot's message.
    pub fn on_bot_message(&mut self, thread: &str) -> (r: TurnResult)
        ensures
            final(self).limit() == old(self).limit(),
            final(self).counts() == old(self).counts().insert(
                thread@,
                old(self).next_count(thread@),
            ),
            r == turn_result(old(self).limit(), old(self).next_count(thread@)),
    {
        let before: u32 = match self.counts.get(thread) {
            Some(n) => *n,
            None => 0,
        };
        let n: u32 = if before == u32::MAX {
            before
        } else {
            before + 1
        };
        self.counts.insert(thread.to_owned(), n);
        if n > HARD_BOT_TURN_LIMIT {
            TurnResult::Stopped
        } else if n == HARD_BOT_TURN_LIMIT {
            TurnResult::HardLimit
        } else if n > self.soft_limit {
            TurnResult::Throttled
        } else if n == self.soft_limit {
            TurnResult::SoftLimit(n)
        } else {
            TurnResult::Within
        }
    }

    /// Starts the count of a thread anew, for a person spoke up.
    pub fn on_human_message(&mut self, thread: &str)
        ensures
            final(self).limit() == old(self).limit(),
            final(self).counts() == old(self).counts().remove(thread@),
    {
        self.counts.remove(thread);
    }

    /// Counts a bot's message, and says what is done about it.
    pub fn classify_bot_message(&mut self, thread: &str) -> (r: TurnAction)
        ensures
            final(self).limit() == old(self).limit(),
            final(self).counts() == old(self).counts().insert(
                thread@,
                old(self).next_count(thread@),
            ),
            is_action_for(
                r,
                turn_result(old(self).limit(), old(self).next_count(thread@)),
                old(self).limit(),
            ),
    {
        match self.on_bot_message(thread) {
            TurnResult::Within => TurnAction::Continue,
            TurnResult::SoftLimit(n) => TurnAction::WarnAndStop {
                severity: TurnSeverity::Soft,
                turns: n,
                user_message: write_warning(n, self.soft_limit),
            },
            TurnResult::HardLimit => TurnAction::WarnAndStop {
                severity: TurnSeverity::Hard,
                turns: HARD_BOT_TURN_LIMIT,
                user_message: write_warning(HARD_BOT_TURN_LIMIT, HARD_BOT_TURN_LIMIT),
            },
            TurnResult::Throttled | TurnResult::Stopped => TurnAction::SilentStop,
        }
    }

    /// Counts a message: a bot's counts as one more, and a person's, where it is an
    /// ordinary one with a text, starts the count anew. Other messages, such as
    /// notices of the platform, leave it as it is.
    pub fn on_message(&mut self, thread: &str, by_bot: bool, ordinary: bool, content: &str) -> (r:
        TurnAction)
        ensures
            has_counted(*old(self), thread@, by_bot, ordinary, content@, r, *final(self)),
    {
        if by_bot {
            return self.classify_bot_message(thread);
        }
        if ordinary && content.unicode_len() > 0 {
            self.on_human_message(thread);
        }
        TurnAction::Continue
    }
}

/// While no person speaks up, each limit is warned of once: the count that hits it
/// is the only one that does.
pub proof fn limits_are_warned_of_once(soft_limit: u32, n: u32, m: u32)
    requires
        n != m,
    ensures
        turn_result(soft_limit, n) is SoftLimit ==> !(turn_result(soft_limit, m) is SoftLimit),
        turn_result(soft_limit, n) is HardLimit ==> !(turn_result(soft_limit, m) is HardLimit),
{
}

/// Bots that only answer each other fall silent: from either limit on, nothing more
/// is answered.
pub proof fn bots_fall_silent(soft_limit: u32, n: u32)
    requires
        n >= soft_limit || n >= HARD_BOT_TURN_LIMIT,
    ensures
        turn_result(soft_limit, n) != TurnResult::Within,
{
}

/// A person's message starts the count of its thread anew, and of no other.
pub proof fn people_reset_their_thread(
    before: BotTurnTracker,
    after: BotTurnTracker,
    thread: Seq<char>,
    other: Seq<char>,
)
    requires
        after.counts() == before.counts().remove(thread),
        other != thread,
    ensures
        after.count_of(thread) == 0,
        after.count_of(other) == before.count_of(other),
{
}

} // verus!
