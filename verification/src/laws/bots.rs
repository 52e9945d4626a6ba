//! When bots stop answering each other.

use vstd::prelude::*;
use crate::bot_turns::{
    has_counted, is_action_for, turn_result, warning, BotTurnTracker, TurnAction,
    HARD_BOT_TURN_LIMIT,
};
use crate::text::{decimal, lemma_parts_stand, occurs};

verus! {

/// Below both limits a bot's turn goes on. A turn that reaches one of them is
/// stopped with a warning, and every turn beyond is stopped in silence.
pub proof fn turns_go_on_below_the_limits(a: TurnAction, soft_limit: u32, n: u32)
    requires
        is_action_for(a, turn_result(soft_limit, n), soft_limit),
    ensures
        a is Continue <==> n < soft_limit && n < HARD_BOT_TURN_LIMIT,
        a is WarnAndStop <==> n == HARD_BOT_TURN_LIMIT || (n == soft_limit && n
            < HARD_BOT_TURN_LIMIT),
        a is SilentStop <==> n > HARD_BOT_TURN_LIMIT || (n > soft_limit && n < HARD_BOT_TURN_LIMIT),
{
}

/// A warning tells the number of turns and the limit that it has reached.
#[verifier::rlimit(40)]
#[verifier::spinoff_prover]
pub proof fn warnings_tell_the_limit(a: TurnAction, soft_limit: u32, n: u32)
    requires
        is_action_for(a, turn_result(soft_limit, n), soft_limit),
        a is WarnAndStop,
    ensures
        a->turns == n,
        occurs(a->user_message@, "("@ + decimal(n as nat) + "/"@ + decimal(n as nat) + ")"@),
{
    let t = a->user_message@;
    let said = "("@ + decimal(n as nat) + "/"@ + decimal(n as nat) + ")"@;
    reveal_strlit(" (");
    reveal_strlit(" ");
    reveal_strlit("(");
    reveal_strlit(")");
    reveal_strlit("). A human must reply.");
    reveal_strlit(". A human must reply.");
    assert(" ("@ =~= " "@ + "("@);
    assert("). A human must reply."@ =~= ")"@ + ". A human must reply."@);
    let first = crate::bot_turns::BOT_TURN_LIMIT_WARNING_PREFIX@ + " "@;
    lemma_parts_stand(first, said, ". A human must reply."@);
    assert(t == warning(n, n));
    assert(first + said + ". A human must reply."@ =~= t);
}

/// Each message of a bot counts one more turn of its thread.
pub proof fn turns_are_counted(t: BotTurnTracker, thread: Seq<char>)
    ensures
        t.count_of(thread) < u32::MAX ==> t.next_count(thread) == t.count_of(thread) + 1,
        t.count_of(thread) == u32::MAX ==> t.next_count(thread) == u32::MAX,
        !t.counts().contains_key(thread) ==> t.next_count(thread) == 1,
{
}

/// The turns of one thread do not count for another.
pub proof fn threads_count_apart(
    before: BotTurnTracker,
    after: BotTurnTracker,
    thread: Seq<char>,
    other: Seq<char>,
)
    requires
        after.counts() == before.counts().insert(thread, before.next_count(thread)),
        other != thread,
    ensures
        after.count_of(thread) == before.next_count(thread),
        after.count_of(other) == before.count_of(other),
{
}

/// A person's message that says something starts the count of its thread anew,
/// and a bot's counts one more; either leaves the other threads alone. What a
/// person says never stops a turn.
pub proof fn messages_are_counted(
    before: BotTurnTracker,
    thread: Seq<char>,
    by_bot: bool,
    ordinary: bool,
    content: Seq<char>,
    action: TurnAction,
    after: BotTurnTracker,
    other: Seq<char>,
)
    requires
        has_counted(before, thread, by_bot, ordinary, content, action, after),
        other != thread,
    ensures
        after.count_of(other) == before.count_of(other),
        after.limit() == before.limit(),
        !by_bot ==> action is Continue,
        !by_bot && ordinary && content.len() > 0 ==> after.count_of(thread) == 0,
        !by_bot && (!ordinary || content.len() == 0) ==> after.count_of(thread) == before.count_of(
            thread,
        ),
        by_bot && before.count_of(thread) < u32::MAX ==> after.count_of(thread) == before.count_of(
            thread,
        ) + 1,
        by_bot ==> (action is Continue <==> before.count_of(thread) + 1 < before.limit()
            && before.count_of(thread) + 1 < HARD_BOT_TURN_LIMIT),
{
}

/// After a person has spoken, a bot's first message goes on as long as the limit
/// is more than one.
pub proof fn people_let_bots_speak_again(
    a: BotTurnTracker,
    thread: Seq<char>,
    content: Seq<char>,
    first: TurnAction,
    b: BotTurnTracker,
    reply: Seq<char>,
    second: TurnAction,
    c: BotTurnTracker,
)
    requires
        has_counted(a, thread, false, true, content, first, b),
        has_counted(b, thread, true, true, reply, second, c),
        content.len() > 0,
        a.limit() > 1,
    ensures
        second is Continue,
        c.count_of(thread) == 1,
{
}

} // verus!
