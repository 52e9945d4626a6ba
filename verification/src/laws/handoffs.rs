//! Tasks that are handed to threads, and spaces that people are let into.

use vstd::prelude::*;
use crate::adapter::ChannelRef;
use crate::bot_login::{
    client_error, is_bound, is_channel_id, is_path_segment, is_space_plan, next_provision, ClientView,
    ProvisionView,
};
use crate::handoff::{
    child_prompt, has_started, task_error, thread_display, BrokerView, HandoffEntry,
    HandoffRegistration,
};
use crate::text::{
    begins, blank, ends, free_of, is_digit, lemma_parts_stand, occurs, only, stands_at, trimmed,
    without_back,
};

verus! {

/// A token that was given out is good for the task it was given out for, and
/// for no other; every other token stays as it was.
pub proof fn tokens_stand_for_their_task(
    v: BrokerView,
    token: Seq<char>,
    r: HandoffRegistration,
    now: u64,
    other: Seq<char>,
    later: u64,
)
    requires
        now + v.ttl <= u64::MAX,
        other != token,
    ensures
        v.registered(token, r, now).entries[token].registration == r,
        v.registered(token, r, now).token_error(token, now) is None,
        later > now + v.ttl ==> v.registered(token, r, now).token_error(token, later) is Some,
        v.registered(token, r, now).token_error(other, later) == v.token_error(other, later),
        v.entries.contains_key(other) ==> v.registered(token, r, now).entries[other]
            == v.entries[other],
        v.registered(token, r, now).ttl == v.ttl,
        !v.entries.contains_key(other) ==> v.token_error(other, later) is Some,
{
}

/// A task is taken exactly if its title and its prompt both say something.
pub proof fn tasks_need_a_title_and_a_prompt(title: Seq<char>, prompt: Seq<char>)
    ensures
        task_error(title, prompt) is None <==> trimmed(title).len() > 0 && trimmed(prompt).len() > 0,
        blank(title) ==> task_error(title, prompt) == task_error(title, Seq::empty()),
{
}

/// A token gives what was registered under it once: a second use of it fails,
/// whatever the first one gave and whenever it comes, and no other token is
/// touched by either.
pub proof fn tokens_give_once(
    a: BrokerView,
    token: Seq<char>,
    now: u64,
    first: Result<HandoffEntry, String>,
    b: BrokerView,
    later: u64,
    second: Result<HandoffEntry, String>,
    c: BrokerView,
    other: Seq<char>,
)
    requires
        a.gave_out(token, now, first, b),
        b.gave_out(token, later, second, c),
        other != token,
    ensures
        second is Err,
        first is Ok ==> a.entries.contains_key(token) && first->Ok_0 == a.entries[token] && now
            <= a.entries[token].expires_at,
        a.entries.contains_key(token) && now <= a.entries[token].expires_at ==> first is Ok,
        c.entries.contains_key(other) == a.entries.contains_key(other),
        a.entries.contains_key(other) ==> c.entries[other] == a.entries[other],
{
}

/// A task that says nothing does not use its token up; one that says something
/// does, and gets what was registered under it if the token is good. The task
/// has its title and its prompt trimmed.
pub proof fn tasks_use_their_token_up(
    before: BrokerView,
    token: Seq<char>,
    title: Seq<char>,
    prompt: Seq<char>,
    now: u64,
    r: Result<(HandoffEntry, String, String), String>,
    after: BrokerView,
)
    requires
        has_started(before, token, title, prompt, now, r, after),
    ensures
        trimmed(title).len() == 0 || trimmed(prompt).len() == 0 ==> r is Err && after == before,
        trimmed(title).len() > 0 && trimmed(prompt).len() > 0 ==> !after.entries.contains_key(token),
        trimmed(title).len() > 0 && trimmed(prompt).len() > 0 && before.entries.contains_key(token)
            && now <= before.entries[token].expires_at ==> r is Ok,
        r matches Ok((entry, t, p)) ==> entry == before.entries[token] && t@ == trimmed(title) && p@
            == trimmed(prompt) && before.entries.contains_key(token),
{
}

/// The prompt of a task ends with what is to be done, and holds what was asked,
/// who asked it and where, each on lines of its own.
#[verifier::rlimit(40)]
#[verifier::spinoff_prover]
pub proof fn task_prompts_hold_the_request(r: HandoffRegistration, prompt: Seq<char>)
    ensures
        ends(child_prompt(r, prompt), prompt),
        occurs(child_prompt(r, prompt), "\noriginal_message:\n"@ + r.original_prompt@),
        occurs(child_prompt(r, prompt), "\noriginal_sender: "@ + r.sender_name@),
        occurs(child_prompt(r, prompt), "\nparent_channel_id: "@ + r.parent_channel.channel_id@),
        occurs(child_prompt(r, prompt), "\ntrigger_message_id: "@ + r.trigger_msg.message_id@),
{
    let t = child_prompt(r, prompt);
    let a = "<openab_handoff_context>\nplatform: "@ + r.parent_channel.platform@;
    let (lb, vb) = ("\nparent_channel_id: "@, r.parent_channel.channel_id@);
    let (lc, vc) = ("\ntrigger_message_id: "@, r.trigger_msg.message_id@);
    let (ld, vd) = ("\noriginal_sender: "@, r.sender_name@);
    let (lf, vf) = ("\noriginal_message:\n"@, r.original_prompt@);
    let last = "\n</openab_handoff_context>\n\n"@;
    lemma_lines_stand(a, lb, vb, lc, vc, ld, vd, lf, vf, last + prompt);
    lemma_parts_stand(a + lb + vb + lc + vc + ld + vd + lf + vf, last, prompt);
    assert(a + lb + vb + lc + vc + ld + vd + lf + vf + (last + prompt) =~= t);
}

#[verifier::rlimit(40)]
#[verifier::spinoff_prover]
proof fn lemma_lines_stand(
    a: Seq<char>,
    lb: Seq<char>,
    vb: Seq<char>,
    lc: Seq<char>,
    vc: Seq<char>,
    ld: Seq<char>,
    vd: Seq<char>,
    lf: Seq<char>,
    vf: Seq<char>,
    z: Seq<char>,
)
    ensures
        occurs(a + lb + vb + lc + vc + ld + vd + lf + vf + z, lb + vb),
        occurs(a + lb + vb + lc + vc + ld + vd + lf + vf + z, lc + vc),
        occurs(a + lb + vb + lc + vc + ld + vd + lf + vf + z, ld + vd),
        occurs(a + lb + vb + lc + vc + ld + vd + lf + vf + z, lf + vf),
{
    let t = a + lb + vb + lc + vc + ld + vd + lf + vf + z;
    let b = a + lb + vb;
    let c = b + lc + vc;
    let d = c + ld + vd;
    lemma_parts_stand(a, lb + vb, lc + vc + ld + vd + lf + vf + z);
    assert(a + (lb + vb) + (lc + vc + ld + vd + lf + vf + z) =~= t);
    lemma_parts_stand(b, lc + vc, ld + vd + lf + vf + z);
    assert(b + (lc + vc) + (ld + vd + lf + vf + z) =~= t);
    lemma_parts_stand(c, ld + vd, lf + vf + z);
    assert(c + (ld + vd) + (lf + vf + z) =~= t);
    lemma_parts_stand(d, lf + vf, z);
    assert(d + (lf + vf) + z =~= t);
}

/// A thread is told of by its platform and its id; where there is none, the
/// channel is.
pub proof fn places_are_told_of_by_id(c: ChannelRef)
    ensures
        begins(thread_display(c), c.platform@),
        c.thread_id is Some ==> ends(thread_display(c), c.thread_id->0@),
        c.thread_id is None ==> ends(thread_display(c), c.channel_id@),
{
    match c.thread_id {
        Some(t) => {
            lemma_parts_stand(c.platform@, " thread "@, t@);
        },
        None => {
            lemma_parts_stand(c.platform@, " channel "@, c.channel_id@);
        },
    }
}

// ---------------------------------------------------------------------------
// Spaces
// ---------------------------------------------------------------------------

/// A person is done with exactly if they are logged in and let into the space.
/// Who is not logged in is logged in first, whatever the space; who is, is let
/// in under the id they have there.
pub proof fn people_are_let_in_under_their_id(c: ClientView, user: Seq<char>, space: Seq<char>)
    ensures
        next_provision(c, user, space) is Login <==> !c.users.contains_key(user),
        next_provision(c, user, space) is Done <==> c.users.contains_key(user) && c.editors.contains(
            (space, c.users[user]@),
        ),
        next_provision(c, user, space) matches ProvisionView::Grant { endpoint, user_id } ==> {
            &&& user_id == c.users[user]@
            &&& begins(endpoint, c.base_url)
            &&& ends(endpoint, "/"@ + user_id)
            &&& occurs(endpoint, "/"@ + space + "/"@)
        },
{
    if next_provision(c, user, space) is Grant {
        lemma_grant_address(c.base_url, space, c.users[user]@);
    }
}

#[verifier::rlimit(40)]
#[verifier::spinoff_prover]
proof fn lemma_grant_address(base: Seq<char>, space: Seq<char>, id: Seq<char>)
    ensures
        ({
            let t = base + "/api/team-spaces/"@ + space + "/members/"@ + id;
            &&& begins(t, base)
            &&& ends(t, "/"@ + id)
            &&& occurs(t, "/"@ + space + "/"@)
        }),
{
    let t = base + "/api/team-spaces/"@ + space + "/members/"@ + id;
    reveal_strlit("/");
    reveal_strlit("/members/");
    reveal_strlit("/api/team-spaces/");
    let (n, m, k) = (base.len() as int, space.len() as int, id.len() as int);
    assert(t.subrange(0, n) =~= base);
    assert(t.len() == n + 17 + m + 9 + k);
    assert(t.subrange(t.len() - k - 1, t.len() as int) =~= "/"@ + id);
    let mid = "/"@ + space + "/"@;
    assert(t.subrange(n + 16, n + 16 + mid.len()) =~= mid);
    assert(stands_at(t, mid, n + 16));
}

/// A channel that is bound to a space has that space from then on, and every
/// other channel keeps the one it had; binding again replaces it.
pub proof fn bound_channels_have_their_space(
    a: Map<Seq<char>, String>,
    channel: Seq<char>,
    space: Seq<char>,
    b: Map<Seq<char>, String>,
    again: Seq<char>,
    c: Map<Seq<char>, String>,
    other: Seq<char>,
)
    requires
        is_bound(a, channel, space, b),
        is_bound(b, channel, again, c),
        other != channel,
    ensures
        b.contains_key(channel) && b[channel]@ == space,
        c.contains_key(channel) && c[channel]@ == again,
        c.contains_key(other) == a.contains_key(other),
        a.contains_key(other) ==> c[other] == a[other],
{
    assert(b.dom().contains(channel));
    assert(c.dom().contains(channel));
    assert(b.contains_key(other) == a.contains_key(other)) by {
        assert(b.dom().contains(other) == a.dom().contains(other));
    }
    assert(c.contains_key(other) == b.contains_key(other)) by {
        assert(c.dom().contains(other) == b.dom().contains(other));
    }
}

/// A space is made only for a channel that has none, and is named after it.
pub proof fn channels_get_one_space(
    c: ClientView,
    channel: Seq<char>,
    name: Seq<char>,
    plan: Option<(String, String)>,
)
    requires
        is_space_plan(c, channel, name, plan),
    ensures
        plan is None <==> c.spaces.contains_key(channel),
        plan matches Some((endpoint, title)) ==> begins(endpoint@, c.base_url) && title@ == trimmed(name),
{
    if plan is Some {
        let e = Seq::<char>::empty();
        lemma_parts_stand(c.base_url, "/api/team-spaces"@, e);
        assert(c.base_url + "/api/team-spaces"@ + e =~= c.base_url + "/api/team-spaces"@);
    }
}

/// A client needs a web address, and a key and a cookie that say something.
pub proof fn clients_need_host_key_and_cookie(host: Seq<char>, key: Seq<char>, cookie: Seq<char>)
    ensures
        client_error(host, key, cookie) is None ==> !blank(key) && !blank(cookie),
        blank(key) || blank(cookie) ==> client_error(host, key, cookie) is Some,
        ({
            let url = without_back(trimmed(host), only('/'));
            !blank(key) && !blank(cookie) && (begins(url, "http://"@) || begins(url, "https://"@))
                <==> client_error(host, key, cookie) is None
        }),
{
}

/// The id of a channel is a number without leading zeros, and what names a
/// space can stand between two slashes of an address.
pub proof fn ids_can_stand_in_addresses(s: Seq<char>)
    ensures
        is_channel_id(s) ==> 1 <= s.len() <= 20 && s[0] != '0' && forall|i: int|
            0 <= i < s.len() ==> is_digit(#[trigger] s[i]),
        (1 <= s.len() <= 20 && s[0] != '0' && forall|i: int|
            0 <= i < s.len() ==> is_digit(#[trigger] s[i])) ==> is_channel_id(s),
        is_path_segment(s) ==> s.len() > 0 && free_of(s, '/') && free_of(s, '?') && free_of(s, '#'),
        trimmed(s).len() > 0 && free_of(s, '/') && free_of(s, '?') && free_of(s, '#')
            ==> is_path_segment(s),
{
    if s.len() == 0 {
        assert(trimmed(s) =~= s);
    }
}

} // verus!
