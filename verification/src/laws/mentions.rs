//! What is left of a message once the mentions of the bot are taken out, and how
//! it is answered.

use vstd::prelude::*;
use crate::adapter::{ChannelRef, SenderContext};
use crate::config::NormalChannelReplyMode;
use crate::discord::{
    file_step, images_refused, is_answer_in, prompt_of, quoted, refers_to, shown_name, stands_in, tag,
    thread_step, unused_file, video_text, with_thread, without_bot, without_roles, Answer, FileStep,
    Reference, TextBudget, ThreadStep, UnusedFile, TEXT_FILE_COUNT_CAP, TEXT_TOTAL_CAP,
};
use crate::discord_gate::Place;
use crate::patterns::{texts_between, ROLE_MENTION};
use crate::text::{
    decimal, ends, first_part_is_replaced, is_first_at, joined, lemma_joined_holds,
    lemma_nothing_to_replace, lemma_occurs_in_part, lemma_parts_stand, occurs, replaced, stands_at,
    trimmed,
};

verus! {

proof fn lemma_tag_len(open: Seq<char>, id: nat)
    ensures
        tag(open, id).len() > 0,
{
    reveal_strlit(">");
}

/// A message without a mention of the bot is left as it is.
pub proof fn messages_without_mentions_stay(s: Seq<char>, bot_id: u64, roles: Seq<u64>)
    ensures
        !occurs(s, "<@"@ + decimal(bot_id as nat) + ">"@) && !occurs(
            s,
            "<@!"@ + decimal(bot_id as nat) + ">"@,
        ) ==> without_bot(s, bot_id) == s,
        (forall|i: int|
            0 <= i < roles.len() ==> !occurs(s, "<@&"@ + decimal(#[trigger] roles[i] as nat) + ">"@))
            ==> without_roles(s, roles, roles.len() as int) == s,
{
    let a = tag("<@"@, bot_id as nat);
    let b = tag("<@!"@, bot_id as nat);
    if !occurs(s, a) && !occurs(s, b) {
        lemma_nothing_to_replace(s, a, ""@);
        lemma_nothing_to_replace(s, b, ""@);
    }
    if forall|i: int|
        0 <= i < roles.len() ==> !occurs(s, "<@&"@ + decimal(#[trigger] roles[i] as nat) + ">"@) {
        lemma_roles_stay(s, roles, roles.len() as int);
    }
}

proof fn lemma_roles_stay(s: Seq<char>, roles: Seq<u64>, k: int)
    requires
        0 <= k <= roles.len(),
        forall|i: int|
            0 <= i < roles.len() ==> !occurs(s, "<@&"@ + decimal(#[trigger] roles[i] as nat) + ">"@),
    ensures
        without_roles(s, roles, k) == s,
    decreases k,
{
    if k > 0 {
        lemma_roles_stay(s, roles, k - 1);
        let t = tag("<@&"@, roles[k - 1] as nat);
        assert(t == "<@&"@ + decimal(roles[k - 1] as nat) + ">"@);
        lemma_nothing_to_replace(s, t, ""@);
    }
}

proof fn lemma_one_taken_out(a: Seq<char>, t: Seq<char>, b: Seq<char>)
    requires
        t.len() > 0,
        is_first_at(a + t + b, t, 0, a.len() as int),
        !occurs(b, t),
    ensures
        replaced(a + t + b, t, ""@) == a + b,
{
    reveal_strlit("");
    let s = a + t + b;
    first_part_is_replaced(s, t, ""@, a.len() as int);
    assert(s.take(a.len() as int) =~= a);
    assert(s.skip((a.len() + t.len()) as int) =~= b);
    lemma_nothing_to_replace(b, t, ""@);
    assert(a + ""@ + b =~= a + b);
}

/// A mention of the bot, in either of its forms, is taken out of a message, and
/// what stands before and behind it stays.
pub proof fn mentions_of_the_bot_are_taken_out(a: Seq<char>, b: Seq<char>, bot_id: u64, nick: bool)
    requires
        ({
            let plain = "<@"@ + decimal(bot_id as nat) + ">"@;
            let other = "<@!"@ + decimal(bot_id as nat) + ">"@;
            let t = if nick {
                other
            } else {
                plain
            };
            &&& is_first_at(a + t + b, t, 0, a.len() as int)
            &&& !occurs(b, t)
            &&& nick ==> !occurs(a + t + b, plain)
            &&& !nick ==> !occurs(a + b, other)
        }),
    ensures
        without_bot(
            a + (if nick {
                "<@!"@ + decimal(bot_id as nat) + ">"@
            } else {
                "<@"@ + decimal(bot_id as nat) + ">"@
            }) + b,
            bot_id,
        ) == a + b,
{
    let plain = tag("<@"@, bot_id as nat);
    let other = tag("<@!"@, bot_id as nat);
    lemma_tag_len("<@"@, bot_id as nat);
    lemma_tag_len("<@!"@, bot_id as nat);
    if nick {
        lemma_nothing_to_replace(a + other + b, plain, ""@);
        lemma_one_taken_out(a, other, b);
    } else {
        lemma_one_taken_out(a, plain, b);
        lemma_nothing_to_replace(a + b, other, ""@);
    }
}

/// The mention of an allowed role is taken out of a message, and what stands
/// before and behind it stays.
#[verifier::rlimit(40)]
#[verifier::spinoff_prover]
pub proof fn mentions_of_roles_are_taken_out(a: Seq<char>, b: Seq<char>, roles: Seq<u64>, k: int)
    requires
        0 <= k < roles.len(),
        is_first_at(
            a + ("<@&"@ + decimal(roles[k] as nat) + ">"@) + b,
            "<@&"@ + decimal(roles[k] as nat) + ">"@,
            0,
            a.len() as int,
        ),
        !occurs(b, "<@&"@ + decimal(roles[k] as nat) + ">"@),
        forall|i: int|
            0 <= i < roles.len() && i != k ==> !occurs(
                a + ("<@&"@ + decimal(roles[k] as nat) + ">"@) + b,
                "<@&"@ + decimal(#[trigger] roles[i] as nat) + ">"@,
            ) && !occurs(a + b, "<@&"@ + decimal(roles[i] as nat) + ">"@),
    ensures
        without_roles(
            a + ("<@&"@ + decimal(roles[k] as nat) + ">"@) + b,
            roles,
            roles.len() as int,
        ) == a + b,
{
    let t = tag("<@&"@, roles[k] as nat);
    let s = a + t + b;
    lemma_tag_len("<@&"@, roles[k] as nat);
    lemma_roles_before(s, roles, k);
    lemma_one_taken_out(a, t, b);
    lemma_roles_after(s, a + b, roles, k, roles.len() as int);
}

proof fn lemma_roles_before(s: Seq<char>, roles: Seq<u64>, k: int)
    requires
        0 <= k <= roles.len(),
        forall|i: int|
            0 <= i < k ==> !occurs(s, "<@&"@ + decimal(#[trigger] roles[i] as nat) + ">"@),
    ensures
        without_roles(s, roles, k) == s,
    decreases k,
{
    if k > 0 {
        lemma_roles_before(s, roles, k - 1);
        let t = tag("<@&"@, roles[k - 1] as nat);
        assert(t == "<@&"@ + decimal(roles[k - 1] as nat) + ">"@);
        lemma_nothing_to_replace(s, t, ""@);
    }
}

proof fn lemma_roles_after(s: Seq<char>, after: Seq<char>, roles: Seq<u64>, k: int, n: int)
    requires
        0 <= k < n <= roles.len(),
        without_roles(s, roles, k + 1) == after,
        forall|i: int|
            k < i < n ==> !occurs(after, "<@&"@ + decimal(#[trigger] roles[i] as nat) + ">"@),
    ensures
        without_roles(s, roles, n) == after,
    decreases n,
{
    if n > k + 1 {
        lemma_roles_after(s, after, roles, k, n - 1);
        let t = tag("<@&"@, roles[n - 1] as nat);
        assert(t == "<@&"@ + decimal(roles[n - 1] as nat) + ">"@);
        lemma_nothing_to_replace(after, t, ""@);
    }
}

/// A mention of a role that is not taken out is shown as one, without its id, and
/// what stands before and behind it stays; a text without any is only trimmed.
pub proof fn other_roles_are_shown_as_such(
    content: Seq<char>,
    bot_id: u64,
    roles: Seq<u64>,
    s: Seq<char>,
    a: Seq<char>,
    b: Seq<char>,
)
    requires
        without_roles(without_bot(content, bot_id), roles, roles.len() as int) == s,
    ensures
        texts_between(ROLE_MENTION@, s) == seq![a, b] ==> prompt_of(content, bot_id, roles) == trimmed(
            a + "@(role)"@ + b,
        ),
        texts_between(ROLE_MENTION@, s) == seq![s] ==> prompt_of(content, bot_id, roles) == trimmed(s),
{
    reveal_with_fuel(joined, 3);
    assert(seq![a, b].drop_last() =~= seq![a]);
    assert(joined(seq![a], "@(role)"@) == a);
    assert(joined(seq![a, b], "@(role)"@) == a + "@(role)"@ + b);
    assert(joined(seq![s], "@(role)"@) == s);
}

/// A name is quoted between two backquotes and none stands within; a name
/// without any is quoted as it is.
pub proof fn quoted_names_hold_no_quotes(name: Seq<char>)
    ensures
        quoted(name).len() == name.len() + 2,
        quoted(name)[0] == '`',
        quoted(name).last() == '`',
        forall|i: int| 1 <= i < quoted(name).len() - 1 ==> #[trigger] quoted(name)[i] != '`',
        forall|i: int|
            0 <= i < name.len() && #[trigger] name[i] != '`' ==> quoted(name)[i + 1] == name[i],
{
    reveal_strlit("`");
    reveal_strlit("'");
    assert("`"@ =~= seq!['`']);
    assert("'"@ =~= seq!['\'']);
    lemma_quotes(name);
    let inner = replaced(name, "`"@, "'"@);
    let q = quoted(name);
    assert(q =~= seq!['`'] + inner + seq!['`']);
    assert forall|i: int| 1 <= i < q.len() - 1 implies #[trigger] q[i] != '`' by {
        assert(q[i] == inner[i - 1]);
    }
    assert forall|i: int| 0 <= i < name.len() && #[trigger] name[i] != '`' implies q[i + 1]
        == name[i] by {
        assert(q[i + 1] == inner[i]);
    }
}

proof fn lemma_quotes(s: Seq<char>)
    ensures
        ({
            let r = replaced(s, seq!['`'], seq!['\'']);
            &&& r.len() == s.len()
            &&& forall|i: int| 0 <= i < s.len() ==> #[trigger] r[i] == (if s[i] == '`' {
                '\''
            } else {
                s[i]
            })
        }),
    decreases s.len(),
{
    let from = seq!['`'];
    let to = seq!['\''];
    let r = replaced(s, from, to);
    if s.len() > 0 {
        let rest = replaced(s.skip(1), from, to);
        lemma_quotes(s.skip(1));
        assert(s.take(1) =~= seq![s[0]]);
        assert(seq![s[0]][0] == s[0] && from[0] == '`');
        assert forall|i: int| 0 <= i < s.len() implies #[trigger] r[i] == (if s[i] == '`' {
            '\''
        } else {
            s[i]
        }) by {
            if i > 0 {
                assert(r[i] == rest[i - 1]);
                assert(s.skip(1)[i - 1] == s[i]);
            }
        }
    }
}

// ---------------------------------------------------------------------------
// Answers
// ---------------------------------------------------------------------------

/// A message in a thread or in a direct conversation is answered right there. In
/// a channel it is answered in a new thread, or inline where that is the mode:
/// then the answer replies to the message, in a session of the channel's own.
#[verifier::rlimit(40)]
#[verifier::spinoff_prover]
pub proof fn answers_stay_where_they_can(
    place: Place,
    mode: NormalChannelReplyMode,
    channel_id: u64,
    message_id: u64,
    a: Answer,
)
    requires
        is_answer_in(place, mode, channel_id, message_id, a),
    ensures
        place.in_thread || place.is_dm ==> a.channel is Some && a.initial_reply_to is None
            && a.session_key_override is None,
        a.channel matches Some(c) ==> c.platform@ == "discord"@ && c.channel_id@ == decimal(
            channel_id as nat,
        ) && (c.parent_id is Some <==> place.thread_parent_id is Some),
        a.channel matches Some(c) ==> place.thread_parent_id matches Some(p) ==> c.parent_id->0@
            == decimal(p as nat),
        !place.in_thread && !place.is_dm && mode == NormalChannelReplyMode::Thread ==> a.channel is None
            && a.initial_reply_to is None && a.session_key_override is None,
        !place.in_thread && !place.is_dm && mode == NormalChannelReplyMode::Inline ==> a.channel is Some
            && a.initial_reply_to is Some && a.initial_reply_to->0@ == decimal(message_id as nat)
            && a.session_key_override is Some && ends(
            a.session_key_override->0@,
            decimal(channel_id as nat),
        ),
{
    let e = Seq::<char>::empty();
    lemma_parts_stand("discord-inline:"@, e, decimal(channel_id as nat));
    assert("discord-inline:"@ + e + decimal(channel_id as nat) =~= "discord-inline:"@ + decimal(
        channel_id as nat,
    ));
}

/// A person is shown under the name of the server if they have one there, else
/// under the name shown to all, else under the user name.
pub proof fn people_are_shown_by_their_nearest_name(
    nick: Option<Seq<char>>,
    global_name: Option<Seq<char>>,
    name: Seq<char>,
)
    ensures
        nick is Some ==> shown_name(nick, global_name, name) == nick->0,
        nick is None && global_name is Some ==> shown_name(nick, global_name, name) == global_name->0,
        nick is None && global_name is None ==> shown_name(nick, global_name, name) == name,
{
}

/// Speech is never read as a text or looked at as an image, and is transcribed
/// exactly where that is turned on. A text is read as long as there is room for
/// it, in number and in size; more room never leaves a text out. What is neither
/// is tried as an image.
pub proof fn files_are_taken_by_kind(
    is_audio: bool,
    is_text: bool,
    size: u64,
    stt_enabled: bool,
    taken: TextBudget,
    less: TextBudget,
)
    ensures
        is_audio ==> (file_step(is_audio, is_text, size, stt_enabled, taken) == FileStep::Transcribe
            <==> stt_enabled),
        is_audio && !stt_enabled ==> file_step(is_audio, is_text, size, stt_enabled, taken)
            == FileStep::Mute,
        !is_audio && !is_text ==> file_step(is_audio, is_text, size, stt_enabled, taken)
            == FileStep::TryImage,
        !is_audio && is_text ==> (file_step(is_audio, is_text, size, stt_enabled, taken)
            == FileStep::ReadText <==> taken.count < TEXT_FILE_COUNT_CAP && taken.bytes + size
            <= TEXT_TOTAL_CAP),
        less.count <= taken.count && less.bytes <= taken.bytes && file_step(
            is_audio,
            is_text,
            size,
            stt_enabled,
            taken,
        ) == FileStep::ReadText ==> file_step(is_audio, is_text, size, stt_enabled, less)
            == FileStep::ReadText,
{
}

/// A sender in a thread is told of with the channel of the thread and the thread
/// itself; outside threads, with the channel alone. A thread that is made for an
/// answer is put in where there was none, and nothing else is touched by it.
pub proof fn senders_know_their_thread(
    channel_id: Seq<char>,
    parent: Option<Seq<char>>,
    s: SenderContext,
    made: ChannelRef,
)
    requires
        stands_in(channel_id, parent, s),
    ensures
        parent matches Some(p) ==> s.channel_id@ == p && s.thread_id is Some && s.thread_id->0@
            == channel_id && with_thread(s, made) == s,
        parent is None ==> s.channel_id@ == channel_id && s.thread_id is None,
        parent is None && made.parent_id is Some ==> with_thread(s, made).thread_id == Some(
            made.channel_id,
        ),
        made.parent_id is None ==> with_thread(s, made) == s,
        with_thread(s, made).sender_id == s.sender_id && with_thread(s, made).channel_id
            == s.channel_id,
{
}

/// A reply tells the agent which message it refers to, where, and whose that is.
/// A message that refers to none tells nothing new.
pub proof fn replies_tell_what_they_refer_to(
    before: SenderContext,
    reference: Option<Reference>,
    after: SenderContext,
)
    requires
        refers_to(before, reference, after),
    ensures
        reference is None || reference->0.message_id is None ==> after == before,
        reference matches Some(f) ==> f.message_id matches Some(id) ==> {
            &&& after.referenced_message_id is Some && after.referenced_message_id->0@ == decimal(
                id as nat,
            )
            &&& after.referenced_channel_id is Some && after.referenced_channel_id->0@ == decimal(
                f.channel_id as nat,
            )
            &&& f.author matches Some(a) ==> after.referenced_author_id is Some
                && after.referenced_author_id->0@ == decimal(a.id as nat)
                && after.referenced_author_name is Some && after.referenced_author_name->0@ == (
            if a.global_name is Some {
                a.global_name->0@
            } else {
                a.name@
            })
        },
        after.sender_id == before.sender_id && after.channel_id == before.channel_id && after.thread_id
            == before.thread_id && after.message_id == before.message_id && after.handoff_token
            == before.handoff_token,
{
}

/// A file that is no image is put elsewhere where that can be done; a video is
/// linked to where it cannot.
pub proof fn unused_files_are_kept_where_possible(not_an_image: bool, can_offload: bool, is_video: bool)
    ensures
        can_offload <==> unused_file(not_an_image, can_offload, is_video) == UnusedFile::Offload,
        !can_offload && not_an_image && is_video <==> unused_file(not_an_image, can_offload, is_video)
            == UnusedFile::LinkVideo,
{
}

/// A thread that was made is used. Only where the platform says that there is
/// one already is it looked for; any other failure is told as it is.
pub proof fn existing_threads_are_looked_for(result: Result<ChannelRef, String>)
    ensures
        result matches Ok(c) ==> thread_step(result) == ThreadStep::Use(c),
        result matches Err(e) ==> (thread_step(result) is Refetch <==> occurs(e@, "160004"@) || occurs(
            e@,
            "already been created"@,
        )),
        result matches Err(e) ==> !(thread_step(result) is Refetch) ==> thread_step(result)
            == ThreadStep::Fail(e),
{
}

/// Every image that could not be processed is named, and nothing is said where
/// all could be.
#[verifier::rlimit(40)]
#[verifier::spinoff_prover]
pub proof fn refused_images_are_named(failed: Seq<Seq<char>>, i: int)
    ensures
        images_refused(failed) is None <==> failed.len() == 0,
        0 <= i < failed.len() ==> occurs(images_refused(failed)->0, quoted(failed[i])),
{
    if 0 <= i < failed.len() {
        let names = failed.map_values(|n: Seq<char>| quoted(n));
        let list = joined(names, ", "@);
        let a = ":warning: I couldn't process the image(s) you shared ("@;
        let b =
            "). The files may be inaccessible or in an unsupported format (PNG/JPEG/GIF/WebP only)."@;
        assert(names[i] == quoted(failed[i]));
        lemma_joined_holds(names, ", "@, i);
        lemma_parts_stand(a, list, b);
        lemma_occurs_in_part(a + list + b, list, quoted(failed[i]));
    }
}

/// The agent is told the name of a video, its size, its type where it is known,
/// and where it can be had.
#[verifier::rlimit(40)]
#[verifier::spinoff_prover]
pub proof fn videos_are_told_of(name: Seq<char>, kind: Option<Seq<char>>, size: nat, url: Seq<char>)
    ensures
        occurs(video_text(name, kind, size, url), name),
        occurs(video_text(name, kind, size, url), decimal(size)),
        ends(video_text(name, kind, size, url), url),
        kind matches Some(t) ==> occurs(video_text(name, kind, size, url), t),
{
    let t = match kind {
        Some(t) => t,
        None => "unknown"@,
    };
    let a = "[Video attachment]\nfilename: "@;
    let b = "\ncontent_type: "@;
    let c = "\nsize_bytes: "@;
    let d = "\nurl: "@;
    let all = video_text(name, kind, size, url);
    let n = decimal(size);
    assert(all == a + name + b + t + c + n + d + url);
    let i = a.len() as int;
    assert(all.subrange(i, i + name.len()) =~= name);
    assert(stands_at(all, name, i));
    let j = (a + name + b).len() as int;
    assert(all.subrange(j, j + t.len()) =~= t);
    assert(stands_at(all, t, j));
    let k = (a + name + b + t + c).len() as int;
    assert(all.subrange(k, k + n.len()) =~= n);
    assert(stands_at(all, n, k));
    assert(all.subrange(all.len() - url.len(), all.len() as int) =~= url);
}

} // verus!
