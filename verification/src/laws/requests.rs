//! What events of a gateway are taken up, and what is made of them.

use vstd::prelude::*;
use crate::adapter::{session_key, ChannelRef, MessageRef, SenderContext};
use crate::commands::ConfigOption;
use crate::config::text_view;
use crate::gateway::{
    address, all_choices, asks, attachment_step, choice_line, concerns, config_command, config_step,
    is_channel_of, is_named, is_sender_of, is_source_of, is_step_for, is_topic_of, list_lines,
    option_choices, own_bytes, pause_after, reset_text, sent_command, sent_id, sent_reply,
    session_of, stands_for, takes_up, BytesSource, ChoiceView, ConfigStep, ConfigView, EventStep,
    GatewayEvent, GatewayParams, GatewayResponse, GwAttachment, MessageCommand, SlashCommand,
    StepView, MAX_BACKOFF,
};
use crate::text::{
    begins, decimal, decimal_reads_back, ends, free_of, is_white_space, is_word, joined,
    lemma_joined_holds, lemma_occurs_in_part, lemma_parts_stand, occurs, parts_are_found_again,
    stands_at, trimmed, trimmed_text_is_kept, views,
};

verus! {

/// Whether an event comes from where it may come from: not from a bot, out of an
/// allowed channel, and addressed to the bot where that is needed. It is needed
/// outside threads, in groups, where the bot has a name.
pub open spec fn is_addressed(p: GatewayParams, e: GatewayEvent) -> bool {
    &&& !e.sender.is_bot
    &&& p.allow_all_channels || exists|i: int|
        0 <= i < p.allowed_channels@.len() && (#[trigger] p.allowed_channels@[i])@ == e.channel.id@
    &&& {
        ||| e.channel.thread_id is Some
        ||| e.channel.channel_type@ != "group"@ && e.channel.channel_type@ != "supergroup"@
        ||| p.bot_username is None
        ||| exists|i: int|
            0 <= i < e.mentions@.len() && (#[trigger] e.mentions@[i])@ == p.bot_username->0@
    }
}

/// An event of a person who is among the allowed users, out of an allowed
/// channel and addressed to the bot where that is needed, is taken up, also
/// where not all users are allowed. So is one of any person where all are.
pub proof fn listed_people_are_taken_up(p: GatewayParams, e: GatewayEvent, i: int)
    requires
        is_addressed(p, e),
        p.allow_all_users || (0 <= i < p.allowed_users@.len() && p.allowed_users@[i]@ == e.sender.id@),
    ensures
        takes_up(p, e),
{
    let users = views(p.allowed_users@);
    let channels = views(p.allowed_channels@);
    let mentions = views(e.mentions@);
    if !p.allow_all_users {
        assert(users[i] == e.sender.id@);
    }
    if !p.allow_all_channels {
        let k = choose|k: int|
            0 <= k < p.allowed_channels@.len() && (#[trigger] p.allowed_channels@[k])@
                == e.channel.id@;
        assert(channels[k] == e.channel.id@);
    }
    if exists|k: int|
        0 <= k < e.mentions@.len() && (#[trigger] e.mentions@[k])@ == p.bot_username->0@ {
        let k = choose|k: int|
            0 <= k < e.mentions@.len() && (#[trigger] e.mentions@[k])@ == p.bot_username->0@;
        assert(mentions[k] == p.bot_username->0@);
    }
}

/// Nothing else is taken up: not what is not addressed to the bot, and not what
/// comes from a person who is not among the allowed users, unless all are.
pub proof fn nothing_else_is_taken_up(p: GatewayParams, e: GatewayEvent)
    requires
        takes_up(p, e),
    ensures
        is_addressed(p, e),
        p.allow_all_users || exists|i: int|
            0 <= i < p.allowed_users@.len() && (#[trigger] p.allowed_users@[i])@ == e.sender.id@,
{
    let users = views(p.allowed_users@);
    let channels = views(p.allowed_channels@);
    let mentions = views(e.mentions@);
    if !p.allow_all_users {
        let k = choose|k: int| 0 <= k < users.len() && users[k] == e.sender.id@;
        assert(p.allowed_users@[k]@ == e.sender.id@);
    }
    if !p.allow_all_channels {
        let k = choose|k: int| 0 <= k < channels.len() && channels[k] == e.channel.id@;
        assert(p.allowed_channels@[k]@ == e.channel.id@);
    }
    if e.channel.thread_id is None && p.bot_username is Some && (e.channel.channel_type@ == "group"@
        || e.channel.channel_type@ == "supergroup"@) {
        let k = choose|k: int| 0 <= k < mentions.len() && mentions[k] == p.bot_username->0@;
        assert(e.mentions@[k]@ == p.bot_username->0@);
    }
}

/// Whether a step ignores an event, and if not whether it is a command or goes
/// to the agent, is settled by the event: what is not for the bot is ignored,
/// a reset or a cancel is never handed to the agent, and neither is anything
/// else but what is no command.
#[verifier::rlimit(40)]
#[verifier::spinoff_prover]
pub proof fn events_come_to_one_step(p: GatewayParams, e: GatewayEvent, step: EventStep, i: int)
    requires
        is_step_for(p, e, step),
    ensures
        !is_addressed(p, e) ==> step is Ignore,
        is_addressed(p, e) && (p.allow_all_users || (0 <= i < p.allowed_users@.len()
            && p.allowed_users@[i]@ == e.sender.id@)) ==> {
            &&& !(step is Ignore)
            &&& trimmed(e.content.text@) == "/reset"@ ==> (step matches EventStep::Command {
                key,
                command,
            } && command is Reset && key@ == session_of(e))
            &&& trimmed(e.content.text@) == "/cancel"@ ==> (step matches EventStep::Command {
                key,
                command,
            } && command is Cancel && key@ == session_of(e))
            &&& !begins(trimmed(e.content.text@), "/"@) ==> (step matches EventStep::Prompt {
                own_topic,
            } && (own_topic <==> e.channel.channel_type@ == "supergroup"@ && e.channel.thread_id
                is None))
        },
{
    reveal_strlit("/reset");
    reveal_strlit("/cancel");
    assert("/reset"@.len() == 6 && "/cancel"@.len() == 7);
    if step is Ignore {
        if is_addressed(p, e) && (p.allow_all_users || (0 <= i < p.allowed_users@.len()
            && p.allowed_users@[i]@ == e.sender.id@)) {
            listed_people_are_taken_up(p, e, i);
        }
    } else {
        nothing_else_is_taken_up(p, e);
    }
    if step is Command {
        let command = step->command;
        texts_are_at_most_one_command(e.content.text@, command, command);
    }
}

/// Events of one thread have one session, and so have events of one channel
/// outside threads; different threads of a platform have different sessions.
pub proof fn threads_have_one_session(a: GatewayEvent, b: GatewayEvent)
    requires
        a.platform@ == b.platform@,
    ensures
        a.channel.thread_id is Some && b.channel.thread_id is Some ==> (session_of(a) == session_of(
            b,
        ) <==> a.channel.thread_id->0@ == b.channel.thread_id->0@),
        a.channel.thread_id is None && b.channel.thread_id is None ==> (session_of(a) == session_of(
            b,
        ) <==> a.channel.id@ == b.channel.id@),
        begins(session_of(a), a.platform@ + ":"@),
{
    let n = (a.platform@.len() + ":"@.len()) as int;
    let (x, y) = (session_of(a), session_of(b));
    match a.channel.thread_id {
        Some(t) => {
            assert(x.skip(n) =~= t@);
        },
        None => {
            assert(x.skip(n) =~= a.channel.id@);
        },
    }
    match b.channel.thread_id {
        Some(t) => {
            assert(y.skip(n) =~= t@);
        },
        None => {
            assert(y.skip(n) =~= b.channel.id@);
        },
    }
    assert(x.subrange(0, n) =~= a.platform@ + ":"@);
}

/// The address begins with the one that was given and ends with the token,
/// which comes behind a question mark if the given one has none, and behind an
/// ampersand if it has. Without a token it is the one that was given.
#[verifier::rlimit(40)]
#[verifier::spinoff_prover]
pub proof fn addresses_carry_the_token(url: Seq<char>, token: Seq<char>)
    ensures
        address(url, None) == url,
        begins(address(url, Some(token)), url),
        ends(address(url, Some(token)), "token="@ + token),
        address(url, Some(token)).len() == url.len() + 7 + token.len(),
        address(url, Some(token))[url.len() as int] == (if exists|i: int|
            0 <= i < url.len() && #[trigger] url[i] == '?' {
            '&'
        } else {
            '?'
        }),
{
    reveal_strlit("&");
    reveal_strlit("?");
    reveal_strlit("token=");
    let a = address(url, Some(token));
    let mark = a.subrange(url.len() as int, (url.len() + 1) as int);
    assert(a =~= url + mark + ("token="@ + token));
    lemma_parts_stand(url, mark, "token="@ + token);
}

/// The pause before the first new attempt is one second; each one after it is
/// twice as long, up to the longest.
pub proof fn pauses_double(failures: nat)
    ensures
        pause_after(0) == 1,
        2 * pause_after(failures) <= MAX_BACKOFF ==> pause_after(failures + 1) == 2 * pause_after(
            failures,
        ),
        2 * pause_after(failures) > MAX_BACKOFF ==> pause_after(failures + 1) == MAX_BACKOFF,
{
}

/// What is sent to the channel of an event goes back where the event came from,
/// in its thread, and names the event; it says what was to be said.
pub proof fn replies_go_back_to_their_event(
    e: GatewayEvent,
    c: ChannelRef,
    content: Seq<char>,
    request_id: Option<Seq<char>>,
    quote: Option<Seq<char>>,
)
    requires
        is_channel_of(e, c),
    ensures
        ({
            let sent = sent_reply(c, content, request_id, quote);
            &&& sent.platform == e.platform@
            &&& sent.channel_id == e.channel.id@
            &&& sent.thread_id == text_view(e.channel.thread_id)
            &&& sent.reply_to == e.event_id@
            &&& sent.text == content
            &&& sent.quote_message_id == quote
            &&& sent.request_id == request_id
            &&& sent.command is None
        }),
        session_key(e.platform@, c) == session_of(e),
{
}

/// The agent is told who sent an event as the event tells it: the id, the name
/// and the name shown are not mixed up. The time is the event's own where it has
/// one.
pub proof fn senders_are_told_of_as_they_are(e: GatewayEvent, received_at: Seq<char>, s: SenderContext)
    requires
        is_sender_of(e, received_at, s),
    ensures
        s.sender_id@ == e.sender.id@,
        s.sender_name@ == e.sender.name@,
        s.display_name@ == e.sender.display_name@,
        s.is_bot == e.sender.is_bot,
        s.channel_id@ == e.channel.id@,
        text_view(s.thread_id) == text_view(e.channel.thread_id),
        e.timestamp@.len() > 0 ==> text_view(s.timestamp) == Some(e.timestamp@),
        e.timestamp@.len() == 0 ==> text_view(s.timestamp) == Some(received_at),
        e.message_id@.len() > 0 ==> text_view(s.message_id) == Some(e.message_id@),
        e.message_id@.len() == 0 ==> s.message_id is None,
{
}

/// What is to be done to a message names that message and stays in its channel;
/// no two commands are called the same.
#[verifier::rlimit(40)]
#[verifier::spinoff_prover]
pub proof fn commands_name_their_message(
    msg: MessageRef,
    a: MessageCommand,
    b: MessageCommand,
    text: Seq<char>,
)
    ensures
        sent_command(msg, a, text).reply_to == msg.message_id@,
        sent_command(msg, a, text).channel_id == msg.channel.channel_id@,
        sent_command(msg, a, text).platform == msg.channel.platform@,
        sent_command(msg, a, text).thread_id == text_view(msg.channel.thread_id),
        sent_command(msg, a, text).text == text,
        sent_command(msg, a, text).command == sent_command(msg, b, text).command ==> a == b,
{
    reveal_strlit("add_reaction");
    reveal_strlit("remove_reaction");
    reveal_strlit("edit_message");
    assert("add_reaction"@[0] == 'a' && "remove_reaction"@[0] == 'r' && "edit_message"@[0] == 'e');
}

/// Once a topic was made, everything goes on in it, in the same channel and for
/// the same event; where it was not, nothing changes.
pub proof fn topics_stay_in_their_channel(
    channel: ChannelRef,
    response: Option<GatewayResponse>,
    c: ChannelRef,
)
    requires
        is_topic_of(channel, response, c),
    ensures
        c.platform@ == channel.platform@,
        c.channel_id@ == channel.channel_id@,
        text_view(c.origin_event_id) == text_view(channel.origin_event_id),
        response is None || !response->0.success ==> c == channel,
        response matches Some(r) ==> r.success && r.thread_id is Some ==> c.thread_id is Some
            && c.thread_id->0@ == r.thread_id->0@,
{
}

/// The bytes of an attachment are read from its file where it has one, and only
/// else taken from what it brings with it.
pub proof fn files_come_before_own_bytes(a: GwAttachment, source: BytesSource<'_>)
    requires
        is_source_of(a, source),
    ensures
        source is File <==> a.path is Some,
        source matches BytesSource::File(p) ==> a.path is Some && p@ == a.path->0@,
        a.path is None && a.data@.len() == 0 ==> (source matches BytesSource::Known(b) && b is Err),
{
}

/// A message that was sent has the id reported for it; where sending it was not
/// reported as done, or no id was, it has a name that is the same for all.
pub proof fn sent_messages_have_their_id(r: GatewayResponse)
    ensures
        r.success && r.message_id is Some ==> sent_id(Some(r)) == r.message_id->0@,
        !r.success || r.message_id is None ==> sent_id(Some(r)) == sent_id(None),
{
}

/// An attachment without a path brings its bytes with it; one that brings none
/// cannot be read.
pub proof fn attachments_bring_their_bytes(a: GwAttachment, bytes: Seq<u8>)
    ensures
        a.data@.len() == 0 ==> own_bytes(a) is Err,
        a.data@.len() > 0 && a.data@ == crate::gateway::base64_text(bytes) && stands_for(
            a.data@,
            bytes,
        ) ==> own_bytes(a) == Ok::<Seq<u8>, Seq<char>>(bytes),
{
}

// ---------------------------------------------------------------------------
// Attachments
// ---------------------------------------------------------------------------

/// Bytes that were read are handed on as they are: speech to be transcribed
/// where that is turned on, and all that is neither an image nor a text to be
/// stored. A text comes with the name of its file.
#[verifier::rlimit(40)]
#[verifier::spinoff_prover]
pub proof fn attachments_are_handed_on(a: GwAttachment, bytes: Seq<u8>, stt_enabled: bool)
    ensures
        a.attachment_type@ == "audio"@ && stt_enabled ==> attachment_step(a, Ok(bytes), stt_enabled)
            == StepView::Transcribe(bytes),
        a.attachment_type@ == "audio"@ && !stt_enabled ==> attachment_step(a, Ok(bytes), stt_enabled)
            == StepView::Offload(bytes),
        a.attachment_type@ != "audio"@ && a.attachment_type@ != "image"@ && a.attachment_type@
            != "text_file"@ ==> attachment_step(a, Ok(bytes), stt_enabled) == StepView::Offload(bytes),
        a.attachment_type@ == "text_file"@ ==> attachment_step(a, Ok(bytes), stt_enabled) is Text
            && occurs(attachment_step(a, Ok(bytes), stt_enabled)->Text_0, a.filename@) && occurs(
            attachment_step(a, Ok(bytes), stt_enabled)->Text_0,
            crate::gateway::lossy_text(bytes),
        ),
        a.attachment_type@ == "image"@ ==> attachment_step(a, Ok(bytes), stt_enabled)
            == (StepView::Image { media_type: a.mime_type@, data: crate::gateway::base64_text(bytes) }),
{
    reveal_strlit("audio");
    reveal_strlit("image");
    reveal_strlit("text_file");
    assert("audio"@[0] == 'a');
    assert("image"@[0] == 'i');
    assert("text_file"@[0] == 't');
    let t = crate::gateway::lossy_text(bytes);
    let s = "```"@ + a.filename@ + "\n"@ + t + "\n```"@;
    lemma_parts_stand("```"@, a.filename@, "\n"@ + t + "\n```"@);
    assert("```"@ + a.filename@ + ("\n"@ + t + "\n```"@) =~= s);
    lemma_parts_stand("```"@ + a.filename@ + "\n"@, t, "\n```"@);
}

/// What could not be read is left out, except that the agent is told of a voice
/// message by the name of its file.
pub proof fn unread_attachments_are_left_out(a: GwAttachment, error: Seq<char>, stt_enabled: bool)
    ensures
        !(a.attachment_type@ == "audio"@ && stt_enabled) ==> attachment_step(a, Err(error), stt_enabled)
            == StepView::Skip,
        a.attachment_type@ == "audio"@ && stt_enabled ==> attachment_step(a, Err(error), stt_enabled)
            is Text && occurs(attachment_step(a, Err(error), stt_enabled)->Text_0, a.filename@),
{
    lemma_parts_stand("[Voice message — read failed for "@, a.filename@, "]"@);
}

// ---------------------------------------------------------------------------
// Commands
// ---------------------------------------------------------------------------

/// A command with an action and an argument is read as such: the action is the
/// first word, and the argument is all that follows it.
#[verifier::rlimit(40)]
#[verifier::spinoff_prover]
pub proof fn actions_and_arguments_are_read(agents: bool, action: Seq<char>, arg: Seq<char>)
    requires
        is_word(action),
        arg.len() > 0,
        !is_white_space(arg[0]),
        !is_white_space(arg.last()),
    ensures
        ({
            let command = if agents {
                "/agent "@
            } else {
                "/model "@
            };
            &&& config_command(command + action + " "@ + arg) == Some(
                ConfigView { agents, action, arg },
            )
            &&& config_command(command + action) == Some(
                ConfigView { agents, action, arg: Seq::empty() },
            )
        }),
{
    let command = if agents {
        "/agent "@
    } else {
        "/model "@
    };
    reveal_strlit("/agent ");
    reveal_strlit("/model ");
    reveal_strlit("/models");
    reveal_strlit("/model");
    reveal_strlit("/agents");
    reveal_strlit("/agent");
    reveal_strlit(" ");
    assert(" "@ =~= seq![' ']);
    assert("/model "@[1] == 'm' && "/agent "@[1] == 'a');
    let rest = action + " "@ + arg;
    let text = command + action + " "@ + arg;
    assert(text =~= command + rest);
    assert(text.subrange(0, 7) =~= command);
    assert(text.skip(7) =~= rest);
    assert(text[1] == command[1]);
    assert(text.len() > 8);
    if begins(text, "/model "@) {
        assert(text.subrange(0, 7)[1] == 'm');
    }
    assert(!is_white_space(action[0]));
    assert(rest[0] == action[0] && rest.last() == arg.last());
    trimmed_text_is_kept(rest);
    trimmed_text_is_kept(arg);
    assert(free_of(action, ' ')) by {
        assert forall|i: int| 0 <= i < action.len() implies #[trigger] action[i] != ' ' by {
            assert(!is_white_space(action[i]));
        }
    }
    parts_are_found_again(action, arg, ' ');
    let short = command + action;
    assert(short.subrange(0, 7) =~= command);
    assert(short.skip(7) =~= action);
    assert(short[1] == command[1]);
    assert(short.len() > 7);
    if begins(short, "/model "@) {
        assert(short.subrange(0, 7)[1] == 'm');
    }
    assert("/models"@.len() == 7 && "/agents"@.len() == 7 && "/model"@.len() == 6 && "/agent"@.len()
        == 6);
    assert(!is_white_space(action[action.len() - 1]));
    trimmed_text_is_kept(action);
}

/// A text is at most one command, and what does not begin with a slash is none.
#[verifier::rlimit(40)]
#[verifier::spinoff_prover]
pub proof fn texts_are_at_most_one_command(prompt: Seq<char>, a: SlashCommand, b: SlashCommand)
    ensures
        asks(prompt, a) && asks(prompt, b) ==> {
            &&& a is Reset == b is Reset
            &&& a is Cancel == b is Cancel
            &&& a is Config == b is Config
            &&& a is Absent == b is Absent
            &&& a is Config ==> a->Config_0@ == b->Config_0@
        },
        asks(prompt, a) && !begins(trimmed(prompt), "/"@) ==> a is Absent,
{
    reveal_strlit("/reset");
    reveal_strlit("/cancel");
    reveal_strlit("/models");
    reveal_strlit("/model");
    reveal_strlit("/agents");
    reveal_strlit("/agent");
    reveal_strlit("/model ");
    reveal_strlit("/agent ");
    reveal_strlit("/");
    assert("/reset"@.len() == 6 && "/cancel"@.len() == 7);
    let text = trimmed(prompt);
    if !begins(text, "/"@) {
        if text.len() > 0 && text[0] == '/' {
            assert(text.subrange(0, 1) =~= "/"@);
        }
        if begins(text, "/model "@) {
            assert(text.subrange(0, 7)[0] == '/');
        }
        if begins(text, "/agent "@) {
            assert(text.subrange(0, 7)[0] == '/');
        }
    }
}

/// Whether an option is about the agents, or about the models.
pub open spec fn is_about(o: ConfigOption, agents: bool) -> bool {
    &&& o.category is Some
    &&& !agents ==> o.category->0@ == "model"@
    &&& agents ==> o.category->0@ == "agent"@ || o.category->0@ == "mode"@
}

/// Whether a choice is the value of an option at a place.
pub open spec fn is_choice(c: ChoiceView, o: ConfigOption, j: int) -> bool {
    &&& 0 <= j < o.options@.len()
    &&& c.config_id == o.id@
    &&& c.value == o.options@[j].value@
    &&& c.name == o.options@[j].name@
    &&& c.is_current <==> o.options@[j].value@ == o.current_value@
}

/// Every value of every option that a command is about is offered, marked as
/// the current one exactly if it is the option's current value.
pub proof fn every_value_is_offered(options: Seq<ConfigOption>, agents: bool, i: int, j: int) -> (k:
    int)
    requires
        0 <= i < options.len(),
        is_about(options[i], agents),
        0 <= j < options[i].options@.len(),
    ensures
        0 <= k < all_choices(options, agents).len(),
        is_choice(all_choices(options, agents)[k], options[i], j),
    decreases options.len(),
{
    let front = all_choices(options.drop_last(), agents);
    if i == options.len() - 1 {
        assert(concerns(options.last(), agents));
        assert(all_choices(options, agents)[front.len() + j] == option_choices(options[i])[j]);
        front.len() + j
    } else {
        let k = every_value_is_offered(options.drop_last(), agents, i, j);
        assert(all_choices(options, agents)[k] == front[k]);
        k
    }
}

/// Whatever is offered is a value of an option that the command is about.
pub proof fn nothing_else_is_offered(options: Seq<ConfigOption>, agents: bool, k: int) -> (at: (
    int,
    int,
))
    requires
        0 <= k < all_choices(options, agents).len(),
    ensures
        0 <= at.0 < options.len(),
        is_about(options[at.0], agents),
        is_choice(all_choices(options, agents)[k], options[at.0], at.1),
    decreases options.len(),
{
    let front = all_choices(options.drop_last(), agents);
    if options.len() > 0 && k >= front.len() {
        let j = k - front.len();
        assert(concerns(options.last(), agents));
        assert(all_choices(options, agents)[k] == option_choices(options.last())[j]);
        (options.len() - 1, j)
    } else {
        let at = nothing_else_is_offered(options.drop_last(), agents, k);
        assert(all_choices(options, agents)[k] == front[k]);
        at
    }
}

/// A choice is set by its number, counted from one, or by its name or value, in
/// whatever case; of several with that name it is the first. Where nothing is
/// chosen, nothing is set.
#[verifier::rlimit(40)]
#[verifier::spinoff_prover]
pub proof fn choices_are_set_by_number_or_name(
    agents: bool,
    choices: Seq<ChoiceView>,
    arg: Seq<char>,
    step: ConfigStep,
    n: nat,
)
    requires
        config_step(ConfigView { agents, action: "set"@, arg }, Some(choices), step),
        n <= usize::MAX,
    ensures
        arg == decimal(n) && 1 <= n <= choices.len() ==> (step matches ConfigStep::SwitchTo(i)
            && i == n - 1),
        arg == decimal(n) && (n == 0 || n > choices.len()) ==> step is Reply,
        step matches ConfigStep::SwitchTo(i) ==> i < choices.len(),
        step matches ConfigStep::SwitchTo(i) ==> crate::text::unsigned(arg, usize::MAX as nat) is None
            ==> {
            ||| crate::text::lower_case(choices[i as int].name) == crate::text::lower_case(arg)
            ||| crate::text::lower_case(choices[i as int].value) == crate::text::lower_case(arg)
        },
        step is Reply && arg.len() > 0 && crate::text::unsigned(arg, usize::MAX as nat) is None
            ==> forall|k: int|
            0 <= k < choices.len() ==> (#[trigger] choices[k]).name != arg && choices[k].value != arg,
{
    reveal_strlit("set");
    reveal_strlit("list");
    assert("set"@.len() == 3 && "list"@.len() == 4);
    decimal_reads_back(n, usize::MAX as nat);
    crate::text::lemma_decimal_digits(n);
    if step is Reply && arg.len() > 0 && crate::text::unsigned(arg, usize::MAX as nat) is None {
        assert forall|k: int| 0 <= k < choices.len() implies (#[trigger] choices[k]).name != arg
            && choices[k].value != arg by {
            assert(!is_named(choices[k], arg));
        }
    }
}

/// What a list says of a choice: its number, its name, and a mark on the
/// current one.
pub open spec fn numbered(number: nat, c: ChoiceView) -> Seq<char> {
    decimal(number) + ". "@ + c.name + (if c.is_current {
        " ✅"@
    } else {
        Seq::empty()
    })
}

#[verifier::rlimit(40)]
#[verifier::spinoff_prover]
proof fn lemma_numbered(number: nat, c: ChoiceView)
    ensures
        occurs(choice_line(number, c), numbered(number, c)),
{
    let mark = if c.is_current {
        " ✅"@
    } else {
        Seq::<char>::empty()
    };
    let number_part = decimal(number) + ". "@ + c.name;
    let line = choice_line(number, c);
    assert(numbered(number, c) == number_part + mark);
    assert(line == "  "@ + decimal(number) + ". "@ + c.name + mark);
    let n = "  "@.len() as int;
    assert(line.subrange(n, line.len() as int) =~= numbered(number, c));
    assert(stands_at(line, numbered(number, c), n));
}

proof fn lemma_list_line(agents: bool, choices: Seq<ChoiceView>, k: int)
    requires
        0 <= k < choices.len(),
    ensures
        k + 1 < list_lines(agents, choices).len(),
        list_lines(agents, choices)[k + 1] == choice_line((k + 1) as nat, choices[k]),
{
}

/// A list names every choice behind the number that sets it, and marks the
/// current one.
#[verifier::rlimit(40)]
#[verifier::spinoff_prover]
pub proof fn lists_name_every_choice(
    agents: bool,
    choices: Seq<ChoiceView>,
    arg: Seq<char>,
    step: ConfigStep,
    k: int,
)
    requires
        config_step(ConfigView { agents, action: "list"@, arg }, Some(choices), step),
        0 <= k < choices.len(),
    ensures
        step is Reply,
        occurs(step->Reply_0@, numbered((k + 1) as nat, choices[k])),
{
    let lines = list_lines(agents, choices);
    lemma_list_line(agents, choices, k);
    lemma_numbered((k + 1) as nat, choices[k]);
    lemma_joined_holds(lines, "\n"@, k + 1);
    lemma_occurs_in_part(joined(lines, "\n"@), lines[k + 1], numbered((k + 1) as nat, choices[k]));
}

/// Whoever asks for what is not there is told what there is: a number out of the
/// list is answered with the length of the list, an unknown name with that name,
/// and an unknown action with that action.
#[verifier::rlimit(40)]
#[verifier::spinoff_prover]
pub proof fn refusals_tell_what_there_is(
    command: ConfigView,
    choices: Seq<ChoiceView>,
    step: ConfigStep,
    n: nat,
)
    requires
        config_step(command, Some(choices), step),
        n <= usize::MAX,
    ensures
        command.action == "set"@ && command.arg == decimal(n) && (n == 0 || n > choices.len()) ==> step
            is Reply && occurs(step->Reply_0@, decimal(choices.len())),
        command.action == "set"@ && step is Reply && command.arg.len() > 0 && crate::text::unsigned(
            command.arg,
            usize::MAX as nat,
        ) is None ==> occurs(step->Reply_0@, "\""@ + command.arg + "\""@),
        command.action != "set"@ && command.action != "list"@ ==> step is Reply && occurs(
            step->Reply_0@,
            command.action,
        ),
{
    reveal_strlit("set");
    reveal_strlit("list");
    assert("set"@.len() == 3 && "list"@.len() == 4);
    decimal_reads_back(n, usize::MAX as nat);
    crate::text::lemma_decimal_digits(n);
    if step is Reply {
        let t = step->Reply_0@;
        let name = crate::gateway::label_of(command.agents);
        lemma_parts_stand("⚠️ Invalid number. Use 1–"@, decimal(choices.len()), "."@);
        let rest = "\". Usage: /"@ + name + " list | /"@ + name + " set <name>"@;
        lemma_parts_stand("Unknown action \""@, command.action, rest);
        if command.action != "set"@ && command.action != "list"@ {
            assert("Unknown action \""@ + command.action + rest =~= t);
        }
        if command.action == "set"@ && command.arg.len() > 0 && crate::text::unsigned(
            command.arg,
            usize::MAX as nat,
        ) is None {
            lemma_named_reply(name, command.arg);
        }
    }
}

#[verifier::rlimit(40)]
#[verifier::spinoff_prover]
proof fn lemma_named_reply(name: Seq<char>, arg: Seq<char>)
    ensures
        occurs(
            "⚠️ No "@ + name + " matching \""@ + arg + "\". Use /"@ + name + " list to see options."@,
            "\""@ + arg + "\""@,
        ),
{
    let t = "⚠️ No "@ + name + " matching \""@ + arg + "\". Use /"@ + name
        + " list to see options."@;
    reveal_strlit(" matching \"");
    reveal_strlit("\". Use /");
    reveal_strlit("\"");
    let said = "\""@ + arg + "\""@;
    let a = "⚠️ No "@ + name + " matching \""@;
    let at = a.len() - 1;
    assert(a[at] == '"');
    assert(t.subrange(at, at + said.len()) =~= said);
    assert(stands_at(t, said, at));
}

/// Where there is nothing to choose from, nothing is set, whatever the command.
pub proof fn nothing_is_set_without_choices(command: ConfigView, step: ConfigStep)
    requires
        config_step(command, None, step),
    ensures
        step is Reply,
{
}

/// The answer to a reset tells how many messages were dropped, if any were, and
/// whether there was a session.
#[verifier::rlimit(40)]
#[verifier::spinoff_prover]
pub proof fn resets_tell_what_was_dropped(ok: bool, dropped: nat)
    ensures
        dropped > 0 ==> occurs(reset_text(ok, dropped), decimal(dropped) + " buffered message(s)"@),
        ok <==> begins(reset_text(ok, dropped), "🔄 Session reset."@),
{
    reveal_strlit("🔄 Session reset. Start a new conversation!");
    reveal_strlit("🔄 Session reset. Dropped ");
    reveal_strlit("🔄 Session reset.");
    reveal_strlit("⚠️ No active session to reset.");
    reveal_strlit("🔄 Dropped ");
    let t = reset_text(ok, dropped);
    let head = "🔄 Session reset."@;
    if ok {
        assert(t.subrange(0, head.len() as int) =~= head);
    } else if begins(t, head) {
        assert(t.subrange(0, head.len() as int)[2] == t[2]);
        assert(t.subrange(0, head.len() as int)[0] == t[0]);
    }
    if dropped > 0 {
        let n = decimal(dropped) + " buffered message(s)"@;
        reveal_strlit(" buffered message(s)");
        reveal_strlit(" buffered message(s). Start a new conversation!");
        reveal_strlit(" buffered message(s). No active session to reset.");
        let first = if ok {
            "🔄 Session reset. Dropped "@
        } else {
            "🔄 Dropped "@
        };
        let rest = t.skip((first.len() + n.len()) as int);
        assert(t =~= first + n + rest);
        lemma_parts_stand(first, n, rest);
    }
}

} // verus!
