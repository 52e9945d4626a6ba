//! Work that an agent moves from a channel to a thread: the token that lets it do
//! so once, and what the thread is told.

use vstd::prelude::*;
use crate::adapter::{copy_text, ChannelRef, ContentBlock, MessageRef};
use crate::config::text_view;
use crate::table::Table;
use crate::text::{blank, is_blank, trim, trimmed};

verus! {

/// What is kept of a message so that its work can move. The adapter and the
/// dispatcher are known by their numbers.
#[derive(Debug)]
pub struct HandoffRegistration {
    pub adapter: u64,
    pub dispatcher: u64,
    pub parent_channel: ChannelRef,
    pub trigger_msg: MessageRef,
    pub sender_json: String,
    pub sender_name: String,
    pub sender_id: String,
    pub original_prompt: String,
    pub extra_blocks: Vec<ContentBlock>,
    pub other_bot_present: bool,
}

/// A registration, and the moment in milliseconds after which it does not hold.
#[derive(Debug)]
pub struct HandoffEntry {
    pub registration: HandoffRegistration,
    pub expires_at: u64,
}

/// What the agent is told of a thread that was started.
#[derive(Debug, Clone)]
pub struct HandoffStarted {
    pub status: String,
    pub platform: String,
    pub channel_id: String,
    pub thread_id: Option<String>,
    pub display: String,
}

/// Whether a character is a digit of a number written in base sixteen.
pub open spec fn is_hex(c: char) -> bool {
    '0' <= c <= '9' || 'a' <= c <= 'f'
}

/// Whether a text is written as a random UUID is: 36 characters, with hyphens at
/// four places.
pub open spec fn is_uuid(s: Seq<char>) -> bool {
    &&& s.len() == 36
    &&& s[8] == '-' && s[13] == '-' && s[18] == '-' && s[23] == '-'
    &&& forall|i: int|
        0 <= i < 36 && i != 8 && i != 13 && i != 18 && i != 23 ==> is_hex(#[trigger] s[i])
}

/// `uuid::Uuid::new_v4`, written out: a text in the shape of a UUID. Which one is
/// left to chance, so nothing more is stated.
#[verifier::external_body]
pub(crate) fn random_token() -> (r: String)
    ensures
        is_uuid(r@),
{
    uuid::Uuid::new_v4().to_string()
}

/// The tokens that hold, and for how many milliseconds a new one does.
#[derive(Debug)]
pub struct HandoffBroker {
    ttl: u64,
    entries: Table<HandoffEntry>,
}

/// The tokens that hold, and for how long a new one does.
pub struct BrokerView {
    pub ttl: u64,
    pub entries: Map<Seq<char>, HandoffEntry>,
}

impl View for HandoffBroker {
    type V = BrokerView;

    closed spec fn view(&self) -> BrokerView {
        BrokerView { ttl: self.ttl, entries: self.entries@ }
    }
}

impl BrokerView {
    /// With one more registration.
    pub open spec fn registered(self, token: Seq<char>, r: HandoffRegistration, now: u64) -> BrokerView {
        BrokerView {
            entries: self.entries.insert(
                token,
                HandoffEntry { registration: r, expires_at: (now + self.ttl) as u64 },
            ),
            ..self
        }
    }

    /// Without a token.
    pub open spec fn without(self, token: Seq<char>) -> BrokerView {
        BrokerView { entries: self.entries.remove(token), ..self }
    }

    /// Whether a token was used, and this is what it gave: what was registered
    /// under it, or why it gave nothing.
    pub open spec fn gave_out(
        self,
        token: Seq<char>,
        now: u64,
        given: Result<HandoffEntry, String>,
        after: BrokerView,
    ) -> bool {
        &&& after == self.without(token)
        &&& match given {
            Ok(entry) => self.token_error(token, now) is None && entry == self.entries[token],
            Err(e) => self.token_error(token, now) == Some(e@),
        }
    }

    /// Why a token gives nothing, if it does not.
    pub open spec fn token_error(self, token: Seq<char>, now: u64) -> Option<Seq<char>> {
        if !self.entries.contains_key(token) {
            Some("handoff token is invalid or already used"@)
        } else if now > self.entries[token].expires_at {
            Some("handoff token has expired"@)
        } else {
            None
        }
    }
}

/// Why a title and a prompt start no task, if they do not.
pub open spec fn task_error(title: Seq<char>, prompt: Seq<char>) -> Option<Seq<char>> {
    if blank(title) {
        Some("handoff title must not be empty"@)
    } else if blank(prompt) {
        Some("handoff prompt must not be empty"@)
    } else {
        None
    }
}

/// Whether a task was started with a token, or this is why it was not. A task
/// that says nothing leaves the token as good as it was.
pub open spec fn has_started(
    before: BrokerView,
    token: Seq<char>,
    title: Seq<char>,
    prompt: Seq<char>,
    now: u64,
    r: Result<(HandoffEntry, String, String), String>,
    after: BrokerView,
) -> bool {
    &&& match r {
        Ok((entry, t, p)) => {
            &&& task_error(title, prompt) is None
            &&& before.token_error(token, now) is None
            &&& entry == before.entries[token]
            &&& t@ == trimmed(title)
            &&& p@ == trimmed(prompt)
        },
        Err(e) => match task_error(title, prompt) {
            Some(why) => e@ == why,
            None => before.token_error(token, now) == Some(e@),
        },
    }
    &&& after == (if task_error(title, prompt) is None {
        before.without(token)
    } else {
        before
    })
}

impl HandoffBroker {
    pub fn new(ttl: u64) -> (r: Self)
        ensures
            r@ == (BrokerView { ttl, entries: Map::empty() }),
    {
        HandoffBroker { ttl, entries: Table::new() }
    }

    /// Keeps a registration under a token.
    pub fn register_under(&mut self, token: String, registration: HandoffRegistration, now: u64)
        requires
            now + old(self)@.ttl <= u64::MAX,
        ensures
            final(self)@ == old(self)@.registered(token@, registration, now),
    {
        let expires_at = now + self.ttl;
        self.entries.insert(token, HandoffEntry { registration, expires_at });
    }

    /// Keeps a registration under a token that is made up for it.
    pub fn register(&mut self, registration: HandoffRegistration, now: u64) -> (r: String)
        requires
            now + old(self)@.ttl <= u64::MAX,
        ensures
            is_uuid(r@),
            final(self)@ == old(self)@.registered(r@, registration, now),
    {
        let token = random_token();
        self.register_under(token.clone(), registration, now);
        token
    }

    /// Takes out what a token stands for. Whatever comes of it, the token is spent.
    pub fn consume(&mut self, token: &str, now: u64) -> (r: Result<HandoffEntry, String>)
        ensures
            old(self)@.gave_out(token@, now, r, final(self)@),
    {
        match self.entries.remove(token) {
            None => Err("handoff token is invalid or already used".to_owned()),
            Some(entry) => {
                if now > entry.expires_at {
                    Err("handoff token has expired".to_owned())
                } else {
                    Ok(entry)
                }
            },
        }
    }

    /// Begins a task: checks its title and its prompt, and takes out what the token
    /// stands for. A task that is not well put does not spend the token.
    pub fn start_thread_task(&mut self, token: &str, title: &str, prompt: &str, now: u64) -> (r:
        Result<(HandoffEntry, String, String), String>)
        ensures
            has_started(old(self)@, token@, title@, prompt@, now, r, final(self)@),
    {
        if is_blank(title) {
            return Err("handoff title must not be empty".to_owned());
        }
        if is_blank(prompt) {
            return Err("handoff prompt must not be empty".to_owned());
        }
        match self.consume(token, now) {
            Ok(entry) => Ok((entry, trim(title).to_owned(), trim(prompt).to_owned())),
            Err(e) => Err(e),
        }
    }
}

/// A token works once: what follows a try, whether it succeeds or not, is that the
/// token is refused, until it is registered anew. Other tokens are not touched.
pub proof fn token_is_single_use(v: BrokerView, token: Seq<char>, other: Seq<char>, later: u64)
    ensures
        v.without(token).token_error(token, later) == Some(
            "handoff token is invalid or already used"@,
        ),
        other != token ==> v.without(token).token_error(other, later) == v.token_error(other, later),
        other != token && v.entries.contains_key(other) ==> v.without(token).entries[other]
            == v.entries[other],
{
}

/// A token holds from its registration until its time is over, and not after.
pub proof fn token_holds_for_its_time(
    v: BrokerView,
    token: Seq<char>,
    r: HandoffRegistration,
    now: u64,
    later: u64,
)
    requires
        now + v.ttl <= u64::MAX,
    ensures
        later <= now + v.ttl <==> v.registered(token, r, now).token_error(token, later) is None,
        v.registered(token, r, now).entries[token].registration == r,
{
}

// ---------------------------------------------------------------------------
// The thread
// ---------------------------------------------------------------------------

/// What the thread's agent is told: where the work comes from, and the prompt.
pub open spec fn child_prompt(r: HandoffRegistration, prompt: Seq<char>) -> Seq<char> {
    "<openab_handoff_context>\nplatform: "@ + r.parent_channel.platform@ + "\nparent_channel_id: "@
        + r.parent_channel.channel_id@ + "\ntrigger_message_id: "@ + r.trigger_msg.message_id@
        + "\noriginal_sender: "@ + r.sender_name@ + "\noriginal_message:\n"@ + r.original_prompt@
        + "\n</openab_handoff_context>\n\n"@ + prompt
}

pub fn build_child_prompt(prompt: &str, r: &HandoffRegistration) -> (out: String)
    ensures
        out@ == child_prompt(*r, prompt@),
{
    let mut out = "<openab_handoff_context>\nplatform: ".to_owned();
    out.append(r.parent_channel.platform.as_str());
    out.append("\nparent_channel_id: ");
    out.append(r.parent_channel.channel_id.as_str());
    out.append("\ntrigger_message_id: ");
    out.append(r.trigger_msg.message_id.as_str());
    out.append("\noriginal_sender: ");
    out.append(r.sender_name.as_str());
    out.append("\noriginal_message:\n");
    out.append(r.original_prompt.as_str());
    out.append("\n</openab_handoff_context>\n\n");
    out.append(prompt);
    out
}

/// How a thread is called.
pub open spec fn thread_display(channel: ChannelRef) -> Seq<char> {
    match channel.thread_id {
        Some(t) => channel.platform@ + " thread "@ + t@,
        None => channel.platform@ + " channel "@ + channel.channel_id@,
    }
}

pub fn format_thread_display(channel: &ChannelRef) -> (r: String)
    ensures
        r@ == thread_display(*channel),
{
    let mut out = channel.platform.clone();
    match &channel.thread_id {
        Some(t) => {
            out.append(" thread ");
            out.append(t.as_str());
        },
        None => {
            out.append(" channel ");
            out.append(channel.channel_id.as_str());
        },
    }
    out
}

/// What the agent is told of a thread that was started.
pub fn started(channel: &ChannelRef) -> (r: HandoffStarted)
    ensures
        r.status@ == "started"@,
        r.platform@ == channel.platform@,
        r.channel_id@ == channel.channel_id@,
        text_view(r.thread_id) == text_view(channel.thread_id),
        r.display@ == thread_display(*channel),
{
    HandoffStarted {
        status: "started".to_owned(),
        platform: channel.platform.clone(),
        channel_id: channel.channel_id.clone(),
        thread_id: copy_text(&channel.thread_id),
        display: format_thread_display(channel),
    }
}

/// What is said of a thread that could not be created.
pub fn thread_failure(e: &str) -> (r: String)
    ensures
        r@ == "failed to create handoff thread: "@ + e@,
{
    let mut out = "failed to create handoff thread: ".to_owned();
    out.append(e);
    out
}

/// What is said of a task that could not be put in the queue.
pub fn queue_failure(e: &str) -> (r: String)
    ensures
        r@ == "failed to enqueue handoff task: "@ + e@,
{
    let mut out = "failed to enqueue handoff task: ".to_owned();
    out.append(e);
    out
}

} // verus!
