//! What all chat platforms share: channels and messages, the header that an
//! agent's output may begin with, the blocks of a prompt, and how tools and
//! progress are shown.

use vstd::prelude::*;
use crate::config::{text_view, ToolDisplay};
use crate::text::{
    append_decimal, begins, decimal, find, first_of, found, is_digit, is_letter, join,
    joined, lemma_first_of, lemma_views_push, once, replace, replaced, same, split_once,
    starts_with, to_chars, trim, trim_end, trimmed, views, white, without_back,
};

verus! {

// ---------------------------------------------------------------------------
// Channels, messages, senders
// ---------------------------------------------------------------------------

/// Whether two optional texts are the same.
pub fn same_text(a: &Option<String>, b: &Option<String>) -> (r: bool)
    ensures
        r == (text_view(*a) == text_view(*b)),
{
    match (a, b) {
        (Some(x), Some(y)) => same(x.as_str(), y.as_str()),
        (None, None) => true,
        _ => false,
    }
}

/// A copy of an optional text.
pub fn copy_text(a: &Option<String>) -> (r: Option<String>)
    ensures
        r == *a,
{
    match a {
        Some(x) => Some(x.clone()),
        None => None,
    }
}

/// A channel or thread that messages are sent to.
#[derive(Debug)]
pub struct ChannelRef {
    pub platform: String,
    /// Where the adapter sends; a thread's own channel where threads are channels.
    pub channel_id: String,
    /// The thread within the channel, where threads are not channels.
    pub thread_id: Option<String>,
    /// The channel that a thread belongs to, where threads are channels.
    pub parent_id: Option<String>,
    /// The event that a reply answers. It does not tell channels apart.
    pub origin_event_id: Option<String>,
}

impl ChannelRef {
    /// The same place, whatever event it was reached by.
    pub open spec fn same_place(&self, other: &ChannelRef) -> bool {
        &&& self.platform@ == other.platform@
        &&& self.channel_id@ == other.channel_id@
        &&& text_view(self.thread_id) == text_view(other.thread_id)
        &&& text_view(self.parent_id) == text_view(other.parent_id)
    }

    /// The thread, or else the channel.
    pub open spec fn route(&self) -> Seq<char> {
        match self.thread_id {
            Some(t) => t@,
            None => self.channel_id@,
        }
    }

    /// The channel with this name, and nothing more known of it.
    pub fn plain(platform: &str, channel_id: &str) -> (r: ChannelRef)
        ensures
            r.platform@ == platform@,
            r.channel_id@ == channel_id@,
            r.thread_id is None,
            r.parent_id is None,
            r.origin_event_id is None,
    {
        ChannelRef {
            platform: platform.to_owned(),
            channel_id: channel_id.to_owned(),
            thread_id: None,
            parent_id: None,
            origin_event_id: None,
        }
    }

    /// The thread, or else the channel: the place that a message goes to.
    pub fn resolve_channel(&self) -> (r: &str)
        ensures
            r@ == self.route(),
    {
        match &self.thread_id {
            Some(t) => t.as_str(),
            None => self.channel_id.as_str(),
        }
    }
}

impl PartialEq for ChannelRef {
    fn eq(&self, other: &ChannelRef) -> (r: bool) {
        same(self.platform.as_str(), other.platform.as_str()) && same(
            self.channel_id.as_str(),
            other.channel_id.as_str(),
        ) && same_text(&self.thread_id, &other.thread_id) && same_text(
            &self.parent_id,
            &other.parent_id,
        )
    }
}

impl vstd::std_specs::cmp::PartialEqSpecImpl for ChannelRef {
    open spec fn obeys_eq_spec() -> bool {
        true
    }

    open spec fn eq_spec(&self, other: &ChannelRef) -> bool {
        self.same_place(other)
    }
}

impl Eq for ChannelRef {

}

impl Clone for ChannelRef {
    fn clone(&self) -> (r: Self)
        ensures
            r == *self,
    {
        ChannelRef {
            platform: self.platform.clone(),
            channel_id: self.channel_id.clone(),
            thread_id: copy_text(&self.thread_id),
            parent_id: copy_text(&self.parent_id),
            origin_event_id: copy_text(&self.origin_event_id),
        }
    }
}

/// Being the same place is reflexive, symmetric and transitive, and does not
/// look at the event a channel was reached by.
pub proof fn same_place_is_an_equivalence(a: ChannelRef, b: ChannelRef, c: ChannelRef, event: Option<String>)
    ensures
        a.same_place(&a),
        a.same_place(&b) == b.same_place(&a),
        a.same_place(&b) && b.same_place(&c) ==> a.same_place(&c),
        a.same_place(&(ChannelRef { origin_event_id: event, ..a })),
{
}

/// A message on a platform.
#[derive(Debug)]
pub struct MessageRef {
    pub channel: ChannelRef,
    pub message_id: String,
}

impl Clone for MessageRef {
    fn clone(&self) -> (r: Self)
        ensures
            r == *self,
    {
        MessageRef { channel: self.channel.clone(), message_id: self.message_id.clone() }
    }
}

/// A piece of a prompt.
#[derive(Debug)]
pub enum ContentBlock {
    Text { text: String },
    Image { media_type: String, data: String },
}

impl Clone for ContentBlock {
    fn clone(&self) -> (r: Self)
        ensures
            r == *self,
    {
        match self {
            ContentBlock::Text { text } => ContentBlock::Text { text: text.clone() },
            ContentBlock::Image { media_type, data } => ContentBlock::Image {
                media_type: media_type.clone(),
                data: data.clone(),
            },
        }
    }
}

/// All that one message brings to its turn.
#[derive(Debug)]
pub struct MessageContext {
    pub thread_channel: ChannelRef,
    pub sender_json: String,
    pub prompt: String,
    pub extra_blocks: Vec<ContentBlock>,
    pub trigger_msg: MessageRef,
    pub other_bot_present: bool,
    /// The message that the first reply refers to, unless the agent names another.
    pub initial_reply_to: Option<String>,
}

/// What a turn came to.
#[derive(Debug, Clone)]
pub struct StreamPromptOutcome {
    pub final_content: String,
}

/// Who sent a message, as the agent is told.
#[derive(Debug)]
pub struct SenderContext {
    pub schema: String,
    pub sender_id: String,
    pub sender_name: String,
    pub display_name: String,
    pub channel: String,
    /// The channel; that of the thread, where the message is in one.
    pub channel_id: String,
    pub thread_id: Option<String>,
    pub is_bot: bool,
    pub timestamp: Option<String>,
    pub message_id: Option<String>,
    /// The bot that the message reached.
    pub receiver_id: Option<String>,
    /// What lets the agent move the work to a thread.
    pub handoff_token: Option<String>,
    pub referenced_message_id: Option<String>,
    pub referenced_channel_id: Option<String>,
    pub referenced_author_id: Option<String>,
    pub referenced_author_name: Option<String>,
}

impl Clone for SenderContext {
    fn clone(&self) -> (r: Self)
        ensures
            r == *self,
    {
        SenderContext {
            schema: self.schema.clone(),
            sender_id: self.sender_id.clone(),
            sender_name: self.sender_name.clone(),
            display_name: self.display_name.clone(),
            channel: self.channel.clone(),
            channel_id: self.channel_id.clone(),
            thread_id: copy_text(&self.thread_id),
            is_bot: self.is_bot,
            timestamp: copy_text(&self.timestamp),
            message_id: copy_text(&self.message_id),
            receiver_id: copy_text(&self.receiver_id),
            handoff_token: copy_text(&self.handoff_token),
            referenced_message_id: copy_text(&self.referenced_message_id),
            referenced_channel_id: copy_text(&self.referenced_channel_id),
            referenced_author_id: copy_text(&self.referenced_author_id),
            referenced_author_name: copy_text(&self.referenced_author_name),
        }
    }
}

/// A typing indicator that is on.
pub trait TypingHandle {
    fn stop(self);
}

/// What a platform's adapter tells of itself.
pub trait ChatAdapter {
    /// The platform's name, which sessions are kept apart by.
    fn platform(&self) -> &'static str;

    /// The longest message, in characters.
    fn message_limit(&self) -> usize;

    /// Whether replies stream by editing; in a thread with other bots, where
    /// edits get in each other's way, an adapter may say no.
    fn use_streaming(&self, other_bot_present: bool) -> bool;

    /// Whether replies stream through an interface of the platform's own.
    fn uses_native_streaming(&self, other_bot_present: bool) -> (r: bool)
        default_ensures
            !r,
    {
        false
    }

    /// Whether progress is shown in a status line, not by reactions.
    fn uses_assistant_status(&self) -> (r: bool)
        default_ensures
            !r,
    {
        false
    }

    /// Whether progress is shown in a status line in a channel: some platforms have
    /// one for some conversations only.
    fn uses_assistant_status_for(&self, channel: &ChannelRef) -> (r: bool)
        default_ensures
            call_ensures(Self::uses_assistant_status, (self,), r),
    {
        self.uses_assistant_status()
    }

    /// Whether the platform shows tables as they are written.
    fn renders_native_tables(&self) -> (r: bool)
        default_ensures
            !r,
    {
        false
    }
}

/// The key of the session that a channel's messages go to.
pub open spec fn session_key(platform: Seq<char>, channel: ChannelRef) -> Seq<char> {
    platform + ":"@ + channel.route()
}

/// The key of the session that a channel's messages go to.
pub fn thread_key(platform: &str, channel: &ChannelRef) -> (r: String)
    ensures
        r@ == session_key(platform@, *channel),
{
    let mut out = platform.to_owned();
    out.append(":");
    out.append(channel.resolve_channel());
    out
}

// ---------------------------------------------------------------------------
// Output directives
// ---------------------------------------------------------------------------

/// What the header of an agent's output asks for.
#[derive(Debug)]
pub struct OutputDirectives {
    /// The message to reply to.
    pub reply_to: Option<String>,
}

impl Default for OutputDirectives {
    fn default() -> (r: Self)
        ensures
            r.reply_to is None,
    {
        OutputDirectives { reply_to: None }
    }
}

/// The first line of a text without its ending, which is `\n` or `\r\n`.
pub open spec fn head_line(s: Seq<char>) -> Seq<char> {
    let raw = s.take(first_of(s, '\n'));
    if first_of(s, '\n') < s.len() && raw.len() > 0 && raw.last() == '\r' {
        raw.drop_last()
    } else {
        raw
    }
}

/// What follows the first line.
pub open spec fn after_line(s: Seq<char>) -> Seq<char> {
    if first_of(s, '\n') < s.len() {
        s.skip(first_of(s, '\n') + 1)
    } else {
        Seq::empty()
    }
}

/// The key, the value and what follows in a line `[[key:value]] ...`, if it is one.
pub open spec fn directive_of(line: Seq<char>) -> Option<(Seq<char>, Seq<char>, Seq<char>)> {
    let t = trimmed(line);
    let after = t.skip(2);
    if !begins(t, "[["@) {
        None
    } else {
        match found(after, "]]"@) {
            None => None,
            Some(close) => match once(after.take(close), ':') {
                None => None,
                Some((key, value)) => Some(
                    (trimmed(key), trimmed(value), trimmed(after.skip(close + 2))),
                ),
            },
        }
    }
}

/// The characters that a message's name is made of.
pub open spec fn is_id_char(c: char) -> bool {
    is_letter(c) || is_digit(c) || c == '.' || c == '-' || c == '_'
}

/// A message's name: one to 64 letters, digits, dots, hyphens and underscores.
pub open spec fn is_message_id(s: Seq<char>) -> bool {
    &&& 0 < s.len() <= 64
    &&& forall|i: int| 0 <= i < s.len() ==> is_id_char(#[trigger] s[i])
}

/// What the header of a text asks to reply to, and what is left without it. The
/// header ends before the first line that is no directive, or within a line
/// that goes on behind its directive.
pub open spec fn header(s: Seq<char>, reply_to: Option<Seq<char>>) -> (Option<Seq<char>>, Seq<char>)
    decreases s.len(),
{
    if s.len() == 0 {
        (reply_to, s)
    } else {
        match directive_of(head_line(s)) {
            None => (reply_to, s),
            Some((key, value, tail)) => {
                let reply = if key == "reply_to"@ && is_message_id(value) {
                    Some(value)
                } else {
                    reply_to
                };
                let rest = after_line(s);
                if tail.len() > 0 {
                    (
                        reply,
                        if rest.len() > 0 {
                            tail + "\n"@ + rest
                        } else {
                            tail
                        },
                    )
                } else if rest.len() < s.len() {
                    header(rest, reply)
                } else {
                    (reply, rest)
                }
            },
        }
    }
}

fn valid_message_id(s: &str) -> (r: bool)
    ensures
        r == is_message_id(s@),
{
    let v = to_chars(s);
    if v.len() == 0 || v.len() > 64 {
        return false;
    }
    let mut i: usize = 0;
    while i < v.len()
        invariant
            i <= v@.len(),
            v@ == s@,
            forall|k: int| 0 <= k < i ==> is_id_char(#[trigger] s@[k]),
        decreases v@.len() - i,
    {
        let c = v[i];
        if !(crate::text::ascii_letter(c) || crate::text::ascii_digit(c) || c == '.' || c == '-' || c
            == '_') {
            assert(!is_id_char(s@[i as int]));
            return false;
        }
        i += 1;
    }
    true
}

/// Reads a line as a directive: its key, its value and what follows it.
fn read_directive(line: &str) -> (r: Option<(String, String, String)>)
    ensures
        match r {
            Some((k, v, t)) => directive_of(line@) == Some((k@, v@, t@)),
            None => directive_of(line@) is None,
        },
{
    let t = trim(line);
    if !starts_with(t, "[[") {
        return None;
    }
    proof {
        reveal_strlit("[[");
        reveal_strlit("]]");
    }
    let n = t.unicode_len();
    let after = t.substring_char(2, n);
    assert(after@ =~= t@.skip(2));
    let chars = to_chars(after);
    let mark = to_chars("]]");
    match find(&chars, &mark) {
        None => None,
        Some(close) => {
            let inner = after.substring_char(0, close);
            assert(inner@ =~= after@.take(close as int));
            match split_once(inner, ':') {
                None => None,
                Some((key, value)) => {
                    let m = after.unicode_len();
                    let tail = after.substring_char(close + 2, m);
                    assert(tail@ =~= after@.skip(close + 2));
                    let key = trim(key.as_str()).to_owned();
                    let value = trim(value.as_str()).to_owned();
                    let tail = trim(tail).to_owned();
                    Some((key, value, tail))
                },
            }
        },
    }
}

/// Parts a text into its first line and what follows.
fn cut_line(s: &str) -> (r: (&str, &str))
    ensures
        r.0@ == head_line(s@),
        r.1@ == after_line(s@),
        s@.len() > 0 ==> r.1@.len() < s@.len(),
{
    let v = to_chars(s);
    let n = v.len();
    let mut i: usize = 0;
    proof {
        lemma_first_of(s@, '\n');
    }
    while i < n && v[i] != '\n'
        invariant
            i <= n,
            n == v@.len(),
            v@ == s@,
            forall|k: int| 0 <= k < i ==> v@[k] != '\n',
        decreases n - i,
    {
        i += 1;
    }
    assert(first_of(s@, '\n') == i);
    let ghost raw = s@.take(i as int);
    if i < n {
        let end = if i > 0 && v[i - 1] == '\r' {
            i - 1
        } else {
            i
        };
        let line = s.substring_char(0, end);
        let rest = s.substring_char(i + 1, n);
        assert(rest@ =~= s@.skip(i + 1));
        proof {
            if i > 0 {
                assert(raw.last() == v@[i - 1]);
            }
            if end < i {
                assert(line@ =~= raw.drop_last());
            } else {
                assert(line@ =~= raw);
            }
        }
        (line, rest)
    } else {
        let line = s.substring_char(0, n);
        let rest = s.substring_char(n, n);
        assert(line@ =~= raw);
        assert(rest@ =~= Seq::empty());
        (line, rest)
    }
}

/// Reads the directives at the beginning of an agent's output. Gives what they
/// ask for, and the output without them.
pub fn parse_output_directives(content: &str) -> (r: (OutputDirectives, String))
    ensures
        (text_view(r.0.reply_to), r.1@) == header(content@, None),
{
    let mut reply_to: Option<String> = None;
    let mut rest: &str = content;
    while rest.unicode_len() > 0
        invariant
            header(content@, None) == header(rest@, text_view(reply_to)),
        decreases rest@.len(),
    {
        let (line, next) = cut_line(rest);
        match read_directive(line) {
            None => {
                return (OutputDirectives { reply_to }, rest.to_owned());
            },
            Some((key, value, tail)) => {
                if same(key.as_str(), "reply_to") && valid_message_id(value.as_str()) {
                    reply_to = Some(value);
                }
                if tail.as_str().unicode_len() > 0 {
                    let mut out = tail;
                    if next.unicode_len() > 0 {
                        out.append("\n");
                        out.append(next);
                    }
                    return (OutputDirectives { reply_to }, out);
                }
                rest = next;
            },
        }
    }
    (OutputDirectives { reply_to }, rest.to_owned())
}

/// What is asked to be replied to is always a message's name.
pub proof fn reply_target_is_message_id(s: Seq<char>, reply_to: Option<Seq<char>>)
    requires
        reply_to matches Some(x) ==> is_message_id(x),
    ensures
        header(s, reply_to).0 matches Some(x) ==> is_message_id(x),
    decreases s.len(),
{
    if s.len() > 0 {
        if let Some((key, value, tail)) = directive_of(head_line(s)) {
            let reply = if key == "reply_to"@ && is_message_id(value) {
                Some(value)
            } else {
                reply_to
            };
            if tail.len() == 0 && after_line(s).len() < s.len() {
                reply_target_is_message_id(after_line(s), reply);
            }
        }
    }
}

/// Output whose first line is no directive is left as it is, and asks for nothing.
pub proof fn plain_output_is_kept(s: Seq<char>)
    requires
        directive_of(head_line(s)) is None,
    ensures
        header(s, None) == (None::<Seq<char>>, s),
{
}

// ---------------------------------------------------------------------------
// Prompts
// ---------------------------------------------------------------------------

/// Whether a block is text.
pub open spec fn is_text(block: ContentBlock) -> bool {
    block is Text
}

/// The text of a block, or nothing.
pub open spec fn block_text(block: ContentBlock) -> Seq<char> {
    match block {
        ContentBlock::Text { text } => text@,
        _ => Seq::empty(),
    }
}

/// Whether blocks are one arrival: the sender first, then what came as text, the
/// prompt unless it is empty, and all else.
pub open spec fn is_arrival(
    sender_json: Seq<char>,
    prompt: Seq<char>,
    extra: Seq<ContentBlock>,
    blocks: Seq<ContentBlock>,
) -> bool {
    let texts = extra.filter(|b: ContentBlock| is_text(b));
    let others = extra.filter(|b: ContentBlock| !is_text(b));
    let n = texts.len() as int;
    &&& blocks.len() == 1 + n + (if prompt.len() > 0 {
        1int
    } else {
        0
    }) + others.len()
    &&& is_text(blocks[0]) && block_text(blocks[0]) == "<sender_context>\n"@ + sender_json
        + "\n</sender_context>"@
    &&& blocks.subrange(1, 1 + n) == texts
    &&& prompt.len() > 0 ==> is_text(blocks[1 + n]) && block_text(blocks[1 + n]) == prompt
    &&& blocks.skip(blocks.len() - others.len()) == others
}

/// The blocks of one message: who sent it, what came with it as text, the
/// prompt, and what else came with it.
pub fn pack_arrival_event(sender_json: &str, prompt: &str, extra_blocks: Vec<ContentBlock>) -> (r:
    Vec<ContentBlock>)
    ensures
        is_arrival(sender_json@, prompt@, extra_blocks@, r@),
{
    let ghost extra = extra_blocks@;
    let ghost yes = |b: ContentBlock| is_text(b);
    let ghost no = |b: ContentBlock| !is_text(b);
    let mut head = "<sender_context>\n".to_owned();
    head.append(sender_json);
    head.append("\n</sender_context>");
    let mut texts: Vec<ContentBlock> = Vec::new();
    let mut others: Vec<ContentBlock> = Vec::new();
    proof {
        reveal(Seq::filter);
    }
    for block in it: extra_blocks
        invariant
            it.seq() == extra,
            yes == (|b: ContentBlock| is_text(b)),
            no == (|b: ContentBlock| !is_text(b)),
            texts@ == extra.take(it.index()).filter(yes),
            others@ == extra.take(it.index()).filter(no),
    {
        proof {
            reveal(Seq::filter);
            assert(extra.take(it.index() + 1).drop_last() =~= extra.take(it.index()));
            assert(extra.take(it.index() + 1).last() == block);
        }
        let text = match &block {
            ContentBlock::Text { .. } => true,
            _ => false,
        };
        if text {
            texts.push(block);
        } else {
            others.push(block);
        }
    }
    assert(extra.take(extra.len() as int) =~= extra);
    let ghost all_texts = texts@;
    let ghost all_others = others@;
    let mut blocks: Vec<ContentBlock> = Vec::new();
    blocks.push(ContentBlock::Text { text: head });
    blocks.append(&mut texts);
    assert(blocks@.subrange(1, 1 + all_texts.len() as int) =~= all_texts);
    if prompt.unicode_len() > 0 {
        blocks.push(ContentBlock::Text { text: prompt.to_owned() });
    }
    let ghost front = blocks@;
    blocks.append(&mut others);
    assert(blocks@.subrange(1, 1 + all_texts.len() as int) =~= all_texts);
    assert(blocks@.skip(blocks@.len() - all_others.len()) =~= all_others);
    blocks
}

// ---------------------------------------------------------------------------
// Tools
// ---------------------------------------------------------------------------

#[derive(Debug, Clone, Copy, PartialEq, Eq, Structural)]
pub enum ToolState {
    Running,
    Completed,
    Failed,
}

/// A tool that the agent has called in this turn.
#[derive(Debug)]
pub struct ToolEntry {
    pub id: String,
    pub title: String,
    pub state: ToolState,
}

/// A tool call: its name, its title and its state.
pub struct ToolView {
    pub id: Seq<char>,
    pub title: Seq<char>,
    pub state: ToolState,
}

impl View for ToolEntry {
    type V = ToolView;

    open spec fn view(&self) -> ToolView {
        ToolView { id: self.id@, title: self.title@, state: self.state }
    }
}

/// The tool calls of a row of entries.
pub open spec fn tool_views(tools: Seq<ToolEntry>) -> Seq<ToolView> {
    tools.map_values(|e: ToolEntry| e@)
}

impl ToolView {
    pub open spec fn shown(self) -> Seq<char> {
        match self.state {
            ToolState::Running => "🔧"@ + " `"@ + self.title + "`"@ + "..."@,
            ToolState::Completed => "✅"@ + " `"@ + self.title + "`"@,
            ToolState::Failed => "❌"@ + " `"@ + self.title + "`"@,
        }
    }
}

impl ToolEntry {
    /// The tool's line: its state, and its title.
    pub fn render(&self) -> (r: String)
        ensures
            r@ == self@.shown(),
    {
        let mut out = match self.state {
            ToolState::Running => "🔧".to_owned(),
            ToolState::Completed => "✅".to_owned(),
            ToolState::Failed => "❌".to_owned(),
        };
        out.append(" `");
        out.append(self.title.as_str());
        out.append("`");
        if self.state == ToolState::Running {
            out.append("...");
        }
        out
    }
}

/// A title in one line that can stand between backquotes.
pub open spec fn flat_title(title: Seq<char>) -> Seq<char> {
    replaced(
        replaced(replaced(title, "\r"@, ""@), "\n"@, " ; "@),
        "`"@,
        "'"@,
    )
}

pub fn sanitize_title(title: &str) -> (r: String)
    ensures
        r@ == flat_title(title@),
{
    proof {
        reveal_strlit("\r");
        reveal_strlit("\n");
        reveal_strlit("`");
    }
    let a = replace(title, "\r", "");
    let b = replace(a.as_str(), "\n", " ; ");
    replace(b.as_str(), "`", "'")
}

/// How many finished, and how many running, tools are shown one by one while a
/// reply streams.
pub const TOOL_COLLAPSE_THRESHOLD: usize = 3;

/// The tools in a state.
pub open spec fn in_state(tools: Seq<ToolView>, state: ToolState) -> Seq<ToolView> {
    tools.filter(|e: ToolView| e.state == state)
}

/// The tools that have ended.
pub open spec fn ended(tools: Seq<ToolView>) -> Seq<ToolView> {
    tools.filter(|e: ToolView| e.state != ToolState::Running)
}

/// One line for each tool.
pub open spec fn tool_lines(tools: Seq<ToolView>) -> Seq<char>
    decreases tools.len(),
{
    if tools.len() == 0 {
        Seq::empty()
    } else {
        tool_lines(tools.drop_last()) + tools.last().shown() + "\n"@
    }
}

/// A count behind its sign, where there is anything to count.
pub open spec fn counted(sign: Seq<char>, n: nat) -> Seq<Seq<char>> {
    if n > 0 {
        seq![sign + decimal(n)]
    } else {
        Seq::empty()
    }
}

/// The counts of tools that went well and that went wrong.
pub open spec fn ended_counts(tools: Seq<ToolView>) -> Seq<Seq<char>> {
    counted("✅ "@, in_state(tools, ToolState::Completed).len()) + counted(
        "❌ "@,
        in_state(tools, ToolState::Failed).len(),
    )
}

/// The tools as a count.
pub open spec fn compact_block(tools: Seq<ToolView>) -> Seq<char> {
    let parts = ended_counts(tools) + counted(
        "🔧 "@,
        in_state(tools, ToolState::Running).len(),
    );
    if parts.len() > 0 {
        joined(parts, " · "@) + " tool(s)\n"@
    } else {
        Seq::empty()
    }
}

/// The tools while the reply streams: few one by one, many as a count; of the
/// running ones the last few.
pub open spec fn streaming_block(tools: Seq<ToolView>) -> Seq<char> {
    let running = in_state(tools, ToolState::Running);
    (if ended(tools).len() <= TOOL_COLLAPSE_THRESHOLD {
        tool_lines(ended(tools))
    } else {
        joined(ended_counts(tools), " · "@) + " tool(s) completed\n"@
    }) + (if running.len() <= TOOL_COLLAPSE_THRESHOLD {
        tool_lines(running)
    } else {
        "🔧 "@ + decimal((running.len() - TOOL_COLLAPSE_THRESHOLD) as nat) + " more running\n"@
            + tool_lines(running.skip(running.len() - TOOL_COLLAPSE_THRESHOLD))
    })
}

/// The tools above a reply.
pub open spec fn tool_block(tools: Seq<ToolView>, streaming: bool, display: ToolDisplay) -> Seq<
    char,
> {
    match display {
        ToolDisplay::Hidden => Seq::empty(),
        ToolDisplay::Compact => compact_block(tools),
        ToolDisplay::Full => if streaming {
            streaming_block(tools)
        } else {
            tool_lines(tools)
        },
    }
}

/// A reply: its tools, an empty line, and its text without white space at the end.
pub open spec fn display(
    tools: Seq<ToolView>,
    text: Seq<char>,
    streaming: bool,
    mode: ToolDisplay,
) -> Seq<char> {
    let block = tool_block(tools, streaming, mode);
    (if block.len() > 0 {
        block + "\n"@
    } else {
        Seq::empty()
    }) + without_back(text, white())
}

/// The compact display tells nothing of the tools but how many are in which state.
pub proof fn compact_display_hides_titles(
    a: Seq<ToolView>,
    b: Seq<ToolView>,
    text: Seq<char>,
    streaming: bool,
)
    requires
        in_state(a, ToolState::Completed).len() == in_state(b, ToolState::Completed).len(),
        in_state(a, ToolState::Failed).len() == in_state(b, ToolState::Failed).len(),
        in_state(a, ToolState::Running).len() == in_state(b, ToolState::Running).len(),
    ensures
        display(a, text, streaming, ToolDisplay::Compact) == display(
            b,
            text,
            streaming,
            ToolDisplay::Compact,
        ),
{
}

fn push_count(parts: &mut Vec<String>, sign: &str, n: usize)
    ensures
        views(final(parts)@) == views(old(parts)@) + counted(sign@, n as nat),
{
    if n > 0 {
        let mut part = sign.to_owned();
        append_decimal(&mut part, n as u64);
        proof {
            lemma_views_push(parts@, part);
        }
        parts.push(part);
    }
    assert(views(parts@) =~= views(old(parts)@) + counted(sign@, n as nat));
}

/// Counts the tools that ended well, that ended badly, and that run.
fn count_states(tools: &[ToolEntry]) -> (r: (usize, usize, usize))
    ensures
        r.0 == in_state(tool_views(tools@), ToolState::Completed).len(),
        r.1 == in_state(tool_views(tools@), ToolState::Failed).len(),
        r.2 == in_state(tool_views(tools@), ToolState::Running).len(),
        ended(tool_views(tools@)).len() == r.0 + r.1,
        r.0 + r.1 + r.2 == tools@.len(),
        r.0 + r.1 <= usize::MAX,
{
    let ghost tv = tool_views(tools@);
    let mut done: usize = 0;
    let mut failed: usize = 0;
    let mut running: usize = 0;
    let mut i: usize = 0;
    proof {
        reveal(Seq::filter);
    }
    while i < tools.len()
        invariant
            i <= tools@.len(),
            tv == tool_views(tools@),
            done == in_state(tv.take(i as int), ToolState::Completed).len(),
            failed == in_state(tv.take(i as int), ToolState::Failed).len(),
            running == in_state(tv.take(i as int), ToolState::Running).len(),
            ended(tv.take(i as int)).len() == done + failed,
            done + failed + running == i,
        decreases tools@.len() - i,
    {
        proof {
            reveal(Seq::filter);
            assert(tv.take(i + 1).drop_last() =~= tv.take(i as int));
            assert(tv.take(i + 1).last() == tools@[i as int]@);
        }
        match tools[i].state {
            ToolState::Completed => {
                done += 1;
            },
            ToolState::Failed => {
                failed += 1;
            },
            ToolState::Running => {
                running += 1;
            },
        }
        i += 1;
    }
    assert(tv.take(tv.len() as int) =~= tv);
    assert(tools@.len() == tools.len());
    (done, failed, running)
}

/// Appends the lines of the tools that run, or of those that do not, leaving
/// out the first `skip` of them.
fn push_lines(out: &mut String, tools: &[ToolEntry], running: bool, skip: usize)
    requires
        skip <= (if running {
            in_state(tool_views(tools@), ToolState::Running)
        } else {
            ended(tool_views(tools@))
        }).len(),
    ensures
        final(out)@ == old(out)@ + tool_lines(
            (if running {
                in_state(tool_views(tools@), ToolState::Running)
            } else {
                ended(tool_views(tools@))
            }).skip(skip as int),
        ),
{
    let ghost start = out@;
    let ghost tv = tool_views(tools@);
    let ghost pick = if running {
        |e: ToolView| e.state == ToolState::Running
    } else {
        |e: ToolView| e.state != ToolState::Running
    };
    let mut seen: usize = 0;
    let mut i: usize = 0;
    proof {
        reveal(Seq::filter);
    }
    assert(tv.take(0).filter(pick) =~= Seq::empty());
    assert(out@ =~= start + tool_lines(Seq::<ToolView>::empty()));
    while i < tools.len()
        invariant
            i <= tools@.len(),
            tv == tool_views(tools@),
            seen <= i,
            seen == tv.take(i as int).filter(pick).len(),
            forall|e: ToolView| #[trigger] pick(e) == ((e.state == ToolState::Running) == running),
            out@ == start + tool_lines(
                if seen <= skip {
                    Seq::<ToolView>::empty()
                } else {
                    tv.take(i as int).filter(pick).skip(skip as int)
                },
            ),
        decreases tools@.len() - i,
    {
        proof {
            reveal(Seq::filter);
            assert(tv.take(i + 1).drop_last() =~= tv.take(i as int));
            assert(tv.take(i + 1).last() == tv[i as int]);
        }
        let ghost sofar = tv.take(i as int).filter(pick);
        if (tools[i].state == ToolState::Running) == running {
            assert(pick(tv[i as int]));
            if seen >= skip {
                let line = tools[i].render();
                proof {
                    let longer = sofar.push(tv[i as int]);
                    assert(longer.skip(skip as int).drop_last() =~= sofar.skip(skip as int));
                    assert(longer.skip(skip as int).last() == tv[i as int]);
                    if seen == skip {
                        assert(sofar.skip(skip as int) =~= Seq::<ToolView>::empty());
                    }
                    assert(start + (tool_lines(sofar.skip(skip as int)) + line@ + "\n"@) =~= start
                        + tool_lines(sofar.skip(skip as int)) + line@ + "\n"@);
                }
                out.append(line.as_str());
                out.append("\n");
            }
            seen += 1;
        }
        i += 1;
    }
    proof {
        assert(tv.take(tv.len() as int) =~= tv);
        let whole = tv.filter(pick);
        let named = if running {
            in_state(tool_views(tools@), ToolState::Running)
        } else {
            ended(tool_views(tools@))
        };
        assert(whole == named);
        if seen == skip {
            assert(whole.skip(skip as int) =~= Seq::<ToolView>::empty());
        }
    }
}

/// Appends one line for each tool.
fn push_all_lines(out: &mut String, tools: &[ToolEntry])
    ensures
        final(out)@ == old(out)@ + tool_lines(tool_views(tools@)),
{
    let ghost start = out@;
    let ghost tv = tool_views(tools@);
    let mut i: usize = 0;
    assert(out@ =~= start + tool_lines(tv.take(0)));
    while i < tools.len()
        invariant
            i <= tools@.len(),
            tv == tool_views(tools@),
            out@ == start + tool_lines(tv.take(i as int)),
        decreases tools@.len() - i,
    {
        let line = tools[i].render();
        assert(tv.take(i + 1).drop_last() =~= tv.take(i as int));
        assert(tv.take(i + 1).last() == tools@[i as int]@);
        assert(start + (tool_lines(tv.take(i as int)) + line@ + "\n"@) =~= start + tool_lines(
            tv.take(i as int),
        ) + line@ + "\n"@);
        out.append(line.as_str());
        out.append("\n");
        i += 1;
    }
    assert(tv.take(tv.len() as int) =~= tv);
}

/// Composes a reply from its tools and its text.
pub fn compose_display(
    tool_lines: &[ToolEntry],
    text: &str,
    streaming: bool,
    tool_display: ToolDisplay,
) -> (r: String)
    ensures
        r@ == display(tool_views(tool_lines@), text@, streaming, tool_display),
{
    let mut out = String::new();
    match tool_display {
        ToolDisplay::Hidden => {},
        ToolDisplay::Compact => {
            let (done, failed, running) = count_states(tool_lines);
            let mut parts: Vec<String> = Vec::new();
            assert(views(parts@) =~= Seq::empty());
            push_count(&mut parts, "✅ ", done);
            assert(views(parts@) =~= counted("✅ "@, done as nat));
            push_count(&mut parts, "❌ ", failed);
            push_count(&mut parts, "🔧 ", running);
            assert(views(parts@).len() == parts@.len());
            if parts.len() > 0 {
                out.append(join(&parts, " · ").as_str());
                out.append(" tool(s)\n");
                assert(out@ =~= compact_block(tool_views(tool_lines@)));
            }
        },
        ToolDisplay::Full => {
            if streaming {
                let (done, failed, running) = count_states(tool_lines);
                if done + failed <= TOOL_COLLAPSE_THRESHOLD {
                    push_lines(&mut out, tool_lines, false, 0);
                    assert(ended(tool_views(tool_lines@)).skip(0) =~= ended(tool_views(tool_lines@)));
                    assert(out@ =~= self::tool_lines(ended(tool_views(tool_lines@))));
                } else {
                    let mut parts: Vec<String> = Vec::new();
                    assert(views(parts@) =~= Seq::empty());
                    push_count(&mut parts, "✅ ", done);
                    assert(views(parts@) =~= counted("✅ "@, done as nat));
                    push_count(&mut parts, "❌ ", failed);
                    out.append(join(&parts, " · ").as_str());
                    out.append(" tool(s) completed\n");
                    assert(out@ =~= joined(ended_counts(tool_views(tool_lines@)), " · "@)
                        + " tool(s) completed\n"@);
                }
                let ghost above = out@;
                let ghost all = in_state(tool_views(tool_lines@), ToolState::Running);
                if running <= TOOL_COLLAPSE_THRESHOLD {
                    push_lines(&mut out, tool_lines, true, 0);
                    assert(all.skip(0) =~= all);
                } else {
                    let hidden = running - TOOL_COLLAPSE_THRESHOLD;
                    out.append("🔧 ");
                    append_decimal(&mut out, hidden as u64);
                    out.append(" more running\n");
                    push_lines(&mut out, tool_lines, true, hidden);
                    assert(out@ =~= above + ("🔧 "@ + decimal(hidden as nat) + " more running\n"@
                        + self::tool_lines(all.skip(hidden as int))));
                }
            } else {
                push_all_lines(&mut out, tool_lines);
                assert(out@ =~= self::tool_lines(tool_views(tool_lines@)));
            }
        },
    }
    assert(out@ =~= tool_block(tool_views(tool_lines@), streaming, tool_display));
    if out.as_str().unicode_len() > 0 {
        out.append("\n");
    }
    out.append(trim_end(text));
    out
}

// ---------------------------------------------------------------------------
// Progress
// ---------------------------------------------------------------------------

/// What the agent is at.
#[derive(Debug)]
pub enum ProgressPhase {
    Thinking,
    Tool(String),
}

/// How far a turn has come: what the agent is at, for how many seconds it has
/// run, and for how many nothing has been heard.
#[derive(Debug)]
pub struct ProgressState {
    pub phase: ProgressPhase,
    pub elapsed_secs: u64,
    pub idle_secs: u64,
}

/// A title of at most 60 characters; a longer one is cut.
pub open spec fn short_title(title: Seq<char>) -> Seq<char> {
    if title.len() > 60 {
        title.take(57) + "..."@
    } else {
        title
    }
}

/// The line that stands in for a reply that has not begun.
pub open spec fn progress_line(phase: ProgressPhase, elapsed: nat, idle: nat) -> Seq<char> {
    if idle >= 45 {
        "⚠️ Still working... "@ + decimal(elapsed) + "s"@
    } else if idle >= 15 {
        "⏳ Waiting for agent output... "@ + decimal(elapsed) + "s"@
    } else {
        match phase {
            ProgressPhase::Thinking => "⏳ Thinking... "@ + decimal(elapsed) + "s"@,
            ProgressPhase::Tool(title) => "🔧 Running `"@ + short_title(title@) + "`... "@ + decimal(
                elapsed,
            ) + "s"@,
        }
    }
}

pub fn progress_status_line(state: &ProgressState) -> (r: String)
    ensures
        r@ == progress_line(state.phase, state.elapsed_secs as nat, state.idle_secs as nat),
{
    let mut out = if state.idle_secs >= 45 {
        "⚠️ Still working... ".to_owned()
    } else if state.idle_secs >= 15 {
        "⏳ Waiting for agent output... ".to_owned()
    } else {
        match &state.phase {
            ProgressPhase::Thinking => "⏳ Thinking... ".to_owned(),
            ProgressPhase::Tool(title) => {
                let mut line = "🔧 Running `".to_owned();
                if title.as_str().unicode_len() > 60 {
                    let cut = title.as_str().substring_char(0, 57);
                    assert(cut@ =~= title@.take(57));
                    line.append(cut);
                    line.append("...");
                    assert(line@ =~= "🔧 Running `"@ + short_title(title@));
                } else {
                    line.append(title.as_str());
                }
                line.append("`... ");
                line
            },
        }
    };
    append_decimal(&mut out, state.elapsed_secs);
    out.append("s");
    out
}

} // verus!
