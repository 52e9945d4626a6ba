//! The gateway, which stands for platforms that are reached over one connection:
//! which of its events are taken up, what becomes of what came with them, the
//! commands in their text, and the replies.

use vstd::prelude::*;
use crate::adapter::{copy_text, ChannelRef, ChatAdapter, ContentBlock, MessageRef, SenderContext};
use crate::commands::ConfigOption;
use crate::config::{setting_view, text_view, SttConfig};
use crate::handoff::{is_uuid, random_token};
use crate::text::{
    append_decimal, begins, decimal, is_one_of, join, joined, lower_case, once, parse_usize, same,
    split_once, strip_prefix, trim, trimmed, unsigned, views,
};
use crate::validate::{contains_char, has_char};

verus! {

/// How long a reply from the gateway is waited for, in seconds.
pub const GATEWAY_REPLY_TIMEOUT_SECS: u64 = 5;

/// The longest pause before the gateway is tried again, in seconds.
pub const MAX_BACKOFF: u64 = 30;

/// What the gateway's adapter goes by.
pub struct GatewayParams {
    pub url: String,
    pub platform: String,
    pub token: Option<String>,
    pub bot_username: Option<String>,
    pub allow_all_channels: bool,
    pub allowed_channels: Vec<String>,
    pub allow_all_users: bool,
    pub allowed_users: Vec<String>,
    pub streaming: bool,
    pub stt: SttConfig,
}

#[derive(Debug)]
pub struct GwChannel {
    pub id: String,
    pub channel_type: String,
    pub thread_id: Option<String>,
}

#[derive(Debug)]
pub struct GwSender {
    pub id: String,
    pub name: String,
    pub display_name: String,
    pub is_bot: bool,
}

/// What came with a message: a file at a path, or its bytes in base 64.
#[derive(Debug)]
pub struct GwAttachment {
    pub attachment_type: String,
    pub filename: String,
    pub mime_type: String,
    pub data: String,
    pub size: u64,
    pub path: Option<String>,
}

#[derive(Debug)]
pub struct GwContent {
    pub content_type: String,
    pub text: String,
    pub attachments: Vec<GwAttachment>,
}

/// A message that came over the gateway.
#[derive(Debug)]
pub struct GatewayEvent {
    pub schema: String,
    pub event_id: String,
    pub timestamp: String,
    pub platform: String,
    pub channel: GwChannel,
    pub sender: GwSender,
    pub content: GwContent,
    pub mentions: Vec<String>,
    pub message_id: String,
}

/// What the gateway answers to a request.
#[derive(Debug)]
pub struct GatewayResponse {
    pub schema: String,
    pub request_id: String,
    pub success: bool,
    pub thread_id: Option<String>,
    pub message_id: Option<String>,
    pub error: Option<String>,
}

// ---------------------------------------------------------------------------
// The connection
// ---------------------------------------------------------------------------

/// The address to connect to: with the token, if there is one, as a parameter.
pub open spec fn address(url: Seq<char>, token: Option<Seq<char>>) -> Seq<char> {
    match token {
        Some(t) => url + (if has_char(url, '?') {
            "&"@
        } else {
            "?"@
        }) + "token="@ + t,
        None => url,
    }
}

pub fn connect_url(url: &str, token: &Option<String>) -> (r: String)
    ensures
        r@ == address(url@, text_view(*token)),
{
    let mut out = url.to_owned();
    if let Some(t) = token {
        if contains_char(url, '?') {
            out.append("&");
        } else {
            out.append("?");
        }
        out.append("token=");
        out.append(t.as_str());
    }
    out
}

/// The pause after a pause: twice as long, up to the longest.
pub open spec fn doubled(backoff: nat) -> nat {
    if 2 * backoff < MAX_BACKOFF {
        2 * backoff
    } else {
        MAX_BACKOFF as nat
    }
}

pub fn next_backoff(backoff_secs: u64) -> (r: u64)
    ensures
        r == doubled(backoff_secs as nat),
{
    if backoff_secs < MAX_BACKOFF / 2 {
        backoff_secs * 2
    } else {
        MAX_BACKOFF
    }
}

/// The pause after so many failures in a row; the first is of one second.
pub open spec fn pause_after(failures: nat) -> nat
    decreases failures,
{
    if failures == 0 {
        1
    } else {
        doubled(pause_after((failures - 1) as nat))
    }
}

/// Pauses never shrink while failures go on, and never grow past the longest.
pub proof fn pauses_are_bounded(failures: nat)
    ensures
        1 <= pause_after(failures) <= MAX_BACKOFF,
        pause_after(failures) <= pause_after(failures + 1),
    decreases failures,
{
    if failures > 0 {
        pauses_are_bounded((failures - 1) as nat);
    }
}

// ---------------------------------------------------------------------------
// Which events are taken up
// ---------------------------------------------------------------------------

/// Whether a channel is one of many people.
pub open spec fn is_group(channel_type: Seq<char>) -> bool {
    channel_type == "group"@ || channel_type == "supergroup"@
}

/// Whether an event is taken up: it is of a person, in an allowed channel and of
/// an allowed user, and in a group, outside threads, it mentions the bot, if the
/// bot's name is known.
pub open spec fn takes_up(p: GatewayParams, e: GatewayEvent) -> bool {
    &&& !e.sender.is_bot
    &&& p.allow_all_channels || views(p.allowed_channels@).contains(e.channel.id@)
    &&& p.allow_all_users || views(p.allowed_users@).contains(e.sender.id@)
    &&& is_group(e.channel.channel_type@) && e.channel.thread_id is None && p.bot_username is Some
        ==> views(e.mentions@).contains(p.bot_username->0@)
}

pub fn accepts_event(p: &GatewayParams, e: &GatewayEvent) -> (r: bool)
    ensures
        r == takes_up(*p, *e),
{
    if e.sender.is_bot {
        return false;
    }
    if !p.allow_all_channels && !is_one_of(e.channel.id.as_str(), &p.allowed_channels) {
        return false;
    }
    if !p.allow_all_users && !is_one_of(e.sender.id.as_str(), &p.allowed_users) {
        return false;
    }
    let kind = e.channel.channel_type.as_str();
    if (same(kind, "group") || same(kind, "supergroup")) && e.channel.thread_id.is_none() {
        if let Some(name) = &p.bot_username {
            if !is_one_of(name.as_str(), &e.mentions) {
                return false;
            }
        }
    }
    true
}

/// Nothing of a bot is taken up, and nothing of those who are not allowed.
pub proof fn strangers_are_ignored(p: GatewayParams, e: GatewayEvent)
    ensures
        e.sender.is_bot ==> !takes_up(p, e),
        !p.allow_all_users && !views(p.allowed_users@).contains(e.sender.id@) ==> !takes_up(p, e),
        !p.allow_all_channels && !views(p.allowed_channels@).contains(e.channel.id@) ==> !takes_up(
            p,
            e,
        ),
{
}

/// In a thread, and outside groups, no mention is needed.
pub proof fn threads_need_no_mention(p: GatewayParams, e: GatewayEvent)
    requires
        !e.sender.is_bot,
        p.allow_all_channels,
        p.allow_all_users,
        e.channel.thread_id is Some || !is_group(e.channel.channel_type@),
    ensures
        takes_up(p, e),
{
}

/// Whether a channel is the one that an event came from.
pub open spec fn is_channel_of(e: GatewayEvent, c: ChannelRef) -> bool {
    &&& c.platform@ == e.platform@
    &&& c.channel_id@ == e.channel.id@
    &&& text_view(c.thread_id) == text_view(e.channel.thread_id)
    &&& c.parent_id is None
    &&& text_view(c.origin_event_id) == Some(e.event_id@)
}

/// The channel of an event, which replies go to.
pub fn event_channel(e: &GatewayEvent) -> (r: ChannelRef)
    ensures
        is_channel_of(*e, r),
{
    ChannelRef {
        platform: e.platform.clone(),
        channel_id: e.channel.id.clone(),
        thread_id: copy_text(&e.channel.thread_id),
        parent_id: None,
        origin_event_id: Some(e.event_id.clone()),
    }
}

/// Whether the agent is told of an event's sender in this way.
pub open spec fn is_sender_of(e: GatewayEvent, received_at: Seq<char>, s: SenderContext) -> bool {
    &&& s.schema@ == "openab.sender.v1"@
    &&& s.sender_id@ == e.sender.id@
    &&& s.sender_name@ == e.sender.name@
    &&& s.display_name@ == e.sender.display_name@
    &&& s.channel@ == e.channel.channel_type@
    &&& s.channel_id@ == e.channel.id@
    &&& text_view(s.thread_id) == text_view(e.channel.thread_id)
    &&& s.is_bot == e.sender.is_bot
    &&& text_view(s.timestamp) == Some(
        if e.timestamp@.len() == 0 {
            received_at
        } else {
            e.timestamp@
        },
    )
    &&& text_view(s.message_id) == (if e.message_id@.len() == 0 {
        None
    } else {
        Some(e.message_id@)
    })
}

/// Who sent an event. The time it came in stands in for its own, if that is missing.
pub fn event_sender(e: &GatewayEvent, received_at: &str) -> (r: SenderContext)
    ensures
        is_sender_of(*e, received_at@, r),
        r.receiver_id is None,
        r.handoff_token is None,
        r.referenced_message_id is None,
        r.referenced_channel_id is None,
        r.referenced_author_id is None,
        r.referenced_author_name is None,
{
    let timestamp = if e.timestamp.as_str().unicode_len() == 0 {
        received_at.to_owned()
    } else {
        e.timestamp.clone()
    };
    let message_id = if e.message_id.as_str().unicode_len() == 0 {
        None
    } else {
        Some(e.message_id.clone())
    };
    SenderContext {
        schema: "openab.sender.v1".to_owned(),
        sender_id: e.sender.id.clone(),
        sender_name: e.sender.name.clone(),
        display_name: e.sender.display_name.clone(),
        channel: e.channel.channel_type.clone(),
        channel_id: e.channel.id.clone(),
        thread_id: copy_text(&e.channel.thread_id),
        is_bot: e.sender.is_bot,
        timestamp: Some(timestamp),
        message_id,
        receiver_id: None,
        handoff_token: None,
        referenced_message_id: None,
        referenced_channel_id: None,
        referenced_author_id: None,
        referenced_author_name: None,
    }
}

/// The name of the session that an event belongs to.
pub open spec fn session_of(e: GatewayEvent) -> Seq<char> {
    e.platform@ + ":"@ + (match e.channel.thread_id {
        Some(t) => t@,
        None => e.channel.id@,
    })
}

/// The session that an event belongs to.
pub fn event_session_key(e: &GatewayEvent) -> (r: String)
    ensures
        r@ == session_of(*e),
{
    let mut out = e.platform.clone();
    out.append(":");
    match &e.channel.thread_id {
        Some(t) => {
            out.append(t.as_str());
        },
        None => {
            out.append(e.channel.id.as_str());
        },
    }
    out
}

/// Whether an event gets a topic of its own: in a supergroup, outside topics.
pub fn needs_topic(e: &GatewayEvent) -> (r: bool)
    ensures
        r == (e.channel.channel_type@ == "supergroup"@ && e.channel.thread_id is None),
{
    same(e.channel.channel_type.as_str(), "supergroup") && e.channel.thread_id.is_none()
}

// ---------------------------------------------------------------------------
// What came with an event
// ---------------------------------------------------------------------------

/// The bytes that a text stands for in base 64, or what is wrong with it.
pub uninterp spec fn base64_read(text: Seq<char>) -> Result<Seq<u8>, Seq<char>>;

/// Whether a text stands for bytes in base 64.
pub open spec fn stands_for(text: Seq<char>, bytes: Seq<u8>) -> bool {
    base64_read(text) == Ok::<Seq<u8>, Seq<char>>(bytes)
}

/// `base64::engine::general_purpose::STANDARD.decode`: it depends on the text
/// alone.
#[verifier::external_body]
fn decode_base64(text: &str) -> (r: Result<Vec<u8>, String>)
    ensures
        match r {
            Ok(bytes) => stands_for(text@, bytes@),
            Err(e) => base64_read(text@) == Err::<Seq<u8>, Seq<char>>(e@),
        },
{
    base64::Engine::decode(&base64::engine::general_purpose::STANDARD, text).map_err(|e| e.to_string())
}

/// The text of bytes in base 64.
pub uninterp spec fn base64_text(bytes: Seq<u8>) -> Seq<char>;

/// `base64::engine::general_purpose::STANDARD.encode`: it depends on the bytes
/// alone, and decoding its text gives them back.
#[verifier::external_body]
fn encode_base64(bytes: &Vec<u8>) -> (r: String)
    ensures
        r@ == base64_text(bytes@),
        stands_for(r@, bytes@),
{
    base64::Engine::encode(&base64::engine::general_purpose::STANDARD, bytes)
}

/// The text of bytes that are read as UTF-8, whatever they are.
pub uninterp spec fn lossy_text(bytes: Seq<u8>) -> Seq<char>;

/// `String::from_utf8_lossy`: it depends on the bytes alone. Bytes that are the
/// UTF-8 of a text give that text.
#[verifier::external_body]
fn from_utf8_lossy(bytes: &Vec<u8>) -> (r: String)
    ensures
        r@ == lossy_text(bytes@),
        bytes@ == vstd::utf8::encode_utf8(r@) || !vstd::utf8::valid_utf8(bytes@),
{
    String::from_utf8_lossy(bytes).into_owned()
}

/// Where the bytes of a file are.
#[derive(Debug)]
pub enum BytesSource<'a> {
    /// In a file of this machine.
    File(&'a str),
    /// Known, or known to be unreadable.
    Known(Result<Vec<u8>, String>),
}

/// The bytes that a file brought along, if it is not at a path.
pub open spec fn own_bytes(a: GwAttachment) -> Result<Seq<u8>, Seq<char>> {
    if a.data@.len() == 0 {
        Err("no path or data"@)
    } else {
        base64_read(a.data@)
    }
}

/// Bytes, or why there are none.
pub open spec fn bytes_view(b: Result<Vec<u8>, String>) -> Result<Seq<u8>, Seq<char>> {
    match b {
        Ok(bytes) => Ok(bytes@),
        Err(e) => Err(e@),
    }
}

/// Whether the bytes of an attachment come from here: from its file, or else from
/// what it brings with it.
pub open spec fn is_source_of(a: GwAttachment, source: BytesSource<'_>) -> bool {
    match source {
        BytesSource::File(path) => text_view(a.path) == Some(path@),
        BytesSource::Known(b) => a.path is None && bytes_view(b) == own_bytes(a),
    }
}

/// Tells where the bytes of a file are: at its path, if it has one, and else in
/// base 64 in the event.
pub fn locate_bytes<'a>(a: &'a GwAttachment) -> (r: BytesSource<'a>)
    ensures
        is_source_of(*a, r),
{
    match &a.path {
        Some(path) => BytesSource::File(path.as_str()),
        None => {
            if a.data.as_str().unicode_len() == 0 {
                BytesSource::Known(Err("no path or data".to_owned()))
            } else {
                BytesSource::Known(decode_base64(a.data.as_str()))
            }
        },
    }
}

/// What becomes of a file.
#[derive(Debug)]
pub enum AttachmentStep {
    /// It goes to the agent.
    Block(ContentBlock),
    /// It is turned into text first.
    Transcribe(Vec<u8>),
    /// It is put where the agent can fetch it.
    Offload(Vec<u8>),
    /// Nothing.
    Skip,
}

/// What becomes of a file.
pub enum StepView {
    Image { media_type: Seq<char>, data: Seq<char> },
    Text(Seq<char>),
    Transcribe(Seq<u8>),
    Offload(Seq<u8>),
    Skip,
}

impl View for AttachmentStep {
    type V = StepView;

    open spec fn view(&self) -> StepView {
        match *self {
            AttachmentStep::Block(ContentBlock::Image { media_type, data }) => StepView::Image {
                media_type: media_type@,
                data: data@,
            },
            AttachmentStep::Block(ContentBlock::Text { text }) => StepView::Text(text@),
            AttachmentStep::Transcribe(bytes) => StepView::Transcribe(bytes@),
            AttachmentStep::Offload(bytes) => StepView::Offload(bytes@),
            AttachmentStep::Skip => StepView::Skip,
        }
    }
}

/// What becomes of a file, by its type: an image and a text go to the agent, a
/// recording is turned into text where that is set up, and anything else is put
/// where the agent can fetch it. What cannot be read is skipped, but of a recording
/// the agent is told.
pub open spec fn attachment_step(
    a: GwAttachment,
    bytes: Result<Seq<u8>, Seq<char>>,
    stt_enabled: bool,
) -> StepView {
    let kind = a.attachment_type@;
    match bytes {
        Ok(b) => if kind == "image"@ {
            StepView::Image { media_type: a.mime_type@, data: base64_text(b) }
        } else if kind == "text_file"@ {
            StepView::Text("```"@ + a.filename@ + "\n"@ + lossy_text(b) + "\n```"@)
        } else if kind == "audio"@ && stt_enabled {
            StepView::Transcribe(b)
        } else {
            StepView::Offload(b)
        },
        Err(_) => if kind == "audio"@ && stt_enabled {
            StepView::Text("[Voice message — read failed for "@ + a.filename@ + "]"@)
        } else {
            StepView::Skip
        },
    }
}

/// Decides what becomes of a file, whose bytes were read.
pub fn on_bytes(a: &GwAttachment, bytes: Result<Vec<u8>, String>, stt_enabled: bool) -> (r:
    AttachmentStep)
    ensures
        r@ == attachment_step(*a, bytes_view(bytes), stt_enabled),
{
    proof {
        reveal_strlit("image");
        reveal_strlit("text_file");
        reveal_strlit("audio");
        assert("image"@[0] != "audio"@[0]);
        assert("image"@.len() != "text_file"@.len());
        assert("audio"@.len() != "text_file"@.len());
    }
    let kind = a.attachment_type.as_str();
    match bytes {
        Ok(b) => {
            if same(kind, "image") {
                AttachmentStep::Block(
                    ContentBlock::Image { media_type: a.mime_type.clone(), data: encode_base64(&b) },
                )
            } else if same(kind, "text_file") {
                let mut text = "```".to_owned();
                text.append(a.filename.as_str());
                text.append("\n");
                text.append(from_utf8_lossy(&b).as_str());
                text.append("\n```");
                AttachmentStep::Block(ContentBlock::Text { text })
            } else if same(kind, "audio") && stt_enabled {
                AttachmentStep::Transcribe(b)
            } else {
                AttachmentStep::Offload(b)
            }
        },
        Err(_) => {
            if same(kind, "audio") && stt_enabled {
                let mut text = "[Voice message — read failed for ".to_owned();
                text.append(a.filename.as_str());
                text.append("]");
                AttachmentStep::Block(ContentBlock::Text { text })
            } else {
                AttachmentStep::Skip
            }
        },
    }
}

/// What the agent is told of a recording.
pub fn on_transcript(a: &GwAttachment, transcript: Option<String>) -> (r: ContentBlock)
    ensures
        r matches ContentBlock::Text { text } && text@ == (match transcript {
            Some(t) => "[Voice message transcript]: "@ + t@,
            None => "[Voice message — transcription failed for "@ + a.filename@ + "]"@,
        }),
{
    let text = match transcript {
        Some(t) => {
            let mut out = "[Voice message transcript]: ".to_owned();
            out.append(t.as_str());
            out
        },
        None => {
            let mut out = "[Voice message — transcription failed for ".to_owned();
            out.append(a.filename.as_str());
            out.append("]");
            out
        },
    };
    ContentBlock::Text { text }
}

/// An image that can be read reaches the agent with the bytes that it has.
pub proof fn images_are_kept(a: GwAttachment, bytes: Seq<u8>, stt_enabled: bool, text: Seq<char>)
    requires
        a.attachment_type@ == "image"@,
        text == base64_text(bytes),
        stands_for(text, bytes),
    ensures
        attachment_step(a, Ok(bytes), stt_enabled) matches StepView::Image { media_type, data }
            && media_type == a.mime_type@ && stands_for(data, bytes),
{
}

// ---------------------------------------------------------------------------
// Commands in a message
// ---------------------------------------------------------------------------

/// What a message asks the broker itself for.
#[derive(Debug)]
pub enum SlashCommand {
    Reset,
    Cancel,
    /// Something about the agent's options.
    Config(ConfigCommand),
    /// Nothing: it is for the agent.
    Absent,
}

/// A command about the agent's models or about its agents.
#[derive(Debug)]
pub struct ConfigCommand {
    /// Whether it is about agents, not models.
    pub agents: bool,
    pub action: String,
    pub arg: String,
}

/// A command about the agent's options: what it is about, what to do, with what.
pub struct ConfigView {
    pub agents: bool,
    pub action: Seq<char>,
    pub arg: Seq<char>,
}

impl View for ConfigCommand {
    type V = ConfigView;

    open spec fn view(&self) -> ConfigView {
        ConfigView { agents: self.agents, action: self.action@, arg: self.arg@ }
    }
}

/// The action and its argument behind a command.
pub open spec fn action_of(rest: Seq<char>) -> (Seq<char>, Seq<char>) {
    match once(trimmed(rest), ' ') {
        Some((action, arg)) => (action, trimmed(arg)),
        None => (trimmed(rest), Seq::empty()),
    }
}

/// What a text asks for about the agent's options, if it does.
pub open spec fn config_command(text: Seq<char>) -> Option<ConfigView> {
    if text == "/models"@ || text == "/model"@ {
        Some(ConfigView { agents: false, action: "list"@, arg: Seq::empty() })
    } else if text == "/agents"@ || text == "/agent"@ {
        Some(ConfigView { agents: true, action: "list"@, arg: Seq::empty() })
    } else if begins(text, "/model "@) {
        let (action, arg) = action_of(text.skip(7));
        Some(ConfigView { agents: false, action, arg })
    } else if begins(text, "/agent "@) {
        let (action, arg) = action_of(text.skip(7));
        Some(ConfigView { agents: true, action, arg })
    } else {
        None
    }
}

fn read_action(agents: bool, rest: &str) -> (r: ConfigCommand)
    ensures
        r.agents == agents,
        (r.action@, r.arg@) == action_of(rest@),
{
    let rest = trim(rest);
    match split_once(rest, ' ') {
        Some((action, arg)) => ConfigCommand { agents, action, arg: trim(arg.as_str()).to_owned() },
        None => {
            let arg = String::new();
            assert(arg@ =~= Seq::<char>::empty());
            ConfigCommand { agents, action: rest.to_owned(), arg }
        },
    }
}

fn list_command(agents: bool) -> (r: ConfigCommand)
    ensures
        r.agents == agents,
        r.action@ == "list"@,
        r.arg@ == Seq::<char>::empty(),
{
    let arg = String::new();
    assert(arg@ =~= Seq::<char>::empty());
    ConfigCommand { agents, action: "list".to_owned(), arg }
}

/// Reads a command about the agent's options.
pub fn parse_config_command(text: &str) -> (r: Option<ConfigCommand>)
    ensures
        match r {
            Some(c) => config_command(text@) == Some(c@),
            None => config_command(text@) is None,
        },
{
    proof {
        reveal_strlit("/model ");
        reveal_strlit("/agent ");
        reveal_strlit("/model");
        reveal_strlit("/agent");
        reveal_strlit("/models");
        reveal_strlit("/agents");
        assert("/model"@[1] != "/agent"@[1]);
        assert("/models"@[1] != "/agents"@[1]);
        assert("/model"@.len() != "/agents"@.len());
        assert("/models"@.len() != "/agent"@.len());
    }
    if same(text, "/models") || same(text, "/model") {
        return Some(list_command(false));
    }
    if same(text, "/agents") || same(text, "/agent") {
        return Some(list_command(true));
    }
    if let Some(rest) = strip_prefix(text, "/model ") {
        return Some(read_action(false, rest.as_str()));
    }
    if let Some(rest) = strip_prefix(text, "/agent ") {
        return Some(read_action(true, rest.as_str()));
    }
    None
}

/// Whether a command is what a message asks the broker itself for.
pub open spec fn asks(prompt: Seq<char>, command: SlashCommand) -> bool {
    let text = trimmed(prompt);
    match command {
        SlashCommand::Reset => text == "/reset"@,
        SlashCommand::Cancel => text == "/cancel"@,
        SlashCommand::Config(c) => config_command(text) == Some(c@) && text != "/reset"@ && text
            != "/cancel"@,
        SlashCommand::Absent => config_command(text) is None && text != "/reset"@ && text
            != "/cancel"@,
    }
}

/// Reads what a message asks the broker itself for.
pub fn parse_slash_command(prompt: &str) -> (r: SlashCommand)
    ensures
        asks(prompt@, r),
{
    let text = trim(prompt);
    if same(text, "/reset") {
        return SlashCommand::Reset;
    }
    if same(text, "/cancel") {
        return SlashCommand::Cancel;
    }
    match parse_config_command(text) {
        Some(c) => SlashCommand::Config(c),
        None => SlashCommand::Absent,
    }
}

/// What is done about an event.
#[derive(Debug)]
pub enum EventStep {
    Ignore,
    /// Do what it asks the broker itself for, in its session.
    Command { key: String, command: SlashCommand },
    /// Hand it to the agent, in a topic of its own or where it stands.
    Prompt { own_topic: bool },
}

/// Whether a step is what an event comes to.
pub open spec fn is_step_for(p: GatewayParams, e: GatewayEvent, step: EventStep) -> bool {
    match step {
        EventStep::Ignore => !takes_up(p, e),
        EventStep::Command { key, command } => takes_up(p, e) && key@ == session_of(e) && command
            !is Absent && asks(e.content.text@, command),
        EventStep::Prompt { own_topic } => takes_up(p, e) && asks(
            e.content.text@,
            SlashCommand::Absent,
        ) && own_topic == (e.channel.channel_type@ == "supergroup"@ && e.channel.thread_id is None),
    }
}

/// Decides about an event: one that is not for the bot is let go, and what it asks
/// the broker itself for never reaches the agent.
pub fn on_event(p: &GatewayParams, e: &GatewayEvent) -> (r: EventStep)
    ensures
        is_step_for(*p, *e, r),
{
    if !accepts_event(p, e) {
        return EventStep::Ignore;
    }
    match parse_slash_command(e.content.text.as_str()) {
        SlashCommand::Absent => EventStep::Prompt { own_topic: needs_topic(e) },
        command => EventStep::Command { key: event_session_key(e), command },
    }
}

/// What a reset is answered: whether there was a session, and how many messages
/// were still waiting.
pub open spec fn reset_text(ok: bool, dropped: nat) -> Seq<char> {
    if ok {
        if dropped == 0 {
            "🔄 Session reset. Start a new conversation!"@
        } else {
            "🔄 Session reset. Dropped "@ + decimal(dropped)
                + " buffered message(s). Start a new conversation!"@
        }
    } else {
        if dropped == 0 {
            "⚠️ No active session to reset."@
        } else {
            "🔄 Dropped "@ + decimal(dropped) + " buffered message(s). No active session to reset."@
        }
    }
}

pub fn reset_message(ok: bool, dropped: usize) -> (r: String)
    ensures
        r@ == reset_text(ok, dropped as nat),
{
    if ok {
        if dropped == 0 {
            "🔄 Session reset. Start a new conversation!".to_owned()
        } else {
            let mut out = "🔄 Session reset. Dropped ".to_owned();
            append_decimal(&mut out, dropped as u64);
            out.append(" buffered message(s). Start a new conversation!");
            out
        }
    } else {
        if dropped == 0 {
            "⚠️ No active session to reset.".to_owned()
        } else {
            let mut out = "🔄 Dropped ".to_owned();
            append_decimal(&mut out, dropped as u64);
            out.append(" buffered message(s). No active session to reset.");
            out
        }
    }
}

/// What a cancel is answered.
pub fn cancel_message(error: &Option<String>) -> (r: String)
    ensures
        r@ == (match error {
            None => "🛑 Cancel signal sent."@,
            Some(e) => "⚠️ "@ + e@,
        }),
{
    match error {
        None => "🛑 Cancel signal sent.".to_owned(),
        Some(e) => {
            let mut out = "⚠️ ".to_owned();
            out.append(e.as_str());
            out
        },
    }
}

/// A value that can be chosen: of which option, under which name, and whether it
/// is the present one.
#[derive(Debug)]
pub struct Choice {
    pub config_id: String,
    pub value: String,
    pub name: String,
    pub is_current: bool,
}

pub struct ChoiceView {
    pub config_id: Seq<char>,
    pub value: Seq<char>,
    pub name: Seq<char>,
    pub is_current: bool,
}

impl View for Choice {
    type V = ChoiceView;

    open spec fn view(&self) -> ChoiceView {
        ChoiceView {
            config_id: self.config_id@,
            value: self.value@,
            name: self.name@,
            is_current: self.is_current,
        }
    }
}

pub open spec fn choice_views(list: Seq<Choice>) -> Seq<ChoiceView> {
    list.map_values(|c: Choice| c@)
}

/// Whether an option is of the kind asked about. Some agents call their agents
/// modes.
pub open spec fn concerns(o: ConfigOption, agents: bool) -> bool {
    o.category is Some && (if agents {
        o.category->0@ == "agent"@ || o.category->0@ == "mode"@
    } else {
        o.category->0@ == "model"@
    })
}

/// The values of an option.
pub open spec fn option_choices(o: ConfigOption) -> Seq<ChoiceView> {
    Seq::new(
        o.options@.len(),
        |i: int|
            ChoiceView {
                config_id: o.id@,
                value: o.options@[i].value@,
                name: o.options@[i].name@,
                is_current: o.options@[i].value@ == o.current_value@,
            },
    )
}

/// All values that can be chosen, in order.
pub open spec fn all_choices(options: Seq<ConfigOption>, agents: bool) -> Seq<ChoiceView>
    decreases options.len(),
{
    if options.len() == 0 {
        Seq::empty()
    } else if concerns(options.last(), agents) {
        all_choices(options.drop_last(), agents) + option_choices(options.last())
    } else {
        all_choices(options.drop_last(), agents)
    }
}

/// Whether there is any option of the kind asked about.
pub open spec fn any_concerns(options: Seq<ConfigOption>, agents: bool) -> bool {
    exists|i: int| 0 <= i < options.len() && concerns(#[trigger] options[i], agents)
}

fn is_concerned(o: &ConfigOption, agents: bool) -> (r: bool)
    ensures
        r == concerns(*o, agents),
{
    match &o.category {
        None => false,
        Some(c) => if agents {
            same(c.as_str(), "agent") || same(c.as_str(), "mode")
        } else {
            same(c.as_str(), "model")
        },
    }
}

/// The values that can be chosen, or nothing where there is no such option.
pub fn collect_choices(options: &Vec<ConfigOption>, agents: bool) -> (r: Option<Vec<Choice>>)
    ensures
        match r {
            None => !any_concerns(options@, agents),
            Some(list) => any_concerns(options@, agents) && choice_views(list@) == all_choices(
                options@,
                agents,
            ),
        },
{
    let mut out: Vec<Choice> = Vec::new();
    let mut any = false;
    let mut i: usize = 0;
    assert(choice_views(out@) =~= all_choices(options@.take(0), agents));
    while i < options.len()
        invariant
            i <= options@.len(),
            choice_views(out@) == all_choices(options@.take(i as int), agents),
            any == exists|k: int| 0 <= k < i && concerns(#[trigger] options@[k], agents),
        decreases options@.len() - i,
    {
        let o = &options[i];
        assert(options@.take(i + 1).drop_last() =~= options@.take(i as int));
        assert(options@.take(i + 1).last() == *o);
        if is_concerned(o, agents) {
            any = true;
            let ghost before = choice_views(out@);
            let mut k: usize = 0;
            assert(before + option_choices(*o).take(0) =~= before);
            while k < o.options.len()
                invariant
                    k <= o.options@.len(),
                    choice_views(out@) == before + option_choices(*o).take(k as int),
                decreases o.options@.len() - k,
            {
                let v = &o.options[k];
                let ghost shown = choice_views(out@);
                let choice = Choice {
                    config_id: o.id.clone(),
                    value: v.value.clone(),
                    name: v.name.clone(),
                    is_current: same(v.value.as_str(), o.current_value.as_str()),
                };
                let ghost c = choice@;
                assert(c == option_choices(*o)[k as int]);
                out.push(choice);
                assert(choice_views(out@) =~= shown.push(c));
                assert(option_choices(*o).take(k + 1) =~= option_choices(*o).take(k as int).push(c));
                assert(choice_views(out@) =~= before + option_choices(*o).take(k + 1));
                k += 1;
            }
            assert(option_choices(*o).take(o.options@.len() as int) =~= option_choices(*o));
        }
        i += 1;
    }
    assert(options@.take(options@.len() as int) =~= options@);
    if any {
        Some(out)
    } else {
        None
    }
}

/// What options are called.
pub open spec fn label_of(agents: bool) -> Seq<char> {
    if agents {
        "agent"@
    } else {
        "model"@
    }
}

fn label(agents: bool) -> (r: &'static str)
    ensures
        r@ == label_of(agents),
{
    if agents {
        "agent"
    } else {
        "model"
    }
}

/// The line of a value, under its number.
pub open spec fn choice_line(number: nat, c: ChoiceView) -> Seq<char> {
    "  "@ + decimal(number) + ". "@ + c.name + (if c.is_current {
        " ✅"@
    } else {
        Seq::<char>::empty()
    })
}

/// The lines of a list of values.
pub open spec fn list_lines(agents: bool, choices: Seq<ChoiceView>) -> Seq<Seq<char>> {
    seq!["🔧 Available "@ + label_of(agents) + "s:"@] + Seq::new(
        choices.len(),
        |i: int| choice_line((i + 1) as nat, choices[i]),
    ) + seq!["\nUsage: /"@ + label_of(agents) + " set <number or name>"@]
}

fn list_text(agents: bool, choices: &Vec<Choice>) -> (r: String)
    ensures
        r@ == joined(list_lines(agents, choice_views(choices@)), "\n"@),
{
    let ghost views_of = choice_views(choices@);
    let ghost body = Seq::new(
        views_of.len(),
        |i: int| choice_line((i + 1) as nat, views_of[i]),
    );
    let mut lines: Vec<String> = Vec::new();
    let mut first = "🔧 Available ".to_owned();
    first.append(label(agents));
    first.append("s:");
    let ghost head = first@;
    lines.push(first);
    let mut i: usize = 0;
    assert(views(lines@) =~= seq![head] + body.take(0));
    while i < choices.len()
        invariant
            i <= choices@.len(),
            views_of == choice_views(choices@),
            body == Seq::new(
                views_of.len(),
                |i: int| choice_line((i + 1) as nat, views_of[i]),
            ),
            views(lines@) == seq![head] + body.take(i as int),
        decreases choices@.len() - i,
    {
        let c = &choices[i];
        let mut line = "  ".to_owned();
        append_decimal(&mut line, i as u64 + 1);
        line.append(". ");
        line.append(c.name.as_str());
        if c.is_current {
            line.append(" ✅");
        }
        proof {
            assert(views_of[i as int] == c@);
            assert(line@ =~= choice_line((i + 1) as nat, views_of[i as int]));
            crate::text::lemma_views_push(lines@, line);
            assert(seq![head] + body.take(i + 1) =~= (seq![head] + body.take(i as int)).push(
                body[i as int],
            ));
        }
        lines.push(line);
        i += 1;
    }
    let mut usage = "\nUsage: /".to_owned();
    usage.append(label(agents));
    usage.append(" set <number or name>");
    proof {
        crate::text::lemma_views_push(lines@, usage);
        assert(body.take(body.len() as int) =~= body);
        assert(list_lines(agents, views_of) =~= (seq![head] + body).push(usage@));
    }
    lines.push(usage);
    join(&lines, "\n")
}

/// Whether a value is the one that a text names.
pub open spec fn is_named(c: ChoiceView, arg: Seq<char>) -> bool {
    lower_case(c.value) == lower_case(arg) || lower_case(c.name) == lower_case(arg)
}

/// The first value that a text names.
pub open spec fn first_named(choices: Seq<ChoiceView>, arg: Seq<char>, i: int) -> bool {
    &&& 0 <= i < choices.len()
    &&& is_named(choices[i], arg)
    &&& forall|k: int| 0 <= k < i ==> !is_named(#[trigger] choices[k], arg)
}

/// What is done about a command.
#[derive(Debug)]
pub enum ConfigStep {
    /// This is answered.
    Reply(String),
    /// The value of this number is set.
    SwitchTo(usize),
}

/// What a choice by number or by name comes to.
pub open spec fn set_step(agents: bool, choices: Seq<ChoiceView>, arg: Seq<char>, step: ConfigStep) -> bool {
    if arg.len() == 0 {
        step matches ConfigStep::Reply(s) && s@ == "Usage: /"@ + label_of(agents)
            + " set <number or name>"@
    } else {
        match unsigned(arg, usize::MAX as nat) {
            Some(n) => if 1 <= n <= choices.len() {
                step matches ConfigStep::SwitchTo(i) && i == n - 1
            } else {
                step matches ConfigStep::Reply(s) && s@ == "⚠️ Invalid number. Use 1–"@ + decimal(
                    choices.len(),
                ) + "."@
            },
            None => match step {
                ConfigStep::SwitchTo(i) => first_named(choices, arg, i as int),
                ConfigStep::Reply(s) => {
                    &&& forall|k: int| 0 <= k < choices.len() ==> !is_named(#[trigger] choices[k], arg)
                    &&& s@ == "⚠️ No "@ + label_of(agents) + " matching \""@ + arg + "\". Use /"@
                        + label_of(agents) + " list to see options."@
                },
            },
        }
    }
}

fn choose_value(agents: bool, choices: &Vec<Choice>, arg: &str) -> (r: ConfigStep)
    ensures
        set_step(agents, choice_views(choices@), arg@, r),
{
    if arg.unicode_len() == 0 {
        let mut out = "Usage: /".to_owned();
        out.append(label(agents));
        out.append(" set <number or name>");
        return ConfigStep::Reply(out);
    }
    if let Some(n) = parse_usize(arg) {
        if n >= 1 && n <= choices.len() {
            return ConfigStep::SwitchTo(n - 1);
        }
        let mut out = "⚠️ Invalid number. Use 1–".to_owned();
        append_decimal(&mut out, choices.len() as u64);
        out.append(".");
        return ConfigStep::Reply(out);
    }
    let wanted = arg.to_lowercase();
    let ghost views_of = choice_views(choices@);
    let mut i: usize = 0;
    while i < choices.len()
        invariant
            i <= choices@.len(),
            views_of == choice_views(choices@),
            wanted@ == lower_case(arg@),
            arg@.len() > 0,
            unsigned(arg@, usize::MAX as nat) is None,
            forall|k: int| 0 <= k < i ==> !is_named(#[trigger] views_of[k], arg@),
        decreases choices@.len() - i,
    {
        let c = &choices[i];
        assert(views_of[i as int] == c@);
        let value = c.value.as_str().to_lowercase();
        let name = c.name.as_str().to_lowercase();
        if same(value.as_str(), wanted.as_str()) || same(name.as_str(), wanted.as_str()) {
            return ConfigStep::SwitchTo(i);
        }
        i += 1;
    }
    let mut out = "⚠️ No ".to_owned();
    out.append(label(agents));
    out.append(" matching \"");
    out.append(arg);
    out.append("\". Use /");
    out.append(label(agents));
    out.append(" list to see options.");
    ConfigStep::Reply(out)
}

/// What a command comes to, with the values that can be chosen.
pub open spec fn config_step(
    command: ConfigView,
    choices: Option<Seq<ChoiceView>>,
    step: ConfigStep,
) -> bool {
    let name = label_of(command.agents);
    match choices {
        None => step matches ConfigStep::Reply(s) && s@ == "⚠️ No "@ + name
            + " options available. Start a conversation first."@,
        Some(list) => if command.action == "list"@ {
            step matches ConfigStep::Reply(s) && s@ == joined(
                list_lines(command.agents, list),
                "\n"@,
            )
        } else if command.action == "set"@ {
            set_step(command.agents, list, command.arg, step)
        } else {
            step matches ConfigStep::Reply(s) && s@ == "Unknown action \""@ + command.action
                + "\". Usage: /"@ + name + " list | /"@ + name + " set <name>"@
        },
    }
}

/// Decides what is done about a command on the agent's options.
pub fn handle_config_command(command: &ConfigCommand, choices: &Option<Vec<Choice>>) -> (r: ConfigStep)
    ensures
        config_step(
            command@,
            match *choices {
                Some(list) => Some(choice_views(list@)),
                None => None,
            },
            r,
        ),
        r matches ConfigStep::SwitchTo(i) ==> choices is Some && i < choices->0@.len(),
{
    proof {
        reveal_strlit("list");
        reveal_strlit("set");
        assert("list"@.len() != "set"@.len());
    }
    let name = label(command.agents);
    let list = match choices {
        Some(list) => list,
        None => {
            let mut out = "⚠️ No ".to_owned();
            out.append(name);
            out.append(" options available. Start a conversation first.");
            return ConfigStep::Reply(out);
        },
    };
    if same(command.action.as_str(), "list") {
        return ConfigStep::Reply(list_text(command.agents, list));
    }
    if same(command.action.as_str(), "set") {
        return choose_value(command.agents, list, command.arg.as_str());
    }
    let mut out = "Unknown action \"".to_owned();
    out.append(command.action.as_str());
    out.append("\". Usage: /");
    out.append(name);
    out.append(" list | /");
    out.append(name);
    out.append(" set <name>");
    ConfigStep::Reply(out)
}

/// What a switch is answered.
pub fn switch_reply(name: &str, error: &Option<String>) -> (r: String)
    ensures
        r@ == (match error {
            None => "✅ Switched to **"@ + name@ + "**"@,
            Some(e) => "❌ Failed to switch: "@ + e@,
        }),
{
    match error {
        None => {
            let mut out = "✅ Switched to **".to_owned();
            out.append(name);
            out.append("**");
            out
        },
        Some(e) => {
            let mut out = "❌ Failed to switch: ".to_owned();
            out.append(e.as_str());
            out
        },
    }
}

// ---------------------------------------------------------------------------
// Replies
// ---------------------------------------------------------------------------

#[derive(Debug)]
pub struct ReplyChannel {
    pub id: String,
    pub thread_id: Option<String>,
}

#[derive(Debug)]
pub struct ReplyContent {
    pub content_type: String,
    pub text: String,
}

/// What is sent over the gateway.
#[derive(Debug)]
pub struct GatewayReply {
    pub schema: String,
    pub reply_to: String,
    pub platform: String,
    pub channel: ReplyChannel,
    pub content: ReplyContent,
    pub command: Option<String>,
    pub request_id: Option<String>,
    /// The message that the reply quotes.
    pub quote_message_id: Option<String>,
}

/// What is sent over the gateway.
pub struct ReplyView {
    pub reply_to: Seq<char>,
    pub platform: Seq<char>,
    pub channel_id: Seq<char>,
    pub thread_id: Option<Seq<char>>,
    pub text: Seq<char>,
    pub command: Option<Seq<char>>,
    pub request_id: Option<Seq<char>>,
    pub quote_message_id: Option<Seq<char>>,
}

impl View for GatewayReply {
    type V = ReplyView;

    open spec fn view(&self) -> ReplyView {
        ReplyView {
            reply_to: self.reply_to@,
            platform: self.platform@,
            channel_id: self.channel.id@,
            thread_id: text_view(self.channel.thread_id),
            text: self.content.text@,
            command: text_view(self.command),
            request_id: text_view(self.request_id),
            quote_message_id: text_view(self.quote_message_id),
        }
    }
}

/// Whether a reply is marked as what it is.
pub open spec fn is_text_reply(r: GatewayReply) -> bool {
    r.schema@ == "openab.gateway.reply.v1"@ && r.content.content_type@ == "text"@
}

fn reply(reply_to: String, channel: &ChannelRef, thread_id: Option<String>, text: &str) -> (r:
    GatewayReply)
    ensures
        is_text_reply(r),
        r@ == (ReplyView {
            reply_to: reply_to@,
            platform: channel.platform@,
            channel_id: channel.channel_id@,
            thread_id: text_view(thread_id),
            text: text@,
            command: None,
            request_id: None,
            quote_message_id: None,
        }),
{
    GatewayReply {
        schema: "openab.gateway.reply.v1".to_owned(),
        reply_to,
        platform: channel.platform.clone(),
        channel: ReplyChannel { id: channel.channel_id.clone(), thread_id },
        content: ReplyContent { content_type: "text".to_owned(), text: text.to_owned() },
        command: None,
        request_id: None,
        quote_message_id: None,
    }
}

/// The event that a reply to a channel answers, or none.
pub open spec fn answered_event(channel: ChannelRef) -> Seq<char> {
    match channel.origin_event_id {
        Some(e) => e@,
        None => Seq::empty(),
    }
}

fn answered(channel: &ChannelRef) -> (r: String)
    ensures
        r@ == answered_event(*channel),
{
    match &channel.origin_event_id {
        Some(e) => e.clone(),
        None => {
            let r = String::new();
            assert(r@ =~= Seq::<char>::empty());
            r
        },
    }
}

/// What is sent to a channel.
pub open spec fn sent_reply(
    channel: ChannelRef,
    content: Seq<char>,
    request_id: Option<Seq<char>>,
    quote_message_id: Option<Seq<char>>,
) -> ReplyView {
    ReplyView {
        reply_to: answered_event(channel),
        platform: channel.platform@,
        channel_id: channel.channel_id@,
        thread_id: text_view(channel.thread_id),
        text: content,
        command: None,
        request_id,
        quote_message_id,
    }
}

/// A message to a channel. Where its number is wanted, it is sent as a request;
/// it may quote another.
pub fn message_reply(
    channel: &ChannelRef,
    content: &str,
    request_id: Option<String>,
    quote_message_id: Option<&str>,
) -> (r: GatewayReply)
    ensures
        is_text_reply(r),
        r@ == sent_reply(*channel, content@, text_view(request_id), setting_view(quote_message_id)),
{
    let mut r = reply(answered(channel), channel, copy_text(&channel.thread_id), content);
    r.request_id = request_id;
    r.quote_message_id = match quote_message_id {
        Some(id) => Some(id.to_owned()),
        None => None,
    };
    r
}

/// The request for a topic in a channel.
pub fn topic_request(channel: &ChannelRef, title: &str, request_id: &str) -> (r: GatewayReply)
    ensures
        is_text_reply(r),
        r@ == (ReplyView {
            reply_to: Seq::empty(),
            platform: channel.platform@,
            channel_id: channel.channel_id@,
            thread_id: None,
            text: title@,
            command: Some("create_topic"@),
            request_id: Some(request_id@),
            quote_message_id: None,
        }),
{
    let nothing = String::new();
    assert(nothing@ =~= Seq::<char>::empty());
    let mut r = reply(nothing, channel, None, title);
    r.command = Some("create_topic".to_owned());
    r.request_id = Some(request_id.to_owned());
    r
}

/// What is done to a message that was sent.
#[derive(Debug, Clone, Copy, PartialEq, Eq, Structural)]
pub enum MessageCommand {
    AddReaction,
    RemoveReaction,
    EditMessage,
}

impl MessageCommand {
    pub open spec fn word(self) -> Seq<char> {
        match self {
            MessageCommand::AddReaction => "add_reaction"@,
            MessageCommand::RemoveReaction => "remove_reaction"@,
            MessageCommand::EditMessage => "edit_message"@,
        }
    }
}

/// What is sent to do something to a message.
pub open spec fn sent_command(msg: MessageRef, command: MessageCommand, text: Seq<char>) -> ReplyView {
    ReplyView {
        reply_to: msg.message_id@,
        platform: msg.channel.platform@,
        channel_id: msg.channel.channel_id@,
        thread_id: text_view(msg.channel.thread_id),
        text,
        command: Some(command.word()),
        request_id: None,
        quote_message_id: None,
    }
}

/// A command on a message: a reaction, or another text.
pub fn message_command(msg: &MessageRef, command: MessageCommand, text: &str) -> (r: GatewayReply)
    ensures
        is_text_reply(r),
        r@ == sent_command(*msg, command, text@),
{
    let mut r = reply(
        msg.message_id.clone(),
        &msg.channel,
        copy_text(&msg.channel.thread_id),
        text,
    );
    let word = match command {
        MessageCommand::AddReaction => "add_reaction",
        MessageCommand::RemoveReaction => "remove_reaction",
        MessageCommand::EditMessage => "edit_message",
    };
    r.command = Some(word.to_owned());
    r
}

/// The number of a request, made up for it.
pub fn request_id() -> (r: String)
    ensures
        begins(r@, "req_"@),
        is_uuid(r@.skip("req_"@.len() as int)),
{
    let token = random_token();
    let mut out = "req_".to_owned();
    out.append(token.as_str());
    proof {
        assert(out@.subrange(0, "req_"@.len() as int) =~= "req_"@);
        assert(out@.skip("req_"@.len() as int) =~= token@);
    }
    out
}

/// Whether a schema is that of a response.
pub fn is_response(schema: &str) -> (r: bool)
    ensures
        r == (schema@ == "openab.gateway.response.v1"@),
{
    same(schema, "openab.gateway.response.v1")
}

/// The id of a message that was sent: the one reported, if sending it went well.
pub open spec fn sent_id(response: Option<GatewayResponse>) -> Seq<char> {
    match response {
        Some(resp) => if resp.success && resp.message_id is Some {
            resp.message_id->0@
        } else {
            "gw_sent"@
        },
        None => "gw_sent"@,
    }
}

/// The number of a message that was sent: as the gateway says, if it does.
pub fn sent_message_id(response: &Option<GatewayResponse>) -> (r: String)
    ensures
        r@ == sent_id(*response),
{
    if let Some(resp) = response {
        if resp.success {
            if let Some(id) = &resp.message_id {
                return id.clone();
            }
        }
    }
    "gw_sent".to_owned()
}

/// Whether a channel is the one to go on in once a topic was asked for: the topic
/// if it was made, else the channel itself.
pub open spec fn is_topic_of(
    channel: ChannelRef,
    response: Option<GatewayResponse>,
    c: ChannelRef,
) -> bool {
    if response is Some && response->0.success {
        &&& c.platform@ == channel.platform@
        &&& c.channel_id@ == channel.channel_id@
        &&& text_view(c.thread_id) == text_view(response->0.thread_id)
        &&& c.parent_id is None
        &&& text_view(c.origin_event_id) == text_view(channel.origin_event_id)
    } else {
        c == channel
    }
}

/// The channel of a topic: the one that was created, or the channel itself where
/// that failed.
pub fn topic_channel(channel: &ChannelRef, response: &Option<GatewayResponse>) -> (r: ChannelRef)
    ensures
        is_topic_of(*channel, *response, r),
{
    if let Some(resp) = response {
        if resp.success {
            return ChannelRef {
                platform: channel.platform.clone(),
                channel_id: channel.channel_id.clone(),
                thread_id: copy_text(&resp.thread_id),
                parent_id: None,
                origin_event_id: copy_text(&channel.origin_event_id),
            };
        }
    }
    channel.clone()
}

/// What the gateway's adapter tells of itself.
#[derive(Debug)]
pub struct GatewayAdapter {
    platform_name: &'static str,
    streaming: bool,
}

impl GatewayAdapter {
    pub closed spec fn name(&self) -> Seq<char> {
        self.platform_name@
    }

    pub closed spec fn streams(&self) -> bool {
        self.streaming
    }

    pub fn new(platform_name: &'static str, streaming: bool) -> (r: Self)
        ensures
            r.name() == platform_name@,
            r.streams() == streaming,
    {
        GatewayAdapter { platform_name, streaming }
    }
}

impl ChatAdapter for GatewayAdapter {
    fn platform(&self) -> (r: &'static str)
        ensures
            r@ == self.name(),
    {
        self.platform_name
    }

    fn message_limit(&self) -> (r: usize)
        ensures
            r == 4096,
    {
        4096
    }

    fn use_streaming(&self, other_bot_present: bool) -> (r: bool)
        ensures
            r == self.streams(),
    {
        self.streaming
    }
}

} // verus!
