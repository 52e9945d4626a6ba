//! Configuration: the settings of each part, their defaults, the words that
//! stand for them in a file, and the rules that a complete configuration meets.

use vstd::prelude::*;
use crate::table::Table;
use crate::text::{
    blank, lower_case, mapped, pieces, replace_char, same, split, split_whitespace, trim, trimmed,
    views, words,
};

verus! {

// ---------------------------------------------------------------------------
// Words for choices
// ---------------------------------------------------------------------------

/// A choice word in lower case.
pub open spec fn folded(text: Seq<char>) -> Seq<char> {
    lower_case(text)
}

/// A choice word in lower case, with hyphens as underscores.
pub open spec fn folded_under(text: Seq<char>) -> Seq<char> {
    mapped(lower_case(text), '-', '_')
}

fn fold(text: &str) -> (r: String)
    ensures
        r@ == folded(text@),
{
    text.to_lowercase()
}

fn fold_under(text: &str) -> (r: String)
    ensures
        r@ == folded_under(text@),
{
    replace_char(text.to_lowercase().as_str(), '-', '_')
}


/// How incoming messages become agent turns: one each, one per thread, or one
/// per sender in a thread.
#[derive(Debug, Clone, Copy, PartialEq, Eq, Structural)]
pub enum MessageProcessingMode {
    Message,
    Thread,
    Lane,
}

impl Default for MessageProcessingMode {
    fn default() -> (r: Self)
        ensures
            r == MessageProcessingMode::Message,
    {
        MessageProcessingMode::Message
    }
}

impl MessageProcessingMode {
    /// The choice that a folded word stands for.
    pub open spec fn named(word: Seq<char>) -> Option<Self> {
        if word == "per_message"@ {
            Some(MessageProcessingMode::Message)
        } else if word == "per_thread"@ {
            Some(MessageProcessingMode::Thread)
        } else if word == "per_lane"@ {
            Some(MessageProcessingMode::Lane)
        } else {
            None
        }
    }

    /// Reads a choice, in any case and with hyphens or underscores. A word that
    /// stands for none comes back as it was compared.
    pub fn parse(text: &str) -> (r: Result<Self, String>)
        ensures
            match r {
                Ok(v) => Self::named(folded_under(text@)) == Some(v),
                Err(word) => Self::named(folded_under(text@)) is None && word@ == folded_under(text@),
            },
    {
        let word = fold_under(text);
        if same(word.as_str(), "per_message") {
            Ok(MessageProcessingMode::Message)
        } else if same(word.as_str(), "per_thread") {
            Ok(MessageProcessingMode::Thread)
        } else if same(word.as_str(), "per_lane") {
            Ok(MessageProcessingMode::Lane)
        } else {
            Err(word)
        }
    }
}

/// Whether messages from other bots are taken up: never, when they mention this
/// bot, or always.
#[derive(Debug, Clone, Copy, PartialEq, Eq, Structural)]
pub enum AllowBots {
    Off,
    Mentions,
    All,
}

impl Default for AllowBots {
    fn default() -> (r: Self)
        ensures
            r == AllowBots::Off,
    {
        AllowBots::Off
    }
}

impl AllowBots {
    /// The choice that a folded word stands for.
    pub open spec fn named(word: Seq<char>) -> Option<Self> {
        if word == "off"@ || word == "none"@ || word == "false"@ {
            Some(AllowBots::Off)
        } else if word == "mentions"@ {
            Some(AllowBots::Mentions)
        } else if word == "all"@ || word == "true"@ {
            Some(AllowBots::All)
        } else {
            None
        }
    }

    /// Reads a choice, in any case. A word that
    /// stands for none comes back as it was compared.
    pub fn parse(text: &str) -> (r: Result<Self, String>)
        ensures
            match r {
                Ok(v) => Self::named(folded(text@)) == Some(v),
                Err(word) => Self::named(folded(text@)) is None && word@ == folded(text@),
            },
    {
        let word = fold(text);
        if same(word.as_str(), "off") || same(word.as_str(), "none") || same(word.as_str(), "false") {
            Ok(AllowBots::Off)
        } else if same(word.as_str(), "mentions") {
            Ok(AllowBots::Mentions)
        } else if same(word.as_str(), "all") || same(word.as_str(), "true") {
            Ok(AllowBots::All)
        } else {
            Err(word)
        }
    }
}

/// What a cancelled agent runtime does.
#[derive(Debug, Clone, Copy, PartialEq, Eq, Structural)]
pub enum AgentCoreCancelStrategy {
    Stop,
    Noop,
}

impl Default for AgentCoreCancelStrategy {
    fn default() -> (r: Self)
        ensures
            r == AgentCoreCancelStrategy::Stop,
    {
        AgentCoreCancelStrategy::Stop
    }
}

impl AgentCoreCancelStrategy {
    /// The choice that a folded word stands for.
    pub open spec fn named(word: Seq<char>) -> Option<Self> {
        if word == "stop"@ {
            Some(AgentCoreCancelStrategy::Stop)
        } else if word == "noop"@ {
            Some(AgentCoreCancelStrategy::Noop)
        } else {
            None
        }
    }

    /// Reads a choice, in any case. A word that
    /// stands for none comes back as it was compared.
    pub fn parse(text: &str) -> (r: Result<Self, String>)
        ensures
            match r {
                Ok(v) => Self::named(folded(text@)) == Some(v),
                Err(word) => Self::named(folded(text@)) is None && word@ == folded(text@),
            },
    {
        let word = fold(text);
        if same(word.as_str(), "stop") {
            Ok(AgentCoreCancelStrategy::Stop)
        } else if same(word.as_str(), "noop") {
            Ok(AgentCoreCancelStrategy::Noop)
        } else {
            Err(word)
        }
    }
}

/// What the failure of a hook does.
#[derive(Debug, Clone, Copy, PartialEq, Eq, Structural)]
pub enum OnFailure {
    Abort,
    Warn,
}

impl Default for OnFailure {
    fn default() -> (r: Self)
        ensures
            r == OnFailure::Abort,
    {
        OnFailure::Abort
    }
}

impl OnFailure {
    /// The choice that a folded word stands for.
    pub open spec fn named(word: Seq<char>) -> Option<Self> {
        if word == "abort"@ {
            Some(OnFailure::Abort)
        } else if word == "warn"@ {
            Some(OnFailure::Warn)
        } else {
            None
        }
    }

    /// Reads a choice, in any case. A word that
    /// stands for none comes back as it was compared.
    pub fn parse(text: &str) -> (r: Result<Self, String>)
        ensures
            match r {
                Ok(v) => Self::named(folded(text@)) == Some(v),
                Err(word) => Self::named(folded(text@)) is None && word@ == folded(text@),
            },
    {
        let word = fold(text);
        if same(word.as_str(), "abort") {
            Ok(OnFailure::Abort)
        } else if same(word.as_str(), "warn") {
            Ok(OnFailure::Warn)
        } else {
            Err(word)
        }
    }
}

/// Whether a message in a thread is answered without a mention: where the bot
/// takes part, never, or where it is the only bot that takes part.
#[derive(Debug, Clone, Copy, PartialEq, Eq, Structural)]
pub enum AllowUsers {
    Involved,
    Mentions,
    MultibotMentions,
}

impl Default for AllowUsers {
    fn default() -> (r: Self)
        ensures
            r == AllowUsers::Involved,
    {
        AllowUsers::Involved
    }
}

impl AllowUsers {
    /// The choice that a folded word stands for.
    pub open spec fn named(word: Seq<char>) -> Option<Self> {
        if word == "involved"@ {
            Some(AllowUsers::Involved)
        } else if word == "mentions"@ {
            Some(AllowUsers::Mentions)
        } else if word == "multibot_mentions"@ {
            Some(AllowUsers::MultibotMentions)
        } else {
            None
        }
    }

    /// Reads a choice, in any case and with hyphens or underscores. A word that
    /// stands for none comes back as it was compared.
    pub fn parse(text: &str) -> (r: Result<Self, String>)
        ensures
            match r {
                Ok(v) => Self::named(folded_under(text@)) == Some(v),
                Err(word) => Self::named(folded_under(text@)) is None && word@ == folded_under(text@),
            },
    {
        let word = fold_under(text);
        if same(word.as_str(), "involved") {
            Ok(AllowUsers::Involved)
        } else if same(word.as_str(), "mentions") {
            Ok(AllowUsers::Mentions)
        } else if same(word.as_str(), "multibot_mentions") {
            Ok(AllowUsers::MultibotMentions)
        } else {
            Err(word)
        }
    }
}

/// How a mention in a normal channel is answered: in a thread of its own, or in
/// the channel.
#[derive(Debug, Clone, Copy, PartialEq, Eq, Structural)]
pub enum NormalChannelReplyMode {
    Thread,
    Inline,
}

impl Default for NormalChannelReplyMode {
    fn default() -> (r: Self)
        ensures
            r == NormalChannelReplyMode::Thread,
    {
        NormalChannelReplyMode::Thread
    }
}

impl NormalChannelReplyMode {
    /// The choice that a folded word stands for.
    pub open spec fn named(word: Seq<char>) -> Option<Self> {
        if word == "thread"@ {
            Some(NormalChannelReplyMode::Thread)
        } else if word == "inline"@ {
            Some(NormalChannelReplyMode::Inline)
        } else {
            None
        }
    }

    /// Reads a choice, in any case and with hyphens or underscores. A word that
    /// stands for none comes back as it was compared.
    pub fn parse(text: &str) -> (r: Result<Self, String>)
        ensures
            match r {
                Ok(v) => Self::named(folded_under(text@)) == Some(v),
                Err(word) => Self::named(folded_under(text@)) is None && word@ == folded_under(text@),
            },
    {
        let word = fold_under(text);
        if same(word.as_str(), "thread") {
            Ok(NormalChannelReplyMode::Thread)
        } else if same(word.as_str(), "inline") {
            Ok(NormalChannelReplyMode::Inline)
        } else {
            Err(word)
        }
    }
}

/// How the agent is reached.
#[derive(Debug, Clone, Copy, PartialEq, Eq, Structural)]
pub enum AgentTransport {
    Stdio,
    WebSocket,
}

impl Default for AgentTransport {
    fn default() -> (r: Self)
        ensures
            r == AgentTransport::Stdio,
    {
        AgentTransport::Stdio
    }
}

impl AgentTransport {
    /// The choice that a folded word stands for.
    pub open spec fn named(word: Seq<char>) -> Option<Self> {
        if word == "stdio"@ {
            Some(AgentTransport::Stdio)
        } else if word == "websocket"@ || word == "ws"@ {
            Some(AgentTransport::WebSocket)
        } else {
            None
        }
    }

    /// Reads a choice, in any case and with hyphens or underscores. A word that
    /// stands for none comes back as it was compared.
    pub fn parse(text: &str) -> (r: Result<Self, String>)
        ensures
            match r {
                Ok(v) => Self::named(folded_under(text@)) == Some(v),
                Err(word) => Self::named(folded_under(text@)) is None && word@ == folded_under(text@),
            },
    {
        let word = fold_under(text);
        if same(word.as_str(), "stdio") {
            Ok(AgentTransport::Stdio)
        } else if same(word.as_str(), "websocket") || same(word.as_str(), "ws") {
            Ok(AgentTransport::WebSocket)
        } else {
            Err(word)
        }
    }
}

/// How tables are written: as blocks of code, as lists, or as they are.
#[derive(Debug, Clone, Copy, PartialEq, Eq, Structural)]
pub enum TableMode {
    Code,
    Bullets,
    Off,
}

impl Default for TableMode {
    fn default() -> (r: Self)
        ensures
            r == TableMode::Code,
    {
        TableMode::Code
    }
}

impl TableMode {
    /// The choice that a folded word stands for.
    pub open spec fn named(word: Seq<char>) -> Option<Self> {
        if word == "code"@ {
            Some(TableMode::Code)
        } else if word == "bullets"@ {
            Some(TableMode::Bullets)
        } else if word == "off"@ {
            Some(TableMode::Off)
        } else {
            None
        }
    }

    /// Reads a choice, in any case. A word that
    /// stands for none comes back as it was compared.
    pub fn parse(text: &str) -> (r: Result<Self, String>)
        ensures
            match r {
                Ok(v) => Self::named(folded(text@)) == Some(v),
                Err(word) => Self::named(folded(text@)) is None && word@ == folded(text@),
            },
    {
        let word = fold(text);
        if same(word.as_str(), "code") {
            Ok(TableMode::Code)
        } else if same(word.as_str(), "bullets") {
            Ok(TableMode::Bullets)
        } else if same(word.as_str(), "off") {
            Ok(TableMode::Off)
        } else {
            Err(word)
        }
    }
}

/// How tool calls are shown: in full, as a count, or not at all.
#[derive(Debug, Clone, Copy, PartialEq, Eq, Structural)]
pub enum ToolDisplay {
    Full,
    Compact,
    Hidden,
}

impl Default for ToolDisplay {
    fn default() -> (r: Self)
        ensures
            r == ToolDisplay::Full,
    {
        ToolDisplay::Full
    }
}

impl ToolDisplay {
    /// The choice that a folded word stands for.
    pub open spec fn named(word: Seq<char>) -> Option<Self> {
        if word == "full"@ {
            Some(ToolDisplay::Full)
        } else if word == "compact"@ {
            Some(ToolDisplay::Compact)
        } else if word == "none"@ || word == "off"@ || word == "hidden"@ {
            Some(ToolDisplay::Hidden)
        } else {
            None
        }
    }

    /// Reads a choice, in any case. A word that
    /// stands for none comes back as it was compared.
    pub fn parse(text: &str) -> (r: Result<Self, String>)
        ensures
            match r {
                Ok(v) => Self::named(folded(text@)) == Some(v),
                Err(word) => Self::named(folded(text@)) is None && word@ == folded(text@),
            },
    {
        let word = fold(text);
        if same(word.as_str(), "full") {
            Ok(ToolDisplay::Full)
        } else if same(word.as_str(), "compact") {
            Ok(ToolDisplay::Compact)
        } else if same(word.as_str(), "none") || same(word.as_str(), "off") || same(word.as_str(), "hidden") {
            Ok(ToolDisplay::Hidden)
        } else {
            Err(word)
        }
    }
}

pub type DiscordNormalChannelReplyMode = NormalChannelReplyMode;

pub type SlackNormalChannelReplyMode = NormalChannelReplyMode;

impl AgentCoreCancelStrategy {
    /// The word for a strategy.
    pub open spec fn word(self) -> Seq<char> {
        match self {
            AgentCoreCancelStrategy::Stop => "stop"@,
            AgentCoreCancelStrategy::Noop => "noop"@,
        }
    }

    /// The word for this strategy.
    pub fn to_text(&self) -> (r: String)
        ensures
            r@ == self.word(),
    {
        match self {
            AgentCoreCancelStrategy::Stop => "stop".to_owned(),
            AgentCoreCancelStrategy::Noop => "noop".to_owned(),
        }
    }
}

/// The word for a strategy stands for that strategy.
pub proof fn strategy_word_names_it(strategy: AgentCoreCancelStrategy)
    ensures
        AgentCoreCancelStrategy::named(strategy.word()) == Some(strategy),
{
    reveal_strlit("stop");
    reveal_strlit("noop");
    assert("stop"@[0] != "noop"@[0]);
}


// ---------------------------------------------------------------------------
// Defaults
// ---------------------------------------------------------------------------


pub fn default_agentcore_shell_command() -> (r: String)
    ensures
        r@ == "kiro-cli acp --trust-all-tools"@,
{
    "kiro-cli acp --trust-all-tools".to_owned()
}

pub fn default_context_mcp_bind() -> (r: String)
    ensures
        r@ == "127.0.0.1:18080"@,
{
    "127.0.0.1:18080".to_owned()
}

pub fn default_context_mcp_route_path() -> (r: String)
    ensures
        r@ == "/mcp"@,
{
    "/mcp".to_owned()
}

pub fn default_context_mcp_agent_server_name() -> (r: String)
    ensures
        r@ == "openab_context"@,
{
    "openab_context".to_owned()
}

pub fn default_stt_model() -> (r: String)
    ensures
        r@ == "whisper-large-v3-turbo"@,
{
    "whisper-large-v3-turbo".to_owned()
}

pub fn default_stt_base_url() -> (r: String)
    ensures
        r@ == "https://api.groq.com/openai/v1"@,
{
    "https://api.groq.com/openai/v1".to_owned()
}

pub fn default_gateway_platform() -> (r: String)
    ensures
        r@ == "telegram"@,
{
    "telegram".to_owned()
}

pub fn default_agent_mcp_server_type() -> (r: String)
    ensures
        r@ == "http"@,
{
    "http".to_owned()
}

pub fn default_cron_platform() -> (r: String)
    ensures
        r@ == "discord"@,
{
    "discord".to_owned()
}

pub fn default_cron_sender() -> (r: String)
    ensures
        r@ == "openab-cron"@,
{
    "openab-cron".to_owned()
}

pub fn default_cron_timezone() -> (r: String)
    ensures
        r@ == "UTC"@,
{
    "UTC".to_owned()
}

pub fn emoji_queued() -> (r: String)
    ensures
        r@ == "👀"@,
{
    "👀".to_owned()
}

pub fn emoji_thinking() -> (r: String)
    ensures
        r@ == "🤔"@,
{
    "🤔".to_owned()
}

pub fn emoji_tool() -> (r: String)
    ensures
        r@ == "🔥"@,
{
    "🔥".to_owned()
}

pub fn emoji_coding() -> (r: String)
    ensures
        r@ == "👨‍💻"@,
{
    "👨‍💻".to_owned()
}

pub fn emoji_web() -> (r: String)
    ensures
        r@ == "⚡"@,
{
    "⚡".to_owned()
}

pub fn emoji_done() -> (r: String)
    ensures
        r@ == "🆗"@,
{
    "🆗".to_owned()
}

pub fn emoji_error() -> (r: String)
    ensures
        r@ == "😱"@,
{
    "😱".to_owned()
}

pub fn default_context_mcp_default_limit() -> (r: usize)
    ensures
        r == 50,
{
    50
}

pub fn default_context_mcp_max_limit() -> (r: usize)
    ensures
        r == 100,
{
    100
}

pub fn default_context_mcp_handoff_token_ttl_secs() -> (r: u64)
    ensures
        r == 300,
{
    300
}

pub fn default_context_mcp_handoff_parent_summary_max_chars() -> (r: usize)
    ensures
        r == 400,
{
    400
}

pub fn default_exec_timeout() -> (r: u64)
    ensures
        r == 10,
{
    10
}

pub fn default_hook_timeout() -> (r: u64)
    ensures
        r == 60,
{
    60
}

pub fn default_max_bot_turns() -> (r: u32)
    ensures
        r == 100,
{
    100
}

pub fn default_max_buffered_messages() -> (r: usize)
    ensures
        r == 10,
{
    10
}

pub fn default_max_batch_tokens() -> (r: usize)
    ensures
        r == 24_000,
{
    24_000
}

pub fn default_disable_on_success_timeout_secs() -> (r: u64)
    ensures
        r == 60,
{
    60
}

pub fn default_max_sessions() -> (r: usize)
    ensures
        r == 10,
{
    10
}

pub fn default_prompt_hard_timeout_secs() -> (r: u64)
    ensures
        r == 1_800,
{
    1_800
}

pub fn default_liveness_check_secs() -> (r: u64)
    ensures
        r == 30,
{
    30
}

pub fn default_debounce_ms() -> (r: u64)
    ensures
        r == 700,
{
    700
}

pub fn default_stall_soft_ms() -> (r: u64)
    ensures
        r == 10_000,
{
    10_000
}

pub fn default_stall_hard_ms() -> (r: u64)
    ensures
        r == 30_000,
{
    30_000
}

pub fn default_done_hold_ms() -> (r: u64)
    ensures
        r == 1_500,
{
    1_500
}

pub fn default_error_hold_ms() -> (r: u64)
    ensures
        r == 2_500,
{
    2_500
}

pub fn default_true() -> (r: bool)
    ensures
        r == true,
{
    true
}

pub fn default_echo_transcript() -> (r: bool)
    ensures
        r == false,
{
    false
}

pub fn default_agentcore_cancel_strategy() -> (r: AgentCoreCancelStrategy)
    ensures
        r == AgentCoreCancelStrategy::Stop,
{
    AgentCoreCancelStrategy::Stop
}

pub fn default_context_mcp_agent_allowed_tools() -> (r: Vec<String>)
    ensures
        views(r@) == seq!["read_current_thread"@, "read_message"@],
{
    let r = vec!["read_current_thread".to_owned(), "read_message".to_owned()];
    assert(views(r@) =~= seq!["read_current_thread"@, "read_message"@]);
    r
}

/// The command of an agent where none is configured: the first word of the
/// environment's setting, or the bundled agent.
pub fn default_agent_command(setting: Option<&str>) -> (r: String)
    ensures
        r@ == default_command(setting_view(setting)),
{
    if let Some(value) = setting {
        let mut parts = split_whitespace(value);
        if parts.len() > 0 {
            let first = parts.remove(0);
            assert(first@ == words(value@)[0]);
            return first;
        }
        assert(words(value@).len() == 0);
    }
    "openab-agent".to_owned()
}

/// The arguments of an agent where none are configured: the words behind the
/// first in the environment's setting.
pub fn default_agent_args(setting: Option<&str>) -> (r: Vec<String>)
    ensures
        views(r@) == default_args(setting_view(setting)),
{
    if let Some(value) = setting {
        let mut parts = split_whitespace(value);
        let ghost all = views(parts@);
        if parts.len() > 1 {
            let first = parts.remove(0);
            assert(views(parts@) =~= all.skip(1));
            return parts;
        }
        proof {
            if all.len() == 1 {
                assert(all.skip(1) =~= Seq::empty());
            }
        }
    }
    let r: Vec<String> = Vec::new();
    assert(views(r@) =~= Seq::empty());
    r
}

pub open spec fn setting_view(setting: Option<&str>) -> Option<Seq<char>> {
    match setting {
        Some(s) => Some(s@),
        None => None,
    }
}

/// The first word of a setting, or the bundled agent.
pub open spec fn default_command(setting: Option<Seq<char>>) -> Seq<char> {
    match setting {
        Some(s) => if words(s).len() > 0 {
            words(s)[0]
        } else {
            "openab-agent"@
        },
        None => "openab-agent"@,
    }
}

/// The words of a setting behind the first.
pub open spec fn default_args(setting: Option<Seq<char>>) -> Seq<Seq<char>> {
    match setting {
        Some(s) => if words(s).len() > 0 {
            words(s).skip(1)
        } else {
            Seq::empty()
        },
        None => Seq::empty(),
    }
}


/// The working directory where none is configured: the home directory, or `/tmp`.
pub fn default_working_dir(home: Option<&str>) -> (r: String)
    ensures
        r@ == default_dir(setting_view(home)),
{
    match home {
        Some(dir) => dir.to_owned(),
        None => "/tmp".to_owned(),
    }
}

pub open spec fn default_dir(home: Option<Seq<char>>) -> Seq<char> {
    match home {
        Some(dir) => dir,
        None => "/tmp"@,
    }
}

// ---------------------------------------------------------------------------
// Settings
// ---------------------------------------------------------------------------

/// An optional text as optional characters.
pub open spec fn text_view(o: Option<String>) -> Option<Seq<char>> {
    match o {
        Some(s) => Some(s@),
        None => None,
    }
}

/// An agent that runs in a managed runtime.
#[derive(Debug, Clone)]
pub struct AgentCoreConfig {
    /// The runtime's resource name.
    pub runtime_arn: String,
    /// The agent command that is run in the shell.
    pub shell_command: String,
    pub cancel_strategy: AgentCoreCancelStrategy,
}

/// The fourth colon-separated part of a resource name, or the fallback region.
pub open spec fn region_of(arn: Seq<char>) -> Seq<char> {
    let parts = pieces(arn, ':');
    if parts.len() >= 4 && parts[3].len() > 0 {
        parts[3]
    } else {
        "us-east-1"@
    }
}

impl AgentCoreConfig {
    /// The region in the resource name.
    pub fn region(&self) -> (r: String)
        ensures
            r@ == region_of(self.runtime_arn@),
    {
        let parts = split(self.runtime_arn.as_str(), ':');
        if parts.len() >= 4 {
            assert(views(parts@)[3] == parts@[3]@);
            if parts[3].as_str().unicode_len() > 0 {
                return parts[3].clone();
            }
        }
        "us-east-1".to_owned()
    }
}

/// The server that reads chat context for agents.
#[derive(Debug, Clone)]
pub struct ContextMcpConfig {
    pub enabled: bool,
    /// The address to listen on.
    pub bind: String,
    /// The path that takes requests.
    pub route_path: String,
    /// The bearer token that every request needs.
    pub token: String,
    /// How many messages a request without a limit gets.
    pub default_limit: usize,
    /// The most messages that a request gets.
    pub max_limit: usize,
    /// The platforms that can be read; all where there are none.
    pub allowed_platforms: Vec<String>,
    /// Whether normal channels can be read.
    pub allow_normal_channels: bool,
    /// Whether an agent may move work from a channel to a thread.
    pub handoff_enabled: bool,
    /// How long a handoff token holds.
    pub handoff_token_ttl_secs: u64,
    /// Whether a summary goes back to the channel.
    pub handoff_parent_summary_enabled: bool,
    /// The longest summary.
    pub handoff_parent_summary_max_chars: usize,
    /// Whether agents are told of this server.
    pub inject_into_agent: bool,
    /// Where agents reach this server.
    pub agent_url: Option<String>,
    /// The name under which agents know this server.
    pub agent_server_name: String,
    /// The tools that agents may use.
    pub agent_allowed_tools: Vec<String>,
}

impl Default for ContextMcpConfig {
    fn default() -> (r: Self)
        ensures
            !r.enabled,
            r.bind@ == "127.0.0.1:18080"@,
            r.route_path@ == "/mcp"@,
            r.token@.len() == 0,
            r.default_limit == 50,
            r.max_limit == 100,
            r.allowed_platforms@.len() == 0,
            !r.allow_normal_channels,
            !r.handoff_enabled,
            r.handoff_token_ttl_secs == 300,
            !r.handoff_parent_summary_enabled,
            r.handoff_parent_summary_max_chars == 400,
            !r.inject_into_agent,
            r.agent_url is None,
            r.agent_server_name@ == "openab_context"@,
            views(r.agent_allowed_tools@) == seq!["read_current_thread"@, "read_message"@],
    {
        ContextMcpConfig {
            enabled: false,
            bind: default_context_mcp_bind(),
            route_path: default_context_mcp_route_path(),
            token: String::new(),
            default_limit: default_context_mcp_default_limit(),
            max_limit: default_context_mcp_max_limit(),
            allowed_platforms: Vec::new(),
            allow_normal_channels: false,
            handoff_enabled: false,
            handoff_token_ttl_secs: default_context_mcp_handoff_token_ttl_secs(),
            handoff_parent_summary_enabled: false,
            handoff_parent_summary_max_chars: default_context_mcp_handoff_parent_summary_max_chars(),
            inject_into_agent: false,
            agent_url: None,
            agent_server_name: default_context_mcp_agent_server_name(),
            agent_allowed_tools: default_context_mcp_agent_allowed_tools(),
        }
    }
}

/// Names for workspaces.
#[derive(Debug)]
pub struct WorkspaceConfig {
    pub aliases: Table<String>,
}

impl Default for WorkspaceConfig {
    fn default() -> (r: Self)
        ensures
            r.aliases@ == Map::<Seq<char>, String>::empty(),
    {
        WorkspaceConfig { aliases: Table::new() }
    }
}

/// Where secrets come from.
#[derive(Debug)]
pub struct SecretsConfig {
    pub aws: AwsSecretsConfig,
    pub exec_provider: ExecSecretsConfig,
    /// What each secret refers to.
    pub refs: Table<String>,
}

impl Default for SecretsConfig {
    fn default() -> (r: Self)
        ensures
            r.aws.region is None,
            r.aws.endpoint_url is None,
            r.exec_provider.timeout_seconds == 10,
            r.refs@ == Map::<Seq<char>, String>::empty(),
    {
        SecretsConfig {
            aws: AwsSecretsConfig::default(),
            exec_provider: ExecSecretsConfig::default(),
            refs: Table::new(),
        }
    }
}

#[derive(Debug, Clone)]
pub struct AwsSecretsConfig {
    pub region: Option<String>,
    pub endpoint_url: Option<String>,
}

impl Default for AwsSecretsConfig {
    fn default() -> (r: Self)
        ensures
            r.region is None,
            r.endpoint_url is None,
    {
        AwsSecretsConfig { region: None, endpoint_url: None }
    }
}

#[derive(Debug, Clone)]
pub struct ExecSecretsConfig {
    pub timeout_seconds: u64,
}

impl Default for ExecSecretsConfig {
    fn default() -> (r: Self)
        ensures
            r.timeout_seconds == 10,
    {
        ExecSecretsConfig { timeout_seconds: default_exec_timeout() }
    }
}

/// Object storage for files that are not passed on.
#[derive(Debug, Clone)]
pub struct S3Config {
    pub enabled: bool,
    pub bucket: Option<String>,
    pub region: Option<String>,
    pub endpoint_url: Option<String>,
    pub force_path_style: bool,
    pub directory: Option<String>,
    pub access_key_id: Option<String>,
    pub secret_access_key: Option<String>,
    pub session_token: Option<String>,
}

/// Object storage that is ready for use.
#[derive(Debug, Clone)]
pub struct S3OffloadSettings {
    pub bucket: String,
    pub region: String,
    pub endpoint_url: Option<String>,
    pub force_path_style: bool,
    pub directory: String,
    pub access_key_id: Option<String>,
    pub secret_access_key: Option<String>,
    pub session_token: Option<String>,
}

/// A text without white space at its ends, where anything is left.
pub open spec fn filled(value: Option<Seq<char>>) -> Option<Seq<char>> {
    match value {
        Some(s) => if blank(s) {
            None
        } else {
            Some(trimmed(s))
        },
        None => None,
    }
}

/// A text without white space at its ends, where anything is left.
pub fn non_empty(value: Option<&str>) -> (r: Option<String>)
    ensures
        text_view(r) == filled(setting_view(value)),
{
    match value {
        Some(s) => {
            let t = trim(s);
            if t.unicode_len() == 0 {
                None
            } else {
                Some(t.to_owned())
            }
        },
        None => None,
    }
}

/// The text of an optional string.
pub fn as_text(value: &Option<String>) -> (r: Option<&str>)
    ensures
        setting_view(r) == text_view(*value),
{
    match value {
        Some(s) => Some(s.as_str()),
        None => None,
    }
}

impl S3Config {
    /// Whether files are stored: enabled, with a bucket, a region and a directory.
    pub open spec fn usable(&self) -> bool {
        &&& self.enabled
        &&& filled(text_view(self.bucket)) is Some
        &&& filled(text_view(self.region)) is Some
        &&& filled(text_view(self.directory)) is Some
    }

    /// The settings to store with, where files are stored.
    pub fn offload_settings(&self) -> (r: Option<S3OffloadSettings>)
        ensures
            r is Some <==> self.usable(),
            r matches Some(t) ==> {
                &&& Some(t.bucket@) == filled(text_view(self.bucket))
                &&& Some(t.region@) == filled(text_view(self.region))
                &&& Some(t.directory@) == filled(text_view(self.directory))
                &&& text_view(t.endpoint_url) == filled(text_view(self.endpoint_url))
                &&& t.force_path_style == self.force_path_style
                &&& text_view(t.access_key_id) == filled(text_view(self.access_key_id))
                &&& text_view(t.secret_access_key) == filled(text_view(self.secret_access_key))
                &&& text_view(t.session_token) == filled(text_view(self.session_token))
            },
    {
        if !self.enabled {
            return None;
        }
        let bucket = match non_empty(as_text(&self.bucket)) {
            Some(x) => x,
            None => return None,
        };
        let region = match non_empty(as_text(&self.region)) {
            Some(x) => x,
            None => return None,
        };
        let directory = match non_empty(as_text(&self.directory)) {
            Some(x) => x,
            None => return None,
        };
        Some(
            S3OffloadSettings {
                bucket,
                region,
                endpoint_url: non_empty(as_text(&self.endpoint_url)),
                force_path_style: self.force_path_style,
                directory,
                access_key_id: non_empty(as_text(&self.access_key_id)),
                secret_access_key: non_empty(as_text(&self.secret_access_key)),
                session_token: non_empty(as_text(&self.session_token)),
            },
        )
    }
}

/// Commands that run around the service.
#[derive(Debug, Clone)]
pub struct HooksConfig {
    pub pre_boot: Option<HookConfig>,
    pub pre_shutdown: Option<HookConfig>,
}

impl Default for HooksConfig {
    fn default() -> (r: Self)
        ensures
            r.pre_boot is None,
            r.pre_shutdown is None,
    {
        HooksConfig { pre_boot: None, pre_shutdown: None }
    }
}

/// One hook: a script file, a script text, or a script to fetch.
#[derive(Debug, Clone)]
pub struct HookConfig {
    pub script: Option<String>,
    pub inline: Option<String>,
    pub url: Option<String>,
    pub sha256: Option<String>,
    pub timeout_seconds: u64,
    pub on_failure: OnFailure,
}

/// Scheduled jobs.
#[derive(Debug, Clone)]
pub struct CronConfig {
    pub usercron_enabled: bool,
    pub usercron_path: Option<String>,
    pub jobs: Vec<CronJobConfig>,
}

impl Default for CronConfig {
    fn default() -> (r: Self)
        ensures
            !r.usercron_enabled,
            r.usercron_path is None,
            r.jobs@.len() == 0,
    {
        CronConfig { usercron_enabled: false, usercron_path: None, jobs: Vec::new() }
    }
}

/// Speech to text.
#[derive(Debug, Clone)]
pub struct SttConfig {
    pub enabled: bool,
    pub api_key: String,
    pub model: String,
    pub base_url: String,
    /// Whether the transcript is shown in the thread.
    pub echo_transcript: bool,
}

impl Default for SttConfig {
    fn default() -> (r: Self)
        ensures
            !r.enabled,
            r.api_key@.len() == 0,
            r.model@ == "whisper-large-v3-turbo"@,
            r.base_url@ == "https://api.groq.com/openai/v1"@,
            !r.echo_transcript,
    {
        SttConfig {
            enabled: false,
            api_key: String::new(),
            model: default_stt_model(),
            base_url: default_stt_base_url(),
            echo_transcript: default_echo_transcript(),
        }
    }
}

#[derive(Debug)]
pub struct DiscordConfig {
    pub bot_token: String,
    /// All channels, or those listed; decided by the list where it is not given.
    pub allow_all_channels: Option<bool>,
    /// All users, or those listed; decided by the list where it is not given.
    pub allow_all_users: Option<bool>,
    pub allowed_channels: Vec<String>,
    pub allowed_users: Vec<String>,
    pub allow_bot_messages: AllowBots,
    /// The bots that are heard; any where there are none.
    pub trusted_bot_ids: Vec<String>,
    pub allow_user_messages: AllowUsers,
    /// The most bot turns in a row.
    pub max_bot_turns: u32,
    /// The roles whose mention counts as a mention of the bot.
    pub allowed_role_ids: Vec<String>,
    pub allow_dm: bool,
    pub message_processing_mode: MessageProcessingMode,
    pub normal_channel_reply_mode: DiscordNormalChannelReplyMode,
    pub max_buffered_messages: usize,
    pub max_batch_tokens: usize,
}

#[derive(Debug)]
pub struct SlackConfig {
    pub bot_token: String,
    pub app_token: String,
    pub allow_all_channels: Option<bool>,
    pub allow_all_users: Option<bool>,
    pub allowed_channels: Vec<String>,
    pub allowed_users: Vec<String>,
    pub allow_bot_messages: AllowBots,
    pub trusted_bot_ids: Vec<String>,
    pub allow_user_messages: AllowUsers,
    pub max_bot_turns: u32,
    pub message_processing_mode: MessageProcessingMode,
    pub normal_channel_reply_mode: SlackNormalChannelReplyMode,
    pub max_buffered_messages: usize,
    pub max_batch_tokens: usize,
    /// Whether replies stream through the assistant interface.
    pub assistant_mode: bool,
}

#[derive(Debug)]
pub struct GatewayConfig {
    pub url: String,
    pub platform: String,
    pub token: Option<String>,
    pub bot_username: Option<String>,
    pub allow_all_channels: Option<bool>,
    pub allow_all_users: Option<bool>,
    pub allowed_channels: Vec<String>,
    pub allowed_users: Vec<String>,
    pub streaming: bool,
    pub message_processing_mode: MessageProcessingMode,
    pub max_buffered_messages: usize,
    pub max_batch_tokens: usize,
}

/// The agent as a file gives it: what is not written is absent.
#[derive(Debug)]
pub struct AgentConfigRaw {
    pub transport: AgentTransport,
    pub command: Option<String>,
    pub args: Option<Vec<String>>,
    pub url: Option<String>,
    pub headers: Table<String>,
    pub working_dir: Option<String>,
    pub per_session_working_dir: bool,
    pub env: Table<String>,
    pub inherit_env: Vec<String>,
    pub mcp_servers: Vec<AgentMcpServerConfig>,
    pub session_params: Table<String>,
    pub include_session_context: bool,
}

/// The agent.
#[derive(Debug)]
pub struct AgentConfig {
    pub transport: AgentTransport,
    pub command: String,
    pub args: Vec<String>,
    pub url: Option<String>,
    pub headers: Table<String>,
    pub working_dir: String,
    pub per_session_working_dir: bool,
    pub env: Table<String>,
    pub inherit_env: Vec<String>,
    pub mcp_servers: Vec<AgentMcpServerConfig>,
    /// More fields of a session request, each as a JSON text.
    pub session_params: Table<String>,
    pub include_session_context: bool,
    /// Whether the command was written out.
    pub command_explicit: bool,
}

/// Whether an agent's settings are those given, with what was left out put in.
pub open spec fn is_resolved(
    raw: AgentConfigRaw,
    setting: Option<Seq<char>>,
    home: Option<Seq<char>>,
    a: AgentConfig,
) -> bool {
    &&& a.transport == raw.transport
    &&& a.command_explicit == (raw.command is Some)
    &&& a.command@ == (match raw.command {
        Some(c) => c@,
        None => default_command(setting),
    })
    &&& views(a.args@) == (match raw.args {
        Some(given) => views(given@),
        None => if raw.command is Some {
            Seq::<Seq<char>>::empty()
        } else {
            default_args(setting)
        },
    })
    &&& a.url == raw.url
    &&& a.headers == raw.headers
    &&& a.working_dir@ == (match raw.working_dir {
        Some(d) => d@,
        None => default_dir(home),
    })
    &&& a.per_session_working_dir == raw.per_session_working_dir
    &&& a.env == raw.env
    &&& a.inherit_env == raw.inherit_env
    &&& a.mcp_servers == raw.mcp_servers
    &&& a.session_params == raw.session_params
    &&& a.include_session_context == raw.include_session_context
}

impl AgentConfigRaw {
    /// What a file that says nothing of the agent gives.
    pub fn empty() -> (r: Self)
        ensures
            r.transport == AgentTransport::Stdio,
            r.command is None,
            r.args is None,
            r.url is None,
            r.headers@ == Map::<Seq<char>, String>::empty(),
            r.working_dir is None,
            !r.per_session_working_dir,
            r.env@ == Map::<Seq<char>, String>::empty(),
            r.inherit_env@.len() == 0,
            r.mcp_servers@.len() == 0,
            r.session_params@ == Map::<Seq<char>, String>::empty(),
            r.session_params.rows().len() == 0,
            !r.include_session_context,
    {
        AgentConfigRaw {
            transport: AgentTransport::Stdio,
            command: None,
            args: None,
            url: None,
            headers: Table::new(),
            working_dir: None,
            per_session_working_dir: false,
            env: Table::new(),
            inherit_env: Vec::new(),
            mcp_servers: Vec::new(),
            session_params: Table::new(),
            include_session_context: false,
        }
    }

    /// Fills in what is absent. A command that is written out does not take the
    /// arguments of the environment's setting.
    pub fn resolve(self, setting: Option<&str>, home: Option<&str>) -> (r: AgentConfig)
        ensures
            is_resolved(self, setting_view(setting), setting_view(home), r),
    {
        let command_explicit = self.command.is_some();
        let args = match self.args {
            Some(args) => args,
            None => if command_explicit {
                let none: Vec<String> = Vec::new();
                assert(views(none@) =~= Seq::empty());
                none
            } else {
                default_agent_args(setting)
            },
        };
        let command = match self.command {
            Some(c) => c,
            None => default_agent_command(setting),
        };
        let working_dir = match self.working_dir {
            Some(d) => d,
            None => default_working_dir(home),
        };
        AgentConfig {
            transport: self.transport,
            command,
            args,
            url: self.url,
            headers: self.headers,
            working_dir,
            per_session_working_dir: self.per_session_working_dir,
            env: self.env,
            inherit_env: self.inherit_env,
            mcp_servers: self.mcp_servers,
            session_params: self.session_params,
            include_session_context: self.include_session_context,
            command_explicit,
        }
    }
}

/// A tool server that agents are told of.
#[derive(Debug)]
pub struct AgentMcpServerConfig {
    pub name: String,
    pub transport: String,
    pub url: String,
    pub headers: Table<String>,
    pub allowed_tools: Vec<String>,
}

/// The sessions that are kept.
#[derive(Debug, Clone)]
pub struct PoolConfig {
    pub max_sessions: usize,
    /// How long an idle session is kept, in whole seconds.
    pub session_ttl_secs: u64,
    /// Whether the configured time to keep a session is above zero; a part of a
    /// second is, though it makes no whole second.
    pub session_ttl_positive: bool,
    /// The longest prompt.
    pub prompt_hard_timeout_secs: u64,
    /// How often a running prompt is looked at.
    pub liveness_check_secs: u64,
}

impl Default for PoolConfig {
    fn default() -> (r: Self)
        ensures
            r.max_sessions == 10,
            r.session_ttl_secs == 14_400,
            r.session_ttl_positive,
            r.prompt_hard_timeout_secs == 1_800,
            r.liveness_check_secs == 30,
    {
        PoolConfig {
            max_sessions: default_max_sessions(),
            session_ttl_secs: 14_400,
            session_ttl_positive: true,
            prompt_hard_timeout_secs: default_prompt_hard_timeout_secs(),
            liveness_check_secs: default_liveness_check_secs(),
        }
    }
}

/// A scheduled message.
#[derive(Debug, Clone)]
pub struct CronJobConfig {
    /// The name under which the job is written back.
    pub id: Option<String>,
    pub enabled: bool,
    /// The POSIX cron expression.
    pub schedule: String,
    pub channel: String,
    pub message: String,
    pub platform: String,
    pub sender_name: String,
    /// The thread to post to, where there is one already.
    pub thread_id: Option<String>,
    pub timezone: String,
    /// A command that tells whether the goal of the job is reached.
    pub disable_on_success: Option<String>,
    /// What the command prints when it is.
    pub disable_on_success_match: Option<String>,
    pub disable_on_success_timeout_secs: u64,
    pub disable_on_success_working_dir: Option<String>,
}

/// Reactions that show how far a message has come.
#[derive(Debug, Clone)]
pub struct ReactionsConfig {
    pub enabled: bool,
    pub remove_after_reply: bool,
    pub tool_display: ToolDisplay,
    pub emojis: ReactionEmojis,
    pub timing: ReactionTiming,
}

impl Default for ReactionsConfig {
    fn default() -> (r: Self)
        ensures
            r.enabled,
            !r.remove_after_reply,
            r.tool_display == ToolDisplay::Full,
            r.emojis.is_default(),
            r.timing.is_default(),
    {
        ReactionsConfig {
            enabled: true,
            remove_after_reply: false,
            tool_display: ToolDisplay::Full,
            emojis: ReactionEmojis::default(),
            timing: ReactionTiming::default(),
        }
    }
}

#[derive(Debug, Clone)]
pub struct ReactionEmojis {
    pub queued: String,
    pub thinking: String,
    pub tool: String,
    pub coding: String,
    pub web: String,
    pub done: String,
    pub error: String,
}

impl ReactionEmojis {
    pub open spec fn is_default(&self) -> bool {
        &&& self.queued@ == "👀"@
        &&& self.thinking@ == "🤔"@
        &&& self.tool@ == "🔥"@
        &&& self.coding@ == "👨‍💻"@
        &&& self.web@ == "⚡"@
        &&& self.done@ == "🆗"@
        &&& self.error@ == "😱"@
    }
}

impl Default for ReactionEmojis {
    fn default() -> (r: Self)
        ensures
            r.is_default(),
    {
        ReactionEmojis {
            queued: emoji_queued(),
            thinking: emoji_thinking(),
            tool: emoji_tool(),
            coding: emoji_coding(),
            web: emoji_web(),
            done: emoji_done(),
            error: emoji_error(),
        }
    }
}

#[derive(Debug, Clone)]
pub struct ReactionTiming {
    pub debounce_ms: u64,
    pub stall_soft_ms: u64,
    pub stall_hard_ms: u64,
    pub done_hold_ms: u64,
    pub error_hold_ms: u64,
}

impl ReactionTiming {
    pub open spec fn is_default(&self) -> bool {
        &&& self.debounce_ms == 700
        &&& self.stall_soft_ms == 10_000
        &&& self.stall_hard_ms == 30_000
        &&& self.done_hold_ms == 1_500
        &&& self.error_hold_ms == 2_500
    }
}

impl Default for ReactionTiming {
    fn default() -> (r: Self)
        ensures
            r.is_default(),
    {
        ReactionTiming {
            debounce_ms: default_debounce_ms(),
            stall_soft_ms: default_stall_soft_ms(),
            stall_hard_ms: default_stall_hard_ms(),
            done_hold_ms: default_done_hold_ms(),
            error_hold_ms: default_error_hold_ms(),
        }
    }
}

/// How markdown is passed on.
#[derive(Debug, Clone)]
pub struct MarkdownConfig {
    /// How tables are written where the platform does not show them.
    pub tables: TableMode,
}

impl Default for MarkdownConfig {
    fn default() -> (r: Self)
        ensures
            r.tables == TableMode::Code,
    {
        MarkdownConfig { tables: TableMode::Code }
    }
}

/// The whole configuration.
#[derive(Debug)]
pub struct Config {
    pub discord: Option<DiscordConfig>,
    pub slack: Option<SlackConfig>,
    pub gateway: Option<GatewayConfig>,
    pub agentcore: Option<AgentCoreConfig>,
    pub context_mcp: ContextMcpConfig,
    pub agent: AgentConfig,
    pub pool: PoolConfig,
    pub reactions: ReactionsConfig,
    pub stt: SttConfig,
    pub s3: Option<S3Config>,
    pub markdown: MarkdownConfig,
    pub cron: CronConfig,
    pub hooks: HooksConfig,
    pub workspace: WorkspaceConfig,
    pub secrets: SecretsConfig,
}

/// Whether everyone is allowed: as the flag says, or where nobody is listed.
pub fn resolve_allow_all(flag: Option<bool>, list: &[String]) -> (r: bool)
    ensures
        r == (match flag {
            Some(b) => b,
            None => list@.len() == 0,
        }),
{
    match flag {
        Some(b) => b,
        None => list.len() == 0,
    }
}

} // verus!
