//! The words that settings are named by.

use vstd::prelude::*;
use crate::config::{
    AgentCoreCancelStrategy, AgentTransport, AllowBots, AllowUsers, MessageProcessingMode,
    NormalChannelReplyMode, OnFailure, TableMode, ToolDisplay,
};

verus! {

/// Each of the processing modes is named by words of its own, and by no others.
pub proof fn message_processing_mode_is_named_by_its_words(word: Seq<char>)
    ensures
        MessageProcessingMode::named(word) == Some(MessageProcessingMode::Message) <==> word == "per_message"@,
        MessageProcessingMode::named(word) == Some(MessageProcessingMode::Thread) <==> word == "per_thread"@,
        MessageProcessingMode::named(word) == Some(MessageProcessingMode::Lane) <==> word == "per_lane"@,
{
    reveal_strlit("per_message");
    reveal_strlit("per_thread");
    reveal_strlit("per_lane");
    assert("per_message"@.len() == 11 && "per_thread"@.len() == 10 && "per_lane"@.len() == 8);
}

/// Each of the modes for bots is named by words of its own, and by no others.
pub proof fn allow_bots_is_named_by_its_words(word: Seq<char>)
    ensures
        AllowBots::named(word) == Some(AllowBots::Off) <==> word == "off"@ || word == "none"@ || word == "false"@,
        AllowBots::named(word) == Some(AllowBots::Mentions) <==> word == "mentions"@,
        AllowBots::named(word) == Some(AllowBots::All) <==> word == "all"@ || word == "true"@,
{
    reveal_strlit("off");
    reveal_strlit("none");
    reveal_strlit("false");
    reveal_strlit("mentions");
    reveal_strlit("all");
    reveal_strlit("true");
    assert("off"@.len() == 3 && "none"@.len() == 4 && "false"@.len() == 5 && "mentions"@.len() == 8 && "all"@.len() == 3 && "true"@.len() == 4);
    assert("all"@[0] == 'a' && "off"@[0] == 'o');
    assert("true"@[0] == 't' && "none"@[0] == 'n');
}

/// Each of the ways of cancelling is named by words of its own, and by no others.
pub proof fn agent_core_cancel_strategy_is_named_by_its_words(word: Seq<char>)
    ensures
        AgentCoreCancelStrategy::named(word) == Some(AgentCoreCancelStrategy::Stop) <==> word == "stop"@,
        AgentCoreCancelStrategy::named(word) == Some(AgentCoreCancelStrategy::Noop) <==> word == "noop"@,
{
    reveal_strlit("stop");
    reveal_strlit("noop");
    assert("stop"@.len() == 4 && "noop"@.len() == 4);
    assert("noop"@[0] == 'n' && "stop"@[0] == 's');
}

/// Each of the answers to failure is named by words of its own, and by no others.
pub proof fn on_failure_is_named_by_its_words(word: Seq<char>)
    ensures
        OnFailure::named(word) == Some(OnFailure::Abort) <==> word == "abort"@,
        OnFailure::named(word) == Some(OnFailure::Warn) <==> word == "warn"@,
{
    reveal_strlit("abort");
    reveal_strlit("warn");
    assert("abort"@.len() == 5 && "warn"@.len() == 4);
}

/// Each of the modes for people is named by words of its own, and by no others.
pub proof fn allow_users_is_named_by_its_words(word: Seq<char>)
    ensures
        AllowUsers::named(word) == Some(AllowUsers::Involved) <==> word == "involved"@,
        AllowUsers::named(word) == Some(AllowUsers::Mentions) <==> word == "mentions"@,
        AllowUsers::named(word) == Some(AllowUsers::MultibotMentions) <==> word == "multibot_mentions"@,
{
    reveal_strlit("involved");
    reveal_strlit("mentions");
    reveal_strlit("multibot_mentions");
    assert("involved"@.len() == 8 && "mentions"@.len() == 8 && "multibot_mentions"@.len() == 17);
    assert("mentions"@[0] == 'm' && "involved"@[0] == 'i');
}

/// Each of the modes for channels is named by words of its own, and by no others.
pub proof fn normal_channel_reply_mode_is_named_by_its_words(word: Seq<char>)
    ensures
        NormalChannelReplyMode::named(word) == Some(NormalChannelReplyMode::Thread) <==> word == "thread"@,
        NormalChannelReplyMode::named(word) == Some(NormalChannelReplyMode::Inline) <==> word == "inline"@,
{
    reveal_strlit("thread");
    reveal_strlit("inline");
    assert("thread"@.len() == 6 && "inline"@.len() == 6);
    assert("inline"@[0] == 'i' && "thread"@[0] == 't');
}

/// Each of the transports is named by words of its own, and by no others.
pub proof fn agent_transport_is_named_by_its_words(word: Seq<char>)
    ensures
        AgentTransport::named(word) == Some(AgentTransport::Stdio) <==> word == "stdio"@,
        AgentTransport::named(word) == Some(AgentTransport::WebSocket) <==> word == "websocket"@ || word == "ws"@,
{
    reveal_strlit("stdio");
    reveal_strlit("websocket");
    reveal_strlit("ws");
    assert("stdio"@.len() == 5 && "websocket"@.len() == 9 && "ws"@.len() == 2);
}

/// Each of the modes for tables is named by words of its own, and by no others.
pub proof fn table_mode_is_named_by_its_words(word: Seq<char>)
    ensures
        TableMode::named(word) == Some(TableMode::Code) <==> word == "code"@,
        TableMode::named(word) == Some(TableMode::Bullets) <==> word == "bullets"@,
        TableMode::named(word) == Some(TableMode::Off) <==> word == "off"@,
{
    reveal_strlit("code");
    reveal_strlit("bullets");
    reveal_strlit("off");
    assert("code"@.len() == 4 && "bullets"@.len() == 7 && "off"@.len() == 3);
}

/// Each of the ways to show tools is named by words of its own, and by no others.
pub proof fn tool_display_is_named_by_its_words(word: Seq<char>)
    ensures
        ToolDisplay::named(word) == Some(ToolDisplay::Full) <==> word == "full"@,
        ToolDisplay::named(word) == Some(ToolDisplay::Compact) <==> word == "compact"@,
        ToolDisplay::named(word) == Some(ToolDisplay::Hidden) <==> word == "none"@ || word == "off"@ || word == "hidden"@,
{
    reveal_strlit("full");
    reveal_strlit("compact");
    reveal_strlit("none");
    reveal_strlit("off");
    reveal_strlit("hidden");
    assert("full"@.len() == 4 && "compact"@.len() == 7 && "none"@.len() == 4 && "off"@.len() == 3 && "hidden"@.len() == 6);
    assert("none"@[0] == 'n' && "full"@[0] == 'f');
}

} // verus!
