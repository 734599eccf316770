//! The events that travel over the link, in both directions.
use vstd::prelude::*;

verus! {

/// A presence status of the bot account; carried through to the chat
/// platform unread.
#[verifier::external_type_specification]
#[verifier::external_body]
pub struct ExOnlineStatus(serenity::model::user::OnlineStatus);

/// Rich structured content; carried through to the chat platform unread.
#[verifier::external_type_specification]
#[verifier::external_body]
pub struct ExEmbed(serenity::model::channel::Embed);

/// Free-form text, or rich structured content.
#[derive(Debug)]
pub enum Message {
    Text(String),
    Embed(serenity::model::channel::Embed),
}

/// The downstream channel a log line is routed to.
#[derive(Clone, Copy, Debug, PartialEq, Eq, Structural, Hash)]
pub enum LogType {
    /// When a command gets executed
    Command,
    /// All stuff happening inside the server
    GameEvent,
    /// All stuff happening inside the server but with sensitive data
    GameEventSensitive,
    /// A banned player
    Ban,
    /// When a game report is sent
    Report,
    /// When a player gets disconnected specifically
    Disconnect,
}

/// A command sent by the bot to a plugin.
#[derive(Clone, Debug)]
pub struct CommandEvent {
    /// Identifier given by the bot, echoed in the matching reply.
    pub command_id: u64,
    pub command: String,
}

/// Notice that the bot is closing the connection, and why.
#[derive(Clone, Debug)]
pub struct DropEvent {
    pub reason: String,
}

/// An event sent by the bot to a plugin.
#[derive(Clone, Debug)]
pub enum ClientEvent {
    Command(CommandEvent),
    Drop(DropEvent),
}

impl ClientEvent {
    /// Whether sending this event ends the session: a drop notice is the
    /// last thing a peer is sent.
    pub fn ends_session(&self) -> (r: bool)
        ensures
            r == (self is Drop),
    {
        match self {
            ClientEvent::Drop(_) => true,
            ClientEvent::Command(_) => false,
        }
    }
}

/// The outcome of a command that the bot dispatched.
#[derive(Debug)]
pub struct CommandReplyEvent {
    /// Identifier of the command this replies to.
    pub command_id: u64,
    pub reply: Message,
    pub error: bool,
}

/// A log line raised in the game server.
#[derive(Debug)]
pub struct LogEvent {
    pub message: Message,
    pub log_type: LogType,
}

/// The presence the bot should show.
#[derive(Debug)]
pub struct StatusEvent {
    /// What's the activity
    pub activity: Option<String>,
    pub status: serenity::model::user::OnlineStatus,
}

/// An event sent by a plugin to the bot.
#[derive(Debug)]
pub enum ServerEvent {
    Log(LogEvent),
    CommandReply(CommandReplyEvent),
    Status(StatusEvent),
}

} // verus!
