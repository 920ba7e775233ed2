//! One line read from the chat server, in the shape that the session logic
//! reads it.
use vstd::prelude::*;

verus! {

/// A message tag of a chat line: a key and an optional value.
pub struct LineTag {
    pub key: String,
    pub value: Option<String>,
}

/// The command of a chat line.
pub enum ChatLine {
    /// A server notice, with its text.
    Notice(String),
    /// A keepalive ping, to be answered with a pong.
    Ping,
    Pong,
    /// The server acknowledged the requested capabilities.
    CapAck,
    /// A numeric server reply.
    Reply(u16),
    /// A user joined the channel; the nickname of the line's prefix.
    Join(Option<String>),
    /// A user left the channel; the nickname of the line's prefix.
    Part(Option<String>),
    /// A chat message, with its text and the line's tags.
    Privmsg { text: String, tags: Vec<LineTag> },
    /// A command the client library does not know, by name, with the line's tags.
    Raw { command: String, tags: Vec<LineTag> },
    /// Anything else.
    Other,
}

pub const RPL_WELCOME: u16 = 1;
pub const RPL_YOURHOST: u16 = 2;
pub const RPL_CREATED: u16 = 3;
pub const RPL_MYINFO: u16 = 4;
pub const RPL_NAMREPLY: u16 = 353;
pub const RPL_ENDOFNAMES: u16 = 366;
pub const RPL_MOTD: u16 = 372;
pub const RPL_MOTDSTART: u16 = 375;
pub const RPL_ENDOFMOTD: u16 = 376;

} // verus!
