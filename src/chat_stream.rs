//! What the chat client does with each line once it has joined the channel.
use vstd::prelude::*;
use crate::chat::ChatMessage;
use crate::line::ChatLine;
use crate::tags::{badges_view, emotes_view, opt_view, privmsg_ok, req_spec, PRIVMSGTags};
use crate::text::str_eq;

verus! {

/// What the chat client does next.
pub enum ChatAction {
    /// Answer the ping, then read on.
    Pong,
    /// Read on.
    Continue,
    /// Publish this message to the subscribers.
    Publish(ChatMessage),
    /// This user joined the channel.
    Joined(String),
    /// This user left the channel.
    Parted(String),
    /// A line whose tags or prefix are not as the server sends them: a fatal
    /// error.
    Malformed,
    /// A line of no expected kind: a fatal error.
    Unrecognized,
}

/// Commands the client reads past.
pub open spec fn ignored_command(c: Seq<char>) -> bool {
    c == "CLEARCHAT"@ || c == "CLEARMSG"@ || c == "USERNOTICE"@ || c == "USERSTATE"@
        || c == "ROOMSTATE"@ || c == "HOSTTARGET"@ || c == "RECONNECT"@ || c == "WHISPER"@
}

fn is_ignored_command(c: &str) -> (r: bool)
    ensures
        r == ignored_command(c@),
{
    str_eq(c, "CLEARCHAT") || str_eq(c, "CLEARMSG") || str_eq(c, "USERNOTICE") || str_eq(c, "USERSTATE")
        || str_eq(c, "ROOMSTATE") || str_eq(c, "HOSTTARGET") || str_eq(c, "RECONNECT") || str_eq(c, "WHISPER")
}

/// The decision for one line read in the channel `channel`. A chat message
/// is published with what its tags say of its sender.
pub fn chat_action(channel: &str, line: ChatLine) -> (r: ChatAction)
    ensures
        match line {
            ChatLine::Ping => r is Pong,
            ChatLine::Pong => r is Continue,
            ChatLine::Notice(_) => r is Continue,
            ChatLine::Privmsg { text, tags } => if privmsg_ok(tags@) {
                r matches ChatAction::Publish(m) && {
                    &&& m.channel@ == channel@
                    &&& m.text == text
                    &&& req_spec(tags@, "id"@) == Some(m.id@)
                    &&& req_spec(tags@, "user-id"@) == Some(m.user_id@)
                    &&& req_spec(tags@, "display-name"@) == Some(m.display_name@)
                    &&& m.is_moderator == (req_spec(tags@, "mod"@) == Some("1"@))
                    &&& m.is_subscriber == (req_spec(tags@, "subscriber"@) == Some("1"@))
                    &&& crate::tags::badges_text_spec(req_spec(tags@, "badges"@).unwrap()) == Some(badges_view(m.badges@))
                    &&& crate::tags::emote_tag_spec(crate::tags::tag_lookup(tags@, "emotes"@)) == Some(emotes_view(m.emotes@))
                    &&& crate::tags::opt_spec(tags@, "color"@) == Some(opt_view(m.name_color))
                }
            } else {
                r is Malformed
            },
            ChatLine::Join(Some(nick)) => r == ChatAction::Joined(nick),
            ChatLine::Part(Some(nick)) => r == ChatAction::Parted(nick),
            ChatLine::Join(None) => r is Malformed,
            ChatLine::Part(None) => r is Malformed,
            ChatLine::Raw { command, tags } => if ignored_command(command@) {
                r is Continue
            } else {
                r is Unrecognized
            },
            _ => r is Unrecognized,
        },
{
    match line {
        ChatLine::Ping => ChatAction::Pong,
        ChatLine::Pong => ChatAction::Continue,
        ChatLine::Notice(_) => ChatAction::Continue,
        ChatLine::Privmsg { text, tags } => match PRIVMSGTags::from_tags(&tags) {
            None => ChatAction::Malformed,
            Some(t) => ChatAction::Publish(ChatMessage {
                id: t.id,
                channel: String::from_str(channel),
                text,
                user_id: t.user_id,
                is_moderator: t.is_mod,
                is_subscriber: t.subscriber,
                emotes: t.emotes,
                display_name: t.display_name,
                name_color: t.color,
                badges: t.badges,
            }),
        },
        ChatLine::Join(Some(nick)) => ChatAction::Joined(nick),
        ChatLine::Part(Some(nick)) => ChatAction::Parted(nick),
        ChatLine::Join(None) => ChatAction::Malformed,
        ChatLine::Part(None) => ChatAction::Malformed,
        ChatLine::Raw { command, tags } => {
            if is_ignored_command(command.as_str()) {
                ChatAction::Continue
            } else {
                ChatAction::Unrecognized
            }
        },
        _ => ChatAction::Unrecognized,
    }
}

} // verus!
