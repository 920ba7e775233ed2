//! Chat messages as the bot sees them, and the emotes placed in their text.
use vstd::prelude::*;
use crate::text::{push_char, str_eq, to_chars};

verus! {

/// An emote and the places it fills in a message's text: pairs of first and
/// last character positions, both included.
#[derive(Clone, Debug)]
pub struct EmoteInfo {
    pub id: String,
    pub locations: Vec<(u16, u16)>,
}

/// A chat message received in the channel.
#[derive(Clone, Debug)]
pub struct ChatMessage {
    pub id: String,
    pub channel: String,
    pub text: String,
    pub user_id: String,
    pub is_moderator: bool,
    pub is_subscriber: bool,
    pub emotes: Vec<EmoteInfo>,
    pub display_name: String,
    pub name_color: Option<String>,
    /// The sender's badges, as (name, version) pairs.
    pub badges: Vec<(String, String)>,
}

pub open spec fn has_badge(badges: Seq<(String, String)>, name: Seq<char>) -> bool {
    exists|i: int| 0 <= i < badges.len() && #[trigger] badges[i].0@ == name
}

/// The start of the first location, in order, that holds position `i`.
pub open spec fn location_cover(locs: Seq<(u16, u16)>, i: int) -> Option<u16>
    decreases locs.len(),
{
    if locs.len() == 0 {
        None
    } else if locs[0].0 <= i <= locs[0].1 {
        Some(locs[0].0)
    } else {
        location_cover(locs.drop_first(), i)
    }
}

/// The id of the first emote, in order, that holds position `i`, with the
/// start of that emote's location.
pub open spec fn emote_cover(emotes: Seq<EmoteInfo>, i: int) -> Option<(Seq<char>, u16)>
    decreases emotes.len(),
{
    if emotes.len() == 0 {
        None
    } else {
        match location_cover(emotes[0].locations@, i) {
            Some(s) => Some((emotes[0].id@, s)),
            None => emote_cover(emotes.drop_first(), i),
        }
    }
}

fn find_location(locs: &Vec<(u16, u16)>, i: usize) -> (r: Option<u16>)
    ensures
        r == location_cover(locs@, i as int),
{
    let mut k: usize = 0;
    assert(locs@.subrange(0, locs@.len() as int) =~= locs@);
    while k < locs.len()
        invariant
            k <= locs@.len(),
            location_cover(locs@, i as int) == location_cover(locs@.subrange(k as int, locs@.len() as int), i as int),
        decreases locs@.len() - k,
    {
        let (a, b) = locs[k];
        assert(locs@.subrange(k as int, locs@.len() as int).drop_first() =~= locs@.subrange(k + 1, locs@.len() as int));
        if a as usize <= i && i <= b as usize {
            return Some(a);
        }
        k = k + 1;
    }
    None
}

/// The index of the emote that holds position `i`, and the start of its
/// location: see `emote_cover`.
pub fn find_emote(emotes: &Vec<EmoteInfo>, i: usize) -> (r: Option<(usize, u16)>)
    ensures
        match r {
            Some((e, s)) => e < emotes@.len() && emote_cover(emotes@, i as int) == Some((emotes@[e as int].id@, s)),
            None => emote_cover(emotes@, i as int) is None,
        },
{
    let mut k: usize = 0;
    assert(emotes@.subrange(0, emotes@.len() as int) =~= emotes@);
    while k < emotes.len()
        invariant
            k <= emotes@.len(),
            emote_cover(emotes@, i as int) == emote_cover(emotes@.subrange(k as int, emotes@.len() as int), i as int),
        decreases emotes@.len() - k,
    {
        assert(emotes@.subrange(k as int, emotes@.len() as int).drop_first() =~= emotes@.subrange(k + 1, emotes@.len() as int));
        match find_location(&emotes[k].locations, i) {
            Some(s) => {
                return Some((k, s));
            },
            None => {},
        }
        k = k + 1;
    }
    None
}

/// The characters of `text` at positions no emote holds.
pub open spec fn strip_acc(text: Seq<char>, emotes: Seq<EmoteInfo>, n: nat) -> Seq<char>
    decreases n,
{
    if n == 0 {
        Seq::empty()
    } else {
        let rest = strip_acc(text, emotes, (n - 1) as nat);
        if emote_cover(emotes, n - 1) is Some {
            rest
        } else {
            rest.push(text[n - 1])
        }
    }
}

pub open spec fn strip_spec(text: Seq<char>, emotes: Seq<EmoteInfo>) -> Seq<char> {
    strip_acc(text, emotes, text.len())
}

/// The text that opens a `/me` message, closed by the same control
/// character.
pub open spec fn action_open() -> Seq<char> {
    "\u{1}ACTION "@
}

/// The text of a `/me` message without its wrapping; `None` for another
/// message.
pub open spec fn action_text(t: Seq<char>) -> Option<Seq<char>> {
    if t.len() >= 9 && t.subrange(0, 8) == action_open() && t.last() == '\u{1}' {
        Some(t.subrange(8, t.len() - 1))
    } else {
        None
    }
}

impl ChatMessage {
    /// Whether the sender carries the broadcaster badge.
    pub fn user_is_broadcaster(&self) -> (r: bool)
        ensures
            r == has_badge(self.badges@, "broadcaster"@),
    {
        let mut i: usize = 0;
        while i < self.badges.len()
            invariant
                i <= self.badges@.len(),
                forall|j: int| 0 <= j < i ==> #[trigger] self.badges@[j].0@ != "broadcaster"@,
            decreases self.badges@.len() - i,
        {
            if str_eq(self.badges[i].0.as_str(), "broadcaster") {
                return true;
            }
            i = i + 1;
        }
        false
    }

    /// Whether the sender is a moderator or the broadcaster.
    pub fn user_is_super(&self) -> (r: bool)
        ensures
            r == (self.is_moderator || has_badge(self.badges@, "broadcaster"@)),
    {
        self.is_moderator || self.user_is_broadcaster()
    }

    /// The text without the characters that emotes fill.
    pub fn strip_emotes(&self) -> (r: String)
        ensures
            r@ == strip_spec(self.text@, self.emotes@),
    {
        let cs = to_chars(self.text.as_str());
        let mut r = String::new();
        let mut i: usize = 0;
        while i < cs.len()
            invariant
                cs@ == self.text@,
                i <= cs@.len(),
                r@ == strip_acc(self.text@, self.emotes@, i as nat),
            decreases cs@.len() - i,
        {
            if find_emote(&self.emotes, i).is_none() {
                push_char(&mut r, cs[i]);
            }
            i = i + 1;
        }
        r
    }

    /// The text of a `/me` message, without its wrapping; `None` for
    /// another message.
    pub fn try_get_action(&self) -> (r: Option<String>)
        ensures
            match r {
                Some(t) => action_text(self.text@) == Some(t@),
                None => action_text(self.text@) is None,
            },
    {
        let cs = to_chars(self.text.as_str());
        let n = cs.len();
        if n < 9 || !crate::text::chars_start_with(&cs, "\u{1}ACTION ") || cs[n - 1] != '\u{1}' {
            proof {
                reveal_strlit("\u{1}ACTION ");
            }
            return None;
        }
        proof {
            reveal_strlit("\u{1}ACTION ");
        }
        Some(crate::text::string_of(&cs, 8, n - 1))
    }
}

} // verus!
