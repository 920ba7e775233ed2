//! What the overlay client is asked to show or play.
use vstd::prelude::*;
use crate::chat::{action_text, emote_cover, find_emote, ChatMessage};
use crate::text::{push_char, split_at_any, split_spec, to_chars};

verus! {

/// A kind of component of the overlay client.
#[derive(PartialEq, Eq, Structural, Clone, Copy)]
pub enum Type {
    Audio,
    Chat,
}

/// A sound to play, by name.
#[derive(Clone, Debug)]
pub struct Sound {
    pub name: String,
}

/// A piece of a chat message: plain text or an emote.
#[derive(Clone, Debug)]
pub enum Chat {
    Text { content: String },
    Emote { emote: String },
}

/// How a chatter is shown.
#[derive(Clone, Debug)]
pub struct ChatterInfo {
    pub display_name: String,
    pub name_color: String,
    pub badges: Vec<String>,
}

/// Whether a chat message is a `/me` action.
#[derive(PartialEq, Eq, Structural, Clone, Copy)]
pub enum ChatMetadata {
    Plain,
    Action,
}

/// The text `s` without leading and trailing white space.
pub uninterp spec fn trimmed(s: Seq<char>) -> Seq<char>;

/// Relies on `str::trim`: the text without leading and trailing white
/// space; the result depends on the text alone.
#[verifier::external_body]
pub(crate) fn trim(s: &str) -> (r: &str)
    ensures
        r@ == trimmed(s@),
{
    s.trim()
}

/// The sound names of `s`: groups cut at spaces and commas, each group cut
/// at `+` into sounds played together.
pub open spec fn sounds_spec(s: Seq<char>) -> Seq<Seq<Seq<char>>> {
    split_spec(s, " ,"@).map_values(|w: Seq<char>| split_group(w))
}

pub open spec fn split_group(w: Seq<char>) -> Seq<Seq<char>> {
    split_spec(w, "+"@)
}

pub open spec fn sound_name(x: Sound) -> Seq<char> {
    x.name@
}

pub open spec fn group_view(g: Seq<Sound>) -> Seq<Seq<char>> {
    g.map_values(|x: Sound| sound_name(x))
}

pub open spec fn sounds_view(v: Seq<Vec<Sound>>) -> Seq<Seq<Seq<char>>> {
    v.map_values(|g: Vec<Sound>| group_view(g@))
}

impl Sound {
    /// The groups of sounds that `input` names, after trimming it: see
    /// `sounds_spec`.
    pub fn parse(input: &str) -> (r: Vec<Vec<Sound>>)
        ensures
            sounds_view(r@) == sounds_spec(trimmed(input@)),
    {
        Sound::parse_trimmed(trim(input))
    }

    /// The groups of sounds that an already trimmed `input` names: see
    /// `sounds_spec`.
    pub fn parse_trimmed(input: &str) -> (r: Vec<Vec<Sound>>)
        ensures
            sounds_view(r@) == sounds_spec(input@),
    {
        let cs = to_chars(input);
        let words = split_at_any(&cs, 0, cs.len(), " ,");
        assert(cs@.subrange(0, cs@.len() as int) =~= input@);
        let ghost wv = words.deep_view();
        let mut r: Vec<Vec<Sound>> = Vec::new();
        let mut i: usize = 0;
        while i < words.len()
            invariant
                wv == words.deep_view(),
                wv == split_spec(input@, " ,"@),
                wv.len() == words@.len(),
                r@.len() == i,
                i <= words@.len(),
                sounds_view(r@) == sounds_spec(input@).subrange(0, i as int),
            decreases words@.len() - i,
        {
            let wc = to_chars(words[i].as_str());
            assert(wv[i as int] == words@[i as int]@);
            let parts = split_at_any(&wc, 0, wc.len(), "+");
            assert(wc@.subrange(0, wc@.len() as int) =~= wc@);
            let mut group: Vec<Sound> = Vec::new();
            let mut j: usize = 0;
            while j < parts.len()
                invariant
                    j <= parts@.len(),
                    group@.len() == j,
                    parts.deep_view() == split_spec(wc@, "+"@),
                    group_view(group@) == parts.deep_view().subrange(0, j as int),
                decreases parts@.len() - j,
            {
                let ghost before = group@;
                group.push(Sound { name: parts[j].clone() });
                assert(parts.deep_view()[j as int] == parts@[j as int]@);
                assert(group@ == before.push(group@[j as int]));
                assert(group_view(group@)[j as int] == group@[j as int].name@);
                assert(group_view(group@) =~= parts.deep_view().subrange(0, j + 1));
                j = j + 1;
            }
            assert(group_view(group@) =~= split_group(wv[i as int]));
            let ghost before = r@;
            r.push(group);
            assert(r@ == before.push(r@[i as int]));
            assert(sounds_spec(input@)[i as int] == split_group(wv[i as int]));
            assert(sounds_view(r@)[i as int] == group_view(r@[i as int]@));
            assert(sounds_view(r@) =~= sounds_spec(input@).subrange(0, i + 1));
            i = i + 1;
        }
        assert(sounds_spec(input@).subrange(0, i as int) =~= sounds_spec(input@));
        r
    }
}

/// A piece of a chat message, as text.
pub ghost enum PieceModel {
    Text(Seq<char>),
    Emote(Seq<char>),
}

pub open spec fn piece_view(c: Chat) -> PieceModel {
    match c {
        Chat::Text { content } => PieceModel::Text(content@),
        Chat::Emote { emote } => PieceModel::Emote(emote@),
    }
}

pub open spec fn pieces_view(v: Seq<Chat>) -> Seq<PieceModel> {
    v.map_values(|c: Chat| piece_view(c))
}

/// The pieces so far, with the text still being gathered closed off, if
/// any.
pub open spec fn flush(out: Seq<PieceModel>, cur: Seq<char>) -> Seq<PieceModel> {
    if cur.len() > 0 {
        out.push(PieceModel::Text(cur))
    } else {
        out
    }
}

/// The first `n` characters of `text` in pieces, and the text still being
/// gathered. An emote stands in the place of its first character; the
/// other characters it holds are dropped.
pub open spec fn pieces_acc(text: Seq<char>, emotes: Seq<crate::chat::EmoteInfo>, n: nat) -> (Seq<PieceModel>, Seq<char>)
    decreases n,
{
    if n == 0 {
        (Seq::empty(), Seq::empty())
    } else {
        let (out, cur) = pieces_acc(text, emotes, (n - 1) as nat);
        let i = n - 1;
        match emote_cover(emotes, i) {
            None => (out, cur.push(text[i])),
            Some((id, start)) => if i == start as int {
                (flush(out, cur).push(PieceModel::Emote(id)), Seq::empty())
            } else {
                (out, cur)
            },
        }
    }
}

pub open spec fn pieces_spec(text: Seq<char>, emotes: Seq<crate::chat::EmoteInfo>) -> Seq<PieceModel> {
    let (out, cur) = pieces_acc(text, emotes, text.len());
    flush(out, cur)
}

impl Chat {
    /// A chat message in pieces of text and emotes, and whether it is a
    /// `/me` action, whose text is then read without its wrapping.
    pub fn from_chat_message(chat_message: &ChatMessage) -> (r: (Vec<Chat>, ChatMetadata))
        ensures
            match action_text(chat_message.text@) {
                Some(t) => r.1 == ChatMetadata::Action && pieces_view(r.0@) == pieces_spec(t, chat_message.emotes@),
                None => r.1 == ChatMetadata::Plain && pieces_view(r.0@) == pieces_spec(chat_message.text@, chat_message.emotes@),
            },
    {
        let (text, metadata) = match chat_message.try_get_action() {
            Some(action) => (action, ChatMetadata::Action),
            None => (chat_message.text.clone(), ChatMetadata::Plain),
        };
        let cs = to_chars(text.as_str());
        let emotes = &chat_message.emotes;
        let mut output: Vec<Chat> = Vec::new();
        let mut current = String::new();
        let mut i: usize = 0;
        while i < cs.len()
            invariant
                cs@ == text@,
                i <= cs@.len(),
                (pieces_view(output@), current@) == pieces_acc(text@, emotes@, i as nat),
            decreases cs@.len() - i,
        {
            match find_emote(emotes, i) {
                None => {
                    push_char(&mut current, cs[i]);
                },
                Some((e, start)) => {
                    if i == start as usize {
                        if current.unicode_len() > 0 {
                            let ghost o = pieces_view(output@);
                            output.push(Chat::Text { content: current });
                            assert(pieces_view(output@) =~= o.push(PieceModel::Text(current@)));
                            current = String::new();
                        }
                        let ghost o = pieces_view(output@);
                        output.push(Chat::Emote { emote: emotes[e].id.clone() });
                        assert(pieces_view(output@) =~= o.push(PieceModel::Emote(emotes@[e as int].id@)));
                    }
                },
            }
            i = i + 1;
        }
        if current.unicode_len() > 0 {
            let ghost o = pieces_view(output@);
            output.push(Chat::Text { content: current });
            assert(pieces_view(output@) =~= o.push(PieceModel::Text(current@)));
        }
        (output, metadata)
    }
}

} // verus!
