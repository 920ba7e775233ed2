//! Listeners: commands that run on chat messages matching a pattern rather
//! than on a `!name`.
use vstd::prelude::*;
use crate::command::CommandRules;
use crate::component::{trim, trimmed};
use crate::text::{push_char, str_eq, to_chars};

verus! {

/// The groups of the first match of the regular expression `pattern` in
/// `text`: the whole match first, then each group, `None` for a group that
/// took no part; `None` when the pattern does not compile or does not match.
pub uninterp spec fn regex_groups(pattern: Seq<char>, text: Seq<char>) -> Option<Seq<Option<Seq<char>>>>;

/// Relies on `regex::Regex::new` and `Regex::captures`: compiles the
/// pattern and reads the groups of the first match, each group's text or
/// `None` when it took no part; the result depends on the two texts alone.
#[verifier::external_body]
fn regex_captures(pattern: &str, text: &str) -> (r: Option<Vec<Option<String>>>)
    ensures
        r.deep_view() == regex_groups(pattern@, text@),
{
    let re = regex::Regex::new(pattern).ok()?;
    let caps = re.captures(text)?;
    Some(caps.iter().map(|m| m.map(|m| String::from(m.as_str()))).collect())
}

/// Whether `pattern` compiles as a regular expression.
pub uninterp spec fn regex_compiles(pattern: Seq<char>) -> bool;

/// Relies on `regex::Regex::new`: whether the pattern compiles.
#[verifier::external_body]
pub fn regex_is_valid(pattern: &str) -> (r: bool)
    ensures
        r == regex_compiles(pattern@),
{
    regex::Regex::new(pattern).is_ok()
}

/// `text` with the first match of the regular expression `pattern` replaced
/// by `replacement`, in which `$1` stands for the first group.
pub uninterp spec fn regex_replaced(pattern: Seq<char>, text: Seq<char>, replacement: Seq<char>) -> Seq<char>;

/// Relies on `regex::Regex::replace`: replaces the first match, expanding
/// `$n` in the replacement; the text as it is when the pattern does not
/// compile. The result depends on the three texts alone.
#[verifier::external_body]
fn regex_replace_first(pattern: &str, text: &str, replacement: &str) -> (r: String)
    ensures
        r@ == regex_replaced(pattern@, text@, replacement@),
{
    match regex::Regex::new(pattern) {
        Ok(re) => re.replace(text, replacement).into_owned(),
        Err(_) => String::from(text),
    }
}

/// What a listener waits for in a message.
pub enum Predicate {
    /// The whole message.
    Exactly(String),
    /// Some part of the message.
    Contains(String),
    /// A regular expression, by its source.
    Regex(String),
}

pub ghost enum PredicateModel {
    Exactly(Seq<char>),
    Contains(Seq<char>),
    Regex(Seq<char>),
}

impl View for Predicate {
    type V = PredicateModel;

    open spec fn view(&self) -> PredicateModel {
        match self {
            Predicate::Exactly(p) => PredicateModel::Exactly(p@),
            Predicate::Contains(p) => PredicateModel::Contains(p@),
            Predicate::Regex(p) => PredicateModel::Regex(p@),
        }
    }
}

pub open spec fn contains_seq(hay: Seq<char>, needle: Seq<char>) -> bool {
    exists|i: int| 0 <= i && i + needle.len() <= hay.len() && #[trigger] hay.subrange(i, i + needle.len()) == needle
}

/// The groups that took part, in order.
pub open spec fn taking_part(gs: Seq<Option<Seq<char>>>) -> Seq<Seq<char>>
    decreases gs.len(),
{
    if gs.len() == 0 {
        Seq::empty()
    } else {
        let rest = taking_part(gs.drop_last());
        match gs.last() {
            Some(g) => rest.push(g),
            None => rest,
        }
    }
}

/// The arguments a message gives a listener: none for a plain pattern that
/// matches, the groups that took part for a regular expression; `None` when
/// it does not match.
pub open spec fn args_spec(p: PredicateModel, message: Seq<char>) -> Option<Seq<Seq<char>>> {
    match p {
        PredicateModel::Exactly(pat) => if message == pat {
            Some(Seq::empty())
        } else {
            None
        },
        PredicateModel::Contains(pat) => if contains_seq(message, pat) {
            Some(Seq::empty())
        } else {
            None
        },
        PredicateModel::Regex(pat) => match regex_groups(pat, message) {
            Some(gs) => Some(taking_part(gs)),
            None => None,
        },
    }
}

fn matches_at(hay: &Vec<char>, i: usize, needle: &Vec<char>) -> (r: bool)
    requires
        i + needle@.len() <= hay@.len(),
    ensures
        r == (hay@.subrange(i as int, i + needle@.len()) == needle@),
{
    let hl = hay.len();
    let mut j: usize = 0;
    while j < needle.len()
        invariant
            hl == hay@.len(),
            i + needle@.len() <= hay@.len(),
            j <= needle@.len(),
            forall|k: int| 0 <= k < j ==> hay@[i + k] == needle@[k],
        decreases needle@.len() - j,
    {
        if hay[i + j] != needle[j] {
            assert(hay@.subrange(i as int, i + needle@.len())[j as int] != needle@[j as int]);
            return false;
        }
        j = j + 1;
    }
    assert(hay@.subrange(i as int, i + needle@.len()) =~= needle@);
    true
}

/// Whether `needle` occurs in `hay`.
pub fn str_contains(hay: &str, needle: &str) -> (r: bool)
    ensures
        r == contains_seq(hay@, needle@),
{
    let h = to_chars(hay);
    let n = to_chars(needle);
    if n.len() > h.len() {
        return false;
    }
    if n.len() == 0 {
        assert(hay@.subrange(0int, 0int + needle@.len()) =~= needle@);
        return true;
    }
    let end = h.len() - n.len() + 1;
    let mut i: usize = 0;
    while i < end
        invariant
            h@ == hay@,
            n@ == needle@,
            end + n@.len() == h@.len() + 1,
            i <= end,
            forall|k: int| 0 <= k < i ==> #[trigger] h@.subrange(k, k + n@.len()) != n@,
        decreases end - i,
    {
        if matches_at(&h, i, &n) {
            assert(hay@.subrange(i as int, i + needle@.len()) == needle@);
            return true;
        }
        i = i + 1;
    }
    assert forall|k: int| 0 <= k && k + needle@.len() <= hay@.len() implies #[trigger] hay@.subrange(k, k + needle@.len()) != needle@ by {
        assert(k < end);
        assert(h@.subrange(k, k + n@.len()) != n@);
    }
    false
}

impl Predicate {
    /// The arguments `message` gives a listener with this predicate: see
    /// `args_spec`.
    pub fn args(&self, message: &str) -> (r: Option<Vec<String>>)
        ensures
            r.deep_view() == args_spec(self@, message@),
    {
        match self {
            Predicate::Exactly(pat) => {
                if str_eq(message, pat.as_str()) {
                    let v: Vec<String> = Vec::new();
                    assert(v.deep_view() =~= Seq::<Seq<char>>::empty());
                    Some(v)
                } else {
                    None
                }
            },
            Predicate::Contains(pat) => {
                if str_contains(message, pat.as_str()) {
                    let v: Vec<String> = Vec::new();
                    assert(v.deep_view() =~= Seq::<Seq<char>>::empty());
                    Some(v)
                } else {
                    None
                }
            },
            Predicate::Regex(pat) => match regex_captures(pat.as_str(), message) {
                None => None,
                Some(groups) => {
                    let ghost gv = groups.deep_view();
                    let mut out: Vec<String> = Vec::new();
                    let mut i: usize = 0;
                    while i < groups.len()
                        invariant
                            gv == groups.deep_view(),
                            gv.len() == groups@.len(),
                            i <= groups@.len(),
                            out.deep_view() == taking_part(gv.subrange(0, i as int)),
                        decreases groups@.len() - i,
                    {
                        assert(gv.subrange(0, i + 1).drop_last() =~= gv.subrange(0, i as int));
                        assert(gv[i as int] == groups@[i as int].deep_view());
                        match &groups[i] {
                            Some(g) => {
                                let ghost before = out.deep_view();
                                out.push(g.clone());
                                assert(out.deep_view() =~= before.push(g@));
                            },
                            None => {},
                        }
                        i = i + 1;
                    }
                    assert(gv.subrange(0, i as int) =~= gv);
                    Some(out)
                },
            },
        }
    }

    /// The letter that stands for the predicate's kind in the store file.
    pub fn kind(&self) -> (r: char)
        ensures
            r == match self@ {
                PredicateModel::Exactly(_) => 'e',
                PredicateModel::Contains(_) => 'c',
                PredicateModel::Regex(_) => 'r',
            },
    {
        match self {
            Predicate::Exactly(_) => 'e',
            Predicate::Contains(_) => 'c',
            Predicate::Regex(_) => 'r',
        }
    }

    /// The predicate's pattern.
    pub fn pattern(&self) -> (r: &str)
        ensures
            r@ == match self@ {
                PredicateModel::Exactly(p) => p,
                PredicateModel::Contains(p) => p,
                PredicateModel::Regex(p) => p,
            },
    {
        match self {
            Predicate::Exactly(p) => p.as_str(),
            Predicate::Contains(p) => p.as_str(),
            Predicate::Regex(p) => p.as_str(),
        }
    }
}

/// A listener: what it waits for, and the command it runs.
pub struct Listener {
    pub predicate: Predicate,
    pub body: CommandRules,
}

/// The three parts of a listener definition, `name pattern/command`, with
/// `\x` standing for `x` in the pattern: the regular expression that splits
/// it.
pub open spec fn parts_pattern() -> Seq<char> {
    "(.+) ((?:[^/\\\\]|\\\\.)+)/(.+)"@
}

/// The regular expression of an escaped character.
pub open spec fn unescape_pattern() -> Seq<char> {
    "\\\\(.)"@
}

/// The definition's name, pattern (its first escape undone) and command;
/// `None` when it is not of that shape.
pub open spec fn parts_spec(args: Seq<char>) -> Option<(Seq<char>, Seq<char>, Seq<char>)> {
    match regex_groups(parts_pattern(), args) {
        Some(gs) => if gs.len() >= 4 && gs[1] is Some && gs[2] is Some && gs[3] is Some {
            Some((gs[1].unwrap(), regex_replaced(unescape_pattern(), gs[2].unwrap(), "$1"@), gs[3].unwrap()))
        } else {
            None
        },
        None => None,
    }
}

/// `p` with `\` and `/` escaped by a `\`, as the store file writes patterns.
pub open spec fn escape_spec(p: Seq<char>) -> Seq<char>
    decreases p.len(),
{
    if p.len() == 0 {
        Seq::empty()
    } else {
        let rest = escape_spec(p.drop_last());
        let c = p.last();
        if c == '\\' || c == '/' {
            rest.push('\\').push(c)
        } else {
            rest.push(c)
        }
    }
}

/// Escapes a pattern for the store file: see `escape_spec`.
pub fn escape_pattern(p: &str) -> (r: String)
    ensures
        r@ == escape_spec(p@),
{
    let cs = to_chars(p);
    let mut r = String::new();
    let mut i: usize = 0;
    while i < cs.len()
        invariant
            cs@ == p@,
            i <= cs@.len(),
            r@ == escape_spec(p@.subrange(0, i as int)),
        decreases cs@.len() - i,
    {
        assert(p@.subrange(0, i + 1).drop_last() =~= p@.subrange(0, i as int));
        let c = cs[i];
        if c == '\\' || c == '/' {
            push_char(&mut r, '\\');
        }
        push_char(&mut r, c);
        i = i + 1;
    }
    assert(p@.subrange(0, i as int) =~= p@);
    r
}

impl Listener {
    /// Splits a listener definition: see `parts_spec`.
    pub fn parts(args: &str) -> (r: Option<(String, String, String)>)
        ensures
            match r {
                Some((n, p, c)) => parts_spec(args@) == Some((n@, p@, c@)),
                None => parts_spec(args@) is None,
            },
    {
        let groups = match regex_captures("(.+) ((?:[^/\\\\]|\\\\.)+)/(.+)", args) {
            Some(g) => g,
            None => return None,
        };
        let ghost gv = groups.deep_view();
        if groups.len() < 4 {
            return None;
        }
        assert(gv[1] == groups@[1].deep_view());
        assert(gv[2] == groups@[2].deep_view());
        assert(gv[3] == groups@[3].deep_view());
        match (&groups[1], &groups[2], &groups[3]) {
            (Some(name), Some(pattern), Some(command)) => {
                let pattern = regex_replace_first("\\\\(.)", pattern.as_str(), "$1");
                Some((name.clone(), pattern, command.clone()))
            },
            _ => None,
        }
    }

    /// The arguments a chat message's text gives the listener, read after
    /// trimming it; `None` when it does not match.
    pub fn matches(&self, text: &str) -> (r: Option<Vec<String>>)
        ensures
            r.deep_view() == args_spec(self.predicate@, trimmed(text@)),
    {
        self.predicate.args(trim(text))
    }
}

} // verus!
