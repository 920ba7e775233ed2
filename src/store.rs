//! The line formats of the command store's files, and how a chat message
//! names a command.
use vstd::prelude::*;
use crate::command::{body_words, parse_spec, sections_view, tags_view, tags_words, CommandRules};
use crate::component::{trim, trimmed};
use crate::listener::{escape_pattern, escape_spec, parts_spec, regex_compiles, regex_is_valid, Listener, Predicate, PredicateModel};
use crate::tags::split_once_spec;
use crate::text::{
    all_digits, digits_value, find_char, parse_decimal, parse_decimal_spec, push_char, push_signed_decimal,
    signed_decimal, split_at_any, split_spec, string_of, to_chars,
};

verus! {

/// `s` cut at its first space, each side kept.
fn split_at_space(s: &str) -> (r: Option<(String, String)>)
    ensures
        match r {
            Some((a, b)) => split_once_spec(s@, ' ') == Some((a@, b@)),
            None => split_once_spec(s@, ' ') is None,
        },
{
    let cs = to_chars(s);
    let n = cs.len();
    match find_char(&cs, 0, n, ' ') {
        None => {
            proof { crate::text::lemma_first_index_none(s@, ' '); }
            None
        },
        Some(k) => {
            proof { crate::text::lemma_first_index_at(s@, ' ', k as int); }
            Some((string_of(&cs, 0, k), string_of(&cs, k + 1, n)))
        },
    }
}

/// A signed decimal number, as `str::parse::<i64>` reads one: an optional
/// sign, then at least one digit, within the range of `i64`.
pub open spec fn parse_i64_spec(s: Seq<char>) -> Option<i64> {
    if s.len() > 0 && s[0] == '-' {
        let d = s.drop_first();
        if d.len() > 0 && all_digits(d) && digits_value(d) <= 0x8000_0000_0000_0000 {
            Some((-(digits_value(d) as int)) as i64)
        } else {
            None
        }
    } else {
        match parse_decimal_spec(s, 0x7fff_ffff_ffff_ffff) {
            Some(v) => Some(v as i64),
            None => None,
        }
    }
}

/// Reads a signed decimal number: see `parse_i64_spec`.
pub fn parse_i64(s: &str) -> (r: Option<i64>)
    ensures
        r == parse_i64_spec(s@),
{
    let cs = to_chars(s);
    let n = cs.len();
    if n > 0 && cs[0] == '-' {
        if n > 1 && cs[1] == '+' {
            assert(!crate::text::is_digit(s@.drop_first()[0]));
            return None;
        }
        let ghost d = s@.drop_first();
        assert(cs@.subrange(1, n as int) =~= d);
        match parse_decimal(&cs, 1, n, 0x8000_0000_0000_0000) {
            Some(m) => {
                let v: i64 = if m == 0x8000_0000_0000_0000 { i64::MIN } else { -(m as i64) };
                Some(v)
            },
            None => None,
        }
    } else {
        assert(cs@.subrange(0, n as int) =~= s@);
        match parse_decimal(&cs, 0, n, 0x7fff_ffff_ffff_ffff) {
            Some(v) => Some(v as i64),
            None => None,
        }
    }
}

/// The line of a counter in its file.
pub open spec fn counter_line_spec(name: Seq<char>, value: i64) -> Seq<char> {
    name + " "@ + signed_decimal(value)
}

pub fn counter_line(name: &str, value: i64) -> (r: String)
    ensures
        r@ == counter_line_spec(name@, value),
{
    let mut r = String::from_str(name);
    r.append(" ");
    push_signed_decimal(&mut r, value);
    r
}

/// A counter read back from its line: the line trimmed, then cut at its
/// first space into the name and the value.
pub open spec fn counter_from_line_spec(line: Seq<char>) -> Option<(Seq<char>, i64)> {
    match split_once_spec(trimmed(line), ' ') {
        Some((name, value)) => match parse_i64_spec(value) {
            Some(v) => Some((name, v)),
            None => None,
        },
        None => None,
    }
}

pub fn counter_from_line(line: &str) -> (r: Option<(String, i64)>)
    ensures
        match r {
            Some((n, v)) => counter_from_line_spec(line@) == Some((n@, v)),
            None => counter_from_line_spec(line@) is None,
        },
{
    match split_at_space(trim(line)) {
        Some((name, value)) => match parse_i64(value.as_str()) {
            Some(v) => Some((name, v)),
            None => None,
        },
        None => None,
    }
}

/// The line of a custom command in its file.
pub open spec fn command_line_spec(name: Seq<char>, c: CommandRules) -> Seq<char> {
    name + " "@ + tags_words(tags_view(c.tags@)) + body_words(sections_view(c.body@))
}

pub fn command_line(name: &str, c: &CommandRules) -> (r: String)
    ensures
        r@ == command_line_spec(name@, *c),
{
    let mut r = String::from_str(name);
    r.append(" ");
    r.append(c.as_words_string().as_str());
    r
}

/// A custom command read back from its line: the line trimmed, then cut at
/// its first space into the name and the body, which must parse.
pub fn command_from_line(line: &str) -> (r: Option<(String, CommandRules)>)
    ensures
        match r {
            Some((n, c)) => split_once_spec(trimmed(line@), ' ') matches Some((name, body)) && name == n@
                && parse_spec(body) == Ok::<_, crate::command::ErrorModel>((sections_view(c.body@), tags_view(c.tags@))),
            None => match split_once_spec(trimmed(line@), ' ') {
                Some((name, body)) => parse_spec(body) is Err,
                None => true,
            },
        },
{
    match split_at_space(trim(line)) {
        Some((name, body)) => match CommandRules::parse(body.as_str()) {
            Ok(c) => Some((name, c)),
            Err(_) => None,
        },
        None => None,
    }
}

/// The line of a listener in its file: its kind, its name, its pattern
/// escaped, and its command.
pub open spec fn listener_line_spec(name: Seq<char>, kind: char, pattern: Seq<char>, words: Seq<char>) -> Seq<char> {
    seq![kind, ' '] + name + " "@ + escape_spec(pattern) + "/"@ + words
}

pub fn listener_line(name: &str, l: &Listener) -> (r: String)
    ensures
        r@ == listener_line_spec(
            name@,
            match l.predicate@ {
                PredicateModel::Exactly(_) => 'e',
                PredicateModel::Contains(_) => 'c',
                PredicateModel::Regex(_) => 'r',
            },
            match l.predicate@ {
                PredicateModel::Exactly(p) => p,
                PredicateModel::Contains(p) => p,
                PredicateModel::Regex(p) => p,
            },
            tags_words(tags_view(l.body.tags@)) + body_words(sections_view(l.body.body@)),
        ),
{
    let mut r = String::new();
    push_char(&mut r, l.predicate.kind());
    push_char(&mut r, ' ');
    r.append(name);
    r.append(" ");
    r.append(escape_pattern(l.predicate.pattern()).as_str());
    r.append("/");
    r.append(l.body.as_words_string().as_str());
    r
}

/// A listener read back from its line: the line trimmed; its first
/// character the kind (`e`, `c`, or `r` for a pattern that compiles);
/// after the next character the name, pattern and command.
pub open spec fn listener_from_line_ok(line: Seq<char>) -> bool {
    let t = trimmed(line);
    &&& t.len() >= 1
    &&& parts_spec(t.subrange(if t.len() >= 2 { 2 } else { t.len() as int }, t.len() as int)) matches Some((name, pattern, command))
        && (t[0] == 'e' || t[0] == 'c' || (t[0] == 'r' && regex_compiles(pattern)))
        && parse_spec(command) is Ok
}

pub fn listener_from_line(line: &str) -> (r: Option<(String, Listener)>)
    ensures
        r is Some == listener_from_line_ok(line@),
        r matches Some((n, l)) ==> ({
            let t = trimmed(line@);
            &&& parts_spec(t.subrange(if t.len() >= 2 { 2 } else { t.len() as int }, t.len() as int)) matches Some((name, pattern, command))
            &&& n@ == name
            &&& l.predicate@ == (if t[0] == 'e' {
                PredicateModel::Exactly(pattern)
            } else if t[0] == 'c' {
                PredicateModel::Contains(pattern)
            } else {
                PredicateModel::Regex(pattern)
            })
            &&& parse_spec(command) == Ok::<_, crate::command::ErrorModel>((sections_view(l.body.body@), tags_view(l.body.tags@)))
        }),
{
    let t = trim(line);
    let cs = to_chars(t);
    let n = cs.len();
    if n == 0 {
        return None;
    }
    let kind = cs[0];
    let from = if n >= 2 { 2 } else { n };
    let rest = string_of(&cs, from, n);
    let (name, pattern, command) = match Listener::parts(rest.as_str()) {
        Some(p) => p,
        None => return None,
    };
    let predicate = if kind == 'e' {
        Predicate::Exactly(pattern)
    } else if kind == 'c' {
        Predicate::Contains(pattern)
    } else if kind == 'r' && regex_is_valid(pattern.as_str()) {
        Predicate::Regex(pattern)
    } else {
        return None;
    };
    match CommandRules::parse(command.as_str()) {
        Ok(body) => Some((name, Listener { predicate, body })),
        Err(_) => None,
    }
}

/// The command a chat message calls and the words after it: the text
/// after a leading `!`, trimmed and cut at every space.
pub open spec fn command_words_spec(text: Seq<char>) -> Option<(Seq<char>, Seq<Seq<char>>)> {
    if text.len() > 0 && text[0] == '!' {
        let words = split_spec(trimmed(text.drop_first()), " "@);
        Some((words[0], words.drop_first()))
    } else {
        None
    }
}

pub fn command_words(text: &str) -> (r: Option<(String, Vec<String>)>)
    ensures
        match r {
            Some((name, args)) => command_words_spec(text@) == Some((name@, args.deep_view())),
            None => command_words_spec(text@) is None,
        },
{
    let cs = to_chars(text);
    let n = cs.len();
    if n == 0 || cs[0] != '!' {
        return None;
    }
    let after = string_of(&cs, 1, n);
    assert(after@ =~= text@.drop_first());
    let t = to_chars(trim(after.as_str()));
    let mut words = split_at_any(&t, 0, t.len(), " ");
    assert(t@.subrange(0, t@.len() as int) =~= t@);
    let ghost wv = words.deep_view();
    proof { lemma_split_nonempty(t@, " "@); }
    let name = words.remove(0);
    assert(words.deep_view() =~= wv.drop_first());
    Some((name, words))
}

proof fn lemma_split_nonempty(s: Seq<char>, seps: Seq<char>)
    ensures
        split_spec(s, seps).len() >= 1,
{
}

} // verus!
