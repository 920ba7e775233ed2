//! The text-command language: a command body is words to echo, variables
//! (`%name`, `%0`, `%counter=x`) and tags (`&REPLY`, `&SUPER`, `&TEMP`,
//! `&C:INC=x`, ...).
use vstd::prelude::*;
use crate::chat::{has_badge, ChatMessage};
use crate::tags::split_once_spec;
use crate::text::{
    chars_start_with, decimal_of, find_char, parse_decimal, parse_decimal_spec, push_char,
    push_decimal, push_signed_decimal, range_eq, signed_decimal, str_eq, string_of, to_chars,
};

verus! {

/// A part of a command's reply.
pub enum CommandSection {
    Echo(String),
    ChatterName,
    WordIndex(usize),
    Counter(String),
}

/// A tag of a command.
pub enum CommandTag {
    Reply,
    Builtin,
    Super,
    Temporary,
    CountInc(String),
    CountDec(String),
    CountReset(String),
}

/// Why a command body does not parse.
pub enum RulesError {
    BadVariable(String),
    BadTag(String),
}

/// A command: its reply, in parts, and its tags, each once.
pub struct CommandRules {
    pub body: Vec<CommandSection>,
    pub tags: Vec<CommandTag>,
}

pub ghost enum SectionModel {
    Echo(Seq<char>),
    ChatterName,
    WordIndex(usize),
    Counter(Seq<char>),
}

pub ghost enum TagModel {
    Reply,
    Builtin,
    Super,
    Temporary,
    CountInc(Seq<char>),
    CountDec(Seq<char>),
    CountReset(Seq<char>),
}

pub ghost enum ErrorModel {
    BadVariable(Seq<char>),
    BadTag(Seq<char>),
}

impl View for CommandSection {
    type V = SectionModel;

    open spec fn view(&self) -> SectionModel {
        match self {
            CommandSection::Echo(t) => SectionModel::Echo(t@),
            CommandSection::ChatterName => SectionModel::ChatterName,
            CommandSection::WordIndex(i) => SectionModel::WordIndex(*i),
            CommandSection::Counter(n) => SectionModel::Counter(n@),
        }
    }
}

impl View for CommandTag {
    type V = TagModel;

    open spec fn view(&self) -> TagModel {
        match self {
            CommandTag::Reply => TagModel::Reply,
            CommandTag::Builtin => TagModel::Builtin,
            CommandTag::Super => TagModel::Super,
            CommandTag::Temporary => TagModel::Temporary,
            CommandTag::CountInc(n) => TagModel::CountInc(n@),
            CommandTag::CountDec(n) => TagModel::CountDec(n@),
            CommandTag::CountReset(n) => TagModel::CountReset(n@),
        }
    }
}

impl View for RulesError {
    type V = ErrorModel;

    open spec fn view(&self) -> ErrorModel {
        match self {
            RulesError::BadVariable(n) => ErrorModel::BadVariable(n@),
            RulesError::BadTag(n) => ErrorModel::BadTag(n@),
        }
    }
}

pub open spec fn sections_view(v: Seq<CommandSection>) -> Seq<SectionModel> {
    v.map_values(|s: CommandSection| s@)
}

pub open spec fn tags_view(v: Seq<CommandTag>) -> Seq<TagModel> {
    v.map_values(|t: CommandTag| t@)
}

/// A variable's name, after its `%`.
pub open spec fn var_spec(s: Seq<char>) -> Result<SectionModel, ErrorModel> {
    if s == "name"@ {
        Ok(SectionModel::ChatterName)
    } else {
        match parse_decimal_spec(s, usize::MAX as u64) {
            Some(n) => Ok(SectionModel::WordIndex(n as usize)),
            None => if s.len() >= 8 && s.subrange(0, 8) == "counter="@ {
                Ok(SectionModel::Counter(s.subrange(8, s.len() as int)))
            } else {
                Err(ErrorModel::BadVariable(s))
            },
        }
    }
}

/// A tag's name, after its `&`.
pub open spec fn tag_spec(s: Seq<char>) -> Result<TagModel, ErrorModel> {
    if s == "REPLY"@ {
        Ok(TagModel::Reply)
    } else if s == "SUPER"@ {
        Ok(TagModel::Super)
    } else if s == "TEMP"@ {
        Ok(TagModel::Temporary)
    } else {
        match split_once_spec(s, '=') {
            Some((t, v)) => if t == "C:INC"@ {
                Ok(TagModel::CountInc(v))
            } else if t == "C:DEC"@ {
                Ok(TagModel::CountDec(v))
            } else if t == "C:ZERO"@ {
                Ok(TagModel::CountReset(v))
            } else {
                Err(ErrorModel::BadTag(t))
            },
            None => Err(ErrorModel::BadTag(s)),
        }
    }
}

/// The parser's state between two characters: the parts and tags so far,
/// the word being read, and whether the last character was an unescaped
/// backslash.
pub ghost struct ParseState {
    pub body: Seq<SectionModel>,
    pub tags: Seq<TagModel>,
    pub word: Seq<char>,
    pub escape: bool,
}

pub open spec fn starts_with(w: Seq<char>, p: Seq<char>) -> bool {
    p.len() <= w.len() && w.subrange(0, p.len() as int) == p
}

pub open spec fn is_word_char(c: char) -> bool {
    ('a' <= c && c <= 'z') || ('A' <= c && c <= 'Z') || ('0' <= c && c <= '9') || c == '=' || c == '_'
}

/// Adds a tag to a set of tags.
pub open spec fn insert_tag(ts: Seq<TagModel>, t: TagModel) -> Seq<TagModel> {
    if ts.contains(t) {
        ts
    } else {
        ts.push(t)
    }
}

/// Reads one character.
pub open spec fn parse_step(st: ParseState, c: char) -> Result<ParseState, ErrorModel> {
    let w = st.word;
    if c == ' ' {
        if starts_with(w, "%"@) {
            match var_spec(w.drop_first()) {
                Ok(v) => Ok(ParseState { body: st.body.push(v), word: Seq::empty(), escape: false, ..st }),
                Err(e) => Err(e),
            }
        } else if starts_with(w, "&"@) {
            match tag_spec(w.drop_first()) {
                Ok(t) => Ok(ParseState { tags: insert_tag(st.tags, t), word: Seq::empty(), escape: false, ..st }),
                Err(e) => Err(e),
            }
        } else {
            let text = if starts_with(w, "\\%"@) || starts_with(w, "\\&"@) { w.skip(2) } else { w };
            Ok(ParseState { body: st.body.push(SectionModel::Echo(text.push(' '))), word: Seq::empty(), escape: false, ..st })
        }
    } else if c == '%' && !st.escape {
        if !(starts_with(w, "%"@) || starts_with(w, "&"@)) {
            Ok(ParseState { body: st.body.push(SectionModel::Echo(w)), word: seq!['%'], escape: false, ..st })
        } else {
            Ok(ParseState { escape: false, ..st })
        }
    } else if c == '\\' {
        if st.escape {
            Ok(ParseState { word: w.push('\\'), escape: false, ..st })
        } else {
            Ok(ParseState { escape: true, ..st })
        }
    } else if is_word_char(c) {
        Ok(ParseState { word: w.push(c), escape: false, ..st })
    } else if starts_with(w, "%"@) {
        match var_spec(w.drop_first()) {
            Ok(v) => Ok(ParseState { body: st.body.push(v), word: seq![c], escape: false, ..st }),
            Err(e) => Err(e),
        }
    } else {
        Ok(ParseState { word: w.push(c), escape: false, ..st })
    }
}

/// Reads the first `n` characters of `s`.
pub open spec fn parse_acc(s: Seq<char>, n: nat) -> Result<ParseState, ErrorModel>
    decreases n,
{
    if n == 0 {
        Ok(ParseState { body: Seq::empty(), tags: Seq::empty(), word: Seq::empty(), escape: false })
    } else {
        match parse_acc(s, (n - 1) as nat) {
            Ok(st) => parse_step(st, s[n - 1]),
            Err(e) => Err(e),
        }
    }
}

/// A command body: its characters, then one closing space.
pub open spec fn parse_spec(input: Seq<char>) -> Result<(Seq<SectionModel>, Seq<TagModel>), ErrorModel> {
    let s = input.push(' ');
    match parse_acc(s, s.len()) {
        Ok(st) => Ok((st.body, st.tags)),
        Err(e) => Err(e),
    }
}

/// A tag in words.
pub open spec fn tag_words(t: TagModel) -> Seq<char> {
    match t {
        TagModel::Reply => "&REPLY "@,
        TagModel::Builtin => Seq::empty(),
        TagModel::Super => "&SUPER "@,
        TagModel::Temporary => "&TEMP "@,
        TagModel::CountInc(n) => "&C:INC="@ + n + " "@,
        TagModel::CountDec(n) => "&C:DEC="@ + n + " "@,
        TagModel::CountReset(n) => "&C:ZERO="@ + n + " "@,
    }
}

/// A part in words.
pub open spec fn section_words(s: SectionModel) -> Seq<char> {
    match s {
        SectionModel::Echo(t) => t,
        SectionModel::ChatterName => "%name"@,
        SectionModel::WordIndex(i) => "%"@ + decimal_of(i as nat),
        SectionModel::Counter(n) => "%counter="@ + n,
    }
}

pub open spec fn tags_words(ts: Seq<TagModel>) -> Seq<char>
    decreases ts.len(),
{
    if ts.len() == 0 {
        Seq::empty()
    } else {
        tags_words(ts.drop_last()) + tag_words(ts.last())
    }
}

pub open spec fn body_words(b: Seq<SectionModel>) -> Seq<char>
    decreases b.len(),
{
    if b.len() == 0 {
        Seq::empty()
    } else {
        body_words(b.drop_last()) + section_words(b.last())
    }
}

fn append_str(s: &mut String, t: &str)
    ensures
        final(s)@ == old(s)@ + t@,
{
    s.append(t);
}

fn same_tag(a: &CommandTag, b: &CommandTag) -> (r: bool)
    ensures
        r == (a@ == b@),
{
    match (a, b) {
        (CommandTag::Reply, CommandTag::Reply) => true,
        (CommandTag::Builtin, CommandTag::Builtin) => true,
        (CommandTag::Super, CommandTag::Super) => true,
        (CommandTag::Temporary, CommandTag::Temporary) => true,
        (CommandTag::CountInc(x), CommandTag::CountInc(y)) => crate::text::str_eq(x.as_str(), y.as_str()),
        (CommandTag::CountDec(x), CommandTag::CountDec(y)) => crate::text::str_eq(x.as_str(), y.as_str()),
        (CommandTag::CountReset(x), CommandTag::CountReset(y)) => crate::text::str_eq(x.as_str(), y.as_str()),
        _ => false,
    }
}

fn has_tag(tags: &Vec<CommandTag>, t: &CommandTag) -> (r: bool)
    ensures
        r == tags_view(tags@).contains(t@),
{
    let mut i: usize = 0;
    while i < tags.len()
        invariant
            i <= tags@.len(),
            forall|j: int| 0 <= j < i ==> tags_view(tags@)[j] != t@,
        decreases tags@.len() - i,
    {
        if same_tag(&tags[i], t) {
            assert(tags_view(tags@)[i as int] == t@);
            return true;
        }
        i = i + 1;
    }
    false
}

fn insert(tags: &mut Vec<CommandTag>, t: CommandTag)
    ensures
        tags_view(final(tags)@) == insert_tag(tags_view(old(tags)@), t@),
{
    if !has_tag(tags, &t) {
        let ghost before = tags_view(tags@);
        tags.push(t);
        assert(tags_view(tags@) =~= before.push(t@));
    }
}

/// Reads the variable named by `cs[from..]`: see `var_spec`.
fn var_from_chars(cs: &Vec<char>, from: usize) -> (r: Result<CommandSection, RulesError>)
    requires
        from <= cs@.len(),
    ensures
        match r {
            Ok(v) => var_spec(cs@.subrange(from as int, cs@.len() as int)) == Ok::<_, ErrorModel>(v@),
            Err(e) => var_spec(cs@.subrange(from as int, cs@.len() as int)) == Err::<SectionModel, _>(e@),
        },
{
    let n = cs.len();
    let ghost s = cs@.subrange(from as int, n as int);
    if range_eq(cs, from, n, "name") {
        return Ok(CommandSection::ChatterName);
    }
    match parse_decimal(cs, from, n, usize::MAX as u64) {
        Some(i) => Ok(CommandSection::WordIndex(i as usize)),
        None => {
            if n - from >= 8 && range_eq(cs, from, from + 8, "counter=") {
                assert(s.subrange(0, 8) =~= cs@.subrange(from as int, from + 8));
                let name = string_of(cs, from + 8, n);
                assert(s.subrange(8, s.len() as int) =~= cs@.subrange(from + 8, n as int));
                Ok(CommandSection::Counter(name))
            } else {
                proof {
                    if s.len() >= 8 {
                        assert(s.subrange(0, 8) =~= cs@.subrange(from as int, from + 8));
                    }
                }
                Err(RulesError::BadVariable(string_of(cs, from, n)))
            }
        },
    }
}

/// Reads the tag named by `cs[from..]`: see `tag_spec`.
fn tag_from_chars(cs: &Vec<char>, from: usize) -> (r: Result<CommandTag, RulesError>)
    requires
        from <= cs@.len(),
    ensures
        match r {
            Ok(t) => tag_spec(cs@.subrange(from as int, cs@.len() as int)) == Ok::<_, ErrorModel>(t@),
            Err(e) => tag_spec(cs@.subrange(from as int, cs@.len() as int)) == Err::<TagModel, _>(e@),
        },
{
    let n = cs.len();
    let ghost s = cs@.subrange(from as int, n as int);
    if range_eq(cs, from, n, "REPLY") {
        return Ok(CommandTag::Reply);
    }
    if range_eq(cs, from, n, "SUPER") {
        return Ok(CommandTag::Super);
    }
    if range_eq(cs, from, n, "TEMP") {
        return Ok(CommandTag::Temporary);
    }
    match find_char(cs, from, n, '=') {
        None => {
            proof {
                assert forall|j: int| 0 <= j < s.len() implies s[j] != '=' by {
                    assert(s[j] == cs@[from + j]);
                }
                crate::text::lemma_first_index_none(s, '=');
            }
            Err(RulesError::BadTag(string_of(cs, from, n)))
        },
        Some(k) => {
            proof {
                assert forall|j: int| 0 <= j < k - from implies s[j] != '=' by {
                    assert(s[j] == cs@[from + j]);
                }
                crate::text::lemma_first_index_at(s, '=', k - from);
                assert(s.subrange(0, k - from) =~= cs@.subrange(from as int, k as int));
                assert(s.subrange(k - from + 1, s.len() as int) =~= cs@.subrange(k + 1, n as int));
            }
            let val = string_of(cs, k + 1, n);
            if range_eq(cs, from, k, "C:INC") {
                Ok(CommandTag::CountInc(val))
            } else if range_eq(cs, from, k, "C:DEC") {
                Ok(CommandTag::CountDec(val))
            } else if range_eq(cs, from, k, "C:ZERO") {
                Ok(CommandTag::CountReset(val))
            } else {
                Err(RulesError::BadTag(string_of(cs, from, k)))
            }
        },
    }
}

proof fn lemma_parse_error_stays(s: Seq<char>, k: nat, n: nat)
    requires
        k <= n,
        parse_acc(s, k) is Err,
    ensures
        parse_acc(s, n) == parse_acc(s, k),
    decreases n - k,
{
    if k < n {
        lemma_parse_error_stays(s, k, (n - 1) as nat);
    }
}

pub open spec fn state_of(body: Seq<CommandSection>, tags: Seq<CommandTag>, word: Seq<char>, escape: bool) -> ParseState {
    ParseState { body: sections_view(body), tags: tags_view(tags), word, escape }
}

fn push_section(body: &mut Vec<CommandSection>, x: CommandSection)
    ensures
        sections_view(final(body)@) == sections_view(old(body)@).push(x@),
{
    let ghost before = sections_view(body@);
    body.push(x);
    assert(sections_view(body@) =~= before.push(x@));
}

fn chars_of_one(c: char) -> (r: Vec<char>)
    ensures
        r@ == seq![c],
{
    let mut r: Vec<char> = Vec::new();
    r.push(c);
    assert(r@ =~= seq![c]);
    r
}

pub open spec fn counters_view(cs: Seq<(String, i64)>) -> Seq<(Seq<char>, i64)> {
    cs.map_values(|c: (String, i64)| (c.0@, c.1))
}

/// The position of the first counter named `name`.
pub open spec fn counter_index(cs: Seq<(Seq<char>, i64)>, name: Seq<char>) -> Option<int>
    decreases cs.len(),
{
    if cs.len() == 0 {
        None
    } else {
        match counter_index(cs.drop_last(), name) {
            Some(i) => Some(i),
            None => if cs.last().0 == name {
                Some(cs.len() - 1)
            } else {
                None
            },
        }
    }
}

proof fn lemma_counter_index(cs: Seq<(Seq<char>, i64)>, name: Seq<char>, k: int)
    requires
        0 <= k <= cs.len(),
        forall|j: int| 0 <= j < k ==> cs[j].0 != name,
        k < cs.len() ==> cs[k].0 == name,
    ensures
        k < cs.len() ==> counter_index(cs, name) == Some(k),
        k == cs.len() ==> counter_index(cs, name) is None,
    decreases cs.len(),
{
    if cs.len() > 0 {
        let d = cs.drop_last();
        if k < cs.len() - 1 {
            assert(d[k] == cs[k]);
            assert forall|j: int| 0 <= j < k implies d[j].0 != name by {
                assert(d[j] == cs[j]);
            }
            lemma_counter_index(d, name, k);
        } else {
            assert forall|j: int| 0 <= j < cs.len() - 1 implies d[j].0 != name by {
                assert(d[j] == cs[j]);
            }
            lemma_counter_index(d, name, cs.len() - 1);
        }
    }
}

/// Where the counters of a command's tags stand: the counters, whether the
/// command replies, and the first counter named that does not exist.
pub ghost struct TagEffect {
    pub counters: Seq<(Seq<char>, i64)>,
    pub reply: bool,
    pub missing: Option<Seq<char>>,
}

/// A counter's new value: one more (`op` 0), one less (1), or zero (2),
/// wrapping around at the ends of `i64`.
pub open spec fn apply_op(op: u8, v: i64) -> i64 {
    if op == 0 {
        v.wrapping_add(1)
    } else if op == 1 {
        v.wrapping_sub(1)
    } else {
        0
    }
}

pub open spec fn bump(e: TagEffect, name: Seq<char>, op: u8) -> TagEffect {
    match counter_index(e.counters, name) {
        Some(i) => TagEffect {
            counters: e.counters.update(i, (e.counters[i].0, apply_op(op, e.counters[i].1))),
            ..e
        },
        None => TagEffect { missing: Some(name), ..e },
    }
}

fn bump_counter(counters: &mut Vec<(String, i64)>, name: &str, op: u8) -> (found: bool)
    ensures
        ({
            let e = TagEffect { counters: counters_view(old(counters)@), reply: false, missing: None };
            let b = bump(e, name@, op);
            &&& found == (b.missing is None)
            &&& counters_view(final(counters)@) == b.counters
        }),
{
    let ghost before = counters_view(counters@);
    let ghost e = TagEffect { counters: before, reply: false, missing: None };
    match find_counter(counters, name) {
        None => {
            assert(counter_index(before, name@) is None);
            assert(bump(e, name@, op).counters == before);
            false
        },
        Some(k) => {
            assert(counter_index(before, name@) == Some(k as int));
            let v = counters[k].1;
            assert(before[k as int].1 == v);
            let nv = if op == 0 { v.wrapping_add(1) } else if op == 1 { v.wrapping_sub(1) } else { 0 };
            assert(nv == apply_op(op, v));
            let key = counters[k].0.clone();
            counters.set(k, (key, nv));
            assert(counters_view(counters@) =~= before.update(k as int, (before[k as int].0, nv)));
            assert(bump(e, name@, op).counters == before.update(k as int, (before[k as int].0, apply_op(op, before[k as int].1))));
            true
        },
    }
}

/// One tag's effect. Once a counter is found missing nothing more happens.
pub open spec fn tag_effect(e: TagEffect, t: TagModel) -> TagEffect {
    if e.missing is Some {
        e
    } else {
        match t {
            TagModel::Reply => TagEffect { reply: true, ..e },
            TagModel::CountInc(n) => bump(e, n, 0),
            TagModel::CountDec(n) => bump(e, n, 1),
            TagModel::CountReset(n) => bump(e, n, 2),
            _ => e,
        }
    }
}

/// The effect of the tags `ts`, in order, on the counters `cs`.
pub open spec fn tags_effect(cs: Seq<(Seq<char>, i64)>, ts: Seq<TagModel>) -> TagEffect
    decreases ts.len(),
{
    if ts.len() == 0 {
        TagEffect { counters: cs, reply: false, missing: None }
    } else {
        tag_effect(tags_effect(cs, ts.drop_last()), ts.last())
    }
}

fn find_counter(counters: &Vec<(String, i64)>, name: &str) -> (r: Option<usize>)
    ensures
        match r {
            Some(k) => counter_index(counters_view(counters@), name@) == Some(k as int) && k < counters@.len()
                && counters_view(counters@)[k as int].0 == name@,
            None => counter_index(counters_view(counters@), name@) is None,
        },
{
    let ghost cv = counters_view(counters@);
    let mut k: usize = 0;
    while k < counters.len()
        invariant
            cv == counters_view(counters@),
            k <= counters@.len(),
            forall|j: int| 0 <= j < k ==> cv[j].0 != name@,
        decreases counters@.len() - k,
    {
        if str_eq(counters[k].0.as_str(), name) {
            proof { lemma_counter_index(cv, name@, k as int); }
            return Some(k);
        }
        k = k + 1;
    }
    proof { lemma_counter_index(cv, name@, k as int); }
    None
}

/// What a part of a command's reply reads: the chatter's name for
/// `%name`, the argument for `%i` (the number itself when there is none),
/// a counter's value; `None` for a counter that does not exist.
pub open spec fn section_text(s: SectionModel, args: Seq<Seq<char>>, chatter: Seq<char>, cs: Seq<(Seq<char>, i64)>) -> Option<Seq<char>> {
    match s {
        SectionModel::Echo(t) => Some(t),
        SectionModel::ChatterName => Some(chatter),
        SectionModel::WordIndex(i) => if i < args.len() {
            Some(args[i as int])
        } else {
            Some(decimal_of(i as nat))
        },
        SectionModel::Counter(n) => match counter_index(cs, n) {
            Some(k) => Some(signed_decimal(cs[k].1)),
            None => None,
        },
    }
}

/// A command's reply, or the first counter it names that does not exist.
pub open spec fn render_spec(b: Seq<SectionModel>, args: Seq<Seq<char>>, chatter: Seq<char>, cs: Seq<(Seq<char>, i64)>) -> Result<Seq<char>, Seq<char>>
    decreases b.len(),
{
    if b.len() == 0 {
        Ok(Seq::empty())
    } else {
        match render_spec(b.drop_last(), args, chatter, cs) {
            Err(e) => Err(e),
            Ok(t) => match section_text(b.last(), args, chatter, cs) {
                Some(x) => Ok(t + x),
                None => match b.last() {
                    SectionModel::Counter(n) => Err(n),
                    _ => Err(Seq::empty()),
                },
            },
        }
    }
}

proof fn lemma_effect_missing_stays(cs: Seq<(Seq<char>, i64)>, ts: Seq<TagModel>, k: int)
    requires
        0 <= k <= ts.len(),
        tags_effect(cs, ts.subrange(0, k)).missing is Some,
    ensures
        tags_effect(cs, ts) == tags_effect(cs, ts.subrange(0, k)),
    decreases ts.len() - k,
{
    if k < ts.len() {
        assert(ts.subrange(0, k + 1).drop_last() =~= ts.subrange(0, k));
        lemma_effect_missing_stays(cs, ts, k + 1);
    } else {
        assert(ts.subrange(0, k) =~= ts);
    }
}

proof fn lemma_render_error_stays(b: Seq<SectionModel>, args: Seq<Seq<char>>, chatter: Seq<char>, cs: Seq<(Seq<char>, i64)>, k: int)
    requires
        0 <= k <= b.len(),
        render_spec(b.subrange(0, k), args, chatter, cs) is Err,
    ensures
        render_spec(b, args, chatter, cs) == render_spec(b.subrange(0, k), args, chatter, cs),
    decreases b.len() - k,
{
    if k < b.len() {
        assert(b.subrange(0, k + 1).drop_last() =~= b.subrange(0, k));
        lemma_render_error_stays(b, args, chatter, cs, k + 1);
    } else {
        assert(b.subrange(0, k) =~= b);
    }
}

impl CommandRules {
    /// Reads a command body: see `parse_spec`.
    pub fn parse(input: &str) -> (r: Result<CommandRules, RulesError>)
        ensures
            match r {
                Ok(c) => parse_spec(input@) == Ok::<_, ErrorModel>((sections_view(c.body@), tags_view(c.tags@))),
                Err(e) => parse_spec(input@) == Err::<(Seq<SectionModel>, Seq<TagModel>), _>(e@),
            },
    {
        let cs = to_chars(input);
        let n = cs.len();
        let ghost s = input@.push(' ');
        let mut body: Vec<CommandSection> = Vec::new();
        let mut tags: Vec<CommandTag> = Vec::new();
        let mut word: Vec<char> = Vec::new();
        let mut escape = false;
        let mut i: usize = 0;
        let mut done = false;
        let ghost mut k: nat = 0;
        assert(sections_view(body@) =~= Seq::empty());
        assert(tags_view(tags@) =~= Seq::empty());
        assert(word@ =~= Seq::empty());
        while !done
            invariant
                cs@ == input@,
                n == cs@.len(),
                s == input@.push(' '),
                i <= n,
                !done ==> k == i,
                done ==> k == n + 1,
                parse_acc(s, k) == Ok::<_, ErrorModel>(state_of(body@, tags@, word@, escape)),
            decreases n + 1 - k,
        {
            let c = if i < n { cs[i] } else { ' ' };
            assert(s[i as int] == c);
            let ghost st = state_of(body@, tags@, word@, escape);
            let ghost next = parse_step(st, c);
            assert(parse_acc(s, (k + 1) as nat) == next);
            let w_pct = chars_start_with(&word, "%");
            let w_amp = chars_start_with(&word, "&");
            proof {
                reveal_strlit("%");
                reveal_strlit("&");
                if word@.len() > 0 {
                    assert(word@.subrange(1, word@.len() as int) =~= word@.drop_first());
                }
            }
            if c == ' ' {
                if w_pct {
                    match var_from_chars(&word, 1) {
                        Ok(v) => {
                            push_section(&mut body, v);
                            word = Vec::new();
                            escape = false;
                            assert(word@ =~= Seq::empty());
                        },
                        Err(e) => {
                            proof { lemma_parse_error_stays(s, (k + 1) as nat, s.len()); }
                            return Err(e);
                        },
                    }
                } else if w_amp {
                    match tag_from_chars(&word, 1) {
                        Ok(t) => {
                            insert(&mut tags, t);
                            word = Vec::new();
                            escape = false;
                            assert(word@ =~= Seq::empty());
                        },
                        Err(e) => {
                            proof { lemma_parse_error_stays(s, (k + 1) as nat, s.len()); }
                            return Err(e);
                        },
                    }
                } else {
                    let esc_pct = chars_start_with(&word, "\\%");
                    let esc_amp = chars_start_with(&word, "\\&");
                    let mut text = if esc_pct || esc_amp {
                        proof {
                            reveal_strlit("\\%");
                            reveal_strlit("\\&");
                        }
                        string_of(&word, 2, word.len())
                    } else {
                        string_of(&word, 0, word.len())
                    };
                    assert(word@.subrange(0, word@.len() as int) =~= word@);
                    proof {
                        if esc_pct || esc_amp {
                            assert(word@.subrange(2, word@.len() as int) =~= word@.skip(2));
                        }
                    }
                    push_char(&mut text, ' ');
                    push_section(&mut body, CommandSection::Echo(text));
                    word = Vec::new();
                    escape = false;
                    assert(word@ =~= Seq::empty());
                }
            } else if c == '%' && !escape {
                if !(w_pct || w_amp) {
                    let text = string_of(&word, 0, word.len());
                    assert(word@.subrange(0, word@.len() as int) =~= word@);
                    push_section(&mut body, CommandSection::Echo(text));
                    word = chars_of_one('%');
                }
                escape = false;
            } else if c == '\\' {
                if escape {
                    word.push('\\');
                    escape = false;
                } else {
                    escape = true;
                }
            } else if ('a' <= c && c <= 'z') || ('A' <= c && c <= 'Z') || ('0' <= c && c <= '9') || c == '=' || c == '_' {
                word.push(c);
                escape = false;
            } else if w_pct {
                match var_from_chars(&word, 1) {
                    Ok(v) => {
                        push_section(&mut body, v);
                        word = chars_of_one(c);
                        escape = false;
                    },
                    Err(e) => {
                        proof { lemma_parse_error_stays(s, (k + 1) as nat, s.len()); }
                        return Err(e);
                    },
                }
            } else {
                word.push(c);
                escape = false;
            }
            assert(next == Ok::<_, ErrorModel>(state_of(body@, tags@, word@, escape)));
            proof { k = k + 1; }
            if i < n {
                i = i + 1;
            } else {
                done = true;
            }
        }
        Ok(CommandRules { body, tags })
    }

    /// Whether the reply names the chatter, whose name must then be looked
    /// up before `render`.
    pub fn needs_chatter_name(&self) -> (r: bool)
        ensures
            r == sections_view(self.body@).contains(SectionModel::ChatterName),
    {
        let mut i: usize = 0;
        while i < self.body.len()
            invariant
                i <= self.body@.len(),
                forall|j: int| 0 <= j < i ==> sections_view(self.body@)[j] != SectionModel::ChatterName,
            decreases self.body@.len() - i,
        {
            if let CommandSection::ChatterName = &self.body[i] {
                assert(sections_view(self.body@)[i as int] == SectionModel::ChatterName);
                return true;
            }
            i = i + 1;
        }
        false
    }

    /// Applies the command's counter tags to `counters`, in order: see
    /// `tags_effect`. `Ok` tells whether the command replies; `Err` names
    /// the first counter that does not exist, after which nothing more
    /// changes.
    pub fn apply_tags(&self, counters: &mut Vec<(String, i64)>) -> (r: Result<bool, String>)
        ensures
            ({
                let e = tags_effect(counters_view(old(counters)@), tags_view(self.tags@));
                &&& counters_view(final(counters)@) == e.counters
                &&& match r {
                    Ok(reply) => e.missing is None && reply == e.reply,
                    Err(name) => e.missing == Some(name@),
                }
            }),
    {
        let ghost start = counters_view(counters@);
        let ghost tv = tags_view(self.tags@);
        let mut reply = false;
        let mut i: usize = 0;
        while i < self.tags.len()
            invariant
                tv == tags_view(self.tags@),
                start == counters_view(old(counters)@),
                i <= self.tags@.len(),
                tags_effect(start, tv.subrange(0, i as int)) == (TagEffect {
                    counters: counters_view(counters@),
                    reply,
                    missing: None,
                }),
            decreases self.tags@.len() - i,
        {
            assert(tv.subrange(0, i + 1).drop_last() =~= tv.subrange(0, i as int));
            let ghost e = tags_effect(start, tv.subrange(0, i as int));
            assert(tags_effect(start, tv.subrange(0, i + 1)) == tag_effect(e, tv[i as int]));
            match &self.tags[i] {
                CommandTag::Reply => {
                    reply = true;
                },
                CommandTag::CountInc(n) => {
                    if !bump_counter(counters, n.as_str(), 0) {
                        proof { lemma_effect_missing_stays(start, tv, i as int + 1); }
                        return Err(n.clone());
                    }
                },
                CommandTag::CountDec(n) => {
                    if !bump_counter(counters, n.as_str(), 1) {
                        proof { lemma_effect_missing_stays(start, tv, i as int + 1); }
                        return Err(n.clone());
                    }
                },
                CommandTag::CountReset(n) => {
                    if !bump_counter(counters, n.as_str(), 2) {
                        proof { lemma_effect_missing_stays(start, tv, i as int + 1); }
                        return Err(n.clone());
                    }
                },
                _ => {},
            }
            i = i + 1;
        }
        assert(tv.subrange(0, i as int) =~= tv);
        Ok(reply)
    }

    /// The command's reply, given the words after the command, the chatter's
    /// name and the counters: see `render_spec`. `Err` names the first
    /// counter that does not exist.
    pub fn render(&self, args: &Vec<String>, chatter: &str, counters: &Vec<(String, i64)>) -> (r: Result<String, String>)
        ensures
            match r {
                Ok(t) => render_spec(sections_view(self.body@), args.deep_view(), chatter@, counters_view(counters@)) == Ok::<_, Seq<char>>(t@),
                Err(n) => render_spec(sections_view(self.body@), args.deep_view(), chatter@, counters_view(counters@)) == Err::<Seq<char>, _>(n@),
            },
    {
        let ghost bv = sections_view(self.body@);
        let ghost av = args.deep_view();
        let ghost cv = counters_view(counters@);
        let mut out = String::new();
        let mut i: usize = 0;
        while i < self.body.len()
            invariant
                bv == sections_view(self.body@),
                av == args.deep_view(),
                av.len() == args@.len(),
                cv == counters_view(counters@),
                i <= self.body@.len(),
                render_spec(bv.subrange(0, i as int), av, chatter@, cv) == Ok::<_, Seq<char>>(out@),
            decreases self.body@.len() - i,
        {
            assert(bv.subrange(0, i + 1).drop_last() =~= bv.subrange(0, i as int));
            let ghost before = out@;
            match &self.body[i] {
                CommandSection::Echo(t) => append_str(&mut out, t.as_str()),
                CommandSection::ChatterName => append_str(&mut out, chatter),
                CommandSection::WordIndex(idx) => {
                    if *idx < args.len() {
                        assert(av[*idx as int] == args@[*idx as int]@);
                        append_str(&mut out, args[*idx].as_str());
                    } else {
                        push_decimal(&mut out, *idx as u64);
                    }
                },
                CommandSection::Counter(n) => match find_counter(counters, n.as_str()) {
                    Some(k) => {
                        assert(cv[k as int].1 == counters@[k as int].1);
                        push_signed_decimal(&mut out, counters[k].1);
                    },
                    None => {
                        proof { lemma_render_error_stays(bv, av, chatter@, cv, i as int + 1); }
                        return Err(n.clone());
                    },
                },
            }
            i = i + 1;
        }
        assert(bv.subrange(0, i as int) =~= bv);
        Ok(out)
    }

    /// Reads a variable's name, after its `%`: see `var_spec`.
    pub fn var_from_string(input: &str) -> (r: Result<CommandSection, RulesError>)
        ensures
            match r {
                Ok(v) => var_spec(input@) == Ok::<_, ErrorModel>(v@),
                Err(e) => var_spec(input@) == Err::<SectionModel, _>(e@),
            },
    {
        let cs = to_chars(input);
        assert(cs@.subrange(0, cs@.len() as int) =~= input@);
        var_from_chars(&cs, 0)
    }

    /// Reads a tag's name, after its `&`: see `tag_spec`.
    pub fn tag_from_string(input: &str) -> (r: Result<CommandTag, RulesError>)
        ensures
            match r {
                Ok(t) => tag_spec(input@) == Ok::<_, ErrorModel>(t@),
                Err(e) => tag_spec(input@) == Err::<TagModel, _>(e@),
            },
    {
        let cs = to_chars(input);
        assert(cs@.subrange(0, cs@.len() as int) =~= input@);
        tag_from_chars(&cs, 0)
    }

    /// A command with no reply, marked builtin, and for moderators only
    /// when `is_super`.
    pub fn empty_builtin(is_super: bool) -> (r: CommandRules)
        ensures
            r.body@.len() == 0,
            tags_view(r.tags@) == if is_super {
                seq![TagModel::Builtin, TagModel::Super]
            } else {
                seq![TagModel::Builtin]
            },
    {
        let mut tags: Vec<CommandTag> = Vec::new();
        tags.push(CommandTag::Builtin);
        if is_super {
            tags.push(CommandTag::Super);
        }
        let r = CommandRules { body: Vec::new(), tags };
        assert(tags_view(r.tags@) =~= if is_super {
            seq![TagModel::Builtin, TagModel::Super]
        } else {
            seq![TagModel::Builtin]
        });
        r
    }

    pub fn is_builtin(&self) -> (r: bool)
        ensures
            r == tags_view(self.tags@).contains(TagModel::Builtin),
    {
        has_tag(&self.tags, &CommandTag::Builtin)
    }

    pub fn is_temporary(&self) -> (r: bool)
        ensures
            r == tags_view(self.tags@).contains(TagModel::Temporary),
    {
        has_tag(&self.tags, &CommandTag::Temporary)
    }

    /// Whether the sender of `msg` may run the command: a command for
    /// moderators only runs for a moderator or the broadcaster.
    pub fn can_run(&self, msg: &ChatMessage) -> (r: bool)
        ensures
            r == (!tags_view(self.tags@).contains(TagModel::Super) || msg.is_moderator
                || has_badge(msg.badges@, "broadcaster"@)),
    {
        !has_tag(&self.tags, &CommandTag::Super) || msg.user_is_super()
    }

    /// The command written back in the language it was read from: its tags,
    /// then its parts.
    pub fn as_words_string(&self) -> (r: String)
        ensures
            r@ == tags_words(tags_view(self.tags@)) + body_words(sections_view(self.body@)),
    {
        let mut r = String::new();
        let mut i: usize = 0;
        while i < self.tags.len()
            invariant
                i <= self.tags@.len(),
                r@ == tags_words(tags_view(self.tags@).subrange(0, i as int)),
            decreases self.tags@.len() - i,
        {
            let ghost before = r@;
            match &self.tags[i] {
                CommandTag::Reply => append_str(&mut r, "&REPLY "),
                CommandTag::Builtin => {},
                CommandTag::Super => append_str(&mut r, "&SUPER "),
                CommandTag::Temporary => append_str(&mut r, "&TEMP "),
                CommandTag::CountInc(n) => {
                    append_str(&mut r, "&C:INC=");
                    append_str(&mut r, n.as_str());
                    append_str(&mut r, " ");
                },
                CommandTag::CountDec(n) => {
                    append_str(&mut r, "&C:DEC=");
                    append_str(&mut r, n.as_str());
                    append_str(&mut r, " ");
                },
                CommandTag::CountReset(n) => {
                    append_str(&mut r, "&C:ZERO=");
                    append_str(&mut r, n.as_str());
                    append_str(&mut r, " ");
                },
            }
            assert(r@ =~= before + tag_words(tags_view(self.tags@)[i as int]));
            assert(tags_view(self.tags@).subrange(0, i + 1).drop_last() =~= tags_view(self.tags@).subrange(0, i as int));
            i = i + 1;
        }
        assert(tags_view(self.tags@).subrange(0, i as int) =~= tags_view(self.tags@));
        let ghost head = r@;
        let mut j: usize = 0;
        while j < self.body.len()
            invariant
                j <= self.body@.len(),
                r@ == head + body_words(sections_view(self.body@).subrange(0, j as int)),
            decreases self.body@.len() - j,
        {
            let ghost before = r@;
            match &self.body[j] {
                CommandSection::Echo(t) => append_str(&mut r, t.as_str()),
                CommandSection::ChatterName => append_str(&mut r, "%name"),
                CommandSection::WordIndex(idx) => {
                    append_str(&mut r, "%");
                    push_decimal(&mut r, *idx as u64);
                },
                CommandSection::Counter(n) => {
                    append_str(&mut r, "%counter=");
                    append_str(&mut r, n.as_str());
                },
            }
            assert(r@ =~= before + section_words(sections_view(self.body@)[j as int]));
            assert(sections_view(self.body@).subrange(0, j + 1).drop_last() =~= sections_view(self.body@).subrange(0, j as int));
            assert(head + body_words(sections_view(self.body@).subrange(0, j + 1)) =~= before + section_words(sections_view(self.body@)[j as int]));
            j = j + 1;
        }
        assert(sections_view(self.body@).subrange(0, j as int) =~= sections_view(self.body@));
        r
    }
}

} // verus!
