//! Reading the tags of chat lines: message ids, badges, emote places.
use vstd::prelude::*;
use crate::chat::EmoteInfo;
use crate::line::LineTag;
use crate::text::{
    find_char, first_index_of, parse_decimal, parse_decimal_spec, split_at_any, split_spec,
    str_eq, string_of, to_chars,
};

verus! {

/// The value of the last tag named `key`: `None` when there is no such tag,
/// `Some(None)` when it has no value.
pub open spec fn tag_lookup(tags: Seq<LineTag>, key: Seq<char>) -> Option<Option<String>>
    decreases tags.len(),
{
    if tags.len() == 0 {
        None
    } else if tags.last().key@ == key {
        Some(tags.last().value)
    } else {
        tag_lookup(tags.drop_last(), key)
    }
}

/// Looks up the tag `key`: see `tag_lookup`.
pub fn find_tag<'a>(tags: &'a Vec<LineTag>, key: &str) -> (r: Option<&'a Option<String>>)
    ensures
        match r {
            Some(v) => tag_lookup(tags@, key@) == Some(*v),
            None => tag_lookup(tags@, key@) is None,
        },
{
    let mut k: usize = tags.len();
    assert(tags@.subrange(0, k as int) =~= tags@);
    while k > 0
        invariant
            k <= tags@.len(),
            tag_lookup(tags@, key@) == tag_lookup(tags@.subrange(0, k as int), key@),
        decreases k,
    {
        assert(tags@.subrange(0, k as int).drop_last() =~= tags@.subrange(0, k - 1));
        if str_eq(tags[k - 1].key.as_str(), key) {
            return Some(&tags[k - 1].value);
        }
        k = k - 1;
    }
    None
}

/// `s` cut at its first `c`.
pub open spec fn split_once_spec(s: Seq<char>, c: char) -> Option<(Seq<char>, Seq<char>)> {
    match first_index_of(s, c) {
        Some(k) => Some((s.subrange(0, k), s.subrange(k + 1, s.len() as int))),
        None => None,
    }
}

/// One emote place, `start-end`.
pub open spec fn location_spec(s: Seq<char>) -> Option<(u16, u16)> {
    match split_once_spec(s, '-') {
        Some((a, b)) => match (parse_decimal_spec(a, 65535), parse_decimal_spec(b, 65535)) {
            (Some(x), Some(y)) => Some((x as u16, y as u16)),
            _ => None,
        },
        None => None,
    }
}

/// Each of `parts` read as an emote place, if all are.
pub open spec fn locations_spec(parts: Seq<Seq<char>>) -> Option<Seq<(u16, u16)>>
    decreases parts.len(),
{
    if parts.len() == 0 {
        Some(Seq::empty())
    } else {
        match (locations_spec(parts.drop_last()), location_spec(parts.last())) {
            (Some(v), Some(l)) => Some(v.push(l)),
            _ => None,
        }
    }
}

/// One emote, `id:place,place,...`.
pub open spec fn emote_spec(s: Seq<char>) -> Option<(Seq<char>, Seq<(u16, u16)>)> {
    match split_once_spec(s, ':') {
        Some((id, locs)) => match locations_spec(split_spec(locs, ","@)) {
            Some(v) => Some((id, v)),
            None => None,
        },
        None => None,
    }
}

/// Each of `parts` read as an emote, if all are.
pub open spec fn emote_list_spec(parts: Seq<Seq<char>>) -> Option<Seq<(Seq<char>, Seq<(u16, u16)>)>>
    decreases parts.len(),
{
    if parts.len() == 0 {
        Some(Seq::empty())
    } else {
        match (emote_list_spec(parts.drop_last()), emote_spec(parts.last())) {
            (Some(v), Some(e)) => Some(v.push(e)),
            _ => None,
        }
    }
}

/// The emotes tag's text, `emote/emote/...`; empty for no emote.
pub open spec fn emotes_text_spec(s: Seq<char>) -> Option<Seq<(Seq<char>, Seq<(u16, u16)>)>> {
    if s.len() == 0 {
        Some(Seq::empty())
    } else {
        emote_list_spec(split_spec(s, "/"@))
    }
}

pub open spec fn emote_view(e: EmoteInfo) -> (Seq<char>, Seq<(u16, u16)>) {
    (e.id@, e.locations@)
}

pub open spec fn emotes_view(v: Seq<EmoteInfo>) -> Seq<(Seq<char>, Seq<(u16, u16)>)> {
    v.map_values(|e: EmoteInfo| emote_view(e))
}

/// The position of the first `c` in `cs`: see `split_once_spec`.
fn split_once_at(cs: &Vec<char>, c: char) -> (r: Option<usize>)
    ensures
        match split_once_spec(cs@, c) {
            Some((a, b)) => r matches Some(k) && k < cs@.len() && a == cs@.subrange(0, k as int)
                && b == cs@.subrange(k + 1, cs@.len() as int),
            None => r is None,
        },
{
    let n = cs.len();
    let r = find_char(cs, 0, n, c);
    match r {
        Some(k) => {
            proof { crate::text::lemma_first_index_at(cs@, c, k as int); }
        },
        None => {
            proof { crate::text::lemma_first_index_none(cs@, c); }
        },
    }
    r
}

fn parse_location(cs: &Vec<char>) -> (r: Option<(u16, u16)>)
    ensures
        r == location_spec(cs@),
{
    let n = cs.len();
    match split_once_at(cs, '-') {
        None => None,
        Some(k) => {
            let a = parse_decimal(cs, 0, k, 65535);
            let b = parse_decimal(cs, k + 1, n, 65535);
            match (a, b) {
                (Some(x), Some(y)) => Some((x as u16, y as u16)),
                _ => None,
            }
        },
    }
}

fn parse_emote(cs: &Vec<char>) -> (r: Option<EmoteInfo>)
    ensures
        match r {
            Some(e) => emote_spec(cs@) == Some(emote_view(e)),
            None => emote_spec(cs@) is None,
        },
{
    let n = cs.len();
    let k = match split_once_at(cs, ':') {
        None => return None,
        Some(k) => k,
    };
    let id = string_of(cs, 0, k);
    let parts = split_at_any(cs, k + 1, n, ",");
    let ghost pv = parts.deep_view();
    let mut locations: Vec<(u16, u16)> = Vec::new();
    let mut i: usize = 0;
    while i < parts.len()
        invariant
            pv == parts.deep_view(),
            k < n == cs@.len(),
            pv == split_spec(cs@.subrange(k + 1, n as int), ","@),
            split_once_spec(cs@, ':') == Some((cs@.subrange(0, k as int), cs@.subrange(k + 1, n as int))),
            pv.len() == parts@.len(),
            i <= parts@.len(),
            locations_spec(pv.subrange(0, i as int)) == Some(locations@),
        decreases parts@.len() - i,
    {
        let pc = to_chars(parts[i].as_str());
        assert(pv[i as int] == parts@[i as int]@);
        assert(pv.subrange(0, i + 1).drop_last() =~= pv.subrange(0, i as int));
        match parse_location(&pc) {
            None => {
                assert(locations_spec(pv.subrange(0, i + 1)) is None);
                proof { lemma_prefix_none_locations(pv, i + 1); }
                return None;
            },
            Some(l) => {
                locations.push(l);
            },
        }
        i = i + 1;
    }
    assert(pv.subrange(0, i as int) =~= pv);
    Some(EmoteInfo { id, locations })
}

proof fn lemma_prefix_none_locations(parts: Seq<Seq<char>>, k: int)
    requires
        0 <= k <= parts.len(),
        locations_spec(parts.subrange(0, k)) is None,
    ensures
        locations_spec(parts) is None,
    decreases parts.len() - k,
{
    if k < parts.len() {
        assert(parts.subrange(0, k + 1).drop_last() =~= parts.subrange(0, k));
        lemma_prefix_none_locations(parts, k + 1);
    } else {
        assert(parts.subrange(0, k) =~= parts);
    }
}

proof fn lemma_prefix_none_emotes(parts: Seq<Seq<char>>, k: int)
    requires
        0 <= k <= parts.len(),
        emote_list_spec(parts.subrange(0, k)) is None,
    ensures
        emote_list_spec(parts) is None,
    decreases parts.len() - k,
{
    if k < parts.len() {
        assert(parts.subrange(0, k + 1).drop_last() =~= parts.subrange(0, k));
        lemma_prefix_none_emotes(parts, k + 1);
    } else {
        assert(parts.subrange(0, k) =~= parts);
    }
}

/// Reads the text of an emotes tag: see `emotes_text_spec`.
pub fn parse_emotes(s: &str) -> (r: Option<Vec<EmoteInfo>>)
    ensures
        match r {
            Some(v) => emotes_text_spec(s@) == Some(emotes_view(v@)),
            None => emotes_text_spec(s@) is None,
        },
{
    let cs = to_chars(s);
    let n = cs.len();
    if n == 0 {
        let v: Vec<EmoteInfo> = Vec::new();
        assert(emotes_view(v@) =~= Seq::empty());
        return Some(v);
    }
    assert(cs@.subrange(0, n as int) =~= s@);
    let parts = split_at_any(&cs, 0, n, "/");
    let ghost pv = parts.deep_view();
    let mut out: Vec<EmoteInfo> = Vec::new();
    let mut i: usize = 0;
    while i < parts.len()
        invariant
            pv == parts.deep_view(),
            pv == split_spec(s@, "/"@),
            s@.len() > 0,
            pv.len() == parts@.len(),
            i <= parts@.len(),
            emote_list_spec(pv.subrange(0, i as int)) == Some(emotes_view(out@)),
        decreases parts@.len() - i,
    {
        let pc = to_chars(parts[i].as_str());
        assert(pv[i as int] == parts@[i as int]@);
        assert(pv.subrange(0, i + 1).drop_last() =~= pv.subrange(0, i as int));
        match parse_emote(&pc) {
            None => {
                proof { lemma_prefix_none_emotes(pv, i + 1); }
                return None;
            },
            Some(e) => {
                let ghost before = emotes_view(out@);
                out.push(e);
                assert(emotes_view(out@) =~= before.push(emote_view(e)));
            },
        }
        i = i + 1;
    }
    assert(pv.subrange(0, i as int) =~= pv);
    Some(out)
}

/// The emotes of a chat line, from its emotes tag: none when the tag is
/// absent; `None` when it has no value or does not parse.
pub open spec fn emote_tag_spec(tag: Option<Option<String>>) -> Option<Seq<(Seq<char>, Seq<(u16, u16)>)>> {
    match tag {
        None => Some(Seq::empty()),
        Some(None) => None,
        Some(Some(v)) => emotes_text_spec(v@),
    }
}

/// Reads the emotes tag of a chat line: see `emote_tag_spec`.
pub fn emote_tag_to_emotes(tag: Option<&Option<String>>) -> (r: Option<Vec<EmoteInfo>>)
    ensures
        match r {
            Some(v) => emote_tag_spec(match tag { Some(t) => Some(*t), None => None }) == Some(emotes_view(v@)),
            None => emote_tag_spec(match tag { Some(t) => Some(*t), None => None }) is None,
        },
{
    match tag {
        None => {
            let v: Vec<EmoteInfo> = Vec::new();
            assert(emotes_view(v@) =~= Seq::empty());
            Some(v)
        },
        Some(None) => None,
        Some(Some(text)) => parse_emotes(text.as_str()),
    }
}

/// One badge, `name/version`.
pub open spec fn badge_spec(s: Seq<char>) -> Option<(Seq<char>, Seq<char>)> {
    split_once_spec(s, '/')
}

/// Each of `parts` read as a badge, if all are.
pub open spec fn badge_list_spec(parts: Seq<Seq<char>>) -> Option<Seq<(Seq<char>, Seq<char>)>>
    decreases parts.len(),
{
    if parts.len() == 0 {
        Some(Seq::empty())
    } else {
        match (badge_list_spec(parts.drop_last()), badge_spec(parts.last())) {
            (Some(v), Some(b)) => Some(v.push(b)),
            _ => None,
        }
    }
}

/// The badges tag's text, `badge,badge,...`; empty for no badge.
pub open spec fn badges_text_spec(s: Seq<char>) -> Option<Seq<(Seq<char>, Seq<char>)>> {
    if s.len() == 0 {
        Some(Seq::empty())
    } else {
        badge_list_spec(split_spec(s, ","@))
    }
}

pub open spec fn badges_view(v: Seq<(String, String)>) -> Seq<(Seq<char>, Seq<char>)> {
    v.map_values(|b: (String, String)| (b.0@, b.1@))
}

proof fn lemma_prefix_none_badges(parts: Seq<Seq<char>>, k: int)
    requires
        0 <= k <= parts.len(),
        badge_list_spec(parts.subrange(0, k)) is None,
    ensures
        badge_list_spec(parts) is None,
    decreases parts.len() - k,
{
    if k < parts.len() {
        assert(parts.subrange(0, k + 1).drop_last() =~= parts.subrange(0, k));
        lemma_prefix_none_badges(parts, k + 1);
    } else {
        assert(parts.subrange(0, k) =~= parts);
    }
}

/// Reads the text of a badges tag: see `badges_text_spec`.
pub fn parse_badges(s: &str) -> (r: Option<Vec<(String, String)>>)
    ensures
        match r {
            Some(v) => badges_text_spec(s@) == Some(badges_view(v@)),
            None => badges_text_spec(s@) is None,
        },
{
    let cs = to_chars(s);
    let n = cs.len();
    if n == 0 {
        let v: Vec<(String, String)> = Vec::new();
        assert(badges_view(v@) =~= Seq::empty());
        return Some(v);
    }
    assert(cs@.subrange(0, n as int) =~= s@);
    let parts = split_at_any(&cs, 0, n, ",");
    let ghost pv = parts.deep_view();
    let mut out: Vec<(String, String)> = Vec::new();
    let mut i: usize = 0;
    while i < parts.len()
        invariant
            pv == parts.deep_view(),
            pv == split_spec(s@, ","@),
            s@.len() > 0,
            pv.len() == parts@.len(),
            i <= parts@.len(),
            badge_list_spec(pv.subrange(0, i as int)) == Some(badges_view(out@)),
        decreases parts@.len() - i,
    {
        let pc = to_chars(parts[i].as_str());
        let m = pc.len();
        assert(pv[i as int] == parts@[i as int]@);
        assert(pv.subrange(0, i + 1).drop_last() =~= pv.subrange(0, i as int));
        match split_once_at(&pc, '/') {
            None => {
                proof { lemma_prefix_none_badges(pv, i + 1); }
                return None;
            },
            Some(k) => {
                let name = string_of(&pc, 0, k);
                let version = string_of(&pc, k + 1, m);
                let ghost before = badges_view(out@);
                out.push((name, version));
                assert(badges_view(out@) =~= before.push((name@, version@)));
            },
        }
        i = i + 1;
    }
    assert(pv.subrange(0, i as int) =~= pv);
    Some(out)
}

/// The value of the tag `key`, when it is there with a value.
pub open spec fn req_spec(tags: Seq<LineTag>, key: Seq<char>) -> Option<Seq<char>> {
    match tag_lookup(tags, key) {
        Some(Some(v)) => Some(v@),
        _ => None,
    }
}

/// The value of the optional tag `key`: `Some(None)` when it is absent,
/// `None` when it is there without a value.
pub open spec fn opt_spec(tags: Seq<LineTag>, key: Seq<char>) -> Option<Option<Seq<char>>> {
    match tag_lookup(tags, key) {
        None => Some(None),
        Some(Some(v)) => Some(Some(v@)),
        Some(None) => None,
    }
}

/// The optional number tag `key`, no larger than `max`.
pub open spec fn opt_number_spec(tags: Seq<LineTag>, key: Seq<char>, max: u64) -> Option<Option<u64>> {
    match opt_spec(tags, key) {
        None => None,
        Some(None) => Some(None),
        Some(Some(v)) => match parse_decimal_spec(v, max) {
            Some(x) => Some(Some(x)),
            None => None,
        },
    }
}

fn required(tags: &Vec<LineTag>, key: &str) -> (r: Option<String>)
    ensures
        match r {
            Some(v) => req_spec(tags@, key@) == Some(v@),
            None => req_spec(tags@, key@) is None,
        },
{
    match find_tag(tags, key) {
        Some(Some(v)) => Some(v.clone()),
        _ => None,
    }
}

fn optional(tags: &Vec<LineTag>, key: &str) -> (r: Option<Option<String>>)
    ensures
        match r {
            Some(Some(v)) => opt_spec(tags@, key@) == Some(Some(v@)),
            Some(None) => opt_spec(tags@, key@) == Some(None::<Seq<char>>),
            None => opt_spec(tags@, key@) is None,
        },
{
    match find_tag(tags, key) {
        None => Some(None),
        Some(Some(v)) => Some(Some(v.clone())),
        Some(None) => None,
    }
}

fn optional_number(tags: &Vec<LineTag>, key: &str, max: u64) -> (r: Option<Option<u64>>)
    ensures
        r == opt_number_spec(tags@, key@, max),
{
    match optional(tags, key) {
        None => None,
        Some(None) => Some(None),
        Some(Some(v)) => {
            let cs = to_chars(v.as_str());
            assert(cs@.subrange(0, cs@.len() as int) =~= cs@);
            match parse_decimal(&cs, 0, cs.len(), max) {
                Some(x) => Some(Some(x)),
                None => None,
            }
        },
    }
}

/// The tags of a chat message.
pub struct PRIVMSGTags {
    pub id: String,
    pub user_id: String,
    pub display_name: String,
    pub badges: Vec<(String, String)>,
    pub bits: Option<u32>,
    /// The `mod` tag.
    pub is_mod: bool,
    pub subscriber: bool,
    pub vip: bool,
    pub emotes: Vec<EmoteInfo>,
    pub color: Option<String>,
}

/// Whether the tags of a chat message hold all that `PRIVMSGTags` needs,
/// each in its form.
pub open spec fn privmsg_ok(t: Seq<LineTag>) -> bool {
    &&& req_spec(t, "id"@) is Some
    &&& req_spec(t, "user-id"@) is Some
    &&& req_spec(t, "display-name"@) is Some
    &&& req_spec(t, "badges"@) matches Some(b) && badges_text_spec(b) is Some
    &&& opt_number_spec(t, "bits"@, 0xffff_ffff) is Some
    &&& req_spec(t, "mod"@) is Some
    &&& req_spec(t, "subscriber"@) is Some
    &&& emote_tag_spec(tag_lookup(t, "emotes"@)) is Some
    &&& opt_spec(t, "color"@) is Some
}

pub open spec fn opt_u32(o: Option<u64>) -> Option<u32> {
    match o {
        Some(x) => Some(x as u32),
        None => None,
    }
}

impl PRIVMSGTags {
    /// Reads the tags of a chat message; `None` when one it needs is missing
    /// or malformed.
    pub fn from_tags(tags: &Vec<LineTag>) -> (r: Option<PRIVMSGTags>)
        ensures
            r is Some == privmsg_ok(tags@),
            r matches Some(p) ==> privmsg_read(tags@, p),
    {
        let id = match required(tags, "id") {
            Some(v) => v,
            None => return None,
        };
        let user_id = match required(tags, "user-id") {
            Some(v) => v,
            None => return None,
        };
        let display_name = match required(tags, "display-name") {
            Some(v) => v,
            None => return None,
        };
        let badges = match required(tags, "badges") {
            Some(v) => match parse_badges(v.as_str()) {
                Some(b) => b,
                None => return None,
            },
            None => return None,
        };
        let bits = match optional_number(tags, "bits", 0xffff_ffff) {
            Some(b) => b,
            None => return None,
        };
        let is_mod = match required(tags, "mod") {
            Some(v) => str_eq(v.as_str(), "1"),
            None => return None,
        };
        let subscriber = match required(tags, "subscriber") {
            Some(v) => str_eq(v.as_str(), "1"),
            None => return None,
        };
        let vip = find_tag(tags, "vip").is_some();
        let emotes = match emote_tag_to_emotes(find_tag(tags, "emotes")) {
            Some(e) => e,
            None => return None,
        };
        let color = match optional(tags, "color") {
            Some(c) => c,
            None => return None,
        };
        let bits = match bits {
            Some(b) => Some(b as u32),
            None => None,
        };
        Some(PRIVMSGTags { id, user_id, display_name, badges, bits, is_mod, subscriber, vip, emotes, color })
    }
}

pub open spec fn opt_view(o: Option<String>) -> Option<Seq<char>> {
    match o {
        Some(s) => Some(s@),
        None => None,
    }
}

/// The tags of a chat-clear line.
pub struct CLEARCHATTags {
    pub room_id: String,
    pub target_user_id: Option<String>,
    /// The timeout, in seconds.
    pub ban_duration: Option<u64>,
}

impl CLEARCHATTags {
    /// Reads the tags of a chat-clear line; `None` when one it needs is
    /// missing or malformed.
    pub fn from_tags(tags: &Vec<LineTag>) -> (r: Option<CLEARCHATTags>)
        ensures
            r is Some == clearchat_ok(tags@),
            r matches Some(c) ==> clearchat_read(tags@, c),
    {
        let room_id = match required(tags, "room-id") {
            Some(v) => v,
            None => return None,
        };
        let target_user_id = match optional(tags, "target-user-id") {
            Some(v) => v,
            None => return None,
        };
        let ban_duration = match optional_number(tags, "ban-duration", u64::MAX) {
            Some(v) => v,
            None => return None,
        };
        Some(CLEARCHATTags { room_id, target_user_id, ban_duration })
    }
}

/// The tags of a message-deletion line.
pub struct CLEARMSGTags {
    pub login: String,
    pub target_msg_id: Option<String>,
}

impl CLEARMSGTags {
    /// Reads the tags of a message-deletion line; `None` when one it needs
    /// is missing or malformed.
    pub fn from_tags(tags: &Vec<LineTag>) -> (r: Option<CLEARMSGTags>)
        ensures
            r is Some == clearmsg_ok(tags@),
            r matches Some(c) ==> clearmsg_read(tags@, c),
    {
        let login = match required(tags, "login") {
            Some(v) => v,
            None => return None,
        };
        let target_msg_id = match optional(tags, "target-msg-id") {
            Some(v) => v,
            None => return None,
        };
        Some(CLEARMSGTags { login, target_msg_id })
    }
}

/// A subscription notice.
pub struct NoticeSubTags {
    /// From `msg-param-cumulative-months`, or `msg-param-months` for a gift.
    pub months: u64,
    /// For a gift: the recipient's display name and id.
    pub gift_target: Option<(String, String)>,
}

/// A raid notice.
pub struct NoticeRaidTags {
    /// From `msg-param-displayName`.
    pub name: String,
    /// From `msg-param-viewerCount`.
    pub viewcount: u64,
}

/// The tags of a user notice: those of a chat message, the notice's id, and
/// what a subscription or raid notice adds.
pub struct USERNOTICETags {
    pub message_info: PRIVMSGTags,
    pub msg_id: String,
    pub sub: Option<NoticeSubTags>,
    pub raid: Option<NoticeRaidTags>,
}

pub open spec fn number_value(v: Option<String>) -> Option<u64> {
    match v {
        Some(s) => parse_decimal_spec(s@, u64::MAX),
        None => None,
    }
}

/// The subscription part of a notice: `Some(None)` when it is none,
/// `None` when its tags are malformed.
pub open spec fn sub_spec(t: Seq<LineTag>) -> Option<Option<(u64, Option<(Seq<char>, Seq<char>)>)>> {
    match tag_lookup(t, "msg-param-cumulative-months"@) {
        Some(v) => match number_value(v) {
            Some(m) => Some(Some((m, None))),
            None => None,
        },
        None => match (
            tag_lookup(t, "msg-param-months"@),
            tag_lookup(t, "msg-param-recipient-display-name"@),
            tag_lookup(t, "msg-param-recipient-id"@),
        ) {
            (Some(a), Some(Some(b)), Some(Some(c))) => match number_value(a) {
                Some(m) => Some(Some((m, Some((b@, c@))))),
                None => None,
            },
            (Some(_), Some(_), Some(_)) => None,
            _ => Some(None),
        },
    }
}

/// The raid part of a notice: `Some(None)` when it is none, `None` when its
/// tags are malformed.
pub open spec fn raid_spec(t: Seq<LineTag>) -> Option<Option<(Seq<char>, u64)>> {
    match (tag_lookup(t, "msg-param-displayName"@), tag_lookup(t, "msg-param-viewerCount"@)) {
        (Some(Some(n)), Some(v)) => match number_value(v) {
            Some(c) => Some(Some((n@, c))),
            None => None,
        },
        (Some(None), Some(_)) => None,
        _ => Some(None),
    }
}

pub open spec fn sub_view(s: Option<NoticeSubTags>) -> Option<(u64, Option<(Seq<char>, Seq<char>)>)> {
    match s {
        Some(n) => Some((n.months, match n.gift_target {
            Some((a, b)) => Some((a@, b@)),
            None => None,
        })),
        None => None,
    }
}

pub open spec fn raid_view(r: Option<NoticeRaidTags>) -> Option<(Seq<char>, u64)> {
    match r {
        Some(n) => Some((n.name@, n.viewcount)),
        None => None,
    }
}

fn number_of(v: &Option<String>) -> (r: Option<u64>)
    ensures
        r == number_value(*v),
{
    match v {
        Some(s) => {
            let cs = to_chars(s.as_str());
            assert(cs@.subrange(0, cs@.len() as int) =~= cs@);
            parse_decimal(&cs, 0, cs.len(), u64::MAX)
        },
        None => None,
    }
}

impl USERNOTICETags {
    /// Reads the tags of a user notice; `None` when one it needs is missing
    /// or malformed.
    pub fn from_tags(tags: &Vec<LineTag>) -> (r: Option<USERNOTICETags>)
        ensures
            r is Some == usernotice_ok(tags@),
            r matches Some(u) ==> usernotice_read(tags@, u),
    {
        let message_info = match PRIVMSGTags::from_tags(tags) {
            Some(m) => m,
            None => return None,
        };
        let msg_id = match required(tags, "msg-id") {
            Some(v) => v,
            None => return None,
        };
        let sub = match find_tag(tags, "msg-param-cumulative-months") {
            Some(v) => match number_of(v) {
                Some(months) => Some(NoticeSubTags { months, gift_target: None }),
                None => return None,
            },
            None => match (
                find_tag(tags, "msg-param-months"),
                find_tag(tags, "msg-param-recipient-display-name"),
                find_tag(tags, "msg-param-recipient-id"),
            ) {
                (Some(a), Some(Some(b)), Some(Some(c))) => match number_of(a) {
                    Some(months) => Some(NoticeSubTags { months, gift_target: Some((b.clone(), c.clone())) }),
                    None => return None,
                },
                (Some(_), Some(_), Some(_)) => return None,
                _ => None,
            },
        };
        let raid = match (find_tag(tags, "msg-param-displayName"), find_tag(tags, "msg-param-viewerCount")) {
            (Some(Some(n)), Some(v)) => match number_of(v) {
                Some(viewcount) => Some(NoticeRaidTags { name: n.clone(), viewcount }),
                None => return None,
            },
            (Some(None), Some(_)) => return None,
            _ => None,
        };
        Some(USERNOTICETags { message_info, msg_id, sub, raid })
    }
}

/// What the tags of a chat message say of the set read from them.
pub open spec fn privmsg_read(t: Seq<LineTag>, p: PRIVMSGTags) -> bool {
    &&& req_spec(t, "id"@) == Some(p.id@)
    &&& req_spec(t, "user-id"@) == Some(p.user_id@)
    &&& req_spec(t, "display-name"@) == Some(p.display_name@)
    &&& badges_text_spec(req_spec(t, "badges"@).unwrap()) == Some(badges_view(p.badges@))
    &&& opt_number_spec(t, "bits"@, 0xffff_ffff) == Some(
        match p.bits {
            Some(b) => Some(b as u64),
            None => None::<u64>,
        },
    )
    &&& p.is_mod == (req_spec(t, "mod"@) == Some("1"@))
    &&& p.subscriber == (req_spec(t, "subscriber"@) == Some("1"@))
    &&& p.vip == (tag_lookup(t, "vip"@) is Some)
    &&& emote_tag_spec(tag_lookup(t, "emotes"@)) == Some(emotes_view(p.emotes@))
    &&& opt_spec(t, "color"@) == Some(opt_view(p.color))
}

/// Whether the tags of a chat-clear line hold all that `CLEARCHATTags` needs.
pub open spec fn clearchat_ok(t: Seq<LineTag>) -> bool {
    req_spec(t, "room-id"@) is Some && opt_spec(t, "target-user-id"@) is Some
        && opt_number_spec(t, "ban-duration"@, u64::MAX) is Some
}

pub open spec fn clearchat_read(t: Seq<LineTag>, c: CLEARCHATTags) -> bool {
    &&& req_spec(t, "room-id"@) == Some(c.room_id@)
    &&& opt_spec(t, "target-user-id"@) == Some(opt_view(c.target_user_id))
    &&& opt_number_spec(t, "ban-duration"@, u64::MAX) == Some(c.ban_duration)
}

/// Whether the tags of a message-deletion line hold all that `CLEARMSGTags`
/// needs.
pub open spec fn clearmsg_ok(t: Seq<LineTag>) -> bool {
    req_spec(t, "login"@) is Some && opt_spec(t, "target-msg-id"@) is Some
}

pub open spec fn clearmsg_read(t: Seq<LineTag>, c: CLEARMSGTags) -> bool {
    &&& req_spec(t, "login"@) == Some(c.login@)
    &&& opt_spec(t, "target-msg-id"@) == Some(opt_view(c.target_msg_id))
}

/// Whether the tags of a user notice hold all that `USERNOTICETags` needs.
pub open spec fn usernotice_ok(t: Seq<LineTag>) -> bool {
    privmsg_ok(t) && req_spec(t, "msg-id"@) is Some && sub_spec(t) is Some && raid_spec(t) is Some
}

pub open spec fn usernotice_read(t: Seq<LineTag>, u: USERNOTICETags) -> bool {
    &&& req_spec(t, "id"@) == Some(u.message_info.id@)
    &&& req_spec(t, "msg-id"@) == Some(u.msg_id@)
    &&& sub_spec(t) == Some(sub_view(u.sub))
    &&& raid_spec(t) == Some(raid_view(u.raid))
}

/// A set of tags read from a chat line's tags.
pub trait Tags: Sized {
    /// Whether `tags` hold all that the set needs, each in its form.
    spec fn accepts(tags: Seq<LineTag>) -> bool;

    /// Whether `r` holds what `tags` say.
    spec fn read_from(tags: Seq<LineTag>, r: Self) -> bool;

    /// Reads the set; `None` when a tag it needs is missing or malformed.
    fn from_tags(tags: &Vec<LineTag>) -> (r: Option<Self>)
        ensures
            r is Some == Self::accepts(tags@),
            r matches Some(x) ==> Self::read_from(tags@, x);
}

impl Tags for PRIVMSGTags {
    open spec fn accepts(tags: Seq<LineTag>) -> bool {
        privmsg_ok(tags)
    }

    open spec fn read_from(tags: Seq<LineTag>, r: PRIVMSGTags) -> bool {
        privmsg_read(tags, r)
    }

    fn from_tags(tags: &Vec<LineTag>) -> (r: Option<PRIVMSGTags>) {
        PRIVMSGTags::from_tags(tags)
    }
}

impl Tags for USERNOTICETags {
    open spec fn accepts(tags: Seq<LineTag>) -> bool {
        usernotice_ok(tags)
    }

    open spec fn read_from(tags: Seq<LineTag>, r: USERNOTICETags) -> bool {
        usernotice_read(tags, r)
    }

    fn from_tags(tags: &Vec<LineTag>) -> (r: Option<USERNOTICETags>) {
        USERNOTICETags::from_tags(tags)
    }
}

impl Tags for CLEARCHATTags {
    open spec fn accepts(tags: Seq<LineTag>) -> bool {
        clearchat_ok(tags)
    }

    open spec fn read_from(tags: Seq<LineTag>, r: CLEARCHATTags) -> bool {
        clearchat_read(tags, r)
    }

    fn from_tags(tags: &Vec<LineTag>) -> (r: Option<CLEARCHATTags>) {
        CLEARCHATTags::from_tags(tags)
    }
}

impl Tags for CLEARMSGTags {
    open spec fn accepts(tags: Seq<LineTag>) -> bool {
        clearmsg_ok(tags)
    }

    open spec fn read_from(tags: Seq<LineTag>, r: CLEARMSGTags) -> bool {
        clearmsg_read(tags, r)
    }

    fn from_tags(tags: &Vec<LineTag>) -> (r: Option<CLEARMSGTags>) {
        CLEARMSGTags::from_tags(tags)
    }
}

/// Reads the tag set `T` from a chat line's tags: `None` exactly when the
/// tags do not hold what `T` needs.
pub fn tags<T: Tags>(raw_tags: &Vec<LineTag>) -> (r: Option<T>)
    ensures
        r is Some == T::accepts(raw_tags@),
        r matches Some(x) ==> T::read_from(raw_tags@, x),
{
    T::from_tags(raw_tags)
}

} // verus!
