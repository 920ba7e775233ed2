//! What the platform's API answers, as plain data.
use vstd::prelude::*;
use crate::chat::ChatMessage;
use crate::text::str_eq;

verus! {

/// An error answer of the platform.
#[derive(Debug)]
pub struct TwitchError {
    pub error: Option<String>,
    pub status: u16,
    pub message: String,
}

#[derive(Debug)]
pub struct TwitchUser {
    pub id: String,
    pub login: String,
    pub display_name: String,
    pub description: String,
}

#[derive(Debug)]
pub struct TwitchEmote {
    pub id: String,
    pub name: String,
    pub format: Vec<String>,
    pub scale: Vec<String>,
    pub theme_mode: Vec<String>,
}

#[derive(Debug)]
pub struct TwitchChannel {
    pub broadcaster_id: String,
    pub broadcaster_login: String,
    pub broadcaster_name: String,
    pub broadcaster_language: String,
    pub game_id: String,
    pub game_name: String,
    pub title: String,
    pub tags: Vec<String>,
}

#[derive(Debug)]
pub struct TwitchStream {
    pub id: String,
    pub user_id: String,
    pub user_login: String,
    pub user_name: String,
    pub game_id: String,
    pub game_name: String,
    pub title: String,
    pub tags: Vec<String>,
    pub viewer_count: u32,
    pub started_at: String,
    pub language: String,
    pub is_mature: bool,
}

#[derive(Debug)]
pub struct TwitchBadgeUrls {
    pub id: String,
    pub image_url_1x: String,
    pub image_url_2x: String,
    pub image_url_4x: String,
}

impl TwitchBadgeUrls {
    pub fn clone(&self) -> (r: TwitchBadgeUrls)
        ensures
            r == *self,
    {
        TwitchBadgeUrls {
            id: self.id.clone(),
            image_url_1x: self.image_url_1x.clone(),
            image_url_2x: self.image_url_2x.clone(),
            image_url_4x: self.image_url_4x.clone(),
        }
    }
}

/// A badge set: its name and the images of each of its versions.
#[derive(Debug)]
pub struct BadgeSet {
    pub set_id: String,
    pub versions: Vec<TwitchBadgeUrls>,
}

/// The versions of the last set named `name`: channel sets, which come
/// after the global ones, take the place of a global set of the same name.
pub open spec fn set_versions(sets: Seq<BadgeSet>, name: Seq<char>) -> Option<Seq<TwitchBadgeUrls>>
    decreases sets.len(),
{
    if sets.len() == 0 {
        None
    } else if sets.last().set_id@ == name {
        Some(sets.last().versions@)
    } else {
        set_versions(sets.drop_last(), name)
    }
}

/// The first version whose id is `id`.
pub open spec fn find_version(vs: Seq<TwitchBadgeUrls>, id: Seq<char>) -> Option<TwitchBadgeUrls>
    decreases vs.len(),
{
    if vs.len() == 0 {
        None
    } else if vs[0].id@ == id {
        Some(vs[0])
    } else {
        find_version(vs.drop_first(), id)
    }
}

/// The images of a chatter's badges, in the order of the badges; a badge
/// whose set or version is unknown has none.
pub open spec fn badge_urls_spec(badges: Seq<(String, String)>, sets: Seq<BadgeSet>) -> Seq<TwitchBadgeUrls>
    decreases badges.len(),
{
    if badges.len() == 0 {
        Seq::empty()
    } else {
        let rest = badge_urls_spec(badges.drop_last(), sets);
        let (name, version) = badges.last();
        match set_versions(sets, name@) {
            Some(vs) => match find_version(vs, version@) {
                Some(u) => rest.push(u),
                None => rest,
            },
            None => rest,
        }
    }
}

fn find_set<'a>(sets: &'a Vec<BadgeSet>, name: &str) -> (r: Option<&'a Vec<TwitchBadgeUrls>>)
    ensures
        match r {
            Some(v) => set_versions(sets@, name@) == Some(v@),
            None => set_versions(sets@, name@) is None,
        },
{
    let mut k: usize = sets.len();
    assert(sets@.subrange(0, k as int) =~= sets@);
    while k > 0
        invariant
            k <= sets@.len(),
            set_versions(sets@, name@) == set_versions(sets@.subrange(0, k as int), name@),
        decreases k,
    {
        assert(sets@.subrange(0, k as int).drop_last() =~= sets@.subrange(0, k - 1));
        if str_eq(sets[k - 1].set_id.as_str(), name) {
            return Some(&sets[k - 1].versions);
        }
        k = k - 1;
    }
    None
}

fn find_version_exec(vs: &Vec<TwitchBadgeUrls>, id: &str) -> (r: Option<TwitchBadgeUrls>)
    ensures
        r == find_version(vs@, id@),
{
    let mut k: usize = 0;
    assert(vs@.subrange(0, vs@.len() as int) =~= vs@);
    while k < vs.len()
        invariant
            k <= vs@.len(),
            find_version(vs@, id@) == find_version(vs@.subrange(k as int, vs@.len() as int), id@),
        decreases vs@.len() - k,
    {
        assert(vs@.subrange(k as int, vs@.len() as int).drop_first() =~= vs@.subrange(k + 1, vs@.len() as int));
        if str_eq(vs[k].id.as_str(), id) {
            return Some(vs[k].clone());
        }
        k = k + 1;
    }
    None
}

impl ChatMessage {
    /// The images of the sender's badges among `sets`: see
    /// `badge_urls_spec`.
    pub fn badge_urls(&self, sets: &Vec<BadgeSet>) -> (r: Vec<TwitchBadgeUrls>)
        ensures
            r@ == badge_urls_spec(self.badges@, sets@),
    {
        let mut out: Vec<TwitchBadgeUrls> = Vec::new();
        let mut i: usize = 0;
        while i < self.badges.len()
            invariant
                i <= self.badges@.len(),
                out@ == badge_urls_spec(self.badges@.subrange(0, i as int), sets@),
            decreases self.badges@.len() - i,
        {
            assert(self.badges@.subrange(0, i + 1).drop_last() =~= self.badges@.subrange(0, i as int));
            let (name, version) = (&self.badges[i].0, &self.badges[i].1);
            match find_set(sets, name.as_str()) {
                Some(vs) => match find_version_exec(vs, version.as_str()) {
                    Some(u) => out.push(u),
                    None => {},
                },
                None => {},
            }
            i = i + 1;
        }
        assert(self.badges@.subrange(0, i as int) =~= self.badges@);
        out
    }
}

} // verus!
