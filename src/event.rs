//! The notifications that the event stream delivers, by kind.
use vstd::prelude::*;
use crate::chat::EmoteInfo;
use crate::tags::emotes_view;
use crate::text::str_eq;

verus! {

/// The kinds of notification a handler can ask for.
pub trait Event: Sealed {}

/// Keeps the set of notification kinds closed.
pub trait Sealed {}

/// A channel-point reward was redeemed.
pub struct ChannelPointRedeem {
    pub id: String,
    pub user_name: String,
    pub user_id: String,
    pub user_input: Option<String>,
    pub reward: Reward,
}

/// A paid subscription message.
pub struct Subscription {
    pub user_name: String,
    pub user_id: String,
    pub tier: String,
    pub cumulative_months: u16,
    pub streak_months: Option<u16>,
    pub duration_months: u16,
    pub message: SubscriptionMessage,
}

/// A raid, into or out of the channel.
pub struct Raid {
    pub from_broadcaster_user_id: String,
    pub from_broadcaster_user_name: String,
    pub to_broadcaster_user_id: String,
    pub to_broadcaster_user_name: String,
    pub viewers: u32,
}

/// The stream went online.
pub struct StreamOnline {
    /// The `type` field.
    pub stream_type: String,
    pub started_at: String,
}

impl Sealed for ChannelPointRedeem {}
impl Sealed for Subscription {}
impl Sealed for Raid {}
impl Sealed for StreamOnline {}
impl Event for ChannelPointRedeem {}
impl Event for Subscription {}
impl Event for Raid {}
impl Event for StreamOnline {}

/// A channel-point reward.
pub struct Reward {
    pub id: String,
    pub title: String,
}

/// The text of a subscription message, with its emotes.
pub struct SubscriptionMessage {
    pub text: String,
    pub emotes: Vec<SubscriptionEmote>,
}

/// One emote of a subscription message, with its first and last positions.
pub struct SubscriptionEmote {
    pub begin: u16,
    pub end: u16,
    pub id: String,
}

/// The position of the group of emote `id`, if there is one.
pub open spec fn group_index(groups: Seq<(Seq<char>, Seq<(u16, u16)>)>, id: Seq<char>) -> Option<int>
    decreases groups.len(),
{
    if groups.len() == 0 {
        None
    } else {
        match group_index(groups.drop_last(), id) {
            Some(i) => Some(i),
            None => if groups.last().0 == id {
                Some(groups.len() - 1)
            } else {
                None
            },
        }
    }
}

/// The emotes grouped by id: one group per id, in the order ids first
/// appear, each with its positions in order.
pub open spec fn group_emotes(es: Seq<SubscriptionEmote>) -> Seq<(Seq<char>, Seq<(u16, u16)>)>
    decreases es.len(),
{
    if es.len() == 0 {
        Seq::empty()
    } else {
        let groups = group_emotes(es.drop_last());
        let e = es.last();
        match group_index(groups, e.id@) {
            Some(i) => groups.update(i, (groups[i].0, groups[i].1.push((e.begin, e.end)))),
            None => groups.push((e.id@, seq![(e.begin, e.end)])),
        }
    }
}

proof fn lemma_group_index_bound(groups: Seq<(Seq<char>, Seq<(u16, u16)>)>, id: Seq<char>)
    ensures
        match group_index(groups, id) {
            Some(i) => 0 <= i < groups.len() && groups[i].0 == id,
            None => forall|j: int| 0 <= j < groups.len() ==> groups[j].0 != id,
        },
    decreases groups.len(),
{
    if groups.len() > 0 {
        let d = groups.drop_last();
        lemma_group_index_bound(d, id);
        match group_index(d, id) {
            Some(i) => {
                assert(d[i] == groups[i]);
            },
            None => {
                assert forall|j: int| 0 <= j < groups.len() - 1 implies groups[j].0 != id by {
                    assert(d[j] == groups[j]);
                }
            },
        }
    }
}

proof fn lemma_group_index_first(groups: Seq<(Seq<char>, Seq<(u16, u16)>)>, id: Seq<char>, k: int)
    requires
        0 <= k < groups.len(),
        groups[k].0 == id,
        forall|j: int| 0 <= j < k ==> groups[j].0 != id,
    ensures
        group_index(groups, id) == Some(k),
    decreases groups.len(),
{
    let d = groups.drop_last();
    if k < groups.len() - 1 {
        assert forall|j: int| 0 <= j < k implies d[j].0 != id by {
            assert(d[j] == groups[j]);
        }
        assert(d[k] == groups[k]);
        lemma_group_index_first(d, id, k);
    } else {
        lemma_group_index_bound(d, id);
        match group_index(d, id) {
            Some(i) => {
                assert(d[i] == groups[i]);
            },
            None => {},
        }
    }
}

pub open spec fn emote_view_of(e: EmoteInfo) -> (Seq<char>, Seq<(u16, u16)>) {
    crate::tags::emote_view(e)
}

impl SubscriptionMessage {
    /// The message's emotes in the form chat messages carry them: see
    /// `group_emotes`.
    pub fn get_emote_info(&self) -> (r: Vec<EmoteInfo>)
        ensures
            emotes_view(r@) == group_emotes(self.emotes@),
    {
        let mut out: Vec<EmoteInfo> = Vec::new();
        let mut i: usize = 0;
        assert(emotes_view(out@) =~= Seq::empty());
        while i < self.emotes.len()
            invariant
                i <= self.emotes@.len(),
                emotes_view(out@) == group_emotes(self.emotes@.subrange(0, i as int)),
            decreases self.emotes@.len() - i,
        {
            let e = &self.emotes[i];
            let ghost groups = emotes_view(out@);
            assert(self.emotes@.subrange(0, i + 1).drop_last() =~= self.emotes@.subrange(0, i as int));
            let mut k: usize = 0;
            let mut found = false;
            while k < out.len() && !found
                invariant
                    groups == emotes_view(out@),
                    k <= out@.len(),
                    forall|j: int| 0 <= j < k ==> groups[j].0 != e.id@,
                    found ==> k < out@.len() && groups[k as int].0 == e.id@,
                decreases out@.len() - k + (if found { 0int } else { 1int }),
            {
                if str_eq(out[k].id.as_str(), e.id.as_str()) {
                    found = true;
                } else {
                    k = k + 1;
                }
            }
            if found {
                proof {
                    assert(groups[k as int].0 == e.id@);
                    lemma_group_index_first(groups, e.id@, k as int);
                }
                let ghost old_out = out@;
                let mut g = out.remove(k);
                g.locations.push((e.begin, e.end));
                let ghost g_new = g;
                out.insert(k, g);
                assert(out@ =~= old_out.update(k as int, g_new));
                assert(emote_view_of(g_new) == (groups[k as int].0, groups[k as int].1.push((e.begin, e.end))));
                assert(emotes_view(out@) =~= groups.update(k as int, (groups[k as int].0, groups[k as int].1.push((e.begin, e.end)))));
            } else {
                proof { lemma_group_index_bound(groups, e.id@); }
                let mut locations: Vec<(u16, u16)> = Vec::new();
                locations.push((e.begin, e.end));
                assert(locations@ =~= seq![(e.begin, e.end)]);
                out.push(EmoteInfo { id: e.id.clone(), locations });
                assert(emotes_view(out@) =~= groups.push((e.id@, seq![(e.begin, e.end)])));
            }
            i = i + 1;
        }
        assert(self.emotes@.subrange(0, i as int) =~= self.emotes@);
        out
    }
}

} // verus!
