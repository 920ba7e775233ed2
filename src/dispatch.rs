//! A single-slot broadcast of the latest value: one producer overwrites it,
//! any number of subscribers each see the newest value since they last looked.
//! Slow subscribers skip values; nothing queues up.
use vstd::prelude::*;

verus! {

/// What a subscriber that has seen the first `seen` published values gets
/// when it looks at the slot: the newest value and a cursor past it, if
/// anything was published since; nothing otherwise.
pub open spec fn next_spec<T>(published: Seq<T>, seen: nat) -> (Option<T>, nat) {
    if seen < published.len() {
        (Some(published.last()), published.len())
    } else {
        (None, seen)
    }
}

/// The slot. The ghost history records every value published, in order.
pub struct Dispatcher<T> {
    latest: T,
    version: u64,
    history: Ghost<Seq<T>>,
}

/// A subscriber's position: how many published values it has passed.
pub struct Cursor {
    seen: u64,
}

impl View for Cursor {
    type V = nat;

    closed spec fn view(&self) -> nat {
        self.seen as nat
    }
}

impl<T> Dispatcher<T> {
    /// The values published so far, oldest first.
    pub closed spec fn published(&self) -> Seq<T> {
        self.history@
    }

    pub closed spec fn wf(&self) -> bool {
        &&& self.version as nat == self.history@.len()
        &&& self.history@.len() > 0 ==> self.latest == self.history@.last()
    }

    /// A slot holding `initial`, which counts as nothing published.
    pub fn new(initial: T) -> (r: Dispatcher<T>)
        ensures
            r.wf(),
            r.published() == Seq::<T>::empty(),
    {
        Dispatcher { latest: initial, version: 0, history: Ghost(Seq::empty()) }
    }

    /// How many values were published.
    pub fn published_count(&self) -> (r: u64)
        requires
            self.wf(),
        ensures
            r as nat == self.published().len(),
    {
        self.version
    }

    /// Makes `value` the newest value; never blocks.
    pub fn publish(&mut self, value: T)
        requires
            old(self).wf(),
            old(self).published().len() < u64::MAX,
        ensures
            final(self).wf(),
            final(self).published() == old(self).published().push(value),
    {
        self.history = Ghost(self.history@.push(value));
        self.latest = value;
        self.version = self.version + 1;
    }

    /// A new subscriber: it will see only what is published from now on.
    pub fn subscribe(&self) -> (r: Cursor)
        requires
            self.wf(),
        ensures
            r@ == self.published().len(),
    {
        Cursor { seen: self.version }
    }

    /// The newest value, if one was published since `cursor` last looked;
    /// see `next_spec`.
    pub fn next<'a>(&'a self, cursor: &mut Cursor) -> (r: Option<&'a T>)
        requires
            self.wf(),
        ensures
            final(cursor)@ == next_spec(self.published(), old(cursor)@).1,
            match r {
                Some(v) => next_spec(self.published(), old(cursor)@).0 == Some(*v),
                None => next_spec(self.published(), old(cursor)@).0 is None,
            },
    {
        if cursor.seen < self.version {
            cursor.seen = self.version;
            Some(&self.latest)
        } else {
            None
        }
    }
}

/// A subscriber created after the values `before` were published, looking
/// once after the values `after` were published, gets the last of `after`,
/// never one of `before` nor an earlier one of `after`; and nothing when
/// `after` is empty.
pub proof fn lemma_subscriber_sees_latest_only<T>(before: Seq<T>, after: Seq<T>)
    ensures
        next_spec(before + after, before.len()).0 == if after.len() > 0 {
            Some(after.last())
        } else {
            None::<T>
        },
        next_spec(before + after, before.len()).1 == before.len() + after.len(),
{
    let all = before + after;
    if after.len() > 0 {
        assert(all.last() == after.last());
    }
}

} // verus!
