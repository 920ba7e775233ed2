//! The bot's memory of what it said last, so that it does not repeat itself.
use vstd::prelude::*;

verus! {

/// The last messages said, oldest first, at most `capacity` of them.
pub struct History {
    items: Vec<String>,
    capacity: usize,
}

impl History {
    pub closed spec fn said(&self) -> Seq<Seq<char>> {
        self.items@.map_values(|s: String| s@)
    }

    pub closed spec fn bound(&self) -> nat {
        self.capacity as nat
    }

    pub closed spec fn wf(&self) -> bool {
        self.items@.len() <= self.capacity
    }

    /// An empty memory of `capacity` messages; 0 turns the repeat check off.
    pub fn new(capacity: usize) -> (r: History)
        ensures
            r.wf(),
            r.said() == Seq::<Seq<char>>::empty(),
            r.bound() == capacity,
    {
        let r = History { items: Vec::new(), capacity };
        assert(r.said() =~= Seq::<Seq<char>>::empty());
        r
    }

    /// Whether `message` is among the remembered ones.
    pub fn contains(&self, message: &str) -> (r: bool)
        ensures
            r == self.said().contains(message@),
    {
        let mut i: usize = 0;
        while i < self.items.len()
            invariant
                i <= self.items@.len(),
                forall|j: int| 0 <= j < i ==> self.said()[j] != message@,
            decreases self.items@.len() - i,
        {
            if crate::text::str_eq(self.items[i].as_str(), message) {
                assert(self.said()[i as int] == message@);
                return true;
            }
            i = i + 1;
        }
        false
    }

    /// Remembers `message`, forgetting the oldest one when full.
    pub fn record(&mut self, message: String)
        requires
            old(self).wf(),
        ensures
            final(self).wf(),
            final(self).bound() == old(self).bound(),
            old(self).bound() == 0 ==> final(self).said() == old(self).said(),
            old(self).bound() > 0 && old(self).said().len() < old(self).bound() ==> final(self).said()
                == old(self).said().push(message@),
            old(self).bound() > 0 && old(self).said().len() >= old(self).bound() ==> final(self).said()
                == old(self).said().drop_first().push(message@),
    {
        if self.capacity == 0 {
            return;
        }
        let ghost before = self.said();
        if self.items.len() >= self.capacity {
            self.items.remove(0);
            assert(self.said() =~= before.drop_first());
        }
        let ghost mid = self.said();
        self.items.push(message);
        assert(self.said() =~= mid.push(message@));
    }
}

} // verus!
