//! The deny-list: identifiers mapped to the remaining duration of their ban.
use std::collections::BTreeMap;
use vstd::prelude::*;

use crate::ClientId;
use vstd::std_specs::btree::spec_btree_map_iter;
use vstd::std_specs::iter::IteratorSpec;

verus! {

/// The deny-list after every entry is aged by one tick: each remaining
/// duration drops by one, and entries that reach zero are gone.
pub open spec fn decayed(m: Map<ClientId, usize>) -> Map<ClientId, usize> {
    Map::new(|k: ClientId| m.contains_key(k) && m[k] > 1, |k: ClientId| (m[k] - 1) as usize)
}

/// The deny-list after `n` decay ticks.
pub open spec fn decayed_n(m: Map<ClientId, usize>, n: nat) -> Map<ClientId, usize>
    decreases n,
{
    if n == 0 {
        m
    } else {
        decayed(decayed_n(m, (n - 1) as nat))
    }
}

/// Every entry of a well-formed deny-list has a positive remaining duration.
pub open spec fn durations_positive(m: Map<ClientId, usize>) -> bool {
    forall|k: ClientId| #[trigger] m.contains_key(k) ==> m[k] > 0
}

/// Registry of banned client identifiers and the number of decay ticks
/// left on each ban.
pub struct BlockedList {
    list: BTreeMap<ClientId, usize>,
}

impl View for BlockedList {
    type V = Map<ClientId, usize>;

    closed spec fn view(&self) -> Map<ClientId, usize> {
        self.list@
    }
}

impl Default for BlockedList {
    fn default() -> (r: Self)
        ensures
            r.wf(),
            r@ == Map::<ClientId, usize>::empty(),
    {
        BlockedList::new()
    }
}

impl BlockedList {
    /// Every ban held has a positive remaining duration.
    pub open spec fn wf(&self) -> bool {
        durations_positive(self@)
    }

    /// An empty deny-list.
    pub fn new() -> (r: Self)
        ensures
            r.wf(),
            r@ == Map::<ClientId, usize>::empty(),
    {
        BlockedList { list: BTreeMap::new() }
    }

    /// Whether `id` is currently banned.
    pub fn is_blocked(&self, id: ClientId) -> (r: bool)
        ensures
            r == (self@.contains_key(id) && self@[id] > 0),
            self.wf() ==> (r == self@.contains_key(id)),
    {
        match self.list.get(&id) {
            Some(d) => *d > 0,
            None => false,
        }
    }

    /// The remaining duration of the ban on `id`, if there is one.
    pub fn remaining(&self, id: ClientId) -> (r: Option<usize>)
        ensures
            r == (if self@.contains_key(id) { Some(self@[id]) } else { None::<usize> }),
    {
        match self.list.get(&id) {
            Some(d) => Some(*d),
            None => None,
        }
    }

    /// The number of identifiers currently banned.
    pub fn len(&self) -> (r: usize)
        ensures
            r == self@.len(),
    {
        self.list.len()
    }

    /// Bans `id` for `duration` ticks, replacing any ban it already had.
    pub fn ban(&mut self, id: ClientId, duration: usize)
        requires
            old(self).wf(),
            duration > 0,
        ensures
            final(self).wf(),
            final(self)@ == old(self)@.insert(id, duration),
    {
        self.list.insert(id, duration);
    }

    /// One decay tick: every ban loses one unit of remaining duration, and
    /// bans that reach zero are lifted.
    pub fn tick(&mut self)
        requires
            old(self).wf(),
        ensures
            final(self).wf(),
            final(self)@ == decayed(old(self)@),
    {
        let mut next: BTreeMap<ClientId, usize> = BTreeMap::new();
        let ghost entries = spec_btree_map_iter(&self.list).remaining();
        let ghost mut seen: int = 0;
        for entry in it: self.list.iter()
            invariant
                it.seq() == entries,
                seen == it.index(),
                forall|k: ClientId| #[trigger] next@.contains_key(k) <==> (exists|j: int|
                    0 <= j < it.index() && *it.seq()[j].0 == k && *it.seq()[j].1 > 1),
                forall|k: ClientId| #[trigger] next@.contains_key(k) ==> self.list@.contains_key(k)
                    && next@[k] == self.list@[k] - 1,
        {
            let (k, d) = entry;
            if *d > 1 {
                next.insert(*k, *d - 1);
            }
            proof {
                seen = seen + 1;
            }
        }
        proof {
            assert forall|k: ClientId| #[trigger] decayed(self.list@).contains_key(k) implies next@.contains_key(k) by {
                assert(entries.contains((&k, &self.list@[k])));
                let j = choose|j: int| 0 <= j < entries.len() && entries[j] == (&k, &self.list@[k]);
                assert(0 <= j < seen);
            }
            assert(next@ =~= decayed(self.list@));
        }
        self.list = next;
    }
}

} // verus!
