//! The connection window: a bounded buffer of the most recently seen client
//! identifiers, and the frequency analysis that bans over-frequent ones.
use std::collections::BTreeMap;
use std::collections::VecDeque;
use vstd::prelude::*;

use crate::blocked_list::BlockedList;
use crate::ClientId;

verus! {

broadcast use vstd::seq_lib::group_to_multiset_ensures;

/// The window after `id` is recorded: appended at the tail, or dropped when
/// the window is already full.
pub open spec fn recorded(w: Seq<ClientId>, capacity: nat, id: ClientId) -> Seq<ClientId> {
    if w.len() < capacity {
        w.push(id)
    } else {
        w
    }
}

/// The window after its oldest entry is evicted (unchanged when empty).
pub open spec fn evicted(w: Seq<ClientId>) -> Seq<ClientId> {
    if w.len() > 0 {
        w.drop_first()
    } else {
        w
    }
}

/// How many times `id` occurs in the window `w`.
pub open spec fn occurrences(w: Seq<ClientId>, id: ClientId) -> nat {
    w.to_multiset().count(id)
}

/// The deny-list `m` after every identifier that occurs more than
/// `threshold` times in `w` is banned for `duration` ticks; other entries
/// are left as they were.
pub open spec fn with_offenders_banned(
    m: Map<ClientId, usize>,
    w: Seq<ClientId>,
    threshold: nat,
    duration: usize,
) -> Map<ClientId, usize> {
    Map::new(
        |k: ClientId| m.contains_key(k) || occurrences(w, k) > threshold,
        |k: ClientId|
            if occurrences(w, k) > threshold {
                duration
            } else {
                m[k]
            },
    )
}

/// The deny-list `m` after the identifiers of `seen` that occur more than
/// `threshold` times in `w` are banned for `duration` ticks.
pub open spec fn offenders_among_banned(
    m: Map<ClientId, usize>,
    w: Seq<ClientId>,
    seen: Seq<ClientId>,
    threshold: nat,
    duration: usize,
) -> Map<ClientId, usize> {
    Map::new(
        |k: ClientId| m.contains_key(k) || (seen.contains(k) && occurrences(w, k) > threshold),
        |k: ClientId|
            if seen.contains(k) && occurrences(w, k) > threshold {
                duration
            } else {
                m[k]
            },
    )
}

/// The bounded window of recent client identifiers, with the thresholds
/// that govern it.
pub struct RateLimiter {
    username_list: VecDeque<ClientId>,
    max_client_rate_cache: usize,
    max_ratelimit: usize,
    ban_time_sec: usize,
    dropped: u64,
}

impl View for RateLimiter {
    type V = Seq<ClientId>;

    /// The identifiers in the window, oldest first.
    closed spec fn view(&self) -> Seq<ClientId> {
        self.username_list@
    }
}

impl RateLimiter {
    /// The window's capacity.
    pub closed spec fn cap(&self) -> nat {
        self.max_client_rate_cache as nat
    }

    /// The count above which an identifier is banned.
    pub closed spec fn threshold(&self) -> nat {
        self.max_ratelimit as nat
    }

    /// The duration of a ban, in decay ticks.
    pub closed spec fn ban_duration(&self) -> usize {
        self.ban_time_sec
    }

    /// How many records were dropped because the window was full
    /// (saturating at `u64::MAX`).
    pub closed spec fn drops(&self) -> nat {
        self.dropped as nat
    }

    /// The window never holds more than its capacity, and the thresholds are
    /// positive.
    pub open spec fn wf(&self) -> bool {
        &&& self@.len() <= self.cap()
        &&& self.cap() > 0
        &&& self.threshold() > 0
        &&& self.ban_duration() > 0
    }

    /// An empty window with the given capacity, ban threshold and ban
    /// duration.
    pub fn new(max_client_rate_cache: usize, max_ratelimit: usize, ban_time_sec: usize) -> (r: Self)
        requires
            max_client_rate_cache > 0,
            max_ratelimit > 0,
            ban_time_sec > 0,
        ensures
            r.wf(),
            r@ == Seq::<ClientId>::empty(),
            r.cap() == max_client_rate_cache,
            r.threshold() == max_ratelimit,
            r.ban_duration() == ban_time_sec,
            r.drops() == 0,
    {
        RateLimiter {
            username_list: VecDeque::with_capacity(1),
            max_client_rate_cache,
            max_ratelimit,
            ban_time_sec,
            dropped: 0,
        }
    }

    /// Records a connection from `id` at the tail of the window. A full
    /// window drops the record and counts the drop instead.
    pub fn record(&mut self, id: ClientId)
        requires
            old(self).wf(),
        ensures
            final(self).wf(),
            final(self)@ == recorded(old(self)@, old(self).cap(), id),
            final(self).cap() == old(self).cap(),
            final(self).threshold() == old(self).threshold(),
            final(self).ban_duration() == old(self).ban_duration(),
            final(self).drops() == if old(self)@.len() < old(self).cap() || old(self).drops()
                == u64::MAX {
                old(self).drops()
            } else {
                old(self).drops() + 1
            },
    {
        if self.username_list.len() < self.max_client_rate_cache {
            self.username_list.push_back(id);
        } else if self.dropped < u64::MAX {
            self.dropped = self.dropped + 1;
        }
    }

    /// The number of identifiers in the window.
    pub fn len(&self) -> (r: usize)
        ensures
            r == self@.len(),
    {
        self.username_list.len()
    }

    /// The window's capacity.
    pub fn capacity(&self) -> (r: usize)
        ensures
            r == self.cap(),
    {
        self.max_client_rate_cache
    }

    /// The count above which an identifier is banned.
    pub fn max_ratelimit(&self) -> (r: usize)
        ensures
            r == self.threshold(),
    {
        self.max_ratelimit
    }

    /// The duration of a ban, in decay ticks.
    pub fn ban_time_sec(&self) -> (r: usize)
        ensures
            r == self.ban_duration(),
    {
        self.ban_time_sec
    }

    /// How many records were dropped because the window was full.
    pub fn dropped(&self) -> (r: u64)
        ensures
            r == self.drops(),
    {
        self.dropped
    }

    /// The identifiers in the window, oldest first.
    pub fn contents(&self) -> (r: Vec<ClientId>)
        ensures
            r@ == self@,
    {
        let mut out: Vec<ClientId> = Vec::new();
        let n = self.username_list.len();
        let mut i: usize = 0;
        while i < n
            invariant
                n == self@.len(),
                i <= n,
                out@ == self@.take(i as int),
            decreases n - i,
        {
            out.push(self.username_list[i]);
            i = i + 1;
            assert(out@ =~= self@.take(i as int));
        }
        assert(self@.take(n as int) =~= self@);
        out
    }

    /// One cycle: evicts the oldest entry, then bans for the full ban
    /// duration every identifier that occurs more than the threshold number
    /// of times in what remains. A ban already held by such an identifier is
    /// reset to the full duration; an identifier whose count equals the
    /// threshold is not banned.
    pub fn cycle(&mut self, blocked: &mut BlockedList)
        requires
            old(self).wf(),
            old(blocked).wf(),
        ensures
            final(self).wf(),
            final(self)@ == evicted(old(self)@),
            final(self).cap() == old(self).cap(),
            final(self).threshold() == old(self).threshold(),
            final(self).ban_duration() == old(self).ban_duration(),
            final(self).drops() == old(self).drops(),
            final(blocked).wf(),
            final(blocked)@ == with_offenders_banned(
                old(blocked)@,
                final(self)@,
                old(self).threshold(),
                old(self).ban_duration(),
            ),
    {
        let _ = self.username_list.pop_front();
        self.ban_offenders(blocked);
    }

    /// Bans every identifier that occurs more than the threshold number of
    /// times in the window, leaving the window as it is.
    fn ban_offenders(&self, blocked: &mut BlockedList)
        requires
            self.wf(),
            old(blocked).wf(),
        ensures
            final(blocked).wf(),
            final(blocked)@ == with_offenders_banned(
                old(blocked)@,
                self@,
                self.threshold(),
                self.ban_duration(),
            ),
    {
        let ghost w = self@;
        let n = self.username_list.len();
        let mut counts: BTreeMap<ClientId, usize> = BTreeMap::new();
        let mut i: usize = 0;
        while i < n
            invariant
                n == w.len(),
                i <= n,
                self@ == w,
                forall|k: ClientId| #[trigger] counts@.contains_key(k) ==> counts@[k]
                    == occurrences(w.take(i as int), k) && counts@[k] <= i,
                forall|k: ClientId| !(#[trigger] counts@.contains_key(k)) ==> occurrences(
                    w.take(i as int),
                    k,
                ) == 0,
            decreases n - i,
        {
            let id = self.username_list[i];
            assert(w.take(i + 1) =~= w.take(i as int).push(id));
            let c: usize = match counts.get(&id) {
                Some(c) => *c,
                None => 0,
            };
            counts.insert(id, c + 1);
            i = i + 1;
        }
        assert(w.take(n as int) =~= w);
        let ghost before = blocked@;
        let mut j: usize = 0;
        while j < n
            invariant
                n == w.len(),
                j <= n,
                self@ == w,
                self.wf(),
                forall|k: ClientId| #[trigger] counts@.contains_key(k) ==> counts@[k]
                    == occurrences(w, k),
                forall|k: ClientId| !(#[trigger] counts@.contains_key(k)) ==> occurrences(w, k)
                    == 0,
                blocked.wf(),
                blocked@ == offenders_among_banned(
                    before,
                    w,
                    w.take(j as int),
                    self.threshold(),
                    self.ban_duration(),
                ),
            decreases n - j,
        {
            let id = self.username_list[j];
            let c: usize = match counts.get(&id) {
                Some(c) => *c,
                None => 0,
            };
            if c > self.max_ratelimit {
                blocked.ban(id, self.ban_time_sec);
            }
            proof {
                let prev = w.take(j as int);
                assert(w.take(j + 1) =~= prev.push(id));
                assert forall|k: ClientId| #[trigger] prev.push(id).contains(k) <==> (prev.contains(
                    k,
                ) || k == id) by {
                    if prev.push(id).contains(k) && k != id {
                        let t = choose|t: int| 0 <= t < prev.len() + 1 && prev.push(id)[t] == k;
                        assert(prev[t] == k);
                    }
                    if k == id {
                        assert(prev.push(id)[prev.len() as int] == id);
                    }
                    if prev.contains(k) {
                        let t = choose|t: int| 0 <= t < prev.len() && prev[t] == k;
                        assert(prev.push(id)[t] == k);
                    }
                }
            }
            j = j + 1;
            assert(blocked@ =~= offenders_among_banned(
                before,
                w,
                w.take(j as int),
                self.threshold(),
                self.ban_duration(),
            ));
        }
        assert(w.take(n as int) =~= w);
        assert(blocked@ =~= with_offenders_banned(
            before,
            w,
            self.threshold(),
            self.ban_duration(),
        ));
    }
}

} // verus!
