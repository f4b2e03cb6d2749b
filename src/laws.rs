//! Properties that relate several operations of the guard to one another.
use vstd::prelude::*;

use crate::blocked_list::decayed;
use crate::blocked_list::decayed_n;
use crate::blocked_list::durations_positive;
use crate::window::evicted;
use crate::window::occurrences;
use crate::window::recorded;
use crate::window::with_offenders_banned;
use crate::ClientId;

verus! {

/// The window after a run of operations from empty: `Some(id)` records
/// `id`, `None` runs a cycle.
pub open spec fn window_after(ops: Seq<Option<ClientId>>, capacity: nat) -> Seq<ClientId>
    decreases ops.len(),
{
    if ops.len() == 0 {
        Seq::empty()
    } else {
        let w = window_after(ops.drop_last(), capacity);
        match ops.last() {
            Some(id) => recorded(w, capacity, id),
            None => evicted(w),
        }
    }
}

/// The number of records in a run of operations.
pub open spec fn records_in(ops: Seq<Option<ClientId>>) -> nat
    decreases ops.len(),
{
    if ops.len() == 0 {
        0
    } else {
        records_in(ops.drop_last()) + if ops.last() is Some {
            1nat
        } else {
            0nat
        }
    }
}

/// The number of cycles in a run of operations.
pub open spec fn cycles_in(ops: Seq<Option<ClientId>>) -> nat
    decreases ops.len(),
{
    if ops.len() == 0 {
        0
    } else {
        cycles_in(ops.drop_last()) + if ops.last() is None {
            1nat
        } else {
            0nat
        }
    }
}

/// Window length: when the records of a run never exceed the capacity and
/// no cycle finds the window empty, the window ends up holding exactly as
/// many identifiers as there were records less cycles, and never more than
/// its capacity.
pub proof fn lemma_window_length(ops: Seq<Option<ClientId>>, capacity: nat)
    requires
        records_in(ops) <= capacity,
        forall|p: int| 0 <= p <= ops.len() ==> cycles_in(#[trigger] ops.take(p)) <= records_in(
            ops.take(p),
        ),
    ensures
        window_after(ops, capacity).len() == records_in(ops) - cycles_in(ops),
        window_after(ops, capacity).len() <= capacity,
    decreases ops.len(),
{
    if ops.len() > 0 {
        let prev = ops.drop_last();
        assert forall|p: int| 0 <= p <= prev.len() implies cycles_in(#[trigger] prev.take(p))
            <= records_in(prev.take(p)) by {
            assert(prev.take(p) =~= ops.take(p));
        }
        lemma_window_length(prev, capacity);
        assert(ops.take(ops.len() as int) =~= ops);
    }
}

/// Ban threshold: after a cycle over window `w`, an identifier that occurs
/// more than `threshold` times is banned for exactly `duration` ticks,
/// whatever ban it held before; one that occurs at most `threshold` times
/// (exactly `threshold` included) keeps the entry it had, or stays unbanned.
pub proof fn lemma_ban_threshold(
    m: Map<ClientId, usize>,
    w: Seq<ClientId>,
    threshold: nat,
    duration: usize,
    id: ClientId,
)
    ensures
        occurrences(w, id) > threshold ==> with_offenders_banned(m, w, threshold, duration).contains_key(id)
            && with_offenders_banned(m, w, threshold, duration)[id] == duration,
        occurrences(w, id) <= threshold ==> (with_offenders_banned(
            m,
            w,
            threshold,
            duration,
        ).contains_key(id) <==> m.contains_key(id)),
        occurrences(w, id) <= threshold && m.contains_key(id) ==> with_offenders_banned(
            m,
            w,
            threshold,
            duration,
        )[id] == m[id],
{
}

/// Re-ban: banning an identifier that is already banned sets its remaining
/// duration to exactly the new duration, neither more nor less.
pub proof fn lemma_reban_resets(m: Map<ClientId, usize>, id: ClientId, duration: usize)
    requires
        durations_positive(m),
        m.contains_key(id),
        duration > 0,
    ensures
        m.insert(id, duration).contains_key(id),
        m.insert(id, duration)[id] == duration,
        durations_positive(m.insert(id, duration)),
{
}

/// Decay: an entry with `v` ticks left is still banned, with `v - n` ticks
/// left, after `n < v` decay ticks, and is gone after `n >= v` ticks.
pub proof fn lemma_decay_steps(m: Map<ClientId, usize>, id: ClientId, n: nat)
    requires
        m.contains_key(id),
        m[id] > 0,
    ensures
        n < m[id] ==> decayed_n(m, n).contains_key(id) && decayed_n(m, n)[id] == m[id] - n,
        n >= m[id] ==> !decayed_n(m, n).contains_key(id),
    decreases n,
{
    if n > 0 {
        lemma_decay_steps(m, id, (n - 1) as nat);
        let prev = decayed_n(m, (n - 1) as nat);
        assert(decayed_n(m, n) == decayed(prev));
        if n - 1 >= m[id] {
            assert(!prev.contains_key(id));
        }
    }
}

/// Ban expiry: an identifier banned for `duration` ticks is still banned
/// after `duration - 1` decay ticks and no longer banned after `duration`
/// decay ticks.
pub proof fn lemma_ban_expires(m: Map<ClientId, usize>, id: ClientId, duration: usize)
    requires
        durations_positive(m),
        duration > 0,
    ensures
        decayed_n(m.insert(id, duration), (duration - 1) as nat).contains_key(id),
        !decayed_n(m.insert(id, duration), duration as nat).contains_key(id),
{
    lemma_decay_steps(m.insert(id, duration), id, (duration - 1) as nat);
    lemma_decay_steps(m.insert(id, duration), id, duration as nat);
}

} // verus!
