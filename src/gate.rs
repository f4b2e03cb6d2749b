//! The admission decision made once for every inbound connection.
use vstd::prelude::*;

use crate::blocked_list::BlockedList;
use crate::window::recorded;
use crate::window::RateLimiter;
use crate::ClientId;

verus! {

/// Whether a connection is let through.
#[derive(Clone, Copy, Debug, PartialEq, Eq, Structural)]
pub enum Admission {
    Admitted,
    Rejected,
}

/// Decides on a connection from `id`: rejected when `id` is banned, and the
/// window left untouched; otherwise admitted, and `id` recorded in the window
/// exactly once.
pub fn admit_connection(blocked: &BlockedList, window: &mut RateLimiter, id: ClientId) -> (r: Admission)
    requires
        blocked.wf(),
        old(window).wf(),
    ensures
        r == Admission::Rejected <==> blocked@.contains_key(id),
        final(window).wf(),
        final(window).cap() == old(window).cap(),
        final(window).threshold() == old(window).threshold(),
        final(window).ban_duration() == old(window).ban_duration(),
        r == Admission::Rejected ==> final(window)@ == old(window)@ && final(window).drops()
            == old(window).drops(),
        r == Admission::Admitted ==> final(window)@ == recorded(
            old(window)@,
            old(window).cap(),
            id,
        ) && final(window).drops() == if old(window)@.len() < old(window).cap()
            || old(window).drops() == u64::MAX {
            old(window).drops()
        } else {
            old(window).drops() + 1
        },
{
    if blocked.is_blocked(id) {
        Admission::Rejected
    } else {
        window.record(id);
        Admission::Admitted
    }
}

} // verus!
