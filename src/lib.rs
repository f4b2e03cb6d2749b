//! Connection-admission guard: a bounded window of recent client
//! identifiers, a deny-list of banned identifiers with decaying ban
//! durations, and the admission decision that combines the two.
use vstd::prelude::*;

pub mod blocked_list;
pub mod window;
pub mod gate;
pub mod laws;

verus! {

/// A stable numeric fingerprint of a connecting client.
pub type ClientId = u64;

} // verus!
