use conn_guard::blocked_list::BlockedList;
use conn_guard::gate::admit_connection;
use conn_guard::gate::Admission;
use conn_guard::window::RateLimiter;

const A: u64 = 7;
const B: u64 = 11;
const X: u64 = 42;

#[test]
fn new_window_is_empty() {
    let w = RateLimiter::new(5, 3, 10);
    assert_eq!(w.len(), 0);
    assert_eq!(w.capacity(), 5);
    assert_eq!(w.max_ratelimit(), 3);
    assert_eq!(w.ban_time_sec(), 10);
    assert_eq!(w.dropped(), 0);
    assert!(w.contents().is_empty());
}

#[test]
fn window_length_tracks_records_and_cycles() {
    let mut w = RateLimiter::new(4, 3, 10);
    let mut bl = BlockedList::new();
    w.record(1);
    w.record(2);
    w.record(3);
    assert_eq!(w.len(), 3);
    w.cycle(&mut bl);
    assert_eq!(w.len(), 2);
    w.record(4);
    w.cycle(&mut bl);
    w.cycle(&mut bl);
    assert_eq!(w.len(), 1);
    assert_eq!(w.contents(), vec![4]);
}

#[test]
fn full_window_drops_and_counts() {
    let mut w = RateLimiter::new(2, 3, 10);
    w.record(1);
    w.record(2);
    w.record(3);
    w.record(4);
    assert_eq!(w.contents(), vec![1, 2]);
    assert_eq!(w.dropped(), 2);
}

#[test]
fn cycle_on_empty_window_bans_nobody() {
    let mut w = RateLimiter::new(3, 1, 10);
    let mut bl = BlockedList::new();
    w.cycle(&mut bl);
    assert_eq!(w.len(), 0);
    assert_eq!(bl.len(), 0);
}

#[test]
fn count_above_threshold_is_banned() {
    let mut w = RateLimiter::new(10, 2, 6);
    let mut bl = BlockedList::new();
    for _ in 0..4 {
        w.record(A);
    }
    w.record(B);
    w.record(B);
    w.record(B);
    // the cycle evicts one A: A = 3, B = 3, both above 2
    w.cycle(&mut bl);
    assert!(bl.is_blocked(A));
    assert!(bl.is_blocked(B));
    assert_eq!(bl.remaining(A), Some(6));
    assert_eq!(bl.remaining(B), Some(6));
}

#[test]
fn count_equal_to_threshold_is_not_banned() {
    let mut w = RateLimiter::new(10, 3, 6);
    let mut bl = BlockedList::new();
    for _ in 0..4 {
        w.record(A);
    }
    // the cycle evicts one A, leaving exactly 3
    w.cycle(&mut bl);
    assert!(!bl.is_blocked(A));
    assert_eq!(bl.len(), 0);
}

#[test]
fn boundary_scenario_five_slots() {
    let mut w = RateLimiter::new(5, 3, 10);
    let mut bl = BlockedList::new();
    for id in [A, A, A, B, A] {
        w.record(id);
    }
    assert_eq!(w.contents(), vec![A, A, A, B, A]);
    w.cycle(&mut bl);
    assert_eq!(w.contents(), vec![A, A, B, A]);
    assert!(!bl.is_blocked(A));
    assert!(!bl.is_blocked(B));
    w.record(A);
    assert_eq!(w.contents(), vec![A, A, B, A, A]);
    w.cycle(&mut bl);
    assert_eq!(w.contents(), vec![A, B, A, A]);
    assert!(!bl.is_blocked(A));
    assert_eq!(bl.len(), 0);
}

#[test]
fn ban_then_decay_scenario() {
    let mut bl = BlockedList::new();
    assert!(!bl.is_blocked(X));
    bl.ban(X, 10);
    assert!(bl.is_blocked(X));
    for _ in 0..9 {
        bl.tick();
    }
    assert!(bl.is_blocked(X));
    assert_eq!(bl.remaining(X), Some(1));
    bl.tick();
    assert!(!bl.is_blocked(X));
    assert_eq!(bl.remaining(X), None);
}

#[test]
fn tick_decrements_every_entry() {
    let mut bl = BlockedList::default();
    bl.ban(1, 3);
    bl.ban(2, 1);
    bl.ban(3, 5);
    bl.tick();
    assert_eq!(bl.remaining(1), Some(2));
    assert_eq!(bl.remaining(2), None);
    assert_eq!(bl.remaining(3), Some(4));
    assert_eq!(bl.len(), 2);
}

#[test]
fn reban_resets_duration() {
    let mut bl = BlockedList::new();
    bl.ban(X, 10);
    bl.tick();
    bl.tick();
    bl.tick();
    assert_eq!(bl.remaining(X), Some(7));
    bl.ban(X, 10);
    assert_eq!(bl.remaining(X), Some(10));
}

#[test]
fn reoffending_in_cycle_refreshes_ban() {
    let mut w = RateLimiter::new(10, 1, 5);
    let mut bl = BlockedList::new();
    bl.ban(A, 5);
    bl.tick();
    bl.tick();
    assert_eq!(bl.remaining(A), Some(3));
    w.record(B);
    w.record(A);
    w.record(A);
    w.cycle(&mut bl);
    assert_eq!(bl.remaining(A), Some(5));
    assert!(!bl.is_blocked(B));
}

#[test]
fn banned_client_is_rejected_without_record() {
    let mut w = RateLimiter::new(5, 3, 10);
    let mut bl = BlockedList::new();
    bl.ban(X, 10);
    assert_eq!(admit_connection(&bl, &mut w, X), Admission::Rejected);
    assert_eq!(w.len(), 0);
}

#[test]
fn unbanned_client_is_admitted_and_recorded_once() {
    let mut w = RateLimiter::new(5, 3, 10);
    let bl = BlockedList::new();
    assert_eq!(admit_connection(&bl, &mut w, A), Admission::Admitted);
    assert_eq!(w.contents(), vec![A]);
    assert_eq!(admit_connection(&bl, &mut w, B), Admission::Admitted);
    assert_eq!(w.contents(), vec![A, B]);
}

#[test]
fn admission_through_cycle_and_decay() {
    let mut w = RateLimiter::new(8, 2, 2);
    let mut bl = BlockedList::new();
    for _ in 0..4 {
        assert_eq!(admit_connection(&bl, &mut w, A), Admission::Admitted);
    }
    w.cycle(&mut bl);
    assert_eq!(admit_connection(&bl, &mut w, A), Admission::Rejected);
    bl.tick();
    bl.tick();
    assert_eq!(admit_connection(&bl, &mut w, A), Admission::Admitted);
}
