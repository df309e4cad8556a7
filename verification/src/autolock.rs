//! Auto-lock: the keyring goes from Unlocked back to Locked after a
//! configured period without activity. "Activity" is anything that used
//! the master secret to answer a request. Durations are in nanoseconds.

use vstd::prelude::*;

use crate::keyring::LockedKeyring;
use crate::slot::{KeyringSlot, SlotEvent, SlotState, state_of, transition};

verus! {

/// How often the background task checks the idle timer: 30 s.
pub const CHECK_INTERVAL_NANOS: u128 = 30_000_000_000;

/// The keyring is due to lock: auto-lock is enabled, the keyring is
/// unlocked, and it has been idle at least the timeout.
pub open spec fn lock_due(state: SlotState, timeout: Option<u128>, idle: u128) -> bool {
    match timeout {
        Some(t) => state == SlotState::Unlocked && idle >= t,
        None => false,
    }
}

/// Activity defers the lock: while the keyring has been idle for less than
/// the timeout, the timer does not lock it.
pub proof fn lemma_activity_defers_lock(state: SlotState, t: u128, idle: u128)
    requires
        idle < t,
    ensures
        !lock_due(state, Some(t), idle),
{
}

/// Once due, the lock stays due as the keyring sits idle longer, until
/// something moves the slot or resets the idle time.
pub proof fn lemma_lock_stays_due(state: SlotState, timeout: Option<u128>, idle: u128, later: u128)
    requires
        lock_due(state, timeout, idle),
        idle <= later,
    ensures
        lock_due(state, timeout, later),
{
}

/// The slot state after one run of the idle timer: the timer decides
/// whether the lock is due (`auto_lock_due`), re-loads the keyring from
/// disk only then (`loaded` tells whether that worked), and commits with
/// `finish_auto_lock`.
pub open spec fn after_idle_check(s: SlotState, timeout: Option<u128>, idle: u128, loaded: bool) -> SlotState {
    if lock_due(s, timeout, idle) && loaded {
        transition(s, SlotEvent::AutoLock)
    } else {
        s
    }
}

/// One run of the idle timer locks the keyring exactly when it is unlocked,
/// auto-lock is enabled, the keyring has been idle at least the timeout,
/// and the keyring re-loads from disk; otherwise the slot stays as it was.
/// It never unlocks a keyring and never leaves the slot without one.
pub proof fn lemma_idle_check_outcome(s: SlotState, timeout: Option<u128>, idle: u128, loaded: bool)
    ensures
        (after_idle_check(s, timeout, idle, loaded) != s) <==> (s == SlotState::Unlocked && loaded && (
        timeout matches Some(d) && idle >= d)),
        after_idle_check(s, timeout, idle, loaded) != s ==> after_idle_check(s, timeout, idle, loaded)
            == SlotState::Locked,
        after_idle_check(s, timeout, idle, loaded) == SlotState::Unlocked ==> s == SlotState::Unlocked,
        (after_idle_check(s, timeout, idle, loaded) == SlotState::Absent) <==> (s == SlotState::Absent),
{
}

/// Whether the idle timer calls for locking now. With auto-lock disabled
/// it never does, however long the keyring sits idle.
pub fn auto_lock_due(state: SlotState, timeout: Option<u128>, idle: u128) -> (r: bool)
    ensures
        r == lock_due(state, timeout, idle),
        timeout is None ==> !r,
        state != SlotState::Unlocked ==> !r,
{
    match timeout {
        None => false,
        Some(t) => {
            match state {
                SlotState::Unlocked => idle >= t,
                _ => false,
            }
        },
    }
}

/// Lock the slot with the keyring re-loaded from disk, unless a concurrent
/// request already moved it out of Unlocked. Returns whether it locked.
pub fn finish_auto_lock(slot: &mut KeyringSlot, locked: LockedKeyring) -> (r: bool)
    ensures
        state_of(*final(slot)) == transition(state_of(*old(slot)), SlotEvent::AutoLock),
        r == (state_of(*old(slot)) == SlotState::Unlocked),
        r ==> *final(slot) == KeyringSlot::Locked(locked),
        !r ==> *final(slot) == *old(slot),
{
    match slot {
        KeyringSlot::Unlocked(_) => {
            *slot = KeyringSlot::Locked(locked);
            true
        },
        _ => false,
    }
}

/// Whole seconds left before auto-lock fires; `None` when the keyring is
/// not unlocked or auto-lock is disabled.
pub open spec fn seconds_remaining(state: SlotState, timeout: Option<u128>, idle: u128) -> Option<u64> {
    if state != SlotState::Unlocked {
        None
    } else {
        match timeout {
            None => None,
            Some(t) => if idle >= t {
                Some(0)
            } else {
                Some(((t - idle) / 1_000_000_000) as u64)
            },
        }
    }
}

pub fn auto_lock_seconds_remaining(state: SlotState, timeout: Option<u128>, idle: u128) -> (r: Option<u64>)
    requires
        timeout matches Some(t) ==> t / 1_000_000_000 <= u64::MAX,
    ensures
        r == seconds_remaining(state, timeout, idle),
{
    match state {
        SlotState::Unlocked => {},
        _ => return None,
    }
    let t = match timeout {
        Some(t) => t,
        None => return None,
    };
    if idle >= t {
        Some(0)
    } else {
        Some(((t - idle) / 1_000_000_000) as u64)
    }
}

} // verus!
