//! The node identity keyring's lifecycle, and what the management API
//! answers for each keyring request.
//!
//! Transitions are one-way per session: None → Unlocked (init); Locked →
//! Unlocked (unlock); Unlocked → Locked (lock or auto-lock). Nothing leads
//! back to None short of deleting the keyring file and restarting.

use vstd::prelude::*;

use crate::keyring::{KeyringError, LockedKeyring, UnlockedKeyring, unlock_outcome};

verus! {

/// Current state of the node identity keyring.
pub enum KeyringSlot {
    /// No keyring file on disk: manifests are served, nothing that needs
    /// the node identity is.
    Absent,
    /// Keyring file loaded, master secret still sealed.
    Locked(LockedKeyring),
    /// Master secret decrypted and held in memory.
    Unlocked(UnlockedKeyring),
}

#[derive(Clone, Copy, Debug, PartialEq, Eq, Structural)]
pub enum SlotState {
    Absent,
    Locked,
    Unlocked,
}

pub open spec fn state_of(slot: KeyringSlot) -> SlotState {
    match slot {
        KeyringSlot::Absent => SlotState::Absent,
        KeyringSlot::Locked(_) => SlotState::Locked,
        KeyringSlot::Unlocked(_) => SlotState::Unlocked,
    }
}

pub open spec fn state_label(s: SlotState) -> Seq<char> {
    match s {
        SlotState::Absent => seq!['n', 'o', 'n', 'e'],
        SlotState::Locked => seq!['l', 'o', 'c', 'k', 'e', 'd'],
        SlotState::Unlocked => seq!['u', 'n', 'l', 'o', 'c', 'k', 'e', 'd'],
    }
}

impl SlotState {
    pub fn label(&self) -> (r: &'static str)
        ensures
            r@ == state_label(*self),
    {
        match self {
            SlotState::Absent => {
                proof {
                    reveal_strlit("none");
                }
                "none"
            },
            SlotState::Locked => {
                proof {
                    reveal_strlit("locked");
                }
                "locked"
            },
            SlotState::Unlocked => {
                proof {
                    reveal_strlit("unlocked");
                }
                "unlocked"
            },
        }
    }
}

impl KeyringSlot {
    pub fn state(&self) -> (r: SlotState)
        ensures
            r == state_of(*self),
    {
        match self {
            KeyringSlot::Absent => SlotState::Absent,
            KeyringSlot::Locked(_) => SlotState::Locked,
            KeyringSlot::Unlocked(_) => SlotState::Unlocked,
        }
    }

    pub fn status_label(&self) -> (r: &'static str)
        ensures
            r@ == state_label(state_of(*self)),
    {
        self.state().label()
    }

    /// The payout address, when the keyring is unlocked.
    pub fn wallet_address(&self) -> (r: Option<String>)
        ensures
            match *self {
                KeyringSlot::Unlocked(u) => r is Some && r->Some_0@ == u@.wallet_address,
                _ => r is None,
            },
    {
        match self {
            KeyringSlot::Unlocked(u) => Some(u.wallet_address().to_owned()),
            _ => None,
        }
    }
}

/// Why a management request failed; each has a fixed status code and a
/// fixed message that never echoes the passphrase.
#[derive(Clone, Copy, Debug, PartialEq, Eq, Structural)]
pub enum MgmtError {
    AlreadyInitialized,
    NoKeyringToUnlock,
    NoKeyringToLock,
    BadPassphrase,
    EmptyPassphrase,
    AlreadyExistsOnDisk,
    NoKeyringFile,
    CannotMlock,
    Corrupted,
    Internal,
}

pub open spec fn error_code(e: MgmtError) -> u16 {
    match e {
        MgmtError::AlreadyInitialized => 409,
        MgmtError::NoKeyringToUnlock => 400,
        MgmtError::NoKeyringToLock => 400,
        MgmtError::BadPassphrase => 401,
        MgmtError::EmptyPassphrase => 400,
        MgmtError::AlreadyExistsOnDisk => 409,
        MgmtError::NoKeyringFile => 404,
        MgmtError::CannotMlock => 500,
        MgmtError::Corrupted => 500,
        MgmtError::Internal => 500,
    }
}

/// The fixed message of each error.
pub open spec fn error_message(e: MgmtError) -> Seq<char> {
    match e {
        MgmtError::AlreadyInitialized => "keyring already exists; delete keyring.enc to reset identity"@,
        MgmtError::NoKeyringToUnlock => "no keyring exists; call POST /api/v1/keyring/init first"@,
        MgmtError::NoKeyringToLock => "no keyring exists to lock"@,
        MgmtError::BadPassphrase => "bad passphrase or corrupted keyring"@,
        MgmtError::EmptyPassphrase => "passphrase must not be empty"@,
        MgmtError::AlreadyExistsOnDisk => "keyring already exists on disk"@,
        MgmtError::NoKeyringFile => "no keyring file on disk"@,
        MgmtError::CannotMlock => "cannot mlock key material; check RLIMIT_MEMLOCK"@,
        MgmtError::Corrupted => "keyring file is corrupted or from an unsupported version"@,
        MgmtError::Internal => "internal keyring error"@,
    }
}

impl MgmtError {
    pub fn code(&self) -> (r: u16)
        ensures
            r == error_code(*self),
    {
        match self {
            MgmtError::AlreadyInitialized => 409,
            MgmtError::NoKeyringToUnlock => 400,
            MgmtError::NoKeyringToLock => 400,
            MgmtError::BadPassphrase => 401,
            MgmtError::EmptyPassphrase => 400,
            MgmtError::AlreadyExistsOnDisk => 409,
            MgmtError::NoKeyringFile => 404,
            MgmtError::CannotMlock => 500,
            MgmtError::Corrupted => 500,
            MgmtError::Internal => 500,
        }
    }

    /// The message the response body carries.
    pub fn message(&self) -> (r: &'static str)
        ensures
            r@ == error_message(*self),
    {
        match self {
            MgmtError::AlreadyInitialized => "keyring already exists; delete keyring.enc to reset identity",
            MgmtError::NoKeyringToUnlock => "no keyring exists; call POST /api/v1/keyring/init first",
            MgmtError::NoKeyringToLock => "no keyring exists to lock",
            MgmtError::BadPassphrase => "bad passphrase or corrupted keyring",
            MgmtError::EmptyPassphrase => "passphrase must not be empty",
            MgmtError::AlreadyExistsOnDisk => "keyring already exists on disk",
            MgmtError::NoKeyringFile => "no keyring file on disk",
            MgmtError::CannotMlock => "cannot mlock key material; check RLIMIT_MEMLOCK",
            MgmtError::Corrupted => "keyring file is corrupted or from an unsupported version",
            MgmtError::Internal => "internal keyring error",
        }
    }
}

/// A keyring request's answer: the slot's new state (HTTP 200), or an
/// error.
#[derive(Clone, Copy, Debug, PartialEq, Eq, Structural)]
pub enum Reply {
    Status(SlotState),
    Error(MgmtError),
}

pub open spec fn reply_code(r: Reply) -> u16 {
    match r {
        Reply::Status(_) => 200,
        Reply::Error(e) => error_code(e),
    }
}

/// Every keyring request that succeeds is answered with HTTP 200, whatever
/// state it leaves; every refusal with a client or server error status.
pub proof fn lemma_reply_codes(r: Reply)
    ensures
        r is Status ==> reply_code(r) == 200,
        r is Error ==> 400 <= reply_code(r) && reply_code(r) < 600,
{
}

impl Reply {
    pub fn code(&self) -> (r: u16)
        ensures
            r == reply_code(*self),
            *self is Status ==> r == 200,
            *self is Error ==> 400 <= r && r < 600,
    {
        match self {
            Reply::Status(_) => 200,
            Reply::Error(e) => e.code(),
        }
    }
}

/// How a keyring error is answered. Deliberately generic about why
/// decryption failed: "wrong passphrase" versus "tampered file" is an
/// oracle the API does not offer.
pub open spec fn error_kind(e: KeyringError) -> MgmtError {
    match e {
        KeyringError::BadPassphrase => MgmtError::BadPassphrase,
        KeyringError::EmptyPassphrase => MgmtError::EmptyPassphrase,
        KeyringError::AlreadyExists(_) => MgmtError::AlreadyExistsOnDisk,
        KeyringError::NotFound(_) => MgmtError::NoKeyringFile,
        KeyringError::Mlock(_) => MgmtError::CannotMlock,
        KeyringError::BadMagic => MgmtError::Corrupted,
        KeyringError::UnsupportedVersion(_) => MgmtError::Corrupted,
        KeyringError::UnsupportedKdf(_, _) => MgmtError::Corrupted,
        KeyringError::TooShort { .. } => MgmtError::Corrupted,
        KeyringError::Io(_) => MgmtError::Internal,
        KeyringError::KdfParams(_) => MgmtError::Internal,
        KeyringError::KdfRun(_) => MgmtError::Internal,
        KeyringError::WalletDerive(_) => MgmtError::Internal,
        KeyringError::Rng(_) => MgmtError::Internal,
    }
}

pub fn keyring_error_response(e: &KeyringError) -> (r: Reply)
    ensures
        r == Reply::Error(error_kind(*e)),
{
    let kind = match e {
        KeyringError::BadPassphrase => MgmtError::BadPassphrase,
        KeyringError::EmptyPassphrase => MgmtError::EmptyPassphrase,
        KeyringError::AlreadyExists(_) => MgmtError::AlreadyExistsOnDisk,
        KeyringError::NotFound(_) => MgmtError::NoKeyringFile,
        KeyringError::Mlock(_) => MgmtError::CannotMlock,
        KeyringError::BadMagic | KeyringError::UnsupportedVersion(_) | KeyringError::UnsupportedKdf(_, _)
        | KeyringError::TooShort { .. } => MgmtError::Corrupted,
        KeyringError::Io(_) | KeyringError::KdfParams(_) | KeyringError::KdfRun(_) | KeyringError::WalletDerive(_)
        | KeyringError::Rng(_) => MgmtError::Internal,
    };
    Reply::Error(kind)
}

/// The events that move the slot.
pub enum SlotEvent {
    /// `init` created a keyring (`true`) or failed.
    Init(bool),
    /// `unlock` decrypted the keyring (`true`) or failed.
    Unlock(bool),
    /// `lock` re-loaded the keyring from disk (`true`) or failed.
    Lock(bool),
    /// The idle timer fired with the keyring re-loaded from disk.
    AutoLock,
}

/// The slot state after an event.
pub open spec fn transition(s: SlotState, e: SlotEvent) -> SlotState {
    match e {
        SlotEvent::Init(ok) => if s == SlotState::Absent && ok {
            SlotState::Unlocked
        } else {
            s
        },
        SlotEvent::Unlock(ok) => if s == SlotState::Locked && ok {
            SlotState::Unlocked
        } else {
            s
        },
        SlotEvent::Lock(ok) => if s == SlotState::Unlocked && ok {
            SlotState::Locked
        } else {
            s
        },
        SlotEvent::AutoLock => if s == SlotState::Unlocked {
            SlotState::Locked
        } else {
            s
        },
    }
}

pub open spec fn run_events(s: SlotState, events: Seq<SlotEvent>) -> SlotState
    decreases events.len(),
{
    if events.len() == 0 {
        s
    } else {
        transition(run_events(s, events.drop_last()), events.last())
    }
}

/// Once a keyring exists in the session, no sequence of requests or timer
/// firings brings the slot back to `None`.
pub proof fn lemma_never_back_to_none(s: SlotState, events: Seq<SlotEvent>)
    requires
        s != SlotState::Absent,
    ensures
        run_events(s, events) != SlotState::Absent,
    decreases events.len(),
{
    if events.len() > 0 {
        lemma_never_back_to_none(s, events.drop_last());
    }
}

/// `init`: refused unless no keyring exists yet.
pub fn init_gate(slot: &KeyringSlot) -> (r: Option<Reply>)
    ensures
        match state_of(*slot) {
            SlotState::Absent => r is None,
            _ => r == Some(Reply::Error(MgmtError::AlreadyInitialized)),
        },
{
    match slot {
        KeyringSlot::Absent => None,
        _ => Some(Reply::Error(MgmtError::AlreadyInitialized)),
    }
}

/// Finish `init`: a created keyring becomes the unlocked slot; a failure is
/// answered and leaves the slot alone.
pub fn commit_init(slot: &mut KeyringSlot, created: Result<UnlockedKeyring, KeyringError>) -> (r: Reply)
    requires
        state_of(*old(slot)) == SlotState::Absent,
    ensures
        state_of(*final(slot)) == transition(state_of(*old(slot)), SlotEvent::Init(created is Ok)),
        match created {
            Ok(u) => *final(slot) == KeyringSlot::Unlocked(u) && r == Reply::Status(SlotState::Unlocked),
            Err(e) => *final(slot) == *old(slot) && r == Reply::Error(error_kind(e)),
        },
{
    match created {
        Ok(u) => {
            *slot = KeyringSlot::Unlocked(u);
            Reply::Status(SlotState::Unlocked)
        },
        Err(e) => keyring_error_response(&e),
    }
}

/// The first step of `unlock`.
pub enum UnlockStep {
    /// Answer now; the slot does not change.
    Done(Reply),
    /// The keyring decrypted; lock its memory, then `commit_unlock`.
    Decrypted(UnlockedKeyring),
}

/// `unlock`: already unlocked is fine; with no keyring there is nothing to
/// unlock; otherwise decrypt with the passphrase.
pub fn unlock_step(slot: &KeyringSlot, passphrase: &[u8]) -> (r: UnlockStep)
    ensures
        match *slot {
            KeyringSlot::Unlocked(_) => r == UnlockStep::Done(Reply::Status(SlotState::Unlocked)),
            KeyringSlot::Absent => r == UnlockStep::Done(Reply::Error(MgmtError::NoKeyringToUnlock)),
            KeyringSlot::Locked(l) => exists|res: Result<UnlockedKeyring, KeyringError>|
                #[trigger] unlock_outcome(l@, passphrase@, res) && match res {
                    Ok(u) => r == UnlockStep::Decrypted(u),
                    Err(e) => r == UnlockStep::Done(Reply::Error(error_kind(e))),
                },
        },
{
    match slot {
        KeyringSlot::Unlocked(_) => UnlockStep::Done(Reply::Status(SlotState::Unlocked)),
        KeyringSlot::Absent => UnlockStep::Done(Reply::Error(MgmtError::NoKeyringToUnlock)),
        KeyringSlot::Locked(locked) => {
            let res = locked.unlock(passphrase);
            let ghost g = res;
            match res {
                Ok(u) => {
                    assert(unlock_outcome(locked@, passphrase@, g));
                    UnlockStep::Decrypted(u)
                },
                Err(e) => {
                    let r = keyring_error_response(&e);
                    assert(unlock_outcome(locked@, passphrase@, g));
                    UnlockStep::Done(r)
                },
            }
        },
    }
}

/// Finish `unlock` once the decrypted keyring's memory is locked (or that
/// failed): on success the slot becomes unlocked.
pub fn commit_unlock(slot: &mut KeyringSlot, unlocked: Result<UnlockedKeyring, KeyringError>) -> (r: Reply)
    requires
        state_of(*old(slot)) == SlotState::Locked,
    ensures
        state_of(*final(slot)) == transition(state_of(*old(slot)), SlotEvent::Unlock(unlocked is Ok)),
        match unlocked {
            Ok(u) => *final(slot) == KeyringSlot::Unlocked(u) && r == Reply::Status(SlotState::Unlocked),
            Err(e) => *final(slot) == *old(slot) && r == Reply::Error(error_kind(e)),
        },
{
    match unlocked {
        Ok(u) => {
            *slot = KeyringSlot::Unlocked(u);
            Reply::Status(SlotState::Unlocked)
        },
        Err(e) => keyring_error_response(&e),
    }
}

/// `lock`: an unlocked keyring is re-loaded from disk; locked stays
/// locked; with no keyring there is nothing to lock.
pub fn lock_gate(slot: &KeyringSlot) -> (r: Option<Reply>)
    ensures
        match state_of(*slot) {
            SlotState::Unlocked => r is None,
            SlotState::Locked => r == Some(Reply::Status(SlotState::Locked)),
            SlotState::Absent => r == Some(Reply::Error(MgmtError::NoKeyringToLock)),
        },
{
    match slot {
        KeyringSlot::Unlocked(_) => None,
        KeyringSlot::Locked(_) => Some(Reply::Status(SlotState::Locked)),
        KeyringSlot::Absent => Some(Reply::Error(MgmtError::NoKeyringToLock)),
    }
}

/// Finish `lock` with the keyring re-loaded from disk (or the load error).
pub fn commit_lock(slot: &mut KeyringSlot, loaded: Result<LockedKeyring, KeyringError>) -> (r: Reply)
    requires
        state_of(*old(slot)) == SlotState::Unlocked,
    ensures
        state_of(*final(slot)) == transition(state_of(*old(slot)), SlotEvent::Lock(loaded is Ok)),
        match loaded {
            Ok(l) => *final(slot) == KeyringSlot::Locked(l) && r == Reply::Status(SlotState::Locked),
            Err(e) => *final(slot) == *old(slot) && r == Reply::Error(error_kind(e)),
        },
{
    match loaded {
        Ok(l) => {
            *slot = KeyringSlot::Locked(l);
            Reply::Status(SlotState::Locked)
        },
        Err(e) => keyring_error_response(&e),
    }
}

/// The slot a daemon boots with: no file → None; a file that loads →
/// Locked; a file that does not load → None (logged by the caller), so the
/// management API stays up and the operator can reset identity.
pub fn boot_slot(loaded: Option<Result<LockedKeyring, KeyringError>>) -> (r: KeyringSlot)
    ensures
        match loaded {
            Some(Ok(l)) => r == KeyringSlot::Locked(l),
            _ => r == KeyringSlot::Absent,
        },
{
    match loaded {
        Some(Ok(l)) => KeyringSlot::Locked(l),
        _ => KeyringSlot::Absent,
    }
}

} // verus!
