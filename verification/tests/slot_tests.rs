use capsuled::autolock::{auto_lock_due, auto_lock_seconds_remaining, finish_auto_lock, CHECK_INTERVAL_NANOS};
use capsuled::keyring::{create_keyring, parse_keyring, Argon2Params, KeyringError, LockedKeyring, UnlockedKeyring};
use capsuled::slot::{
    boot_slot, commit_init, commit_lock, commit_unlock, init_gate, keyring_error_response, lock_gate, unlock_step,
    KeyringSlot, MgmtError, Reply, SlotState, UnlockStep,
};

const SEC: u128 = 1_000_000_000;

fn test_params() -> Argon2Params {
    Argon2Params { m_cost: 1024, t_cost: 1, p_cost: 1 }
}

fn locked_with(passphrase: &[u8]) -> LockedKeyring {
    let created = create_keyring(passphrase, test_params()).expect("create");
    parse_keyring("/v/.capsule/identity/keyring.enc", &created.file_bytes).expect("load")
}

fn unlocked() -> UnlockedKeyring {
    UnlockedKeyring::from_bytes([42u8; 32]).expect("derive")
}

#[test]
fn slot_labels() {
    assert_eq!(KeyringSlot::Absent.status_label(), "none");
    assert_eq!(KeyringSlot::Locked(locked_with(b"t")).status_label(), "locked");
    assert_eq!(KeyringSlot::Unlocked(unlocked()).status_label(), "unlocked");
}

#[test]
fn wallet_address_only_while_unlocked() {
    let u = unlocked();
    let addr = u.wallet_address().to_string();
    assert_eq!(KeyringSlot::Unlocked(u).wallet_address(), Some(addr));
    assert_eq!(KeyringSlot::Absent.wallet_address(), None);
    assert_eq!(KeyringSlot::Locked(locked_with(b"t")).wallet_address(), None);
}

#[test]
fn error_codes_and_messages() {
    assert_eq!(Reply::Status(SlotState::Unlocked).code(), 200);
    assert_eq!(Reply::Error(MgmtError::AlreadyInitialized).code(), 409);
    assert_eq!(Reply::Error(MgmtError::BadPassphrase).code(), 401);
    assert_eq!(Reply::Error(MgmtError::NoKeyringFile).code(), 404);
    assert_eq!(Reply::Error(MgmtError::EmptyPassphrase).code(), 400);
    assert_eq!(Reply::Error(MgmtError::CannotMlock).code(), 500);
    assert_eq!(MgmtError::BadPassphrase.message(), "bad passphrase or corrupted keyring");
    assert_eq!(MgmtError::EmptyPassphrase.message(), "passphrase must not be empty");
}

#[test]
fn keyring_errors_map_to_generic_answers() {
    assert_eq!(keyring_error_response(&KeyringError::BadPassphrase), Reply::Error(MgmtError::BadPassphrase));
    assert_eq!(keyring_error_response(&KeyringError::BadMagic), Reply::Error(MgmtError::Corrupted));
    assert_eq!(keyring_error_response(&KeyringError::UnsupportedVersion(9)), Reply::Error(MgmtError::Corrupted));
    assert_eq!(
        keyring_error_response(&KeyringError::NotFound("/x".into())),
        Reply::Error(MgmtError::NoKeyringFile)
    );
    assert_eq!(
        keyring_error_response(&KeyringError::AlreadyExists("/x".into())),
        Reply::Error(MgmtError::AlreadyExistsOnDisk)
    );
}

#[test]
fn init_only_from_absent() {
    assert!(init_gate(&KeyringSlot::Absent).is_none());
    assert_eq!(init_gate(&KeyringSlot::Unlocked(unlocked())), Some(Reply::Error(MgmtError::AlreadyInitialized)));
    assert_eq!(
        init_gate(&KeyringSlot::Locked(locked_with(b"t"))),
        Some(Reply::Error(MgmtError::AlreadyInitialized))
    );

    let mut slot = KeyringSlot::Absent;
    assert_eq!(commit_init(&mut slot, Err(KeyringError::EmptyPassphrase)), Reply::Error(MgmtError::EmptyPassphrase));
    assert_eq!(slot.state(), SlotState::Absent);
    assert_eq!(commit_init(&mut slot, Ok(unlocked())), Reply::Status(SlotState::Unlocked));
    assert_eq!(slot.state(), SlotState::Unlocked);
}

#[test]
fn unlock_from_each_state() {
    assert!(matches!(
        unlock_step(&KeyringSlot::Absent, b"pw"),
        UnlockStep::Done(Reply::Error(MgmtError::NoKeyringToUnlock))
    ));
    assert!(matches!(
        unlock_step(&KeyringSlot::Unlocked(unlocked()), b"pw"),
        UnlockStep::Done(Reply::Status(SlotState::Unlocked))
    ));
    let locked = KeyringSlot::Locked(locked_with(b"right"));
    assert!(matches!(unlock_step(&locked, b"wrong"), UnlockStep::Done(Reply::Error(MgmtError::BadPassphrase))));
    assert!(matches!(unlock_step(&locked, b""), UnlockStep::Done(Reply::Error(MgmtError::EmptyPassphrase))));
    let decrypted = match unlock_step(&locked, b"right") {
        UnlockStep::Decrypted(u) => u,
        _ => panic!("expected the keyring to decrypt"),
    };
    let mut slot = locked;
    assert_eq!(
        commit_unlock(&mut slot, Err(KeyringError::Mlock(std::io::Error::from_raw_os_error(1)))),
        Reply::Error(MgmtError::CannotMlock)
    );
    assert_eq!(slot.state(), SlotState::Locked);
    assert_eq!(commit_unlock(&mut slot, Ok(decrypted)), Reply::Status(SlotState::Unlocked));
    assert_eq!(slot.state(), SlotState::Unlocked);
}

#[test]
fn lock_from_each_state() {
    assert_eq!(lock_gate(&KeyringSlot::Absent), Some(Reply::Error(MgmtError::NoKeyringToLock)));
    assert_eq!(lock_gate(&KeyringSlot::Locked(locked_with(b"t"))), Some(Reply::Status(SlotState::Locked)));
    assert!(lock_gate(&KeyringSlot::Unlocked(unlocked())).is_none());

    let mut slot = KeyringSlot::Unlocked(unlocked());
    assert_eq!(
        commit_lock(&mut slot, Err(KeyringError::NotFound("/k".into()))),
        Reply::Error(MgmtError::NoKeyringFile)
    );
    assert_eq!(slot.state(), SlotState::Unlocked);
    assert_eq!(commit_lock(&mut slot, Ok(locked_with(b"t"))), Reply::Status(SlotState::Locked));
    assert_eq!(slot.state(), SlotState::Locked);
}

#[test]
fn boot_slot_falls_back_to_absent() {
    assert_eq!(boot_slot(None).state(), SlotState::Absent);
    assert_eq!(boot_slot(Some(Err(KeyringError::BadMagic))).state(), SlotState::Absent);
    assert_eq!(boot_slot(Some(Ok(locked_with(b"t")))).state(), SlotState::Locked);
}

#[test]
fn slot_never_returns_to_absent() {
    let mut slot = KeyringSlot::Absent;
    commit_init(&mut slot, Ok(unlocked()));
    commit_lock(&mut slot, Ok(locked_with(b"t")));
    assert!(matches!(unlock_step(&slot, b"nope"), UnlockStep::Done(_)));
    assert_eq!(slot.state(), SlotState::Locked);
    assert!(init_gate(&slot).is_some());
}

#[test]
fn transitions_unlocked_to_locked_when_idle() {
    let timeout = Some(SEC / 1000);
    assert!(!auto_lock_due(SlotState::Unlocked, timeout, 0));
    let idle = 60 * SEC;
    assert!(auto_lock_due(SlotState::Unlocked, timeout, idle));
    let mut slot = KeyringSlot::Unlocked(unlocked());
    assert!(finish_auto_lock(&mut slot, locked_with(b"t")));
    assert_eq!(slot.state(), SlotState::Locked);
}

#[test]
fn record_activity_defers_the_lock() {
    let timeout = Some(SEC / 1000);
    // Activity just now resets the idle time to zero.
    let idle_after_activity = 0;
    assert!(!auto_lock_due(SlotState::Unlocked, timeout, idle_after_activity));
}

#[test]
fn disabled_never_locks() {
    assert!(!auto_lock_due(SlotState::Unlocked, None, 600 * SEC));
    assert!(!auto_lock_due(SlotState::Unlocked, None, u128::MAX));
    assert_eq!(auto_lock_seconds_remaining(SlotState::Unlocked, None, 600 * SEC), None);
}

#[test]
fn auto_lock_only_applies_to_unlocked() {
    assert!(!auto_lock_due(SlotState::Locked, Some(SEC), 600 * SEC));
    assert!(!auto_lock_due(SlotState::Absent, Some(SEC), 600 * SEC));
    let mut slot = KeyringSlot::Absent;
    assert!(!finish_auto_lock(&mut slot, locked_with(b"t")));
    assert_eq!(slot.state(), SlotState::Absent);
}

#[test]
fn seconds_remaining_counts_down() {
    let timeout = Some(1800 * SEC);
    assert_eq!(auto_lock_seconds_remaining(SlotState::Unlocked, timeout, 0), Some(1800));
    assert_eq!(auto_lock_seconds_remaining(SlotState::Unlocked, timeout, 1 * SEC + 1), Some(1798));
    assert_eq!(auto_lock_seconds_remaining(SlotState::Unlocked, timeout, 1900 * SEC), Some(0));
    assert_eq!(auto_lock_seconds_remaining(SlotState::Locked, timeout, 0), None);
    assert_eq!(CHECK_INTERVAL_NANOS, 30 * SEC);
}

#[test]
fn lock_stays_due_while_idle() {
    let timeout = Some(10 * SEC);
    assert!(auto_lock_due(SlotState::Unlocked, timeout, 10 * SEC));
    assert!(auto_lock_due(SlotState::Unlocked, timeout, 20 * SEC));
    assert!(!auto_lock_due(SlotState::Unlocked, timeout, 10 * SEC - 1));
}
