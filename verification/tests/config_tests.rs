use capsuled::config::{mgmt_bind_addr, public_bind_addr, Config};
use capsuled::vault::{capsule_dir, owner_only_action, PermsAction};

#[test]
fn mgmt_bind_address_is_loopback() {
    let addr = mgmt_bind_addr(7402);
    assert_eq!(addr.ip, [127, 0, 0, 1]);
    assert_eq!(addr.port, 7402);
    assert_eq!(addr.ip[0], 127);
}

#[test]
fn public_bind_accepts_external() {
    let addr = public_bind_addr(8402);
    assert_ne!(addr.ip[0], 127);
    assert_eq!(addr.ip, [0, 0, 0, 0]);
    assert_eq!(addr.port, 8402);
}

#[test]
fn config_defaults() {
    let c = Config::with_defaults("/tmp/vault".to_string());
    assert_eq!(c.vault_path, "/tmp/vault");
    assert_eq!(c.daemon_port, 7402);
    assert_eq!(c.external_port, 8402);
    assert_eq!(c.log_level, "info");
    assert_eq!(c.auto_lock_secs, 1800);
    assert_eq!(c.auto_lock_timeout(), Some(1800u128 * 1_000_000_000));
}

#[test]
fn zero_auto_lock_disables_it() {
    let mut c = Config::with_defaults("/v".to_string());
    c.auto_lock_secs = 0;
    assert_eq!(c.auto_lock_timeout(), None);
}

#[test]
fn capsule_dir_is_under_vault() {
    assert_eq!(capsule_dir("/tmp/vault"), "/tmp/vault/.capsule");
    assert_eq!(capsule_dir("/tmp/vault/"), "/tmp/vault/.capsule");
}

#[test]
fn owner_only_permissions() {
    assert_eq!(owner_only_action(0o40700, false), PermsAction::Keep);
    assert_eq!(owner_only_action(0o40755, false), PermsAction::Tighten { warn: true });
    assert_eq!(owner_only_action(0o40755, true), PermsAction::Tighten { warn: false });
    assert_eq!(owner_only_action(0o600, false), PermsAction::Tighten { warn: true });
}
