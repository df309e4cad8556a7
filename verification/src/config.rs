//! Runtime configuration of the daemon and where its servers listen.
//!
//! Values resolve CLI flag > environment variable > default; the vault path
//! has no default and must be supplied.

use vstd::prelude::*;

verus! {

pub const DEFAULT_DAEMON_PORT: u16 = 7402;
pub const DEFAULT_EXTERNAL_PORT: u16 = 8402;
pub const DEFAULT_AUTO_LOCK_SECS: u64 = 1800;

pub open spec fn default_log_level() -> Seq<char> {
    seq!['i', 'n', 'f', 'o']
}

/// Runtime configuration for the Capsule daemon.
#[derive(Debug, Clone)]
pub struct Config {
    /// Path to the Obsidian vault this node serves.
    pub vault_path: String,
    /// Localhost-only management API port (plugin ↔ daemon).
    pub daemon_port: u16,
    /// Public agent-facing capsule endpoint port.
    pub external_port: u16,
    /// Log filter.
    pub log_level: String,
    /// Seconds of inactivity after which the keyring auto-locks; `0`
    /// disables auto-lock.
    pub auto_lock_secs: u64,
}

impl Config {
    /// The configuration with every default for `vault_path`.
    pub fn with_defaults(vault_path: String) -> (r: Config)
        ensures
            r.vault_path@ == vault_path@,
            r.daemon_port == 7402,
            r.external_port == 8402,
            r.log_level@ == default_log_level(),
            r.auto_lock_secs == 1800,
    {
        let level = "info";
        proof {
            reveal_strlit("info");
        }
        Config {
            vault_path,
            daemon_port: DEFAULT_DAEMON_PORT,
            external_port: DEFAULT_EXTERNAL_PORT,
            log_level: level.to_owned(),
            auto_lock_secs: DEFAULT_AUTO_LOCK_SECS,
        }
    }

    /// The idle timeout in nanoseconds; `None` when auto-lock is disabled.
    pub fn auto_lock_timeout(&self) -> (r: Option<u128>)
        ensures
            self.auto_lock_secs == 0 ==> r is None,
            self.auto_lock_secs != 0 ==> r == Some((self.auto_lock_secs * 1_000_000_000) as u128),
    {
        if self.auto_lock_secs == 0 {
            None
        } else {
            Some((self.auto_lock_secs as u128) * 1_000_000_000u128)
        }
    }
}

/// An IPv4 listening address.
#[derive(Clone, Copy, Debug)]
pub struct BindAddr {
    pub ip: [u8; 4],
    pub port: u16,
}

pub open spec fn is_loopback(ip: Seq<u8>) -> bool {
    ip[0] == 127
}

/// The management API listens on 127.0.0.1 only: it is reachable from the
/// local machine and nowhere else.
pub fn mgmt_bind_addr(port: u16) -> (r: BindAddr)
    ensures
        r.ip@ == seq![127u8, 0, 0, 1],
        is_loopback(r.ip@),
        r.port == port,
{
    let r = BindAddr { ip: [127u8, 0, 0, 1], port };
    assert(r.ip@ =~= seq![127u8, 0, 0, 1]);
    r
}

/// The public API listens on every interface.
pub fn public_bind_addr(port: u16) -> (r: BindAddr)
    ensures
        r.ip@ == seq![0u8, 0, 0, 0],
        !is_loopback(r.ip@),
        r.port == port,
{
    let r = BindAddr { ip: [0u8, 0, 0, 0], port };
    assert(r.ip@ =~= seq![0u8, 0, 0, 0]);
    r
}

} // verus!
