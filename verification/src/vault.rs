//! The vault's `.capsule/` directory and its owner-only permissions.

use vstd::prelude::*;

use crate::paths::{join_path, path_join};

verus! {

pub open spec fn capsule_dir_name() -> Seq<char> {
    seq!['.', 'c', 'a', 'p', 's', 'u', 'l', 'e']
}

/// `<vault>/.capsule`.
pub fn capsule_dir(vault_path: &str) -> (r: String)
    ensures
        r@ == path_join(vault_path@, capsule_dir_name()),
{
    let name = ".capsule";
    proof {
        reveal_strlit(".capsule");
    }
    join_path(vault_path, name)
}

/// What to do about the permission bits of `.capsule/`.
#[derive(Clone, Copy, Debug, PartialEq, Eq, Structural)]
pub enum PermsAction {
    /// Already owner-only (`0700`).
    Keep,
    /// Set `0700`; `warn` when the directory existed before with looser
    /// bits, so the operator learns it was tightened.
    Tighten { warn: bool },
}

/// `.capsule/` must be `0700` on every start.
pub fn owner_only_action(mode: u32, created: bool) -> (r: PermsAction)
    ensures
        mode & 0o777 == 0o700 ==> r == PermsAction::Keep,
        mode & 0o777 != 0o700 ==> r == (PermsAction::Tighten { warn: !created }),
{
    if mode & 0o777u32 == 0o700u32 {
        PermsAction::Keep
    } else {
        PermsAction::Tighten { warn: !created }
    }
}

} // verus!
