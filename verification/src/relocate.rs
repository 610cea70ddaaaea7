//! Data root relocation: the decision.
//!
//! Moving the whole data tree is file I/O and lives with the caller; what
//! is verified here is the choice the engine makes from the configured
//! root, the requested root and whether the old tree exists on disk:
//! identical roots are a no-op, a missing old tree means only the
//! configuration is adopted, and otherwise the tree moves (the caller
//! attempts an atomic rename and falls back to recursive copy plus delete
//! across storage boundaries).

use vstd::prelude::*;
use crate::paths::AppConfig;
use crate::strutil::str_eq;

verus! {

/// What a relocation request amounts to.
#[derive(Clone, Copy, PartialEq, Eq, Structural, Debug)]
pub enum RelocationPlan {
    /// Old and new roots resolve to the same path: nothing to do at all.
    Unchanged,
    /// No old tree exists: nothing to move, only the configuration is
    /// rewritten to the new root.
    AdoptOnly,
    /// The tree is moved from the old root to the new one, and the
    /// configuration is rewritten.
    Move,
}

/// The decision as a function of the two roots and the old tree's
/// existence.
pub open spec fn spec_relocation_plan(
    old_dir: Seq<char>,
    new_dir: Seq<char>,
    old_tree_exists: bool,
) -> RelocationPlan {
    if old_dir == new_dir {
        RelocationPlan::Unchanged
    } else if !old_tree_exists {
        RelocationPlan::AdoptOnly
    } else {
        RelocationPlan::Move
    }
}

/// Decides what relocating to `new_dir` means under this configuration,
/// given whether the current data tree exists on disk.
pub fn relocation_plan(cfg: &AppConfig, new_dir: &str, old_tree_exists: bool) -> (r:
    RelocationPlan)
    ensures
        r == spec_relocation_plan(cfg.data_dir@, new_dir@, old_tree_exists),
{
    if str_eq(cfg.data_dir.as_str(), new_dir) {
        RelocationPlan::Unchanged
    } else if !old_tree_exists {
        RelocationPlan::AdoptOnly
    } else {
        RelocationPlan::Move
    }
}

/// The configuration after a relocation to `new_dir` has been adopted.
pub fn relocated_config(new_dir: &str) -> (r: AppConfig)
    ensures
        r.data_dir@ == new_dir@,
{
    AppConfig { data_dir: new_dir.to_owned() }
}

/// Relocation idempotence: once a relocation to `new_dir` has completed —
/// the configuration holds `new_dir` — a second call with the same
/// arguments decides to do nothing, whether or not a tree sits at the
/// destination. And whenever the old tree is gone, no move or copy is
/// ever attempted.
pub proof fn lemma_relocation_idempotent(
    old_dir: Seq<char>,
    new_dir: Seq<char>,
    old_tree_exists: bool,
)
    ensures
        spec_relocation_plan(new_dir, new_dir, old_tree_exists) == RelocationPlan::Unchanged,
        old_dir != new_dir && !old_tree_exists ==> spec_relocation_plan(
            old_dir,
            new_dir,
            false,
        ) == RelocationPlan::AdoptOnly,
        spec_relocation_plan(old_dir, new_dir, old_tree_exists) != RelocationPlan::Move
            ==> !old_tree_exists || old_dir == new_dir,
{
}

} // verus!
