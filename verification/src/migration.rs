//! The schema migration planner.
//!
//! Each database file stores a version counter. Two independent schemas
//! exist — the shared catalog and the per-project schema — each with its own
//! current version and its own registered forward transitions. Given a
//! stored version, the planner decides, exactly, what the engine must do:
//! provision from scratch, apply an ordered chain of one-version steps, do
//! nothing, or refuse because no forward path is registered.

use vstd::prelude::*;
use crate::CATALOG_CURRENT_VERSION;
use crate::PROJECT_CURRENT_VERSION;

verus! {

/// Which of the two database schemas a file carries. The two share the
/// engine but have disjoint version counters and disjoint transition
/// registries, and must never be conflated.
#[derive(Clone, Copy, PartialEq, Eq, Structural)]
pub enum SchemaKind {
    Catalog,
    Project,
}

/// The version a freshly provisioned database of this kind is brought to.
pub open spec fn spec_current_version(kind: SchemaKind) -> u32 {
    match kind {
        SchemaKind::Catalog => CATALOG_CURRENT_VERSION,
        SchemaKind::Project => PROJECT_CURRENT_VERSION,
    }
}

/// The compiled current version of this schema kind.
pub fn current_version(kind: SchemaKind) -> (r: u32)
    ensures
        r == spec_current_version(kind),
{
    match kind {
        SchemaKind::Catalog => CATALOG_CURRENT_VERSION,
        SchemaKind::Project => PROJECT_CURRENT_VERSION,
    }
}

/// Whether a one-version forward migration is registered for `from`.
/// The only transition on record raises a catalog database from version 1
/// to version 2 (it adds the soft-delete timestamp column).
pub open spec fn spec_has_transition(kind: SchemaKind, from: u32) -> bool {
    kind == SchemaKind::Catalog && from == 1
}

/// Whether a one-version forward migration is registered for `from`.
pub fn has_transition(kind: SchemaKind, from: u32) -> (r: bool)
    ensures
        r == spec_has_transition(kind, from),
{
    match kind {
        SchemaKind::Catalog => from == 1,
        SchemaKind::Project => false,
    }
}

/// Every version from `stored` up to the current one has a registered
/// forward transition.
pub open spec fn spec_path_is_complete(kind: SchemaKind, stored: u32) -> bool {
    forall|v: u32| stored <= v < spec_current_version(kind) ==> spec_has_transition(kind, v)
}

/// What the engine must do to a database whose stored version was read.
pub enum MigrationPlan {
    /// Version 0: a freshly created file. Run the full current-schema
    /// provisioning script and stamp the current version.
    Provision,
    /// Apply the one-version transitions for these source versions, in
    /// order, then stamp the current version.
    Steps(Vec<u32>),
    /// Already at the current version: nothing to apply.
    AlreadyCurrent,
    /// Fatal: this version has no registered forward path (it is beyond the
    /// compiled version, or a transition is missing). The engine must
    /// refuse and leave the database untouched.
    Fatal(u32),
}

/// The version counter after the engine has acted on a database stored at
/// `stored`: the current version if a path exists, `None` if the engine
/// refuses (in which case the file keeps its old version).
pub open spec fn spec_version_after(kind: SchemaKind, stored: u32) -> Option<u32> {
    let cur = spec_current_version(kind);
    if stored == 0 {
        Some(cur)
    } else if stored == cur {
        Some(cur)
    } else if stored < cur && spec_path_is_complete(kind, stored) {
        Some(cur)
    } else {
        None
    }
}

/// Decides what to do with a database whose stored version counter is
/// `stored`.
pub fn migration_plan(kind: SchemaKind, stored: u32) -> (r: MigrationPlan)
    ensures
        stored == 0 ==> r is Provision,
        stored == spec_current_version(kind) && stored != 0 ==> r is AlreadyCurrent,
        stored > spec_current_version(kind) ==> r == MigrationPlan::Fatal(stored),
        0 < stored < spec_current_version(kind) && spec_path_is_complete(kind, stored) ==> {
            &&& r is Steps
            &&& r->Steps_0@ == Seq::new(
                (spec_current_version(kind) - stored) as nat,
                |i: int| (stored + i) as u32,
            )
        },
        0 < stored < spec_current_version(kind) && !spec_path_is_complete(kind, stored) ==> {
            &&& r is Fatal
            &&& stored <= r->Fatal_0 < spec_current_version(kind)
            &&& !spec_has_transition(kind, r->Fatal_0)
            &&& forall|w: u32| stored <= w < r->Fatal_0 ==> spec_has_transition(kind, w)
        },
        (r is Provision || r is Steps || r is AlreadyCurrent) <==> spec_version_after(
            kind,
            stored,
        ) is Some,
{
    let cur = current_version(kind);
    if stored == 0 {
        return MigrationPlan::Provision;
    }
    if stored == cur {
        return MigrationPlan::AlreadyCurrent;
    }
    if stored > cur {
        return MigrationPlan::Fatal(stored);
    }
    let mut steps: Vec<u32> = Vec::new();
    let mut v: u32 = stored;
    while v < cur
        invariant
            0 < stored <= v <= cur,
            stored < cur,
            cur == spec_current_version(kind),
            steps@ == Seq::new((v - stored) as nat, |i: int| (stored + i) as u32),
            forall|w: u32| stored <= w < v ==> spec_has_transition(kind, w),
        decreases cur - v,
    {
        if !has_transition(kind, v) {
            proof {
                assert(!spec_path_is_complete(kind, stored)) by {
                    if spec_path_is_complete(kind, stored) {
                        assert(spec_has_transition(kind, v));
                    }
                }
            }
            return MigrationPlan::Fatal(v);
        }
        steps.push(v);
        proof {
            assert(steps@ =~= Seq::new(((v + 1) - stored) as nat, |i: int| (stored + i) as u32));
        }
        v = v + 1;
    }
    MigrationPlan::Steps(steps)
}

/// Migration idempotence: once a database has been brought to the current
/// version, running the engine again finds it current, applies nothing, and
/// reports no error; the version counter does not move.
pub proof fn lemma_migration_idempotent(kind: SchemaKind, stored: u32)
    requires
        spec_version_after(kind, stored) is Some,
    ensures
        spec_version_after(kind, stored) == Some(spec_current_version(kind)),
        spec_version_after(kind, spec_version_after(kind, stored)->Some_0) == Some(
            spec_current_version(kind),
        ),
{
}

/// The fatal path: a stored version beyond the compiled current version, or
/// one with a missing transition, is refused — the engine reports the
/// mismatch instead of acting, and the stored version stays what it was.
pub proof fn lemma_migration_fatal(kind: SchemaKind, stored: u32)
    requires
        stored > spec_current_version(kind) || (0 < stored < spec_current_version(kind)
            && !spec_path_is_complete(kind, stored)),
    ensures
        spec_version_after(kind, stored) is None,
{
}

} // verus!
