//! Storage lifecycle engine for a project-based writing application.
//!
//! The library models the two database kinds the application keeps on disk
//! (one shared catalog, one database per project), and verifies the parts
//! with real invariants: path resolution, schema versioning and migration,
//! the soft-delete / trash subsystem, rolling content snapshots with a
//! retention bound, milestone naming, and relocation of the data root.

use vstd::prelude::*;

pub mod catalog;
pub mod clock;
pub mod engine;
pub mod ident;
pub mod migration;
pub mod milestone;
pub mod numfmt;
pub mod paths;
pub mod project;
pub mod records;
pub mod relocate;
pub mod seqext;
pub mod snapshot;
pub mod strutil;
pub mod trash;
pub mod txt;

verus! {

/// The version every freshly provisioned catalog database is brought to.
pub const CATALOG_CURRENT_VERSION: u32 = 2;

/// The version every freshly provisioned project database is brought to.
pub const PROJECT_CURRENT_VERSION: u32 = 1;

} // verus!
