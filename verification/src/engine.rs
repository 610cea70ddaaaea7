//! The database provisioner: opens a database file and brings its schema to
//! the current version, following exactly what the migration planner
//! decides.
//!
//! All storage access goes through rusqlite behind the trusted wrappers at
//! the bottom of this file; every decision — provision, step chain, no-op,
//! or fatal refusal — is the verified planner's.

use vstd::prelude::*;
use crate::migration::{migration_plan, MigrationPlan, SchemaKind};
use crate::migration::{current_version, spec_current_version, spec_has_transition};
use crate::migration::spec_version_after;
use crate::paths::{book_db_path, global_db_path, AppConfig};

verus! {

/// Why the engine could not bring a database to the current version.
#[derive(Debug)]
pub enum MigrationError {
    /// The file's stored version has no registered forward path to the
    /// compiled target version. Fatal for this file: the engine refuses to
    /// touch it.
    VersionMismatch { version: u32, target: u32 },
    /// The storage layer itself failed (I/O, malformed statement,
    /// corruption); the text is the underlying report.
    Storage(String),
}

/// Brings a database whose stored version counter reads `stored` to the
/// current version: full provisioning at version 0, an ordered chain of
/// one-version transitions below current, nothing when already current —
/// and a refusal, touching nothing, when no forward path is registered.
/// Durability pragmas are applied on every successful path.
pub fn initialize_from_version(
    conn: &rusqlite::Connection,
    kind: SchemaKind,
    stored: u32,
) -> (r: Result<(), MigrationError>)
    ensures
        r is Ok ==> spec_version_after(kind, stored) is Some,
        spec_version_after(kind, stored) is None ==> (r matches Err(
            MigrationError::VersionMismatch { version: v, target: t },
        ) && t == spec_current_version(kind) && spec_version_after(kind, v) is None),
        r matches Err(MigrationError::VersionMismatch { version: v, target: t }) ==> t
            == spec_current_version(kind) && spec_version_after(kind, v) is None
            && spec_version_after(kind, stored) is None,
{
    let cur = current_version(kind);
    match migration_plan(kind, stored) {
        MigrationPlan::Provision => {
            match exec_batch(conn, schema_sql(kind)) {
                Ok(_) => {},
                Err(e) => {
                    return Err(MigrationError::Storage(e));
                },
            }
            match write_user_version(conn, cur) {
                Ok(_) => {},
                Err(e) => {
                    return Err(MigrationError::Storage(e));
                },
            }
            apply_pragmas(conn)
        },
        MigrationPlan::AlreadyCurrent => apply_pragmas(conn),
        MigrationPlan::Steps(steps) => {
            let mut i: usize = 0;
            while i < steps.len()
                invariant
                    forall|j: int| 0 <= j < steps@.len() ==> spec_has_transition(
                        kind,
                        steps@[j],
                    ),
                    spec_version_after(kind, stored) is Some,
                decreases steps@.len() - i,
            {
                match exec_batch(conn, transition_sql(kind, steps[i])) {
                    Ok(_) => {},
                    Err(e) => {
                        return Err(MigrationError::Storage(e));
                    },
                }
                i = i + 1;
            }
            match write_user_version(conn, cur) {
                Ok(_) => {},
                Err(e) => {
                    return Err(MigrationError::Storage(e));
                },
            }
            apply_pragmas(conn)
        },
        MigrationPlan::Fatal(v) => {
            proof {
                if v < spec_current_version(kind) {
                    assert(spec_version_after(kind, v) is None) by {
                        if crate::migration::spec_path_is_complete(kind, v) {
                            assert(spec_has_transition(kind, v));
                        }
                    }
                }
            }
            Err(MigrationError::VersionMismatch { version: v, target: cur })
        },
    }
}

/// Applies the connection-scoped durability pragmas: write-ahead logging
/// and foreign-key enforcement, on every open, for both schema kinds.
fn apply_pragmas(conn: &rusqlite::Connection) -> (r: Result<
    (),
    MigrationError,
>)
    ensures
        !(r matches Err(e) && e is VersionMismatch),
{
    match exec_batch(conn, pragma_sql()) {
        Ok(_) => Ok(()),
        Err(e) => Err(MigrationError::Storage(e)),
    }
}

/// Reads the stored version counter and brings the schema to the current
/// version; applied identically, but independently, to catalog files and to
/// project files.
pub fn initialize(conn: &rusqlite::Connection, kind: SchemaKind) -> (r: Result<
    (),
    MigrationError,
>)
    ensures
        r matches Err(MigrationError::VersionMismatch { version: v, target: t }) ==> t
            == spec_current_version(kind) && spec_version_after(kind, v) is None,
{
    let stored = match read_user_version(conn) {
        Ok(v) => v,
        Err(e) => {
            return Err(MigrationError::Storage(e));
        },
    };
    initialize_from_version(conn, kind, stored)
}

/// Opens (creating the file if absent) the catalog database under this
/// configuration and brings it to the current catalog version. The parent
/// directories must already exist; resolving and creating them is the
/// caller's concern.
pub fn init_global_db(cfg: &AppConfig) -> (r: Result<rusqlite::Connection, MigrationError>)
    ensures
        r matches Err(MigrationError::VersionMismatch { version: v, target: t }) ==> t
            == spec_current_version(SchemaKind::Catalog) && spec_version_after(
            SchemaKind::Catalog,
            v,
        ) is None,
{
    let path = global_db_path(cfg);
    let conn = match open_connection(path.as_str()) {
        Ok(c) => c,
        Err(e) => {
            return Err(MigrationError::Storage(e));
        },
    };
    match initialize(&conn, SchemaKind::Catalog) {
        Ok(_) => Ok(conn),
        Err(e) => Err(e),
    }
}

/// Opens (creating the file if absent) the database of the project stored
/// under `storage_path` and brings it to the current project version. The
/// project directory must already exist.
pub fn open_book_db(cfg: &AppConfig, storage_path: &str) -> (r: Result<
    rusqlite::Connection,
    MigrationError,
>)
    ensures
        r matches Err(MigrationError::VersionMismatch { version: v, target: t }) ==> t
            == spec_current_version(SchemaKind::Project) && spec_version_after(
            SchemaKind::Project,
            v,
        ) is None,
{
    let path = book_db_path(cfg, storage_path);
    let conn = match open_connection(path.as_str()) {
        Ok(c) => c,
        Err(e) => {
            return Err(MigrationError::Storage(e));
        },
    };
    match initialize(&conn, SchemaKind::Project) {
        Ok(_) => Ok(conn),
        Err(e) => Err(e),
    }
}

/// The full provisioning script for a fresh catalog database: the
/// complete current catalog schema, with the seeded default settings.
pub const CATALOG_SCHEMA_SQL: &'static str = "
        CREATE TABLE IF NOT EXISTS books (
            id              TEXT PRIMARY KEY,
            name            TEXT NOT NULL,
            author_name     TEXT NOT NULL DEFAULT '',
            cover_path      TEXT,
            storage_path    TEXT NOT NULL,
            created_at      TEXT NOT NULL,
            updated_at      TEXT NOT NULL,
            deleted_at      TEXT
        );
        CREATE TABLE IF NOT EXISTS settings (
            key     TEXT PRIMARY KEY,
            value   TEXT NOT NULL
        );
        CREATE TABLE IF NOT EXISTS daily_stats (
            id                  TEXT PRIMARY KEY,
            date                TEXT NOT NULL UNIQUE,
            word_count          INTEGER NOT NULL DEFAULT 0,
            duration_seconds    INTEGER NOT NULL DEFAULT 0,
            daily_goal          INTEGER NOT NULL DEFAULT 0
        );
        CREATE TABLE IF NOT EXISTS entity_shelf (
            id                  TEXT PRIMARY KEY,
            name                TEXT NOT NULL,
            entity_type         TEXT NOT NULL,
            attributes_json     TEXT NOT NULL DEFAULT '{}',
            source_book_name    TEXT NOT NULL DEFAULT '',
            created_at          TEXT NOT NULL
        );
        INSERT OR IGNORE INTO settings (key, value) VALUES ('theme', 'system');
        INSERT OR IGNORE INTO settings (key, value) VALUES ('font_size', '16');
        INSERT OR IGNORE INTO settings (key, value) VALUES ('auto_save_interval', '30');
        INSERT OR IGNORE INTO settings (key, value) VALUES ('compression_mode', 'auto');
        INSERT OR IGNORE INTO settings (key, value) VALUES ('snapshot_limit', '20');
        INSERT OR IGNORE INTO settings (key, value) VALUES ('trash_retention_days', '30');
        INSERT OR IGNORE INTO settings (key, value) VALUES ('daily_goal', '0');
        ";

/// The full provisioning script for a fresh project database: the
/// complete current project schema.
pub const PROJECT_SCHEMA_SQL: &'static str = "
        CREATE TABLE IF NOT EXISTS volumes (
            id          TEXT PRIMARY KEY,
            name        TEXT NOT NULL,
            sort_order  INTEGER NOT NULL DEFAULT 0,
            created_at  TEXT NOT NULL
        );
        CREATE TABLE IF NOT EXISTS chapters (
            id          TEXT PRIMARY KEY,
            volume_id   TEXT NOT NULL REFERENCES volumes(id),
            name        TEXT NOT NULL,
            content     TEXT NOT NULL DEFAULT '',
            l2_summary  TEXT,
            l3_title    TEXT,
            status      TEXT NOT NULL DEFAULT 'draft',
            word_count  INTEGER NOT NULL DEFAULT 0,
            sort_order  INTEGER NOT NULL DEFAULT 0,
            created_at  TEXT NOT NULL,
            updated_at  TEXT NOT NULL
        );
        CREATE INDEX IF NOT EXISTS idx_chapters_volume ON chapters(volume_id);
        CREATE INDEX IF NOT EXISTS idx_chapters_status ON chapters(status);
        CREATE TABLE IF NOT EXISTS entities (
            id                  TEXT PRIMARY KEY,
            name                TEXT NOT NULL,
            entity_type         TEXT NOT NULL,
            attributes_json     TEXT NOT NULL DEFAULT '{}',
            status              TEXT NOT NULL DEFAULT 'alive',
            inbox               INTEGER NOT NULL DEFAULT 0,
            first_chapter_id    TEXT,
            last_chapter_id     TEXT,
            created_at          TEXT NOT NULL,
            updated_at          TEXT NOT NULL
        );
        CREATE INDEX IF NOT EXISTS idx_entities_type ON entities(entity_type);
        CREATE INDEX IF NOT EXISTS idx_entities_inbox ON entities(inbox);
        CREATE TABLE IF NOT EXISTS timeline (
            id              TEXT PRIMARY KEY,
            entity_id       TEXT NOT NULL REFERENCES entities(id),
            chapter_id      TEXT NOT NULL REFERENCES chapters(id),
            event           TEXT NOT NULL,
            status_change   TEXT,
            created_at      TEXT NOT NULL
        );
        CREATE INDEX IF NOT EXISTS idx_timeline_entity ON timeline(entity_id);
        CREATE INDEX IF NOT EXISTS idx_timeline_chapter ON timeline(chapter_id);
        CREATE TABLE IF NOT EXISTS foreshadows (
            id                  TEXT PRIMARY KEY,
            description         TEXT NOT NULL,
            plant_chapter_id    TEXT REFERENCES chapters(id),
            reap_chapter_id     TEXT REFERENCES chapters(id),
            status              TEXT NOT NULL DEFAULT 'open',
            created_at          TEXT NOT NULL,
            updated_at          TEXT NOT NULL
        );
        CREATE INDEX IF NOT EXISTS idx_foreshadows_status ON foreshadows(status);
        CREATE TABLE IF NOT EXISTS rag_arcs (
            id                  TEXT PRIMARY KEY,
            start_chapter_id    TEXT NOT NULL REFERENCES chapters(id),
            end_chapter_id      TEXT NOT NULL REFERENCES chapters(id),
            summary             TEXT NOT NULL,
            created_at          TEXT NOT NULL,
            updated_at          TEXT NOT NULL
        );
        CREATE TABLE IF NOT EXISTS snapshots (
            id                  TEXT PRIMARY KEY,
            chapter_id          TEXT NOT NULL REFERENCES chapters(id),
            snapshot_content    TEXT NOT NULL,
            created_at          TEXT NOT NULL
        );
        CREATE INDEX IF NOT EXISTS idx_snapshots_chapter ON snapshots(chapter_id);
        CREATE TABLE IF NOT EXISTS trash (
            id              TEXT PRIMARY KEY,
            original_table  TEXT NOT NULL,
            original_id     TEXT NOT NULL,
            data_json       TEXT NOT NULL,
            deleted_at      TEXT NOT NULL,
            deleted_by      TEXT NOT NULL DEFAULT 'user'
        );
        CREATE INDEX IF NOT EXISTS idx_trash_deleted_at ON trash(deleted_at);
        ";

/// The script of the one registered transition: it raises a catalog
/// database from version 1 to version 2 by adding the soft-delete
/// timestamp column.
pub const CATALOG_V1_TO_V2_SQL: &'static str = "ALTER TABLE books ADD COLUMN deleted_at TEXT;";

/// The connection-scoped pragmas applied on every open, for both schema
/// kinds alike: write-ahead logging and foreign-key enforcement.
pub const PRAGMA_SQL: &'static str = "PRAGMA journal_mode=WAL; PRAGMA foreign_keys=ON;";

/// The text the provisioner hands the storage layer for a fresh database
/// of this kind.
pub open spec fn spec_schema_sql(kind: SchemaKind) -> Seq<char> {
    match kind {
        SchemaKind::Catalog => CATALOG_SCHEMA_SQL@,
        SchemaKind::Project => PROJECT_SCHEMA_SQL@,
    }
}

/// The text the provisioner hands the storage layer for the registered
/// transition starting at `from`.
pub open spec fn spec_transition_sql(kind: SchemaKind, from: u32) -> Seq<char> {
    CATALOG_V1_TO_V2_SQL@
}

/// The provisioning script for a fresh database of this kind.
fn schema_sql(kind: SchemaKind) -> (r: &'static str)
    ensures
        r@ == spec_schema_sql(kind),
{
    match kind {
        SchemaKind::Catalog => CATALOG_SCHEMA_SQL,
        SchemaKind::Project => PROJECT_SCHEMA_SQL,
    }
}

/// The script for the registered one-version transition starting at
/// `from`.
fn transition_sql(kind: SchemaKind, from: u32) -> (r: &'static str)
    requires
        spec_has_transition(kind, from),
    ensures
        r@ == spec_transition_sql(kind, from),
{
    CATALOG_V1_TO_V2_SQL
}

/// The connection-scoped pragma text applied on every open.
fn pragma_sql() -> (r: &'static str)
    ensures
        r@ == PRAGMA_SQL@,
{
    PRAGMA_SQL
}

/// Relies on rusqlite::Connection::open: opens the database file at `path`,
/// creating it if absent, and returns the failure report otherwise.
#[verifier::external_body]
fn open_connection(path: &str) -> (r: Result<rusqlite::Connection, String>) {
    rusqlite::Connection::open(path).map_err(|e| format!("open failed ({}): {}", path, e))
}

/// Relies on rusqlite::Connection::pragma_query_value reading
/// `PRAGMA user_version`: returns the version counter stored in the file.
#[verifier::external_body]
fn read_user_version(conn: &rusqlite::Connection) -> (r: Result<u32, String>) {
    conn.pragma_query_value(None, "user_version", |row| row.get(0))
        .map_err(|e| format!("read user_version failed: {}", e))
}

/// Relies on rusqlite::Connection::pragma_update writing
/// `PRAGMA user_version`: stores `version` as the file's version counter.
#[verifier::external_body]
fn write_user_version(conn: &rusqlite::Connection, version: u32) -> (r: Result<(), String>) {
    conn.pragma_update(None, "user_version", version)
        .map_err(|e| format!("write user_version failed: {}", e))
}

/// Relies on rusqlite::Connection::execute_batch: runs each statement of
/// `sql` in order against the file.
#[verifier::external_body]
fn exec_batch(conn: &rusqlite::Connection, sql: &str) -> (r: Result<(), String>) {
    conn.execute_batch(sql).map_err(|e| format!("statement failed: {}", e))
}

/// Declares rusqlite::Connection so that handles can cross the verified
/// code; the connection itself stays opaque.
#[verifier::external_type_specification]
#[verifier::external_body]
pub struct ExConnection(rusqlite::Connection);

} // verus!
