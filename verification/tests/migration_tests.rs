use rusqlite::Connection;
use xinzuo_store::engine::{initialize, MigrationError};
use xinzuo_store::migration::SchemaKind;
use xinzuo_store::clock::DateParts;
use xinzuo_store::milestone::milestone_name_for;

fn user_version(conn: &Connection) -> u32 {
    conn.pragma_query_value(None, "user_version", |r| r.get(0)).unwrap()
}

fn table_count(conn: &Connection) -> i64 {
    conn.query_row(
        "SELECT COUNT(*) FROM sqlite_master WHERE type = 'table'",
        [],
        |r| r.get(0),
    )
    .unwrap()
}

#[test]
fn provisions_fresh_project_database() {
    let conn = Connection::open_in_memory().unwrap();
    initialize(&conn, SchemaKind::Project).unwrap();
    assert_eq!(user_version(&conn), 1);
    for table in ["volumes", "chapters", "entities", "timeline", "foreshadows", "rag_arcs",
        "snapshots", "trash"] {
        let n: i64 = conn
            .query_row(
                &format!(
                    "SELECT COUNT(*) FROM sqlite_master WHERE type = 'table' AND name = '{}'",
                    table
                ),
                [],
                |r| r.get(0),
            )
            .unwrap();
        assert_eq!(n, 1, "missing table {}", table);
    }
}

#[test]
fn provisions_fresh_catalog_database() {
    let conn = Connection::open_in_memory().unwrap();
    initialize(&conn, SchemaKind::Catalog).unwrap();
    assert_eq!(user_version(&conn), 2);
    let defaults: i64 = conn
        .query_row("SELECT COUNT(*) FROM settings", [], |r| r.get(0))
        .unwrap();
    assert_eq!(defaults, 7);
    let snapshot_limit: String = conn
        .query_row(
            "SELECT value FROM settings WHERE key = 'snapshot_limit'",
            [],
            |r| r.get(0),
        )
        .unwrap();
    assert_eq!(snapshot_limit, "20");
}

#[test]
fn migration_is_idempotent_on_current_database() {
    let conn = Connection::open_in_memory().unwrap();
    initialize(&conn, SchemaKind::Catalog).unwrap();
    let schema_before: i64 = conn
        .query_row("SELECT COUNT(*) FROM sqlite_master", [], |r| r.get(0))
        .unwrap();
    let version_before = user_version(&conn);

    initialize(&conn, SchemaKind::Catalog).unwrap();
    initialize(&conn, SchemaKind::Catalog).unwrap();

    let schema_after: i64 = conn
        .query_row("SELECT COUNT(*) FROM sqlite_master", [], |r| r.get(0))
        .unwrap();
    assert_eq!(schema_before, schema_after);
    assert_eq!(version_before, user_version(&conn));
}

#[test]
fn future_version_is_fatal_and_leaves_database_untouched() {
    let conn = Connection::open_in_memory().unwrap();
    conn.pragma_update(None, "user_version", 9u32).unwrap();
    let r = initialize(&conn, SchemaKind::Project);
    match r {
        Err(MigrationError::VersionMismatch { version, target }) => {
            assert_eq!(version, 9);
            assert_eq!(target, 1);
        },
        _ => panic!("expected a version mismatch"),
    }
    assert_eq!(user_version(&conn), 9);
    assert_eq!(table_count(&conn), 0);
}

#[test]
fn unknown_project_version_is_fatal() {
    let conn = Connection::open_in_memory().unwrap();
    conn.pragma_update(None, "user_version", 3u32).unwrap();
    let r = initialize(&conn, SchemaKind::Project);
    assert!(matches!(r, Err(MigrationError::VersionMismatch { .. })));
    assert_eq!(user_version(&conn), 3);
}

#[test]
fn catalog_steps_from_version_one_to_two() {
    let conn = Connection::open_in_memory().unwrap();
    conn.execute_batch(
        "CREATE TABLE books (
            id TEXT PRIMARY KEY, name TEXT NOT NULL,
            author_name TEXT NOT NULL DEFAULT '',
            cover_path TEXT, storage_path TEXT NOT NULL,
            created_at TEXT NOT NULL, updated_at TEXT NOT NULL);",
    )
    .unwrap();
    conn.pragma_update(None, "user_version", 1u32).unwrap();

    initialize(&conn, SchemaKind::Catalog).unwrap();

    assert_eq!(user_version(&conn), 2);
    let has_deleted_at: i64 = conn
        .query_row(
            "SELECT COUNT(*) FROM pragma_table_info('books') WHERE name = 'deleted_at'",
            [],
            |r| r.get(0),
        )
        .unwrap();
    assert_eq!(has_deleted_at, 1);
}

#[test]
fn storage_failures_are_reported_verbatim() {
    let conn = Connection::open_in_memory().unwrap();
    // a version-1 catalog with no books table: the registered transition
    // script has nothing to alter and the storage layer reports it
    conn.pragma_update(None, "user_version", 1u32).unwrap();
    let r = initialize(&conn, SchemaKind::Catalog);
    assert!(matches!(r, Err(MigrationError::Storage(_))));
}

#[test]
fn durability_pragmas_apply_on_every_open() {
    let conn = Connection::open_in_memory().unwrap();
    initialize(&conn, SchemaKind::Catalog).unwrap();
    let fk: i64 = conn.pragma_query_value(None, "foreign_keys", |r| r.get(0)).unwrap();
    assert_eq!(fk, 1);
    // reopening an already-current database applies them again
    initialize(&conn, SchemaKind::Catalog).unwrap();
    let fk2: i64 = conn.pragma_query_value(None, "foreign_keys", |r| r.get(0)).unwrap();
    assert_eq!(fk2, 1);
}

#[test]
fn milestone_name_is_pinned_per_instant() {
    let good = DateParts { year: 2026, month: 12, day: 31, hour: 23, minute: 59, second: 59 };
    assert_eq!(
        milestone_name_for("final", good).as_deref(),
        Some("final_20261231_235959.db")
    );
    let bad_year = DateParts { year: 10_000, ..good };
    assert!(milestone_name_for("final", bad_year).is_none());
    let bad_month = DateParts { month: 13, ..good };
    assert!(milestone_name_for("final", bad_month).is_none());
}
