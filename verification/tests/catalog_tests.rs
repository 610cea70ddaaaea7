use rusqlite::Connection;
use xinzuo_store::catalog::CatalogStore;
use xinzuo_store::engine::initialize;
use xinzuo_store::migration::SchemaKind;
use xinzuo_store::paths::{ensure_unique_dir, sanitize_dir_name};
use xinzuo_store::project::ProjectStore;

const T1: &str = "2026-02-01T09:00:00+00:00";
const T2: &str = "2026-02-01T10:00:00+00:00";

#[test]
fn project_alpha_lifecycle() {
    // create project "Alpha": directory name resolution, catalog row, and
    // a version-1 project database
    let mut catalog = CatalogStore::new();
    let existing: Vec<String> = vec![];
    let storage = ensure_unique_dir(&existing, &sanitize_dir_name("Alpha"));
    assert_eq!(storage, "Alpha");

    let book = catalog.create_book("Alpha", "me", &storage, T1);
    assert_eq!(book.name, "Alpha");
    assert_eq!(book.storage_path, "Alpha");
    assert!(book.cover_path.is_none());

    let conn = Connection::open_in_memory().unwrap();
    initialize(&conn, SchemaKind::Project).unwrap();
    let v: u32 = conn.pragma_query_value(None, "user_version", |r| r.get(0)).unwrap();
    assert_eq!(v, 1);

    // soft delete: gone from the live list, visible in the trash list
    catalog.delete_book(&book.id, T2);
    assert_eq!(catalog.list_books().len(), 0);
    let deleted = catalog.list_deleted_books();
    assert_eq!(deleted.len(), 1);
    assert_eq!(deleted[0].name, "Alpha");
    assert_eq!(deleted[0].deleted_at, T2);

    // restore brings it back
    catalog.restore_book(&book.id);
    assert_eq!(catalog.list_books().len(), 1);
    assert_eq!(catalog.list_deleted_books().len(), 0);

    // permanent destruction removes the row and names the directory to
    // delete; nothing lists it any more
    catalog.delete_book(&book.id, T2);
    let sp = catalog.permanently_delete_book(&book.id);
    assert_eq!(sp.as_deref(), Some("Alpha"));
    assert_eq!(catalog.list_books().len(), 0);
    assert_eq!(catalog.list_deleted_books().len(), 0);
    assert!(catalog.permanently_delete_book(&book.id).is_none());
}

#[test]
fn live_list_is_newest_first() {
    let mut catalog = CatalogStore::new();
    let a = catalog.create_book("A", "x", "A", T1);
    let b = catalog.create_book("B", "x", "B", T2);
    let books = catalog.list_books();
    assert_eq!(books.len(), 2);
    assert_eq!(books[0].id, b.id);
    assert_eq!(books[1].id, a.id);
}

#[test]
fn update_book_rewrites_only_given_fields() {
    let mut catalog = CatalogStore::new();
    let book = catalog.create_book("Alpha", "me", "Alpha", T1);
    catalog.update_book(&book.id, Some("Beta"), None, Some("cover.png"), T2);
    let listed = catalog.list_books();
    assert_eq!(listed[0].name, "Beta");
    assert_eq!(listed[0].author_name, "me");
    assert_eq!(listed[0].cover_path.as_deref(), Some("cover.png"));
    assert_eq!(listed[0].updated_at, T2);
}

#[test]
fn settings_upsert_and_read() {
    let mut catalog = CatalogStore::new();
    assert!(catalog.get_setting("theme").is_none());
    catalog.update_setting("theme", "dark");
    assert_eq!(catalog.get_setting("theme").as_deref(), Some("dark"));
    catalog.update_setting("theme", "light");
    assert_eq!(catalog.get_setting("theme").as_deref(), Some("light"));
    assert_eq!(catalog.get_settings().len(), 1);
}

#[test]
fn daily_goal_is_stored_in_decimal() {
    let mut catalog = CatalogStore::new();
    catalog.update_setting("daily_goal", "0");
    catalog.set_daily_goal(1500);
    assert_eq!(catalog.get_setting("daily_goal").as_deref(), Some("1500"));
}

#[test]
fn daily_stats_accumulate_and_filter_by_range() {
    let mut catalog = CatalogStore::new();
    catalog.update_daily_stats("2026-02-01", 500, 600);
    catalog.update_daily_stats("2026-02-01", 250, 60);
    catalog.update_daily_stats("2026-02-03", 100, 10);

    let all = catalog.get_daily_stats("2026-01-01", "2026-12-31");
    assert_eq!(all.len(), 2);
    assert_eq!(all[0].date, "2026-02-01");
    assert_eq!(all[0].word_count, 750);
    assert_eq!(all[0].duration_seconds, 660);
    assert_eq!(all[0].daily_goal, 0);

    let one = catalog.get_daily_stats("2026-02-02", "2026-02-28");
    assert_eq!(one.len(), 1);
    assert_eq!(one[0].date, "2026-02-03");
}

#[test]
fn volume_and_chapter_ordering() {
    let mut store = ProjectStore::new();
    let v1 = store.create_volume("One", T1);
    let v2 = store.create_volume("Two", T1);
    assert_eq!(v1.sort_order, 0);
    assert_eq!(v2.sort_order, 1);

    let c1 = store.create_chapter(&v1.id, "A", T1);
    let c2 = store.create_chapter(&v1.id, "B", T1);
    let lone = store.create_chapter(&v2.id, "C", T1);
    assert_eq!(c1.sort_order, 0);
    assert_eq!(c2.sort_order, 1);
    assert_eq!(lone.sort_order, 0);

    // reorder swaps the two chapters of the first volume
    store.reorder_chapters(&vec![c2.id.clone(), c1.id.clone()]);
    assert_eq!(store.get_chapter(&c2.id).unwrap().sort_order, 0);
    assert_eq!(store.get_chapter(&c1.id).unwrap().sort_order, 1);

    // moving a chapter appends it to the target volume's ordering
    store.move_chapter(&c1.id, &v2.id, T2);
    let moved = store.get_chapter(&c1.id).unwrap();
    assert_eq!(moved.volume_id, v2.id);
    assert_eq!(moved.sort_order, 1);
    assert_eq!(store.list_chapters(&v1.id).len(), 1);
    assert_eq!(store.list_chapters(&v2.id).len(), 2);
}

#[test]
fn rename_and_status_updates() {
    let mut store = ProjectStore::new();
    let v = store.create_volume("One", T1);
    let c = store.create_chapter(&v.id, "A", T1);
    store.rename_volume(&v.id, "First");
    store.rename_chapter(&c.id, "Arrival", T2);
    assert_eq!(store.list_volumes()[0].name, "First");
    let ch = store.get_chapter(&c.id).unwrap();
    assert_eq!(ch.name, "Arrival");
    assert_eq!(ch.updated_at, T2);
}

#[test]
fn entity_listing_filters() {
    let mut store = ProjectStore::new();
    store.create_entity("Hero", "character", "{}", true, T1);
    store.create_entity("Sword", "item", "{}", false, T1);
    store.create_entity("Villain", "character", "{}", false, T2);

    assert_eq!(store.list_entities(None, None).len(), 3);
    let chars = store.list_entities(Some("character"), None);
    assert_eq!(chars.len(), 2);
    assert_eq!(chars[0].name, "Villain");
    assert_eq!(chars[1].name, "Hero");
    let inbox = store.list_entities(None, Some(true));
    assert_eq!(inbox.len(), 1);
    assert_eq!(inbox[0].name, "Hero");
    assert_eq!(store.list_entities(Some("character"), Some(true)).len(), 1);
}

#[test]
fn entity_update_applies_given_fields() {
    let mut store = ProjectStore::new();
    let e = store.create_entity("Hero", "character", "{}", true, T1);
    store.update_entity(&e.id, Some("Heroine"), None, Some("dead"), Some(false), T2);
    let after = store.get_entity(&e.id).unwrap();
    assert_eq!(after.name, "Heroine");
    assert_eq!(after.attributes_json, "{}");
    assert_eq!(after.status, "dead");
    assert!(!after.inbox);
    assert_eq!(after.updated_at, T2);
}

#[test]
fn foreshadow_lifecycle() {
    let mut store = ProjectStore::new();
    let f = store.create_foreshadow("the locked door", Some("ch1"), T1);
    assert_eq!(f.status, "open");
    assert!(f.reap_chapter_id.is_none());

    store.resolve_foreshadow(&f.id, "ch9", T2);
    let listed = store.list_foreshadows();
    assert_eq!(listed.len(), 1);
    assert_eq!(listed[0].status, "resolved");
    assert_eq!(listed[0].reap_chapter_id.as_deref(), Some("ch9"));

    store.delete_foreshadow(&f.id);
    assert_eq!(store.list_foreshadows().len(), 0);
    assert_eq!(store.trash.len(), 0);
}

#[test]
fn deleted_listing_orders_by_deletion_stamp() {
    let mut catalog = CatalogStore::new();
    let a = catalog.create_book("A", "x", "A", T1);
    let b = catalog.create_book("B", "x", "B", T1);
    // the earlier-created book is deleted later: stamp order wins over
    // creation order
    catalog.delete_book(&b.id, "2026-02-01T10:00:00+00:00");
    catalog.delete_book(&a.id, "2026-02-02T10:00:00+00:00");
    let gone = catalog.list_deleted_books();
    assert_eq!(gone.len(), 2);
    assert_eq!(gone[0].id, a.id);
    assert_eq!(gone[1].id, b.id);
}

#[test]
fn listings_follow_sort_order_after_reorder() {
    let mut store = ProjectStore::new();
    let v1 = store.create_volume("One", T1);
    let v2 = store.create_volume("Two", T1);
    store.reorder_volumes(&vec![v2.id.clone(), v1.id.clone()]);
    let vols = store.list_volumes();
    assert_eq!(vols[0].id, v2.id);
    assert_eq!(vols[1].id, v1.id);

    let c1 = store.create_chapter(&v1.id, "A", T1);
    let c2 = store.create_chapter(&v1.id, "B", T1);
    store.reorder_chapters(&vec![c2.id.clone(), c1.id.clone()]);
    let chs = store.list_chapters(&v1.id);
    assert_eq!(chs[0].id, c2.id);
    assert_eq!(chs[1].id, c1.id);
}

#[test]
fn live_listing_orders_by_creation_stamp() {
    let mut catalog = CatalogStore::new();
    // inserted first but stamped later: the stamp wins
    let late = catalog.create_book("Late", "x", "Late", T2);
    let early = catalog.create_book("Early", "x", "Early", T1);
    let books = catalog.list_books();
    assert_eq!(books.len(), 2);
    assert_eq!(books[0].id, late.id);
    assert_eq!(books[1].id, early.id);
}
