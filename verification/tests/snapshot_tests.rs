use xinzuo_store::project::{ProjectStore, StoreError};

const T0: &str = "2026-01-01T00:00:00+00:00";

fn stamp(i: usize) -> String {
    format!("2026-01-01T00:{:02}:{:02}+00:00", i / 60, i % 60)
}

#[test]
fn twenty_five_updates_keep_twenty_newest_and_restore_works() {
    let mut store = ProjectStore::new();
    let vol = store.create_volume("Part", T0);
    let ch = store.create_chapter(&vol.id, "Doc", T0);

    for i in 1..=25usize {
        store.update_chapter(&ch.id, &format!("draft {}", i), &stamp(i), 20);
    }

    let snaps = store.list_snapshots(&ch.id);
    assert_eq!(snaps.len(), 20);
    // newest first: draft 25 down to draft 6
    for (k, s) in snaps.iter().enumerate() {
        assert_eq!(s.snapshot_content, format!("draft {}", 25 - k));
    }

    // restore the 5th-newest snapshot
    let target = snaps[4].clone();
    assert_eq!(target.snapshot_content, "draft 21");
    store.restore_snapshot(&target.id, &stamp(60)).unwrap();
    let after = store.get_chapter(&ch.id).unwrap();
    assert_eq!(after.content, target.snapshot_content);
    assert_eq!(after.word_count, "draft 21".chars().count() as i64);
    // restoring does not add a snapshot of the pre-restore state
    assert_eq!(store.list_snapshots(&ch.id).len(), 20);
}

#[test]
fn retention_bound_applies_per_document() {
    let mut store = ProjectStore::new();
    let vol = store.create_volume("Part", T0);
    let a = store.create_chapter(&vol.id, "A", T0);
    let b = store.create_chapter(&vol.id, "B", T0);

    for i in 1..=8usize {
        store.update_chapter(&a.id, &format!("a{}", i), &stamp(i), 3);
    }
    store.update_chapter(&b.id, "b1", &stamp(9), 3);

    let a_snaps = store.list_snapshots(&a.id);
    assert_eq!(a_snaps.len(), 3);
    assert_eq!(a_snaps[0].snapshot_content, "a8");
    assert_eq!(a_snaps[1].snapshot_content, "a7");
    assert_eq!(a_snaps[2].snapshot_content, "a6");
    assert_eq!(store.list_snapshots(&b.id).len(), 1);
}

#[test]
fn fewer_updates_than_bound_keep_them_all() {
    let mut store = ProjectStore::new();
    let vol = store.create_volume("Part", T0);
    let ch = store.create_chapter(&vol.id, "Doc", T0);
    for i in 1..=4usize {
        store.update_chapter(&ch.id, &format!("v{}", i), &stamp(i), 20);
    }
    assert_eq!(store.list_snapshots(&ch.id).len(), 4);
}

#[test]
fn zero_bound_retains_nothing() {
    let mut store = ProjectStore::new();
    let vol = store.create_volume("Part", T0);
    let ch = store.create_chapter(&vol.id, "Doc", T0);
    store.update_chapter(&ch.id, "v1", &stamp(1), 0);
    assert_eq!(store.list_snapshots(&ch.id).len(), 0);
    // the content update itself still happened
    assert_eq!(store.get_chapter(&ch.id).unwrap().content, "v1");
}

#[test]
fn update_marks_completed_chapters_dirty() {
    let mut store = ProjectStore::new();
    let vol = store.create_volume("Part", T0);
    let ch = store.create_chapter(&vol.id, "Doc", T0);
    assert_eq!(ch.status, "draft");

    store.update_chapter(&ch.id, "v1", &stamp(1), 20);
    assert_eq!(store.get_chapter(&ch.id).unwrap().status, "draft");

    store.set_chapter_status(&ch.id, "complete", &stamp(2));
    store.update_chapter(&ch.id, "v2", &stamp(3), 20);
    assert_eq!(store.get_chapter(&ch.id).unwrap().status, "dirty");
}

#[test]
fn update_recomputes_word_count() {
    let mut store = ProjectStore::new();
    let vol = store.create_volume("Part", T0);
    let ch = store.create_chapter(&vol.id, "Doc", T0);
    store.update_chapter(&ch.id, "five characters!", &stamp(1), 20);
    let c = store.get_chapter(&ch.id).unwrap();
    assert_eq!(c.word_count, "five characters!".chars().count() as i64);
    assert_eq!(c.updated_at, stamp(1));
}

#[test]
fn restoring_a_missing_snapshot_reports_not_found() {
    let mut store = ProjectStore::new();
    assert!(matches!(store.restore_snapshot("nope", T0), Err(StoreError::NotFound)));
}

#[test]
fn snapshot_listing_orders_by_creation_stamp() {
    let mut store = ProjectStore::new();
    let vol = store.create_volume("Part", T0);
    let ch = store.create_chapter(&vol.id, "Doc", T0);
    // a clock running backwards: the recorded-later snapshot carries the
    // older stamp, and the listing still reads newest stamp first
    store.update_chapter(&ch.id, "second", &stamp(20), 20);
    store.update_chapter(&ch.id, "first", &stamp(10), 20);
    let snaps = store.list_snapshots(&ch.id);
    assert_eq!(snaps.len(), 2);
    assert_eq!(snaps[0].snapshot_content, "second");
    assert_eq!(snaps[1].snapshot_content, "first");
}
