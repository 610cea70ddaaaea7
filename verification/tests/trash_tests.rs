use xinzuo_store::project::{ProjectStore, StoreError};
use xinzuo_store::records::{TimelineNode, TrashPayload};

const T1: &str = "2026-01-01T10:00:00+00:00";
const T2: &str = "2026-01-01T11:00:00+00:00";

#[test]
fn chapter_round_trip_through_trash() {
    let mut store = ProjectStore::new();
    let vol = store.create_volume("Part One", T1);
    let ch = store.create_chapter(&vol.id, "Opening", T1);
    store.update_chapter(&ch.id, "Once upon a time", T1, 20);

    let before = store.get_chapter(&ch.id).unwrap();
    store.delete_chapter(&ch.id, T2).unwrap();
    assert!(matches!(store.get_chapter(&ch.id), Err(StoreError::NotFound)));
    assert_eq!(store.trash.len(), 1);
    let envelope = store.trash[0].id.clone();
    assert_eq!(store.trash[0].original_id, ch.id);
    assert_eq!(store.trash[0].deleted_at, T2);
    assert_eq!(store.trash[0].deleted_by, "user");
    assert_eq!(store.trash[0].original_table(), "chapters");

    store.restore_from_trash(&envelope).unwrap();
    let after = store.get_chapter(&ch.id).unwrap();
    assert_eq!(after.id, before.id);
    assert_eq!(after.volume_id, before.volume_id);
    assert_eq!(after.name, before.name);
    assert_eq!(after.content, before.content);
    assert_eq!(after.l2_summary, before.l2_summary);
    assert_eq!(after.l3_title, before.l3_title);
    assert_eq!(after.status, before.status);
    assert_eq!(after.word_count, before.word_count);
    assert_eq!(after.sort_order, before.sort_order);
    assert_eq!(after.created_at, before.created_at);
    assert_eq!(after.updated_at, before.updated_at);
    assert_eq!(store.trash.len(), 0);
}

#[test]
fn entity_round_trip_through_trash() {
    let mut store = ProjectStore::new();
    let e = store.create_entity("Hero", "character", "{\"age\":30}", true, T1);
    store.timeline.push(TimelineNode {
        id: "tl1".to_string(),
        entity_id: e.id.clone(),
        chapter_id: "chX".to_string(),
        event: "arrives".to_string(),
        status_change: None,
        created_at: T1.to_string(),
    });

    store.delete_entity(&e.id, T2).unwrap();
    assert!(matches!(store.get_entity(&e.id), Err(StoreError::NotFound)));
    assert_eq!(store.timeline.len(), 0);
    assert_eq!(store.trash[0].original_table(), "entities");

    let envelope = store.trash[0].id.clone();
    store.restore_from_trash(&envelope).unwrap();
    let after = store.get_entity(&e.id).unwrap();
    assert_eq!(after.name, e.name);
    assert_eq!(after.entity_type, e.entity_type);
    assert_eq!(after.attributes_json, e.attributes_json);
    assert_eq!(after.status, e.status);
    assert_eq!(after.inbox, e.inbox);
    // the restored record points at a chapter that may be gone; the
    // timeline stays cleared
    assert_eq!(store.timeline.len(), 0);
    assert_eq!(store.trash.len(), 0);
}

#[test]
fn volume_deletion_captures_every_chapter() {
    let mut store = ProjectStore::new();
    let keepvol = store.create_volume("Keep", T1);
    let keepch = store.create_chapter(&keepvol.id, "Kept", T1);
    let vol = store.create_volume("Doomed", T1);
    let c1 = store.create_chapter(&vol.id, "One", T1);
    let c2 = store.create_chapter(&vol.id, "Two", T1);

    store.delete_volume(&vol.id, T2).unwrap();

    assert_eq!(store.volumes.len(), 1);
    assert_eq!(store.chapters.len(), 1);
    assert_eq!(store.chapters[0].id, keepch.id);
    assert_eq!(store.trash.len(), 3);
    assert_eq!(store.trash[0].original_id, c1.id);
    assert_eq!(store.trash[1].original_id, c2.id);
    assert_eq!(store.trash[2].original_id, vol.id);
    assert_eq!(store.trash[2].original_table(), "volumes");

    // the volume restores from its own envelope
    let envelope = store.trash[2].id.clone();
    store.restore_from_trash(&envelope).unwrap();
    assert_eq!(store.volumes.len(), 2);
    assert_eq!(store.volumes[1].name, "Doomed");
    assert_eq!(store.trash.len(), 2);

    // and each chapter from its own
    let envelope = store.trash[0].id.clone();
    store.restore_from_trash(&envelope).unwrap();
    assert_eq!(store.chapters.len(), 2);
    assert_eq!(store.chapters[1].name, "One");
}

#[test]
fn deleting_missing_records_reports_not_found() {
    let mut store = ProjectStore::new();
    assert!(matches!(store.delete_chapter("nope", T1), Err(StoreError::NotFound)));
    assert!(matches!(store.delete_volume("nope", T1), Err(StoreError::NotFound)));
    assert!(matches!(store.delete_entity("nope", T1), Err(StoreError::NotFound)));
    assert!(matches!(store.restore_from_trash("nope"), Err(StoreError::NotFound)));
    assert_eq!(store.trash.len(), 0);
}

#[test]
fn trash_payload_tags_are_exhaustive() {
    let mut store = ProjectStore::new();
    let v = store.create_volume("V", T1);
    let c = store.create_chapter(&v.id, "C", T1);
    let e = store.create_entity("E", "item", "{}", false, T1);
    store.delete_chapter(&c.id, T2).unwrap();
    store.delete_entity(&e.id, T2).unwrap();
    store.delete_volume(&v.id, T2).unwrap();
    let tables: Vec<String> = store.trash.iter().map(|t| t.original_table()).collect();
    assert_eq!(tables, vec!["chapters", "entities", "volumes"]);
    for t in &store.trash {
        match &t.payload {
            TrashPayload::Chapter(p) => assert_eq!(p.id, c.id),
            TrashPayload::Volume(p) => assert_eq!(p.id, v.id),
            TrashPayload::Entity(p) => assert_eq!(p.id, e.id),
        }
    }
}

#[test]
fn expiry_sweep_removes_only_older_records() {
    let mut store = ProjectStore::new();
    let v = store.create_volume("V", T1);
    let c1 = store.create_chapter(&v.id, "Old", T1);
    let c2 = store.create_chapter(&v.id, "New", T1);
    store.delete_chapter(&c1.id, "2020-01-01T00:00:00+00:00").unwrap();
    store.delete_chapter(&c2.id, "2030-01-01T00:00:00+00:00").unwrap();

    let removed = store.expire_trash("2025-06-15T00:00:00+00:00");
    assert_eq!(removed, 1);
    assert_eq!(store.trash.len(), 1);
    assert_eq!(store.trash[0].original_id, c2.id);
}

#[test]
fn expiry_sweep_counts_zero_when_nothing_is_old() {
    let mut store = ProjectStore::new();
    let v = store.create_volume("V", T1);
    let c = store.create_chapter(&v.id, "C", T1);
    store.delete_chapter(&c.id, "2030-01-01T00:00:00+00:00").unwrap();
    assert_eq!(store.expire_trash("2025-01-01T00:00:00+00:00"), 0);
    assert_eq!(store.trash.len(), 1);
}

#[test]
fn clean_expired_trash_uses_the_clock() {
    let mut store = ProjectStore::new();
    let v = store.create_volume("V", T1);
    let c1 = store.create_chapter(&v.id, "Ancient", T1);
    let c2 = store.create_chapter(&v.id, "Future", T1);
    store.delete_chapter(&c1.id, "1970-01-02T00:00:00+00:00").unwrap();
    store.delete_chapter(&c2.id, "9999-01-01T00:00:00+00:00").unwrap();

    let removed = store.clean_expired_trash(30);
    assert_eq!(removed, 1);
    assert_eq!(store.trash.len(), 1);
    assert_eq!(store.trash[0].original_id, c2.id);
}

#[test]
fn list_trash_is_newest_first() {
    let mut store = ProjectStore::new();
    let v = store.create_volume("V", T1);
    let c1 = store.create_chapter(&v.id, "A", T1);
    let c2 = store.create_chapter(&v.id, "B", T1);
    store.delete_chapter(&c1.id, T1).unwrap();
    store.delete_chapter(&c2.id, T2).unwrap();
    let listed = store.list_trash();
    assert_eq!(listed.len(), 2);
    assert_eq!(listed[0].original_id, c2.id);
    assert_eq!(listed[1].original_id, c1.id);
}

#[test]
fn fresh_identifiers_are_hyphenated_uuids() {
    let mut store = ProjectStore::new();
    let v1 = store.create_volume("A", T1);
    let v2 = store.create_volume("B", T1);
    assert_eq!(v1.id.len(), 36);
    assert_eq!(v2.id.len(), 36);
    assert_ne!(v1.id, v2.id);
    assert_eq!(v1.id.chars().filter(|c| *c == '-').count(), 4);
}

#[test]
fn trash_listing_orders_by_deletion_stamp() {
    let mut store = ProjectStore::new();
    let v = store.create_volume("V", T1);
    let c1 = store.create_chapter(&v.id, "A", T1);
    let c2 = store.create_chapter(&v.id, "B", T1);
    // deleted first but stamped later: the stamp wins
    store.delete_chapter(&c1.id, "2026-01-02T00:00:00+00:00").unwrap();
    store.delete_chapter(&c2.id, "2026-01-01T12:00:00+00:00").unwrap();
    let listed = store.list_trash();
    assert_eq!(listed[0].original_id, c1.id);
    assert_eq!(listed[1].original_id, c2.id);
}
