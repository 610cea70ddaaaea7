//! The records the two databases hold.
//!
//! The catalog database describes every project ("book"); each project
//! database holds that project's containers ("volumes"), documents
//! ("chapters"), structured entities, timeline events, foreshadow markers,
//! plot arcs, rolling content snapshots and its trash table.
//!
//! A trash record carries a full copy of the original row as a closed
//! tagged payload, so restoring never depends on any other live data.

use vstd::prelude::*;

verus! {

/// Clones an optional string, preserving the value exactly.
pub fn clone_opt_string(o: &Option<String>) -> (r: Option<String>)
    ensures
        r == *o,
{
    match o {
        Some(s) => Some(s.clone()),
        None => None,
    }
}

/// A catalog entry: one project, with its display metadata and the name of
/// the directory that stores its database.
pub struct Book {
    pub id: String,
    pub name: String,
    pub author_name: String,
    pub cover_path: Option<String>,
    pub storage_path: String,
    pub created_at: String,
    pub updated_at: String,
}

impl Clone for Book {
    fn clone(&self) -> (r: Self)
        ensures
            r == *self,
    {
        Book {
            id: self.id.clone(),
            name: self.name.clone(),
            author_name: self.author_name.clone(),
            cover_path: clone_opt_string(&self.cover_path),
            storage_path: self.storage_path.clone(),
            created_at: self.created_at.clone(),
            updated_at: self.updated_at.clone(),
        }
    }
}

/// A soft-deleted catalog entry, as the trash listing reports it: the same
/// columns as `Book` plus the deletion timestamp.
pub struct DeletedBook {
    pub id: String,
    pub name: String,
    pub author_name: String,
    pub cover_path: Option<String>,
    pub storage_path: String,
    pub created_at: String,
    pub updated_at: String,
    pub deleted_at: String,
}

impl Clone for DeletedBook {
    fn clone(&self) -> (r: Self)
        ensures
            r == *self,
    {
        DeletedBook {
            id: self.id.clone(),
            name: self.name.clone(),
            author_name: self.author_name.clone(),
            cover_path: clone_opt_string(&self.cover_path),
            storage_path: self.storage_path.clone(),
            created_at: self.created_at.clone(),
            updated_at: self.updated_at.clone(),
            deleted_at: self.deleted_at.clone(),
        }
    }
}

/// One key-value pair of the shared settings table.
pub struct Setting {
    pub key: String,
    pub value: String,
}

impl Clone for Setting {
    fn clone(&self) -> (r: Self)
        ensures
            r == *self,
    {
        Setting { key: self.key.clone(), value: self.value.clone() }
    }
}

/// One date-keyed row of the daily statistics table.
pub struct DailyStat {
    pub id: String,
    pub date: String,
    pub word_count: i64,
    pub duration_seconds: i64,
    pub daily_goal: i64,
}

impl Clone for DailyStat {
    fn clone(&self) -> (r: Self)
        ensures
            r == *self,
    {
        DailyStat {
            id: self.id.clone(),
            date: self.date.clone(),
            word_count: self.word_count,
            duration_seconds: self.duration_seconds,
            daily_goal: self.daily_goal,
        }
    }
}

/// One row of the cross-project entity staging shelf.
pub struct EntityShelfItem {
    pub id: String,
    pub name: String,
    pub entity_type: String,
    pub attributes_json: String,
    pub source_book_name: String,
    pub created_at: String,
}

impl Clone for EntityShelfItem {
    fn clone(&self) -> (r: Self)
        ensures
            r == *self,
    {
        EntityShelfItem {
            id: self.id.clone(),
            name: self.name.clone(),
            entity_type: self.entity_type.clone(),
            attributes_json: self.attributes_json.clone(),
            source_book_name: self.source_book_name.clone(),
            created_at: self.created_at.clone(),
        }
    }
}

/// A container ("volume") inside a project.
pub struct Volume {
    pub id: String,
    pub name: String,
    pub sort_order: i64,
    pub created_at: String,
}

impl Clone for Volume {
    fn clone(&self) -> (r: Self)
        ensures
            r == *self,
    {
        Volume {
            id: self.id.clone(),
            name: self.name.clone(),
            sort_order: self.sort_order,
            created_at: self.created_at.clone(),
        }
    }
}

/// A document ("chapter"): content, derived summaries, status and ordering.
pub struct Chapter {
    pub id: String,
    pub volume_id: String,
    pub name: String,
    pub content: String,
    pub l2_summary: Option<String>,
    pub l3_title: Option<String>,
    pub status: String,
    pub word_count: i64,
    pub sort_order: i64,
    pub created_at: String,
    pub updated_at: String,
}

impl Clone for Chapter {
    fn clone(&self) -> (r: Self)
        ensures
            r == *self,
    {
        Chapter {
            id: self.id.clone(),
            volume_id: self.volume_id.clone(),
            name: self.name.clone(),
            content: self.content.clone(),
            l2_summary: clone_opt_string(&self.l2_summary),
            l3_title: clone_opt_string(&self.l3_title),
            status: self.status.clone(),
            word_count: self.word_count,
            sort_order: self.sort_order,
            created_at: self.created_at.clone(),
            updated_at: self.updated_at.clone(),
        }
    }
}

/// A structured entity (a character, item, location or faction).
pub struct Entity {
    pub id: String,
    pub name: String,
    pub entity_type: String,
    pub attributes_json: String,
    pub status: String,
    pub inbox: bool,
    pub first_chapter_id: Option<String>,
    pub last_chapter_id: Option<String>,
    pub created_at: String,
    pub updated_at: String,
}

impl Clone for Entity {
    fn clone(&self) -> (r: Self)
        ensures
            r == *self,
    {
        Entity {
            id: self.id.clone(),
            name: self.name.clone(),
            entity_type: self.entity_type.clone(),
            attributes_json: self.attributes_json.clone(),
            status: self.status.clone(),
            inbox: self.inbox,
            first_chapter_id: clone_opt_string(&self.first_chapter_id),
            last_chapter_id: clone_opt_string(&self.last_chapter_id),
            created_at: self.created_at.clone(),
            updated_at: self.updated_at.clone(),
        }
    }
}

/// A timeline event linking an entity to a chapter.
pub struct TimelineNode {
    pub id: String,
    pub entity_id: String,
    pub chapter_id: String,
    pub event: String,
    pub status_change: Option<String>,
    pub created_at: String,
}

impl Clone for TimelineNode {
    fn clone(&self) -> (r: Self)
        ensures
            r == *self,
    {
        TimelineNode {
            id: self.id.clone(),
            entity_id: self.entity_id.clone(),
            chapter_id: self.chapter_id.clone(),
            event: self.event.clone(),
            status_change: clone_opt_string(&self.status_change),
            created_at: self.created_at.clone(),
        }
    }
}

/// A foreshadow marker: planted in one chapter, optionally resolved later.
pub struct Foreshadow {
    pub id: String,
    pub description: String,
    pub plant_chapter_id: Option<String>,
    pub reap_chapter_id: Option<String>,
    pub status: String,
    pub created_at: String,
    pub updated_at: String,
}

impl Clone for Foreshadow {
    fn clone(&self) -> (r: Self)
        ensures
            r == *self,
    {
        Foreshadow {
            id: self.id.clone(),
            description: self.description.clone(),
            plant_chapter_id: clone_opt_string(&self.plant_chapter_id),
            reap_chapter_id: clone_opt_string(&self.reap_chapter_id),
            status: self.status.clone(),
            created_at: self.created_at.clone(),
            updated_at: self.updated_at.clone(),
        }
    }
}

/// A plot-arc summary spanning a range of chapters.
pub struct RagArc {
    pub id: String,
    pub start_chapter_id: String,
    pub end_chapter_id: String,
    pub summary: String,
    pub created_at: String,
    pub updated_at: String,
}

impl Clone for RagArc {
    fn clone(&self) -> (r: Self)
        ensures
            r == *self,
    {
        RagArc {
            id: self.id.clone(),
            start_chapter_id: self.start_chapter_id.clone(),
            end_chapter_id: self.end_chapter_id.clone(),
            summary: self.summary.clone(),
            created_at: self.created_at.clone(),
            updated_at: self.updated_at.clone(),
        }
    }
}

/// One rolling content snapshot of a chapter.
pub struct Snapshot {
    pub id: String,
    pub chapter_id: String,
    pub snapshot_content: String,
    pub created_at: String,
}

impl Clone for Snapshot {
    fn clone(&self) -> (r: Self)
        ensures
            r == *self,
    {
        Snapshot {
            id: self.id.clone(),
            chapter_id: self.chapter_id.clone(),
            snapshot_content: self.snapshot_content.clone(),
            created_at: self.created_at.clone(),
        }
    }
}

/// The full copy of a hard-deleted record, keyed by origin kind.
///
/// The set of origin kinds is closed, so restore dispatch is checked
/// exhaustively at compile time.
pub enum TrashPayload {
    Chapter(Chapter),
    Volume(Volume),
    Entity(Entity),
}

impl Clone for TrashPayload {
    fn clone(&self) -> (r: Self)
        ensures
            r == *self,
    {
        match self {
            TrashPayload::Chapter(c) => TrashPayload::Chapter(c.clone()),
            TrashPayload::Volume(v) => TrashPayload::Volume(v.clone()),
            TrashPayload::Entity(e) => TrashPayload::Entity(e.clone()),
        }
    }
}

/// One trash record: a self-contained captured copy of a deleted row.
pub struct TrashItem {
    pub id: String,
    pub original_id: String,
    pub payload: TrashPayload,
    pub deleted_at: String,
    pub deleted_by: String,
}

impl Clone for TrashItem {
    fn clone(&self) -> (r: Self)
        ensures
            r == *self,
    {
        TrashItem {
            id: self.id.clone(),
            original_id: self.original_id.clone(),
            payload: self.payload.clone(),
            deleted_at: self.deleted_at.clone(),
            deleted_by: self.deleted_by.clone(),
        }
    }
}

/// The live table a trash payload originated from.
pub open spec fn spec_original_table(p: TrashPayload) -> Seq<char> {
    match p {
        TrashPayload::Chapter(_) => "chapters"@,
        TrashPayload::Volume(_) => "volumes"@,
        TrashPayload::Entity(_) => "entities"@,
    }
}

impl TrashItem {
    /// The name of the live table this record was captured from.
    pub fn original_table(&self) -> (r: String)
        ensures
            r@ == spec_original_table(self.payload),
    {
        match &self.payload {
            TrashPayload::Chapter(_) => "chapters".to_owned(),
            TrashPayload::Volume(_) => "volumes".to_owned(),
            TrashPayload::Entity(_) => "entities".to_owned(),
        }
    }
}

} // verus!
