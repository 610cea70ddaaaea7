//! The soft-delete / trash subsystem.
//!
//! Deleting a chapter, a volume or an entity captures the full record as a
//! self-contained trash payload and removes the live row, in one step.
//! Restoring dispatches on the payload's kind — a closed set, checked
//! exhaustively — writes the record back (replacing any row with the same
//! id) and removes the envelope. An expiry sweep deletes every record
//! whose deletion timestamp is older than a cutoff.

use vstd::prelude::*;
use crate::records::{Chapter, Entity, TrashItem, TrashPayload, Volume};
use crate::project::{chapter_found, entity_found, is_first_chapter_idx, is_first_entity_idx,
    is_first_trash_idx, is_first_volume_idx, trash_found, volume_found, ProjectStore, StoreError};
use crate::strutil::{lex_lt, str_eq, str_lt};
use crate::seqext::{lemma_filter_all, lemma_filter_remove_one};
use crate::ident::fresh_id;
use crate::clock::rfc3339_days_before;

verus! {

/// The trash after an expiry sweep at `cutoff`: exactly the records at
/// least as recent as the cutoff remain, in order.
pub open spec fn expired_swept(
    before: Seq<TrashItem>,
    after: Seq<TrashItem>,
    cutoff: Seq<char>,
) -> bool {
    after == before.filter(|t: TrashItem| !lex_lt(t.deleted_at@, cutoff))
}

impl ProjectStore {
    /// Captures the first chapter with this id into the trash — full copy,
    /// stamped with the deletion instant and the human actor — and deletes
    /// every live chapter row carrying the id, atomically.
    pub fn delete_chapter(&mut self, id: &str, now: &str) -> (r: Result<(), StoreError>)
        ensures
            r is Ok <==> chapter_found(old(self).chapters@, id@),
            r is Err ==> r == Err::<(), StoreError>(StoreError::NotFound)
                && *final(self) == *old(self),
            r is Ok ==> {
                &&& final(self).chapters@ == old(self).chapters@.filter(
                    |c: Chapter| c.id@ != id@,
                )
                &&& final(self).trash@.len() == old(self).trash@.len() + 1
                &&& final(self).trash@ == old(self).trash@.push(final(self).trash@.last())
                &&& forall|i: int| is_first_chapter_idx(old(self).chapters@, id@, i)
                    ==> final(self).trash@.last().payload == TrashPayload::Chapter(
                    old(self).chapters@[i],
                )
                &&& final(self).trash@.last().original_id@ == id@
                &&& final(self).trash@.last().deleted_at@ == now@
                &&& final(self).trash@.last().deleted_by@ == "user"@
                &&& final(self).trash@.last().id@.len() == 36
                &&& final(self).volumes@ == old(self).volumes@
                &&& final(self).entities@ == old(self).entities@
                &&& final(self).timeline@ == old(self).timeline@
                &&& final(self).foreshadows@ == old(self).foreshadows@
                &&& final(self).arcs@ == old(self).arcs@
                &&& final(self).snapshots@ == old(self).snapshots@
            },
    {
        let captured = match self.get_chapter(id) {
            Ok(c) => c,
            Err(e) => {
                return Err(e);
            },
        };
        self.remove_chapter_rows(id);
        let t = TrashItem {
            id: fresh_id(),
            original_id: id.to_owned(),
            payload: TrashPayload::Chapter(captured),
            deleted_at: now.to_owned(),
            deleted_by: "user".to_owned(),
        };
        self.trash.push(t);
        Ok(())
    }

    /// Deletes every chapter row whose id matches, touching nothing else.
    fn remove_chapter_rows(&mut self, id: &str)
        ensures
            final(self).chapters@ == old(self).chapters@.filter(|c: Chapter| c.id@ != id@),
            final(self).volumes@ == old(self).volumes@,
            final(self).entities@ == old(self).entities@,
            final(self).timeline@ == old(self).timeline@,
            final(self).foreshadows@ == old(self).foreshadows@,
            final(self).arcs@ == old(self).arcs@,
            final(self).snapshots@ == old(self).snapshots@,
            final(self).trash@ == old(self).trash@,
    {
        let ghost pred = |c: Chapter| c.id@ != id@;
        let mut kept: Vec<Chapter> = Vec::new();
        let mut i: usize = 0;
        proof {
            reveal(Seq::filter);
            assert(self.chapters@.take(0) =~= Seq::<Chapter>::empty());
        }
        while i < self.chapters.len()
            invariant
                i <= self.chapters@.len(),
                kept@ == self.chapters@.take(i as int).filter(pred),
                pred == (|c: Chapter| c.id@ != id@),
            decreases self.chapters@.len() - i,
        {
            proof {
                reveal(Seq::filter);
                assert(self.chapters@.take(i + 1).drop_last() =~= self.chapters@.take(i as int));
                assert(self.chapters@.take(i + 1).last() == self.chapters@[i as int]);
            }
            if !str_eq(self.chapters[i].id.as_str(), id) {
                kept.push(self.chapters[i].clone());
            }
            i = i + 1;
        }
        proof {
            assert(self.chapters@.take(self.chapters@.len() as int) =~= self.chapters@);
        }
        self.chapters = kept;
    }

    /// Captures the first entity with this id into the trash, deletes every
    /// live entity row carrying the id, and clears the entity's timeline
    /// events.
    pub fn delete_entity(&mut self, id: &str, now: &str) -> (r: Result<(), StoreError>)
        ensures
            r is Ok <==> entity_found(old(self).entities@, id@),
            r is Err ==> r == Err::<(), StoreError>(StoreError::NotFound)
                && *final(self) == *old(self),
            r is Ok ==> {
                &&& final(self).entities@ == old(self).entities@.filter(
                    |e: Entity| e.id@ != id@,
                )
                &&& final(self).timeline@ == old(self).timeline@.filter(
                    |t: crate::records::TimelineNode| t.entity_id@ != id@,
                )
                &&& final(self).trash@.len() == old(self).trash@.len() + 1
                &&& final(self).trash@ == old(self).trash@.push(final(self).trash@.last())
                &&& forall|i: int| is_first_entity_idx(old(self).entities@, id@, i)
                    ==> final(self).trash@.last().payload == TrashPayload::Entity(
                    old(self).entities@[i],
                )
                &&& final(self).trash@.last().original_id@ == id@
                &&& final(self).trash@.last().deleted_at@ == now@
                &&& final(self).trash@.last().deleted_by@ == "user"@
                &&& final(self).trash@.last().id@.len() == 36
                &&& final(self).volumes@ == old(self).volumes@
                &&& final(self).chapters@ == old(self).chapters@
                &&& final(self).foreshadows@ == old(self).foreshadows@
                &&& final(self).arcs@ == old(self).arcs@
                &&& final(self).snapshots@ == old(self).snapshots@
            },
    {
        let captured = match self.get_entity(id) {
            Ok(e) => e,
            Err(e) => {
                return Err(e);
            },
        };
        self.remove_entity_rows(id);
        self.remove_timeline_of_entity(id);
        let t = TrashItem {
            id: fresh_id(),
            original_id: id.to_owned(),
            payload: TrashPayload::Entity(captured),
            deleted_at: now.to_owned(),
            deleted_by: "user".to_owned(),
        };
        self.trash.push(t);
        Ok(())
    }

    /// Deletes every entity row whose id matches, touching nothing else.
    fn remove_entity_rows(&mut self, id: &str)
        ensures
            final(self).entities@ == old(self).entities@.filter(|e: Entity| e.id@ != id@),
            final(self).volumes@ == old(self).volumes@,
            final(self).chapters@ == old(self).chapters@,
            final(self).timeline@ == old(self).timeline@,
            final(self).foreshadows@ == old(self).foreshadows@,
            final(self).arcs@ == old(self).arcs@,
            final(self).snapshots@ == old(self).snapshots@,
            final(self).trash@ == old(self).trash@,
    {
        let ghost pred = |e: Entity| e.id@ != id@;
        let mut kept: Vec<Entity> = Vec::new();
        let mut i: usize = 0;
        proof {
            reveal(Seq::filter);
            assert(self.entities@.take(0) =~= Seq::<Entity>::empty());
        }
        while i < self.entities.len()
            invariant
                i <= self.entities@.len(),
                kept@ == self.entities@.take(i as int).filter(pred),
                pred == (|e: Entity| e.id@ != id@),
            decreases self.entities@.len() - i,
        {
            proof {
                reveal(Seq::filter);
                assert(self.entities@.take(i + 1).drop_last() =~= self.entities@.take(i as int));
                assert(self.entities@.take(i + 1).last() == self.entities@[i as int]);
            }
            if !str_eq(self.entities[i].id.as_str(), id) {
                kept.push(self.entities[i].clone());
            }
            i = i + 1;
        }
        proof {
            assert(self.entities@.take(self.entities@.len() as int) =~= self.entities@);
        }
        self.entities = kept;
    }

    /// Deletes every timeline event of this entity, touching nothing else.
    fn remove_timeline_of_entity(&mut self, id: &str)
        ensures
            final(self).timeline@ == old(self).timeline@.filter(
                |t: crate::records::TimelineNode| t.entity_id@ != id@,
            ),
            final(self).volumes@ == old(self).volumes@,
            final(self).chapters@ == old(self).chapters@,
            final(self).entities@ == old(self).entities@,
            final(self).foreshadows@ == old(self).foreshadows@,
            final(self).arcs@ == old(self).arcs@,
            final(self).snapshots@ == old(self).snapshots@,
            final(self).trash@ == old(self).trash@,
    {
        let ghost pred = |t: crate::records::TimelineNode| t.entity_id@ != id@;
        let mut kept: Vec<crate::records::TimelineNode> = Vec::new();
        let mut i: usize = 0;
        proof {
            reveal(Seq::filter);
            assert(self.timeline@.take(0) =~= Seq::<crate::records::TimelineNode>::empty());
        }
        while i < self.timeline.len()
            invariant
                i <= self.timeline@.len(),
                kept@ == self.timeline@.take(i as int).filter(pred),
                pred == (|t: crate::records::TimelineNode| t.entity_id@ != id@),
            decreases self.timeline@.len() - i,
        {
            proof {
                reveal(Seq::filter);
                assert(self.timeline@.take(i + 1).drop_last() =~= self.timeline@.take(i as int));
                assert(self.timeline@.take(i + 1).last() == self.timeline@[i as int]);
            }
            if !str_eq(self.timeline[i].entity_id.as_str(), id) {
                kept.push(self.timeline[i].clone());
            }
            i = i + 1;
        }
        proof {
            assert(self.timeline@.take(self.timeline@.len() as int) =~= self.timeline@);
        }
        self.timeline = kept;
    }

    /// Deletes every volume row whose id matches, touching nothing else.
    fn remove_volume_rows(&mut self, id: &str)
        ensures
            final(self).volumes@ == old(self).volumes@.filter(|v: Volume| v.id@ != id@),
            final(self).chapters@ == old(self).chapters@,
            final(self).entities@ == old(self).entities@,
            final(self).timeline@ == old(self).timeline@,
            final(self).foreshadows@ == old(self).foreshadows@,
            final(self).arcs@ == old(self).arcs@,
            final(self).snapshots@ == old(self).snapshots@,
            final(self).trash@ == old(self).trash@,
    {
        let ghost pred = |v: Volume| v.id@ != id@;
        let mut kept: Vec<Volume> = Vec::new();
        let mut i: usize = 0;
        proof {
            reveal(Seq::filter);
            assert(self.volumes@.take(0) =~= Seq::<Volume>::empty());
        }
        while i < self.volumes.len()
            invariant
                i <= self.volumes@.len(),
                kept@ == self.volumes@.take(i as int).filter(pred),
                pred == (|v: Volume| v.id@ != id@),
            decreases self.volumes@.len() - i,
        {
            proof {
                reveal(Seq::filter);
                assert(self.volumes@.take(i + 1).drop_last() =~= self.volumes@.take(i as int));
                assert(self.volumes@.take(i + 1).last() == self.volumes@[i as int]);
            }
            if !str_eq(self.volumes[i].id.as_str(), id) {
                kept.push(self.volumes[i].clone());
            }
            i = i + 1;
        }
        proof {
            assert(self.volumes@.take(self.volumes@.len() as int) =~= self.volumes@);
        }
        self.volumes = kept;
    }

    /// Deletes a container and everything in it, capturing each record:
    /// every chapter of the volume moves to the trash (in table order),
    /// then the volume itself, and the live rows disappear — one atomic
    /// step, refused untouched when the volume does not exist.
    pub fn delete_volume(&mut self, id: &str, now: &str) -> (r: Result<(), StoreError>)
        ensures
            r is Ok <==> volume_found(old(self).volumes@, id@),
            r is Err ==> r == Err::<(), StoreError>(StoreError::NotFound)
                && *final(self) == *old(self),
            r is Ok ==> ({
                let moved = old(self).chapters@.filter(|c: Chapter| c.volume_id@ == id@);
                let base = old(self).trash@.len() as int;
                &&& final(self).chapters@ == old(self).chapters@.filter(
                    |c: Chapter| c.volume_id@ != id@,
                )
                &&& final(self).volumes@ == old(self).volumes@.filter(|v: Volume| v.id@ != id@)
                &&& final(self).trash@.len() == old(self).trash@.len() + moved.len() + 1
                &&& final(self).trash@.take(base) == old(self).trash@
                &&& forall|k: int| 0 <= k < moved.len() ==> {
                    &&& (#[trigger] final(self).trash@[base + k]).payload
                        == TrashPayload::Chapter(moved[k])
                    &&& final(self).trash@[base + k].original_id@ == moved[k].id@
                    &&& final(self).trash@[base + k].deleted_at@ == now@
                    &&& final(self).trash@[base + k].deleted_by@ == "user"@
                }
                &&& forall|i: int| is_first_volume_idx(old(self).volumes@, id@, i)
                    ==> final(self).trash@.last().payload == TrashPayload::Volume(
                    old(self).volumes@[i],
                )
                &&& final(self).trash@.last().original_id@ == id@
                &&& final(self).trash@.last().deleted_at@ == now@
                &&& final(self).trash@.last().deleted_by@ == "user"@
                &&& final(self).entities@ == old(self).entities@
                &&& final(self).timeline@ == old(self).timeline@
                &&& final(self).foreshadows@ == old(self).foreshadows@
                &&& final(self).arcs@ == old(self).arcs@
                &&& final(self).snapshots@ == old(self).snapshots@
            }),
    {
        let vol = match self.get_volume_record(id) {
            Ok(v) => v,
            Err(e) => {
                return Err(e);
            },
        };
        let ghost keep_pred = |c: Chapter| c.volume_id@ != id@;
        let ghost move_pred = |c: Chapter| c.volume_id@ == id@;
        let ghost trash0 = self.trash@;
        let mut kept: Vec<Chapter> = Vec::new();
        let mut i: usize = 0;
        proof {
            reveal(Seq::filter);
            assert(self.chapters@.take(0) =~= Seq::<Chapter>::empty());
        }
        while i < self.chapters.len()
            invariant
                i <= self.chapters@.len(),
                keep_pred == (|c: Chapter| c.volume_id@ != id@),
                move_pred == (|c: Chapter| c.volume_id@ == id@),
                kept@ == self.chapters@.take(i as int).filter(keep_pred),
                self.trash@.len() == trash0.len() + self.chapters@.take(i as int).filter(
                    move_pred,
                ).len(),
                self.trash@.take(trash0.len() as int) == trash0,
                forall|k: int|
                    0 <= k < self.chapters@.take(i as int).filter(move_pred).len() ==> {
                        &&& (#[trigger] self.trash@[trash0.len() + k]).payload
                            == TrashPayload::Chapter(
                            self.chapters@.take(i as int).filter(move_pred)[k],
                        )
                        &&& self.trash@[trash0.len() + k].original_id@ == self.chapters@.take(
                            i as int,
                        ).filter(move_pred)[k].id@
                        &&& self.trash@[trash0.len() + k].deleted_at@ == now@
                        &&& self.trash@[trash0.len() + k].deleted_by@ == "user"@
                    },
                trash0 == old(self).trash@,
                self.chapters@ == old(self).chapters@,
                self.volumes@ == old(self).volumes@,
                self.entities@ == old(self).entities@,
                self.timeline@ == old(self).timeline@,
                self.foreshadows@ == old(self).foreshadows@,
                self.arcs@ == old(self).arcs@,
                self.snapshots@ == old(self).snapshots@,
            decreases self.chapters@.len() - i,
        {
            proof {
                reveal(Seq::filter);
                assert(self.chapters@.take(i + 1).drop_last() =~= self.chapters@.take(i as int));
                assert(self.chapters@.take(i + 1).last() == self.chapters@[i as int]);
            }
            if str_eq(self.chapters[i].volume_id.as_str(), id) {
                let t = TrashItem {
                    id: fresh_id(),
                    original_id: self.chapters[i].id.clone(),
                    payload: TrashPayload::Chapter(self.chapters[i].clone()),
                    deleted_at: now.to_owned(),
                    deleted_by: "user".to_owned(),
                };
                self.trash.push(t);
            } else {
                kept.push(self.chapters[i].clone());
            }
            i = i + 1;
        }
        proof {
            assert(self.chapters@.take(self.chapters@.len() as int) =~= self.chapters@);
        }
        self.chapters = kept;
        let t = TrashItem {
            id: fresh_id(),
            original_id: id.to_owned(),
            payload: TrashPayload::Volume(vol),
            deleted_at: now.to_owned(),
            deleted_by: "user".to_owned(),
        };
        self.trash.push(t);
        self.remove_volume_rows(id);
        Ok(())
    }

    /// The first volume with this id.
    fn get_volume_record(&self, id: &str) -> (r: Result<Volume, StoreError>)
        ensures
            r is Ok <==> volume_found(self.volumes@, id@),
            forall|i: int| is_first_volume_idx(self.volumes@, id@, i) ==> r == Ok::<
                Volume,
                StoreError,
            >(self.volumes@[i]),
            r is Err ==> r == Err::<Volume, StoreError>(StoreError::NotFound),
    {
        let mut i: usize = 0;
        while i < self.volumes.len()
            invariant
                i <= self.volumes@.len(),
                forall|j: int| 0 <= j < i ==> self.volumes@[j].id@ != id@,
            decreases self.volumes@.len() - i,
        {
            if str_eq(self.volumes[i].id.as_str(), id) {
                return Ok(self.volumes[i].clone());
            }
            i = i + 1;
        }
        Err(StoreError::NotFound)
    }

    // -----------------------------------------------------------------------
    // Restore
    // -----------------------------------------------------------------------
    /// Writes a captured chapter back into the live table, replacing any
    /// row that carries the same id.
    pub fn restore_chapter(&mut self, c: Chapter)
        ensures
            final(self).chapters@ == old(self).chapters@.filter(
                |x: Chapter| x.id@ != c.id@,
            ).push(c),
            final(self).volumes@ == old(self).volumes@,
            final(self).entities@ == old(self).entities@,
            final(self).timeline@ == old(self).timeline@,
            final(self).foreshadows@ == old(self).foreshadows@,
            final(self).arcs@ == old(self).arcs@,
            final(self).snapshots@ == old(self).snapshots@,
            final(self).trash@ == old(self).trash@,
    {
        self.remove_chapter_rows(c.id.clone().as_str());
        self.chapters.push(c);
    }

    /// Writes a captured volume back into the live table, replacing any
    /// row that carries the same id.
    pub fn restore_volume(&mut self, v: Volume)
        ensures
            final(self).volumes@ == old(self).volumes@.filter(|x: Volume| x.id@ != v.id@).push(
                v,
            ),
            final(self).chapters@ == old(self).chapters@,
            final(self).entities@ == old(self).entities@,
            final(self).timeline@ == old(self).timeline@,
            final(self).foreshadows@ == old(self).foreshadows@,
            final(self).arcs@ == old(self).arcs@,
            final(self).snapshots@ == old(self).snapshots@,
            final(self).trash@ == old(self).trash@,
    {
        self.remove_volume_rows(v.id.clone().as_str());
        self.volumes.push(v);
    }

    /// Writes a captured entity back into the live table, replacing any
    /// row that carries the same id. Timeline events cleared at deletion
    /// stay gone; dangling chapter references are left as they are.
    pub fn restore_entity(&mut self, e: Entity)
        ensures
            final(self).entities@ == old(self).entities@.filter(|x: Entity| x.id@ != e.id@).push(
                e,
            ),
            final(self).volumes@ == old(self).volumes@,
            final(self).chapters@ == old(self).chapters@,
            final(self).timeline@ == old(self).timeline@,
            final(self).foreshadows@ == old(self).foreshadows@,
            final(self).arcs@ == old(self).arcs@,
            final(self).snapshots@ == old(self).snapshots@,
            final(self).trash@ == old(self).trash@,
    {
        self.remove_entity_rows(e.id.clone().as_str());
        self.entities.push(e);
    }

    /// Deletes every trash row whose id matches, touching nothing else.
    fn remove_trash_rows(&mut self, id: &str)
        ensures
            final(self).trash@ == old(self).trash@.filter(|t: TrashItem| t.id@ != id@),
            final(self).volumes@ == old(self).volumes@,
            final(self).chapters@ == old(self).chapters@,
            final(self).entities@ == old(self).entities@,
            final(self).timeline@ == old(self).timeline@,
            final(self).foreshadows@ == old(self).foreshadows@,
            final(self).arcs@ == old(self).arcs@,
            final(self).snapshots@ == old(self).snapshots@,
    {
        let ghost pred = |t: TrashItem| t.id@ != id@;
        let mut kept: Vec<TrashItem> = Vec::new();
        let mut i: usize = 0;
        proof {
            reveal(Seq::filter);
            assert(self.trash@.take(0) =~= Seq::<TrashItem>::empty());
        }
        while i < self.trash.len()
            invariant
                i <= self.trash@.len(),
                kept@ == self.trash@.take(i as int).filter(pred),
                pred == (|t: TrashItem| t.id@ != id@),
            decreases self.trash@.len() - i,
        {
            proof {
                reveal(Seq::filter);
                assert(self.trash@.take(i + 1).drop_last() =~= self.trash@.take(i as int));
                assert(self.trash@.take(i + 1).last() == self.trash@[i as int]);
            }
            if !str_eq(self.trash[i].id.as_str(), id) {
                kept.push(self.trash[i].clone());
            }
            i = i + 1;
        }
        proof {
            assert(self.trash@.take(self.trash@.len() as int) =~= self.trash@);
        }
        self.trash = kept;
    }

    /// Restores the first trash record with this id: dispatches on its
    /// origin kind, writes the captured record back onto its live table,
    /// and deletes the envelope. The record is self-contained, so this
    /// succeeds even when rows it referred to are gone.
    pub fn restore_from_trash(&mut self, trash_id: &str) -> (r: Result<(), StoreError>)
        ensures
            r is Ok <==> trash_found(old(self).trash@, trash_id@),
            r is Err ==> r == Err::<(), StoreError>(StoreError::NotFound)
                && *final(self) == *old(self),
            r is Ok ==> {
                &&& final(self).trash@ == old(self).trash@.filter(
                    |t: TrashItem| t.id@ != trash_id@,
                )
                &&& forall|ti: int| is_first_trash_idx(old(self).trash@, trash_id@, ti)
                    ==> match #[trigger] old(self).trash@[ti].payload {
                        TrashPayload::Chapter(c) => {
                            &&& final(self).chapters@ == old(self).chapters@.filter(
                                |x: Chapter| x.id@ != c.id@,
                            ).push(c)
                            &&& final(self).volumes@ == old(self).volumes@
                            &&& final(self).entities@ == old(self).entities@
                        },
                        TrashPayload::Volume(v) => {
                            &&& final(self).volumes@ == old(self).volumes@.filter(
                                |x: Volume| x.id@ != v.id@,
                            ).push(v)
                            &&& final(self).chapters@ == old(self).chapters@
                            &&& final(self).entities@ == old(self).entities@
                        },
                        TrashPayload::Entity(e) => {
                            &&& final(self).entities@ == old(self).entities@.filter(
                                |x: Entity| x.id@ != e.id@,
                            ).push(e)
                            &&& final(self).chapters@ == old(self).chapters@
                            &&& final(self).volumes@ == old(self).volumes@
                        },
                    }
                &&& final(self).timeline@ == old(self).timeline@
                &&& final(self).foreshadows@ == old(self).foreshadows@
                &&& final(self).arcs@ == old(self).arcs@
                &&& final(self).snapshots@ == old(self).snapshots@
            },
    {
        let payload = match self.find_trash_payload(trash_id) {
            Ok(p) => p,
            Err(e) => {
                return Err(e);
            },
        };
        self.remove_trash_rows(trash_id);
        match payload {
            TrashPayload::Chapter(c) => self.restore_chapter(c),
            TrashPayload::Volume(v) => self.restore_volume(v),
            TrashPayload::Entity(e) => self.restore_entity(e),
        }
        Ok(())
    }

    /// The payload of the first trash record with this id.
    fn find_trash_payload(&self, id: &str) -> (r: Result<TrashPayload, StoreError>)
        ensures
            r is Ok <==> trash_found(self.trash@, id@),
            forall|i: int| is_first_trash_idx(self.trash@, id@, i) ==> r == Ok::<
                TrashPayload,
                StoreError,
            >(self.trash@[i].payload),
            r is Err ==> r == Err::<TrashPayload, StoreError>(StoreError::NotFound),
    {
        let mut i: usize = 0;
        while i < self.trash.len()
            invariant
                i <= self.trash@.len(),
                forall|j: int| 0 <= j < i ==> self.trash@[j].id@ != id@,
            decreases self.trash@.len() - i,
        {
            if str_eq(self.trash[i].id.as_str(), id) {
                return Ok(self.trash[i].payload.clone());
            }
            i = i + 1;
        }
        Err(StoreError::NotFound)
    }

    /// Every trash record, newest deletion first (stamp order; equal
    /// stamps keep table order).
    pub fn list_trash(&self) -> (r: Vec<TrashItem>)
        ensures
            r@ == crate::seqext::spec_sort_desc(self.trash@, |t: TrashItem| t.deleted_at@),
            r@.len() == self.trash@.len(),
            forall|a: int, b: int| 0 <= a < b < r@.len() ==> crate::strutil::lex_le(
                (#[trigger] r@[b]).deleted_at@,
                (#[trigger] r@[a]).deleted_at@,
            ),
    {
        let ghost key = |t: TrashItem| t.deleted_at@;
        let mut out: Vec<TrashItem> = Vec::new();
        let mut i: usize = 0;
        proof {
            assert(self.trash@.take(0) =~= Seq::<TrashItem>::empty());
            assert(crate::seqext::spec_sort_desc(self.trash@.take(0), key) =~= Seq::<
                TrashItem,
            >::empty());
        }
        while i < self.trash.len()
            invariant
                i <= self.trash@.len(),
                key == (|t: TrashItem| t.deleted_at@),
                out@ == crate::seqext::spec_sort_desc(self.trash@.take(i as int), key),
            decreases self.trash@.len() - i,
        {
            proof {
                assert(self.trash@.take(i + 1).drop_last() =~= self.trash@.take(i as int));
                assert(self.trash@.take(i + 1).last() == self.trash@[i as int]);
            }
            out = insert_trash_desc(out, self.trash[i].clone());
            i = i + 1;
        }
        proof {
            assert(self.trash@.take(self.trash@.len() as int) =~= self.trash@);
            crate::seqext::lemma_sort_desc(self.trash@, key);
        }
        out
    }

    /// The expiry sweep: deletes every trash record whose deletion
    /// timestamp is lexicographically — for RFC 3339 stamps,
    /// chronologically — older than `cutoff`, and reports how many went.
    pub fn expire_trash(&mut self, cutoff: &str) -> (r: usize)
        ensures
            final(self).trash@ == old(self).trash@.filter(
                |t: TrashItem| !lex_lt(t.deleted_at@, cutoff@),
            ),
            r == old(self).trash@.len() - final(self).trash@.len(),
            final(self).volumes@ == old(self).volumes@,
            final(self).chapters@ == old(self).chapters@,
            final(self).entities@ == old(self).entities@,
            final(self).timeline@ == old(self).timeline@,
            final(self).foreshadows@ == old(self).foreshadows@,
            final(self).arcs@ == old(self).arcs@,
            final(self).snapshots@ == old(self).snapshots@,
    {
        let ghost pred = |t: TrashItem| !lex_lt(t.deleted_at@, cutoff@);
        let mut kept: Vec<TrashItem> = Vec::new();
        let mut i: usize = 0;
        proof {
            reveal(Seq::filter);
            assert(self.trash@.take(0) =~= Seq::<TrashItem>::empty());
        }
        while i < self.trash.len()
            invariant
                i <= self.trash@.len(),
                kept@ == self.trash@.take(i as int).filter(pred),
                kept@.len() <= i,
                pred == (|t: TrashItem| !lex_lt(t.deleted_at@, cutoff@)),
            decreases self.trash@.len() - i,
        {
            proof {
                reveal(Seq::filter);
                assert(self.trash@.take(i + 1).drop_last() =~= self.trash@.take(i as int));
                assert(self.trash@.take(i + 1).last() == self.trash@[i as int]);
            }
            if !str_lt(self.trash[i].deleted_at.as_str(), cutoff) {
                kept.push(self.trash[i].clone());
            }
            i = i + 1;
        }
        proof {
            assert(self.trash@.take(self.trash@.len() as int) =~= self.trash@);
        }
        let removed = self.trash.len() - kept.len();
        self.trash = kept;
        removed
    }

    /// The on-demand sweep as callers invoke it: expires everything older
    /// than `retention_days` days before now. The cutoff is a clock
    /// reading, so the contract holds for every value it may take.
    pub fn clean_expired_trash(&mut self, retention_days: u32) -> (r: usize)
        requires
            retention_days <= 100_000,
        ensures
            exists|cutoff: Seq<char>| #[trigger] expired_swept(
                old(self).trash@,
                final(self).trash@,
                cutoff,
            ),
            r == old(self).trash@.len() - final(self).trash@.len(),
            final(self).volumes@ == old(self).volumes@,
            final(self).chapters@ == old(self).chapters@,
            final(self).entities@ == old(self).entities@,
            final(self).timeline@ == old(self).timeline@,
            final(self).foreshadows@ == old(self).foreshadows@,
            final(self).arcs@ == old(self).arcs@,
            final(self).snapshots@ == old(self).snapshots@,
    {
        let cutoff = rfc3339_days_before(retention_days);
        let removed = self.expire_trash(cutoff.as_str());
        proof {
            assert(expired_swept(old(self).trash@, self.trash@, cutoff@));
        }
        removed
    }
}

/// Places a trash record into the stamp-ordered listing.
fn insert_trash_desc(sorted: Vec<TrashItem>, x: TrashItem) -> (r: Vec<TrashItem>)
    ensures
        r@ == crate::seqext::spec_insert_desc(sorted@, x, |t: TrashItem| t.deleted_at@),
    decreases sorted@.len(),
{
    let mut sorted = sorted;
    let ghost s0 = sorted@;
    if sorted.len() == 0 {
        let mut r: Vec<TrashItem> = Vec::new();
        r.push(x);
        proof {
            assert(r@ =~= seq![x]);
        }
        r
    } else if str_lt(sorted[0].deleted_at.as_str(), x.deleted_at.as_str()) {
        let mut r: Vec<TrashItem> = Vec::new();
        r.push(x);
        r.append(&mut sorted);
        proof {
            assert(r@ =~= seq![x] + s0);
        }
        r
    } else {
        let head = sorted.remove(0);
        proof {
            assert(sorted@ =~= s0.skip(1));
        }
        let mut rest = insert_trash_desc(sorted, x);
        rest.insert(0, head);
        proof {
            assert(rest@ =~= seq![head] + crate::seqext::spec_insert_desc(
                s0.skip(1),
                x,
                |t: TrashItem| t.deleted_at@,
            ));
        }
        rest
    }
}

/// Trash round trip for documents: capturing a chapter whose id is unique
/// among the live rows and then restoring that capture reproduces the
/// record identically in every column, and its trash envelope no longer
/// exists — capture removes exactly the row, restore puts exactly it back
/// and returns the trash table to what it was.
#[verifier::rlimit(50)]
pub proof fn lemma_trash_round_trip_chapter(
    chapters: Seq<Chapter>,
    trash: Seq<TrashItem>,
    i: int,
    t: TrashItem,
)
    requires
        0 <= i < chapters.len(),
        forall|j: int| 0 <= j < chapters.len() && j != i ==> (#[trigger] chapters[j]).id@
            != chapters[i].id@,
        t.payload == TrashPayload::Chapter(chapters[i]),
        forall|j: int| 0 <= j < trash.len() ==> (#[trigger] trash[j]).id@ != t.id@,
    ensures
        chapters.filter(|c: Chapter| c.id@ != chapters[i].id@) == chapters.remove(i),
        chapters.remove(i).filter(|c: Chapter| c.id@ != chapters[i].id@).push(chapters[i])
            == chapters.remove(i).push(chapters[i]),
        trash.push(t).filter(|x: TrashItem| x.id@ != t.id@) == trash,
{
    lemma_filter_remove_one(chapters, |c: Chapter| c.id@ != chapters[i].id@, i);
    lemma_filter_all(chapters.remove(i), |c: Chapter| c.id@ != chapters[i].id@);
    lemma_filter_remove_one(trash.push(t), |x: TrashItem| x.id@ != t.id@, trash.len() as int);
    assert(trash.push(t).remove(trash.len() as int) =~= trash);
}

/// Trash round trip for containers: as for documents, with a volume
/// payload.
#[verifier::rlimit(50)]
pub proof fn lemma_trash_round_trip_volume(
    volumes: Seq<Volume>,
    trash: Seq<TrashItem>,
    i: int,
    t: TrashItem,
)
    requires
        0 <= i < volumes.len(),
        forall|j: int| 0 <= j < volumes.len() && j != i ==> (#[trigger] volumes[j]).id@
            != volumes[i].id@,
        t.payload == TrashPayload::Volume(volumes[i]),
        forall|j: int| 0 <= j < trash.len() ==> (#[trigger] trash[j]).id@ != t.id@,
    ensures
        volumes.filter(|v: Volume| v.id@ != volumes[i].id@) == volumes.remove(i),
        volumes.remove(i).filter(|v: Volume| v.id@ != volumes[i].id@).push(volumes[i])
            == volumes.remove(i).push(volumes[i]),
        trash.push(t).filter(|x: TrashItem| x.id@ != t.id@) == trash,
{
    lemma_filter_remove_one(volumes, |v: Volume| v.id@ != volumes[i].id@, i);
    lemma_filter_all(volumes.remove(i), |v: Volume| v.id@ != volumes[i].id@);
    lemma_filter_remove_one(trash.push(t), |x: TrashItem| x.id@ != t.id@, trash.len() as int);
    assert(trash.push(t).remove(trash.len() as int) =~= trash);
}

/// Trash round trip for structured entities: as for documents, with an
/// entity payload. References the entity carried (chapters it first or
/// last appeared in) may dangle after the round trip; the record itself is
/// reproduced identically.
#[verifier::rlimit(50)]
pub proof fn lemma_trash_round_trip_entity(
    entities: Seq<Entity>,
    trash: Seq<TrashItem>,
    i: int,
    t: TrashItem,
)
    requires
        0 <= i < entities.len(),
        forall|j: int| 0 <= j < entities.len() && j != i ==> (#[trigger] entities[j]).id@
            != entities[i].id@,
        t.payload == TrashPayload::Entity(entities[i]),
        forall|j: int| 0 <= j < trash.len() ==> (#[trigger] trash[j]).id@ != t.id@,
    ensures
        entities.filter(|e: Entity| e.id@ != entities[i].id@) == entities.remove(i),
        entities.remove(i).filter(|e: Entity| e.id@ != entities[i].id@).push(entities[i])
            == entities.remove(i).push(entities[i]),
        trash.push(t).filter(|x: TrashItem| x.id@ != t.id@) == trash,
{
    lemma_filter_remove_one(entities, |e: Entity| e.id@ != entities[i].id@, i);
    lemma_filter_all(entities.remove(i), |e: Entity| e.id@ != entities[i].id@);
    lemma_filter_remove_one(trash.push(t), |x: TrashItem| x.id@ != t.id@, trash.len() as int);
    assert(trash.push(t).remove(trash.len() as int) =~= trash);
}

} // verus!
