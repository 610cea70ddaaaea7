//! Rolling content snapshots.
//!
//! Every content update of a chapter records one snapshot; afterwards only
//! the `limit` most recently recorded snapshots of that chapter remain.
//! Restoring a snapshot copies its payload back onto the chapter's live
//! content and recomputes the derived word count; by design it does not
//! snapshot the pre-restore state. Listings order by the creation stamp,
//! newest first.

use vstd::prelude::*;
use vstd::string::StrSliceExecFns;
use crate::records::{Chapter, Snapshot};
use crate::project::{is_first_snapshot_idx, snapshot_found, ProjectStore, StoreError};
use crate::strutil::str_eq;
use crate::ident::fresh_id;

verus! {

/// The snapshots of one chapter, in table order (oldest first).
pub open spec fn snaps_for(s: Seq<Snapshot>, ch: Seq<char>) -> Seq<Snapshot>
    decreases s.len(),
{
    if s.len() == 0 {
        Seq::empty()
    } else if s[0].chapter_id@ == ch {
        seq![s[0]] + snaps_for(s.skip(1), ch)
    } else {
        snaps_for(s.skip(1), ch)
    }
}

/// The snapshots of every other chapter, in table order.
pub open spec fn other_snaps(s: Seq<Snapshot>, ch: Seq<char>) -> Seq<Snapshot>
    decreases s.len(),
{
    if s.len() == 0 {
        Seq::empty()
    } else if s[0].chapter_id@ != ch {
        seq![s[0]] + other_snaps(s.skip(1), ch)
    } else {
        other_snaps(s.skip(1), ch)
    }
}

/// Removes the first `n` snapshots of chapter `ch`, keeping everything
/// else in order.
pub open spec fn drop_oldest(s: Seq<Snapshot>, ch: Seq<char>, n: nat) -> Seq<Snapshot>
    decreases s.len(),
{
    if s.len() == 0 || n == 0 {
        s
    } else if s[0].chapter_id@ == ch {
        drop_oldest(s.skip(1), ch, (n - 1) as nat)
    } else {
        seq![s[0]] + drop_oldest(s.skip(1), ch, n)
    }
}

/// How many snapshots of `ch` the retention bound `limit` forces out after
/// one more is added to `s`.
pub open spec fn spec_excess(s: Seq<Snapshot>, ch: Seq<char>, limit: nat) -> nat {
    let count = snaps_for(s, ch).len() + 1;
    if count > limit {
        (count - limit) as nat
    } else {
        0
    }
}

/// Appending a snapshot extends its own chapter's projection and no
/// other's.
pub proof fn lemma_snaps_for_push(s: Seq<Snapshot>, ch: Seq<char>, x: Snapshot)
    ensures
        snaps_for(s.push(x), ch) == (if x.chapter_id@ == ch {
            snaps_for(s, ch).push(x)
        } else {
            snaps_for(s, ch)
        }),
        other_snaps(s.push(x), ch) == (if x.chapter_id@ != ch {
            other_snaps(s, ch).push(x)
        } else {
            other_snaps(s, ch)
        }),
    decreases s.len(),
{
    if s.len() == 0 {
        let e = Seq::<Snapshot>::empty();
        assert(s.push(x).skip(1) =~= e);
        assert(s.push(x)[0] == x);
        assert(snaps_for(e, ch) == e);
        assert(other_snaps(e, ch) == e);
        assert(snaps_for(s, ch) == e);
        assert(other_snaps(s, ch) == e);
        if x.chapter_id@ == ch {
            assert(snaps_for(s.push(x), ch) == seq![x] + snaps_for(s.push(x).skip(1), ch));
            assert(seq![x] + e =~= e.push(x));
            assert(other_snaps(s.push(x), ch) == other_snaps(s.push(x).skip(1), ch));
        } else {
            assert(other_snaps(s.push(x), ch) == seq![x] + other_snaps(s.push(x).skip(1), ch));
            assert(seq![x] + e =~= e.push(x));
            assert(snaps_for(s.push(x), ch) == snaps_for(s.push(x).skip(1), ch));
        }
    } else {
        assert(s.push(x).skip(1) =~= s.skip(1).push(x));
        lemma_snaps_for_push(s.skip(1), ch, x);
        assert(s.push(x)[0] == s[0]);
        if s[0].chapter_id@ == ch {
            if x.chapter_id@ == ch {
                assert(seq![s[0]] + snaps_for(s.skip(1), ch).push(x) =~= (seq![s[0]]
                    + snaps_for(s.skip(1), ch)).push(x));
            }
        } else {
            if x.chapter_id@ != ch {
                assert(seq![s[0]] + other_snaps(s.skip(1), ch).push(x) =~= (seq![s[0]]
                    + other_snaps(s.skip(1), ch)).push(x));
            }
        }
    }
}

/// What `drop_oldest` does, chapter by chapter: the pruned chapter loses
/// its first `n` snapshots, every other chapter keeps all of its own.
pub proof fn lemma_drop_oldest_projections(s: Seq<Snapshot>, ch: Seq<char>, n: nat)
    ensures
        snaps_for(drop_oldest(s, ch, n), ch) == (if n <= snaps_for(s, ch).len() {
            snaps_for(s, ch).skip(n as int)
        } else {
            Seq::<Snapshot>::empty()
        }),
        other_snaps(drop_oldest(s, ch, n), ch) == other_snaps(s, ch),
    decreases s.len(),
{
    if s.len() == 0 {
    } else if n == 0 {
        assert(snaps_for(s, ch).skip(0) =~= snaps_for(s, ch));
    } else {
        let tail = s.skip(1);
        if s[0].chapter_id@ == ch {
            lemma_drop_oldest_projections(tail, ch, (n - 1) as nat);
            assert(snaps_for(s, ch) == seq![s[0]] + snaps_for(tail, ch));
            if n <= snaps_for(s, ch).len() {
                assert(snaps_for(s, ch).skip(n as int) =~= snaps_for(tail, ch).skip(n - 1));
            }
        } else {
            lemma_drop_oldest_projections(tail, ch, n);
            let d = drop_oldest(s, ch, n);
            assert(d == seq![s[0]] + drop_oldest(tail, ch, n));
            assert(d.len() > 0 && d[0] == s[0]);
            assert(d.skip(1) =~= drop_oldest(tail, ch, n));
        }
    }
}

/// When at least as many are dropped as the chapter has, everything of
/// that chapter goes and the rest of the table survives unchanged.
pub proof fn lemma_drop_oldest_all(s: Seq<Snapshot>, ch: Seq<char>, n: nat)
    requires
        n >= snaps_for(s, ch).len(),
    ensures
        drop_oldest(s, ch, n) == other_snaps(s, ch),
    decreases s.len(),
{
    if s.len() == 0 {
        assert(other_snaps(s, ch) =~= s);
    } else if n == 0 {
        assert(snaps_for(s, ch).len() == 0);
        lemma_no_match_keeps_all(s, ch);
    } else if s[0].chapter_id@ == ch {
        lemma_drop_oldest_all(s.skip(1), ch, (n - 1) as nat);
    } else {
        lemma_drop_oldest_all(s.skip(1), ch, n);
    }
}

/// A table holding no snapshot of `ch` equals its own other-chapter
/// projection.
proof fn lemma_no_match_keeps_all(s: Seq<Snapshot>, ch: Seq<char>)
    requires
        snaps_for(s, ch).len() == 0,
    ensures
        other_snaps(s, ch) == s,
    decreases s.len(),
{
    if s.len() > 0 {
        assert(s[0].chapter_id@ != ch);
        lemma_no_match_keeps_all(s.skip(1), ch);
        assert(seq![s[0]] + s.skip(1) =~= s);
    } else {
        assert(other_snaps(s, ch) =~= s);
    }
}

/// If the table ends with a snapshot of `ch` and fewer of its snapshots
/// are dropped than it has, the pruned table still ends with it.
pub proof fn lemma_drop_oldest_last(s: Seq<Snapshot>, ch: Seq<char>, n: nat)
    requires
        s.len() > 0,
        s.last().chapter_id@ == ch,
        n < snaps_for(s, ch).len(),
    ensures
        drop_oldest(s, ch, n).len() > 0,
        drop_oldest(s, ch, n).last() == s.last(),
    decreases s.len(),
{
    if n == 0 {
    } else if s[0].chapter_id@ == ch {
        assert(snaps_for(s, ch) == seq![s[0]] + snaps_for(s.skip(1), ch));
        assert(s.skip(1).len() > 0) by {
            if s.len() == 1 {
                assert(snaps_for(s.skip(1), ch) =~= Seq::<Snapshot>::empty());
            }
        }
        assert(s.skip(1).last() == s.last());
        lemma_drop_oldest_last(s.skip(1), ch, (n - 1) as nat);
    } else {
        assert(s.skip(1).len() > 0) by {
            if s.len() == 1 {
                assert(s.last() == s[0]);
            }
        }
        assert(s.skip(1).last() == s.last());
        lemma_drop_oldest_last(s.skip(1), ch, n);
        assert((seq![s[0]] + drop_oldest(s.skip(1), ch, n)).last() == drop_oldest(
            s.skip(1),
            ch,
            n,
        ).last());
    }
}

/// The snapshot table after one recording step with retention bound
/// `limit`: exactly what `record_snapshot` leaves behind when the new
/// snapshot is `snap`.
pub open spec fn spec_record(s: Seq<Snapshot>, snap: Snapshot, limit: nat) -> Seq<Snapshot> {
    drop_oldest(s.push(snap), snap.chapter_id@, spec_excess(s, snap.chapter_id@, limit))
}

/// The table after recording the snapshots of `snaps` in order, starting
/// at position `k`.
pub open spec fn spec_record_all(
    s: Seq<Snapshot>,
    snaps: Seq<Snapshot>,
    k: int,
    limit: nat,
) -> Seq<Snapshot>
    decreases snaps.len() - k,
{
    if 0 <= k < snaps.len() {
        spec_record_all(spec_record(s, snaps[k], limit), snaps, k + 1, limit)
    } else {
        s
    }
}

/// The `limit` most recent elements — the whole sequence when it is
/// shorter.
pub open spec fn last_upto(s: Seq<Snapshot>, limit: nat) -> Seq<Snapshot> {
    if s.len() > limit {
        s.skip((s.len() - limit) as int)
    } else {
        s
    }
}

/// One recording step, seen per chapter: the document's retained
/// snapshots become the most recent `limit` of the old ones plus the new
/// one; every other document keeps its own.
proof fn lemma_record_step(s: Seq<Snapshot>, snap: Snapshot, limit: nat)
    requires
        limit >= 1,
    ensures
        snaps_for(spec_record(s, snap, limit), snap.chapter_id@) == last_upto(
            snaps_for(s, snap.chapter_id@).push(snap),
            limit,
        ),
        other_snaps(spec_record(s, snap, limit), snap.chapter_id@) == other_snaps(
            s,
            snap.chapter_id@,
        ),
{
    let ch = snap.chapter_id@;
    lemma_snaps_for_push(s, ch, snap);
    lemma_drop_oldest_projections(s.push(snap), ch, spec_excess(s, ch, limit));
    if spec_excess(s, ch, limit) == 0 {
        assert(snaps_for(s, ch).push(snap).skip(0) =~= snaps_for(s, ch).push(snap));
    }
}

/// Keeping the most recent `limit`, appending, and keeping the most
/// recent `limit` again is the same as appending and keeping once.
proof fn lemma_last_upto_compose(x: Seq<Snapshot>, y: Seq<Snapshot>, limit: nat)
    ensures
        last_upto(last_upto(x, limit) + y, limit) == last_upto(x + y, limit),
{
    let x1 = last_upto(x, limit);
    if x.len() <= limit {
    } else {
        assert(x1.len() == limit);
        if y.len() == 0 {
            assert(x1 + y =~= x1);
            assert(x + y =~= x);
            assert(last_upto(x1, limit) == x1);
        } else {
            assert(last_upto(x1 + y, limit) =~= last_upto(x + y, limit));
        }
    }
}

/// The inductive core of rolling retention, walking the updates from
/// position `k`.
proof fn lemma_roll(s: Seq<Snapshot>, snaps: Seq<Snapshot>, k: int, ch: Seq<char>, limit: nat)
    requires
        limit >= 1,
        0 <= k <= snaps.len(),
        snaps_for(s, ch).len() <= limit,
        forall|j: int| 0 <= j < snaps.len() ==> (#[trigger] snaps[j]).chapter_id@ == ch,
    ensures
        snaps_for(spec_record_all(s, snaps, k, limit), ch) == last_upto(
            snaps_for(s, ch) + snaps.skip(k),
            limit,
        ),
        other_snaps(spec_record_all(s, snaps, k, limit), ch) == other_snaps(s, ch),
    decreases snaps.len() - k,
{
    if k == snaps.len() {
        assert(snaps.skip(k) =~= Seq::<Snapshot>::empty());
        assert(snaps_for(s, ch) + Seq::<Snapshot>::empty() =~= snaps_for(s, ch));
    } else {
        let s1 = spec_record(s, snaps[k], limit);
        lemma_record_step(s, snaps[k], limit);
        lemma_roll(s1, snaps, k + 1, ch, limit);
        lemma_last_upto_compose(snaps_for(s, ch).push(snaps[k]), snaps.skip(k + 1), limit);
        assert(snaps_for(s, ch).push(snaps[k]) + snaps.skip(k + 1) =~= snaps_for(s, ch)
            + snaps.skip(k));
    }
}

/// Rolling retention over a whole editing session. Starting from a table
/// holding at most `limit` snapshots of document `ch` — true of every
/// table this engine maintains — a sequence of content updates, each
/// recording one snapshot, leaves exactly the smaller of `limit` and
/// (previous + number of updates) snapshots of the document, and they are
/// the most recent ones: the trailing end of the old snapshots followed
/// by the new ones, in order. Snapshots of every other document are
/// untouched.
pub proof fn lemma_rolling_retention(
    s: Seq<Snapshot>,
    snaps: Seq<Snapshot>,
    ch: Seq<char>,
    limit: nat,
)
    requires
        limit >= 1,
        snaps_for(s, ch).len() <= limit,
        forall|j: int| 0 <= j < snaps.len() ==> (#[trigger] snaps[j]).chapter_id@ == ch,
    ensures
        snaps_for(spec_record_all(s, snaps, 0, limit), ch) == last_upto(
            snaps_for(s, ch) + snaps,
            limit,
        ),
        snaps_for(spec_record_all(s, snaps, 0, limit), ch).len() == (
        if snaps_for(s, ch).len() + snaps.len() > limit {
            limit as int
        } else {
            snaps_for(s, ch).len() + snaps.len() as int
        }),
        other_snaps(spec_record_all(s, snaps, 0, limit), ch) == other_snaps(s, ch),
{
    lemma_roll(s, snaps, 0, ch, limit);
    assert(snaps.skip(0) =~= snaps);
}

/// Newest-first indexing of the retained history: after an editing
/// session, the (j+1)-th newest retained snapshot of the document is
/// exactly the (j+1)-th-from-last of the old snapshots followed by the
/// recorded ones — so restoring the (j+1)-th newest (as
/// `restore_snapshot` pins by its own contract) copies back exactly that
/// update's payload.
pub proof fn lemma_retained_newest_first(
    s: Seq<Snapshot>,
    snaps: Seq<Snapshot>,
    ch: Seq<char>,
    limit: nat,
    j: int,
)
    requires
        limit >= 1,
        snaps_for(s, ch).len() <= limit,
        forall|k: int| 0 <= k < snaps.len() ==> (#[trigger] snaps[k]).chapter_id@ == ch,
        0 <= j < snaps_for(spec_record_all(s, snaps, 0, limit), ch).len(),
    ensures
        snaps_for(spec_record_all(s, snaps, 0, limit), ch).reverse()[j] == (snaps_for(s, ch)
            + snaps)[snaps_for(s, ch).len() + snaps.len() - 1 - j],
{
    lemma_rolling_retention(s, snaps, ch, limit);
    let x = snaps_for(s, ch) + snaps;
    let kept = snaps_for(spec_record_all(s, snaps, 0, limit), ch);
    assert(kept == last_upto(x, limit));
    assert(kept.reverse()[j] == kept[kept.len() - 1 - j]);
    if x.len() > limit {
        assert(kept[kept.len() - 1 - j] == x[x.len() - limit + (kept.len() - 1 - j)]);
    }
}

impl ProjectStore {
    /// Records one snapshot of this chapter's content, then enforces the
    /// retention bound: with the new snapshot counted, the oldest
    /// snapshots of the chapter beyond `limit` are deleted; other
    /// chapters' snapshots are untouched.
    pub fn record_snapshot(&mut self, chapter_id: &str, content: &str, now: &str, limit: usize)
        ensures
            limit >= 1 ==> {
                &&& final(self).snapshots@.len() >= 1
                &&& final(self).snapshots@ == drop_oldest(
                    old(self).snapshots@.push(final(self).snapshots@.last()),
                    chapter_id@,
                    spec_excess(old(self).snapshots@, chapter_id@, limit as nat),
                )
                &&& final(self).snapshots@.last().chapter_id@ == chapter_id@
                &&& final(self).snapshots@.last().snapshot_content@ == content@
                &&& final(self).snapshots@.last().created_at@ == now@
                &&& final(self).snapshots@.last().id@.len() == 36
            },
            limit == 0 ==> final(self).snapshots@ == other_snaps(
                old(self).snapshots@,
                chapter_id@,
            ),
            final(self).volumes@ == old(self).volumes@,
            final(self).chapters@ == old(self).chapters@,
            final(self).entities@ == old(self).entities@,
            final(self).timeline@ == old(self).timeline@,
            final(self).foreshadows@ == old(self).foreshadows@,
            final(self).arcs@ == old(self).arcs@,
            final(self).trash@ == old(self).trash@,
    {
        let snap = Snapshot {
            id: fresh_id(),
            chapter_id: chapter_id.to_owned(),
            snapshot_content: content.to_owned(),
            created_at: now.to_owned(),
        };
        let ghost snap0 = snap;
        let ghost before = self.snapshots@;
        self.snapshots.push(snap);
        let count = self.count_snaps(chapter_id);
        proof {
            lemma_snaps_for_push(before, chapter_id@, snap0);
        }
        if count > limit {
            let excess = count - limit;
            self.prune_snaps(chapter_id, excess);
            proof {
                if limit >= 1 {
                    lemma_drop_oldest_last(before.push(snap0), chapter_id@, excess as nat);
                } else {
                    lemma_drop_oldest_all(before.push(snap0), chapter_id@, excess as nat);
                }
            }
        } else {
            proof {
                assert(drop_oldest(before.push(snap0), chapter_id@, 0) == before.push(snap0));
                assert(self.snapshots@.last() == snap0);
            }
        }
    }

    /// How many snapshots of this chapter the table holds.
    fn count_snaps(&self, chapter_id: &str) -> (r: usize)
        ensures
            r == snaps_for(self.snapshots@, chapter_id@).len(),
    {
        let mut n: usize = 0;
        let mut i: usize = 0;
        proof {
            assert(self.snapshots@.skip(0) =~= self.snapshots@);
        }
        while i < self.snapshots.len()
            invariant
                i <= self.snapshots@.len(),
                n <= i,
                snaps_for(self.snapshots@, chapter_id@).len() == n + snaps_for(
                    self.snapshots@.skip(i as int),
                    chapter_id@,
                ).len(),
            decreases self.snapshots@.len() - i,
        {
            proof {
                assert(self.snapshots@.skip(i as int)[0] == self.snapshots@[i as int]);
                assert(self.snapshots@.skip(i as int).skip(1) =~= self.snapshots@.skip(i + 1));
            }
            if str_eq(self.snapshots[i].chapter_id.as_str(), chapter_id) {
                n = n + 1;
            }
            i = i + 1;
        }
        proof {
            assert(self.snapshots@.skip(self.snapshots@.len() as int) =~= Seq::<
                Snapshot,
            >::empty());
        }
        n
    }

    /// Removes the first `excess` snapshots of this chapter.
    fn prune_snaps(&mut self, chapter_id: &str, excess: usize)
        ensures
            final(self).snapshots@ == drop_oldest(
                old(self).snapshots@,
                chapter_id@,
                excess as nat,
            ),
            final(self).volumes@ == old(self).volumes@,
            final(self).chapters@ == old(self).chapters@,
            final(self).entities@ == old(self).entities@,
            final(self).timeline@ == old(self).timeline@,
            final(self).foreshadows@ == old(self).foreshadows@,
            final(self).arcs@ == old(self).arcs@,
            final(self).trash@ == old(self).trash@,
    {
        let mut kept: Vec<Snapshot> = Vec::new();
        let mut rem: usize = excess;
        let mut i: usize = 0;
        proof {
            assert(self.snapshots@.skip(0) =~= self.snapshots@);
        }
        while i < self.snapshots.len()
            invariant
                i <= self.snapshots@.len(),
                rem <= excess,
                drop_oldest(self.snapshots@, chapter_id@, excess as nat) == kept@ + drop_oldest(
                    self.snapshots@.skip(i as int),
                    chapter_id@,
                    rem as nat,
                ),
            decreases self.snapshots@.len() - i,
        {
            proof {
                assert(self.snapshots@.skip(i as int)[0] == self.snapshots@[i as int]);
                assert(self.snapshots@.skip(i as int).skip(1) =~= self.snapshots@.skip(i + 1));
            }
            let is_ch = str_eq(self.snapshots[i].chapter_id.as_str(), chapter_id);
            if is_ch && rem > 0 {
                rem = rem - 1;
            } else {
                proof {
                    if rem == 0 {
                        assert(drop_oldest(self.snapshots@.skip(i as int), chapter_id@, 0)
                            == self.snapshots@.skip(i as int));
                        assert(drop_oldest(self.snapshots@.skip(i + 1), chapter_id@, 0)
                            == self.snapshots@.skip(i + 1));
                        assert(self.snapshots@.skip(i as int) =~= seq![
                            self.snapshots@[i as int],
                        ] + self.snapshots@.skip(i + 1));
                    }
                    assert((kept@ + (seq![self.snapshots@[i as int]] + drop_oldest(
                        self.snapshots@.skip(i + 1),
                        chapter_id@,
                        rem as nat,
                    ))) =~= (kept@.push(self.snapshots@[i as int]) + drop_oldest(
                        self.snapshots@.skip(i + 1),
                        chapter_id@,
                        rem as nat,
                    )));
                }
                kept.push(self.snapshots[i].clone());
            }
            i = i + 1;
        }
        proof {
            assert(self.snapshots@.skip(self.snapshots@.len() as int) =~= Seq::<
                Snapshot,
            >::empty());
            assert(drop_oldest(Seq::<Snapshot>::empty(), chapter_id@, rem as nat) =~= Seq::<
                Snapshot,
            >::empty());
            assert(kept@ + Seq::<Snapshot>::empty() =~= kept@);
        }
        self.snapshots = kept;
    }

    /// A content update: rewrites the content, word count and update stamp
    /// of every chapter whose id matches (a completed chapter becomes
    /// dirty), then records exactly one snapshot of the new content and
    /// enforces the retention bound.
    pub fn update_chapter(&mut self, id: &str, content: &str, now: &str, limit: usize)
        requires
            content@.len() <= i64::MAX,
        ensures
            final(self).chapters@.len() == old(self).chapters@.len(),
            forall|j: int| 0 <= j < old(self).chapters@.len() ==> final(self).chapters@[j] == (
            if old(self).chapters@[j].id@ == id@ {
                Chapter {
                    content: final(self).chapters@[j].content,
                    word_count: content@.len() as i64,
                    status: final(self).chapters@[j].status,
                    updated_at: final(self).chapters@[j].updated_at,
                    ..old(self).chapters@[j]
                }
            } else {
                old(self).chapters@[j]
            }),
            forall|j: int| 0 <= j < old(self).chapters@.len() && old(self).chapters@[j].id@ == id@
                ==> {
                    &&& final(self).chapters@[j].content@ == content@
                    &&& final(self).chapters@[j].updated_at@ == now@
                    &&& (old(self).chapters@[j].status@ == "complete"@
                        ==> final(self).chapters@[j].status@ == "dirty"@)
                    &&& (old(self).chapters@[j].status@ != "complete"@
                        ==> final(self).chapters@[j].status == old(self).chapters@[j].status)
                },
            limit >= 1 ==> {
                &&& final(self).snapshots@.len() >= 1
                &&& final(self).snapshots@ == drop_oldest(
                    old(self).snapshots@.push(final(self).snapshots@.last()),
                    id@,
                    spec_excess(old(self).snapshots@, id@, limit as nat),
                )
                &&& final(self).snapshots@.last().chapter_id@ == id@
                &&& final(self).snapshots@.last().snapshot_content@ == content@
                &&& final(self).snapshots@.last().created_at@ == now@
            },
            limit == 0 ==> final(self).snapshots@ == other_snaps(old(self).snapshots@, id@),
            final(self).volumes@ == old(self).volumes@,
            final(self).entities@ == old(self).entities@,
            final(self).timeline@ == old(self).timeline@,
            final(self).foreshadows@ == old(self).foreshadows@,
            final(self).arcs@ == old(self).arcs@,
            final(self).trash@ == old(self).trash@,
    {
        self.apply_content(id, content, now, true);
        self.record_snapshot(id, content, now, limit);
    }

    /// Rewrites content, word count and update stamp of every chapter
    /// whose id matches; when `dirty_completed` is set, a completed
    /// chapter's status becomes dirty.
    fn apply_content(&mut self, id: &str, content: &str, now: &str, dirty_completed: bool)
        requires
            content@.len() <= i64::MAX,
        ensures
            final(self).chapters@.len() == old(self).chapters@.len(),
            forall|j: int| 0 <= j < old(self).chapters@.len() ==> final(self).chapters@[j] == (
            if old(self).chapters@[j].id@ == id@ {
                Chapter {
                    content: final(self).chapters@[j].content,
                    word_count: content@.len() as i64,
                    status: final(self).chapters@[j].status,
                    updated_at: final(self).chapters@[j].updated_at,
                    ..old(self).chapters@[j]
                }
            } else {
                old(self).chapters@[j]
            }),
            forall|j: int| 0 <= j < old(self).chapters@.len() && old(self).chapters@[j].id@ == id@
                ==> {
                    &&& final(self).chapters@[j].content@ == content@
                    &&& final(self).chapters@[j].updated_at@ == now@
                    &&& (dirty_completed && old(self).chapters@[j].status@ == "complete"@
                        ==> final(self).chapters@[j].status@ == "dirty"@)
                    &&& (!(dirty_completed && old(self).chapters@[j].status@ == "complete"@)
                        ==> final(self).chapters@[j].status == old(self).chapters@[j].status)
                },
            final(self).volumes@ == old(self).volumes@,
            final(self).entities@ == old(self).entities@,
            final(self).timeline@ == old(self).timeline@,
            final(self).foreshadows@ == old(self).foreshadows@,
            final(self).arcs@ == old(self).arcs@,
            final(self).snapshots@ == old(self).snapshots@,
            final(self).trash@ == old(self).trash@,
    {
        let wc = content.unicode_len() as i64;
        let n = self.chapters.len();
        let mut i: usize = 0;
        while i < n
            invariant
                i <= n,
                n == self.chapters@.len(),
                self.chapters@.len() == old(self).chapters@.len(),
                wc == content@.len() as i64,
                forall|j: int| i <= j < n ==> self.chapters@[j] == old(self).chapters@[j],
                forall|j: int| 0 <= j < i ==> self.chapters@[j] == (
                if old(self).chapters@[j].id@ == id@ {
                    Chapter {
                        content: self.chapters@[j].content,
                        word_count: content@.len() as i64,
                        status: self.chapters@[j].status,
                        updated_at: self.chapters@[j].updated_at,
                        ..old(self).chapters@[j]
                    }
                } else {
                    old(self).chapters@[j]
                }),
                forall|j: int| 0 <= j < i && old(self).chapters@[j].id@ == id@ ==> {
                    &&& self.chapters@[j].content@ == content@
                    &&& self.chapters@[j].updated_at@ == now@
                    &&& (dirty_completed && old(self).chapters@[j].status@ == "complete"@
                        ==> self.chapters@[j].status@ == "dirty"@)
                    &&& (!(dirty_completed && old(self).chapters@[j].status@ == "complete"@)
                        ==> self.chapters@[j].status == old(self).chapters@[j].status)
                },
                self.volumes@ == old(self).volumes@,
                self.entities@ == old(self).entities@,
                self.timeline@ == old(self).timeline@,
                self.foreshadows@ == old(self).foreshadows@,
                self.arcs@ == old(self).arcs@,
                self.snapshots@ == old(self).snapshots@,
                self.trash@ == old(self).trash@,
            decreases n - i,
        {
            if str_eq(self.chapters[i].id.as_str(), id) {
                self.chapters[i].content = content.to_owned();
                self.chapters[i].word_count = wc;
                self.chapters[i].updated_at = now.to_owned();
                if dirty_completed && str_eq(self.chapters[i].status.as_str(), "complete") {
                    self.chapters[i].status = "dirty".to_owned();
                }
            }
            i = i + 1;
        }
    }

    /// The snapshots of one chapter, newest creation first (stamp order;
    /// equal stamps keep table order).
    pub fn list_snapshots(&self, chapter_id: &str) -> (r: Vec<Snapshot>)
        ensures
            r@ == crate::seqext::spec_sort_desc(
                snaps_for(self.snapshots@, chapter_id@),
                |x: Snapshot| x.created_at@,
            ),
            r@.len() == snaps_for(self.snapshots@, chapter_id@).len(),
            forall|a: int, b: int| 0 <= a < b < r@.len() ==> crate::strutil::lex_le(
                (#[trigger] r@[b]).created_at@,
                (#[trigger] r@[a]).created_at@,
            ),
    {
        let ghost key = |x: Snapshot| x.created_at@;
        let mut matched: Vec<Snapshot> = Vec::new();
        let mut i: usize = 0;
        proof {
            assert(self.snapshots@.skip(0) =~= self.snapshots@);
            assert(matched@ + snaps_for(self.snapshots@, chapter_id@) =~= snaps_for(
                self.snapshots@,
                chapter_id@,
            ));
        }
        while i < self.snapshots.len()
            invariant
                i <= self.snapshots@.len(),
                snaps_for(self.snapshots@, chapter_id@) == matched@ + snaps_for(
                    self.snapshots@.skip(i as int),
                    chapter_id@,
                ),
            decreases self.snapshots@.len() - i,
        {
            proof {
                assert(self.snapshots@.skip(i as int)[0] == self.snapshots@[i as int]);
                assert(self.snapshots@.skip(i as int).skip(1) =~= self.snapshots@.skip(i + 1));
                if self.snapshots@[i as int].chapter_id@ == chapter_id@ {
                    assert((matched@ + (seq![self.snapshots@[i as int]] + snaps_for(
                        self.snapshots@.skip(i + 1),
                        chapter_id@,
                    ))) =~= (matched@.push(self.snapshots@[i as int]) + snaps_for(
                        self.snapshots@.skip(i + 1),
                        chapter_id@,
                    )));
                }
            }
            if str_eq(self.snapshots[i].chapter_id.as_str(), chapter_id) {
                matched.push(self.snapshots[i].clone());
            }
            i = i + 1;
        }
        proof {
            assert(self.snapshots@.skip(self.snapshots@.len() as int) =~= Seq::<
                Snapshot,
            >::empty());
            assert(snaps_for(Seq::<Snapshot>::empty(), chapter_id@) =~= Seq::<
                Snapshot,
            >::empty());
            assert(matched@ + Seq::<Snapshot>::empty() =~= matched@);
        }
        let mut out: Vec<Snapshot> = Vec::new();
        let mut k: usize = 0;
        proof {
            assert(matched@.take(0) =~= Seq::<Snapshot>::empty());
            assert(crate::seqext::spec_sort_desc(matched@.take(0), key) =~= Seq::<
                Snapshot,
            >::empty());
        }
        while k < matched.len()
            invariant
                k <= matched@.len(),
                key == (|x: Snapshot| x.created_at@),
                matched@ == snaps_for(self.snapshots@, chapter_id@),
                out@ == crate::seqext::spec_sort_desc(matched@.take(k as int), key),
            decreases matched@.len() - k,
        {
            proof {
                assert(matched@.take(k + 1).drop_last() =~= matched@.take(k as int));
                assert(matched@.take(k + 1).last() == matched@[k as int]);
            }
            out = insert_snapshot_desc(out, matched[k].clone());
            k = k + 1;
        }
        proof {
            assert(matched@.take(matched@.len() as int) =~= matched@);
            crate::seqext::lemma_sort_desc(snaps_for(self.snapshots@, chapter_id@), key);
        }
        out
    }

    /// Restores a snapshot: copies its payload back onto the owning
    /// chapter's live content, recomputing the word count and stamping
    /// the update; the pre-restore state is deliberately not snapshotted.
    pub fn restore_snapshot(&mut self, snapshot_id: &str, now: &str) -> (r: Result<
        (),
        StoreError,
    >)
        requires
            forall|i: int| is_first_snapshot_idx(old(self).snapshots@, snapshot_id@, i)
                ==> old(self).snapshots@[i].snapshot_content@.len() <= i64::MAX,
        ensures
            r is Ok <==> snapshot_found(old(self).snapshots@, snapshot_id@),
            r is Err ==> r == Err::<(), StoreError>(StoreError::NotFound)
                && *final(self) == *old(self),
            r is Ok ==> {
                &&& final(self).chapters@.len() == old(self).chapters@.len()
                &&& forall|i: int| is_first_snapshot_idx(old(self).snapshots@, snapshot_id@, i)
                    ==> ({
                    let snap = old(self).snapshots@[i];
                    &&& forall|j: int| 0 <= j < old(self).chapters@.len()
                        ==> final(self).chapters@[j] == (
                    if old(self).chapters@[j].id@ == snap.chapter_id@ {
                        Chapter {
                            content: final(self).chapters@[j].content,
                            word_count: snap.snapshot_content@.len() as i64,
                            status: final(self).chapters@[j].status,
                            updated_at: final(self).chapters@[j].updated_at,
                            ..old(self).chapters@[j]
                        }
                    } else {
                        old(self).chapters@[j]
                    })
                    &&& forall|j: int| 0 <= j < old(self).chapters@.len()
                        && old(self).chapters@[j].id@ == snap.chapter_id@
                        ==> final(self).chapters@[j].content@ == snap.snapshot_content@
                        && final(self).chapters@[j].updated_at@ == now@
                        && final(self).chapters@[j].status == old(self).chapters@[j].status
                })
                &&& final(self).snapshots@ == old(self).snapshots@
                &&& final(self).volumes@ == old(self).volumes@
                &&& final(self).entities@ == old(self).entities@
                &&& final(self).timeline@ == old(self).timeline@
                &&& final(self).foreshadows@ == old(self).foreshadows@
                &&& final(self).arcs@ == old(self).arcs@
                &&& final(self).trash@ == old(self).trash@
            },
    {
        let snap = match self.find_snapshot(snapshot_id) {
            Ok(s) => s,
            Err(e) => {
                return Err(e);
            },
        };
        let chapter_id = snap.chapter_id;
        let content = snap.snapshot_content;
        self.apply_content(chapter_id.as_str(), content.as_str(), now, false);
        Ok(())
    }

    /// The first snapshot with this id.
    fn find_snapshot(&self, id: &str) -> (r: Result<Snapshot, StoreError>)
        ensures
            r is Ok <==> snapshot_found(self.snapshots@, id@),
            forall|i: int| is_first_snapshot_idx(self.snapshots@, id@, i) ==> r == Ok::<
                Snapshot,
                StoreError,
            >(self.snapshots@[i]),
            r matches Ok(s) ==> exists|i: int| is_first_snapshot_idx(self.snapshots@, id@, i)
                && s == self.snapshots@[i],
            r is Err ==> r == Err::<Snapshot, StoreError>(StoreError::NotFound),
    {
        let mut i: usize = 0;
        while i < self.snapshots.len()
            invariant
                i <= self.snapshots@.len(),
                forall|j: int| 0 <= j < i ==> self.snapshots@[j].id@ != id@,
            decreases self.snapshots@.len() - i,
        {
            if str_eq(self.snapshots[i].id.as_str(), id) {
                return Ok(self.snapshots[i].clone());
            }
            i = i + 1;
        }
        Err(StoreError::NotFound)
    }
}

/// Places a snapshot into the creation-stamp-ordered listing.
fn insert_snapshot_desc(sorted: Vec<Snapshot>, x: Snapshot) -> (r: Vec<Snapshot>)
    ensures
        r@ == crate::seqext::spec_insert_desc(sorted@, x, |s: Snapshot| s.created_at@),
    decreases sorted@.len(),
{
    let mut sorted = sorted;
    let ghost s0 = sorted@;
    if sorted.len() == 0 {
        let mut r: Vec<Snapshot> = Vec::new();
        r.push(x);
        proof {
            assert(r@ =~= seq![x]);
        }
        r
    } else if crate::strutil::str_lt(sorted[0].created_at.as_str(), x.created_at.as_str()) {
        let mut r: Vec<Snapshot> = Vec::new();
        r.push(x);
        r.append(&mut sorted);
        proof {
            assert(r@ =~= seq![x] + s0);
        }
        r
    } else {
        let head = sorted.remove(0);
        proof {
            assert(sorted@ =~= s0.skip(1));
        }
        let mut rest = insert_snapshot_desc(sorted, x);
        rest.insert(0, head);
        proof {
            assert(rest@ =~= seq![head] + crate::seqext::spec_insert_desc(
                s0.skip(1),
                x,
                |s: Snapshot| s.created_at@,
            ));
        }
        rest
    }
}

} // verus!
