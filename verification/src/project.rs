//! The in-memory model of one project database.
//!
//! Each table is a sequence of records in insertion order. Operations
//! mirror the storage engine's statement semantics exactly: an update
//! rewrites every row whose key matches, a delete removes every match, a
//! single-row read takes the first match in table order. References between
//! tables are deliberately not enforced — a restored record may carry a
//! dangling reference, and readers are responsible for tolerating it.

use vstd::prelude::*;
use crate::records::{Chapter, Entity, Foreshadow, RagArc, Snapshot, TimelineNode, TrashItem,
    Volume};
use crate::strutil::str_eq;
use crate::ident::fresh_id;

verus! {

/// Why a storage operation could not run.
#[derive(Clone, Copy, PartialEq, Eq, Structural, Debug)]
pub enum StoreError {
    /// The addressed record does not exist.
    NotFound,
}

/// All tables of one project database.
pub struct ProjectStore {
    pub volumes: Vec<Volume>,
    pub chapters: Vec<Chapter>,
    pub entities: Vec<Entity>,
    pub timeline: Vec<TimelineNode>,
    pub foreshadows: Vec<Foreshadow>,
    pub arcs: Vec<RagArc>,
    pub snapshots: Vec<Snapshot>,
    pub trash: Vec<TrashItem>,
}

// ---------------------------------------------------------------------------
// First-match positions, one predicate per keyed table.
// ---------------------------------------------------------------------------
/// `i` is the position of the first chapter whose id is `id`.
pub open spec fn is_first_chapter_idx(s: Seq<Chapter>, id: Seq<char>, i: int) -> bool {
    &&& 0 <= i < s.len()
    &&& s[i].id@ == id
    &&& forall|j: int| 0 <= j < i ==> s[j].id@ != id
}

/// Some chapter with id `id` exists.
pub open spec fn chapter_found(s: Seq<Chapter>, id: Seq<char>) -> bool {
    exists|i: int| 0 <= i < s.len() && s[i].id@ == id
}

/// `i` is the position of the first volume whose id is `id`.
pub open spec fn is_first_volume_idx(s: Seq<Volume>, id: Seq<char>, i: int) -> bool {
    &&& 0 <= i < s.len()
    &&& s[i].id@ == id
    &&& forall|j: int| 0 <= j < i ==> s[j].id@ != id
}

/// Some volume with id `id` exists.
pub open spec fn volume_found(s: Seq<Volume>, id: Seq<char>) -> bool {
    exists|i: int| 0 <= i < s.len() && s[i].id@ == id
}

/// `i` is the position of the first entity whose id is `id`.
pub open spec fn is_first_entity_idx(s: Seq<Entity>, id: Seq<char>, i: int) -> bool {
    &&& 0 <= i < s.len()
    &&& s[i].id@ == id
    &&& forall|j: int| 0 <= j < i ==> s[j].id@ != id
}

/// Some entity with id `id` exists.
pub open spec fn entity_found(s: Seq<Entity>, id: Seq<char>) -> bool {
    exists|i: int| 0 <= i < s.len() && s[i].id@ == id
}

/// `i` is the position of the first snapshot whose id is `id`.
pub open spec fn is_first_snapshot_idx(s: Seq<Snapshot>, id: Seq<char>, i: int) -> bool {
    &&& 0 <= i < s.len()
    &&& s[i].id@ == id
    &&& forall|j: int| 0 <= j < i ==> s[j].id@ != id
}

/// Some snapshot with id `id` exists.
pub open spec fn snapshot_found(s: Seq<Snapshot>, id: Seq<char>) -> bool {
    exists|i: int| 0 <= i < s.len() && s[i].id@ == id
}

/// `i` is the position of the first trash record whose id is `id`.
pub open spec fn is_first_trash_idx(s: Seq<TrashItem>, id: Seq<char>, i: int) -> bool {
    &&& 0 <= i < s.len()
    &&& s[i].id@ == id
    &&& forall|j: int| 0 <= j < i ==> s[j].id@ != id
}

/// Some trash record with id `id` exists.
pub open spec fn trash_found(s: Seq<TrashItem>, id: Seq<char>) -> bool {
    exists|i: int| 0 <= i < s.len() && s[i].id@ == id
}

// ---------------------------------------------------------------------------
// Sort-order maxima, used to append at the end of an ordering.
// ---------------------------------------------------------------------------
/// The largest sort_order among these volumes, or -1 when there are none.
pub open spec fn vol_max_order(s: Seq<Volume>) -> int
    decreases s.len(),
{
    if s.len() == 0 {
        -1
    } else {
        let m = vol_max_order(s.drop_last());
        if s.last().sort_order > m {
            s.last().sort_order as int
        } else {
            m
        }
    }
}

/// The largest sort_order among the chapters of volume `vid`, or -1.
pub open spec fn ch_max_order(s: Seq<Chapter>, vid: Seq<char>) -> int
    decreases s.len(),
{
    if s.len() == 0 {
        -1
    } else {
        let m = ch_max_order(s.drop_last(), vid);
        if s.last().volume_id@ == vid && s.last().sort_order > m {
            s.last().sort_order as int
        } else {
            m
        }
    }
}

/// Every volume whose id is `id`, its sort_order set to `ord`.
pub open spec fn spec_set_volume_order(s: Seq<Volume>, id: Seq<char>, ord: i64) -> Seq<Volume> {
    Seq::new(
        s.len(),
        |j: int|
            if s[j].id@ == id {
                Volume { sort_order: ord, ..s[j] }
            } else {
                s[j]
            },
    )
}

/// The volumes after assigning position `k`, `k+1`, ... of `ids` as the
/// sort_order of the so-named volumes, in order.
pub open spec fn spec_reorder_volumes(s: Seq<Volume>, ids: Seq<String>, k: int) -> Seq<Volume>
    decreases ids.len() - k,
{
    if 0 <= k < ids.len() {
        spec_reorder_volumes(spec_set_volume_order(s, ids[k]@, k as i64), ids, k + 1)
    } else {
        s
    }
}

/// Every chapter whose id is `id`, its sort_order set to `ord`.
pub open spec fn spec_set_chapter_order(s: Seq<Chapter>, id: Seq<char>, ord: i64) -> Seq<
    Chapter,
> {
    Seq::new(
        s.len(),
        |j: int|
            if s[j].id@ == id {
                Chapter { sort_order: ord, ..s[j] }
            } else {
                s[j]
            },
    )
}

/// The chapters after assigning position `k`, `k+1`, ... of `ids` as the
/// sort_order of the so-named chapters, in order.
pub open spec fn spec_reorder_chapters(s: Seq<Chapter>, ids: Seq<String>, k: int) -> Seq<Chapter>
    decreases ids.len() - k,
{
    if 0 <= k < ids.len() {
        spec_reorder_chapters(spec_set_chapter_order(s, ids[k]@, k as i64), ids, k + 1)
    } else {
        s
    }
}

/// The chapters of volume `vid`, in table order.
pub open spec fn chapters_of(chs: Seq<Chapter>, vid: Seq<char>) -> Seq<Chapter>
    decreases chs.len(),
{
    if chs.len() == 0 {
        Seq::empty()
    } else if chs[0].volume_id@ == vid {
        seq![chs[0]] + chapters_of(chs.skip(1), vid)
    } else {
        chapters_of(chs.skip(1), vid)
    }
}

/// Appending a chapter extends its own volume's projection and no
/// other's.
pub proof fn lemma_chapters_of_push(chs: Seq<Chapter>, vid: Seq<char>, x: Chapter)
    ensures
        chapters_of(chs.push(x), vid) == (if x.volume_id@ == vid {
            chapters_of(chs, vid).push(x)
        } else {
            chapters_of(chs, vid)
        }),
    decreases chs.len(),
{
    if chs.len() == 0 {
        let e = Seq::<Chapter>::empty();
        assert(chs.push(x).skip(1) =~= e);
        assert(chs.push(x)[0] == x);
        assert(chapters_of(e, vid) == e);
        assert(chapters_of(chs, vid) == e);
        if x.volume_id@ == vid {
            assert(chapters_of(chs.push(x), vid) == seq![x] + chapters_of(
                chs.push(x).skip(1),
                vid,
            ));
            assert(seq![x] + e =~= e.push(x));
        }
    } else {
        assert(chs.push(x).skip(1) =~= chs.skip(1).push(x));
        lemma_chapters_of_push(chs.skip(1), vid, x);
        assert(chs.push(x)[0] == chs[0]);
        if chs[0].volume_id@ == vid && x.volume_id@ == vid {
            assert(seq![chs[0]] + chapters_of(chs.skip(1), vid).push(x) =~= (seq![chs[0]]
                + chapters_of(chs.skip(1), vid)).push(x));
        }
    }
}

/// `x` placed into `s` (held in ascending sort_order): before the first
/// volume ordered strictly after it; equal orders keep table order.
pub open spec fn spec_insert_volume(s: Seq<Volume>, x: Volume) -> Seq<Volume>
    decreases s.len(),
{
    if s.len() == 0 {
        seq![x]
    } else if s[0].sort_order > x.sort_order {
        seq![x] + s
    } else {
        seq![s[0]] + spec_insert_volume(s.skip(1), x)
    }
}

/// `s` in ascending sort_order; equal orders keep table order.
pub open spec fn spec_sort_volumes(s: Seq<Volume>) -> Seq<Volume>
    decreases s.len(),
{
    if s.len() == 0 {
        Seq::empty()
    } else {
        spec_insert_volume(spec_sort_volumes(s.drop_last()), s.last())
    }
}

/// Sort orders never decrease along the listing.
pub open spec fn vol_orders_ascending(s: Seq<Volume>) -> bool {
    forall|a: int, b: int| 0 <= a < b < s.len() ==> s[a].sort_order <= s[b].sort_order
}

/// One insertion splits the ordered volumes around the new one.
proof fn lemma_insert_volume_shape(s: Seq<Volume>, x: Volume)
    ensures
        exists|p: int|
            0 <= p <= s.len() && #[trigger] spec_insert_volume(s, x) == s.take(p) + seq![x]
                + s.skip(p) && (forall|m: int| 0 <= m < p ==> s[m].sort_order <= x.sort_order)
                && (p < s.len() ==> s[p].sort_order > x.sort_order),
    decreases s.len(),
{
    if s.len() == 0 {
        assert(spec_insert_volume(s, x) =~= s.take(0) + seq![x] + s.skip(0));
        assert(0 <= 0 <= s.len() && spec_insert_volume(s, x) == s.take(0) + seq![x] + s.skip(0)
            && (forall|m: int| 0 <= m < 0 ==> s[m].sort_order <= x.sort_order) && (0 < s.len()
            ==> s[0].sort_order > x.sort_order));
    } else if s[0].sort_order > x.sort_order {
        assert(spec_insert_volume(s, x) =~= s.take(0) + seq![x] + s.skip(0));
        assert(0 <= 0 <= s.len() && spec_insert_volume(s, x) == s.take(0) + seq![x] + s.skip(0)
            && (forall|m: int| 0 <= m < 0 ==> s[m].sort_order <= x.sort_order) && (0 < s.len()
            ==> s[0].sort_order > x.sort_order));
    } else {
        lemma_insert_volume_shape(s.skip(1), x);
        let q = choose|q: int|
            0 <= q <= s.skip(1).len() && #[trigger] spec_insert_volume(s.skip(1), x) == s.skip(
                1,
            ).take(q) + seq![x] + s.skip(1).skip(q) && (forall|m: int|
                0 <= m < q ==> s.skip(1)[m].sort_order <= x.sort_order) && (q < s.skip(1).len()
                ==> s.skip(1)[q].sort_order > x.sort_order);
        let p = q + 1;
        assert(seq![s[0]] + (s.skip(1).take(q) + seq![x] + s.skip(1).skip(q)) =~= s.take(p)
            + seq![x] + s.skip(p));
        assert(forall|m: int| 1 <= m < p ==> s.skip(1)[m - 1] == s[m]);
        assert(p < s.len() ==> s.skip(1)[q] == s[p]);
        assert(0 <= p <= s.len() && spec_insert_volume(s, x) == s.take(p) + seq![x] + s.skip(p)
            && (forall|m: int| 0 <= m < p ==> s[m].sort_order <= x.sort_order) && (p < s.len()
            ==> s[p].sort_order > x.sort_order));
    }
}

/// Inserting preserves ascending order and grows the length by one.
proof fn lemma_insert_volume_ascending(s: Seq<Volume>, x: Volume)
    requires
        vol_orders_ascending(s),
    ensures
        vol_orders_ascending(spec_insert_volume(s, x)),
        spec_insert_volume(s, x).len() == s.len() + 1,
{
    lemma_insert_volume_shape(s, x);
    let p = choose|p: int|
        0 <= p <= s.len() && #[trigger] spec_insert_volume(s, x) == s.take(p) + seq![x]
            + s.skip(p) && (forall|m: int| 0 <= m < p ==> s[m].sort_order <= x.sort_order) && (
        p < s.len() ==> s[p].sort_order > x.sort_order);
    let r = spec_insert_volume(s, x);
    assert forall|a: int, b: int| 0 <= a < b < r.len() implies r[a].sort_order
        <= r[b].sort_order by {
        if a < p {
            assert(r[a] == s[a]);
        }
        if b < p {
            assert(r[b] == s[b]);
        }
        if a > p {
            assert(r[a] == s[a - 1]);
        }
        if b > p {
            assert(r[b] == s[b - 1]);
        }
    }
}

/// The ordered listing holds exactly as many volumes, ascending.
pub proof fn lemma_sort_volumes(s: Seq<Volume>)
    ensures
        spec_sort_volumes(s).len() == s.len(),
        vol_orders_ascending(spec_sort_volumes(s)),
    decreases s.len(),
{
    if s.len() > 0 {
        lemma_sort_volumes(s.drop_last());
        lemma_insert_volume_ascending(spec_sort_volumes(s.drop_last()), s.last());
    }
}

/// `x` placed into `s` (held in ascending sort_order): before the first
/// chapter ordered strictly after it; equal orders keep table order.
pub open spec fn spec_insert_chapter(s: Seq<Chapter>, x: Chapter) -> Seq<Chapter>
    decreases s.len(),
{
    if s.len() == 0 {
        seq![x]
    } else if s[0].sort_order > x.sort_order {
        seq![x] + s
    } else {
        seq![s[0]] + spec_insert_chapter(s.skip(1), x)
    }
}

/// `s` in ascending sort_order; equal orders keep table order.
pub open spec fn spec_sort_chapters(s: Seq<Chapter>) -> Seq<Chapter>
    decreases s.len(),
{
    if s.len() == 0 {
        Seq::empty()
    } else {
        spec_insert_chapter(spec_sort_chapters(s.drop_last()), s.last())
    }
}

/// Sort orders never decrease along the listing.
pub open spec fn ch_orders_ascending(s: Seq<Chapter>) -> bool {
    forall|a: int, b: int| 0 <= a < b < s.len() ==> s[a].sort_order <= s[b].sort_order
}

/// One insertion splits the ordered chapters around the new one.
proof fn lemma_insert_chapter_shape(s: Seq<Chapter>, x: Chapter)
    ensures
        exists|p: int|
            0 <= p <= s.len() && #[trigger] spec_insert_chapter(s, x) == s.take(p) + seq![x]
                + s.skip(p) && (forall|m: int| 0 <= m < p ==> s[m].sort_order <= x.sort_order)
                && (p < s.len() ==> s[p].sort_order > x.sort_order),
    decreases s.len(),
{
    if s.len() == 0 {
        assert(spec_insert_chapter(s, x) =~= s.take(0) + seq![x] + s.skip(0));
        assert(0 <= 0 <= s.len() && spec_insert_chapter(s, x) == s.take(0) + seq![x] + s.skip(
            0,
        ) && (forall|m: int| 0 <= m < 0 ==> s[m].sort_order <= x.sort_order) && (0 < s.len()
            ==> s[0].sort_order > x.sort_order));
    } else if s[0].sort_order > x.sort_order {
        assert(spec_insert_chapter(s, x) =~= s.take(0) + seq![x] + s.skip(0));
        assert(0 <= 0 <= s.len() && spec_insert_chapter(s, x) == s.take(0) + seq![x] + s.skip(
            0,
        ) && (forall|m: int| 0 <= m < 0 ==> s[m].sort_order <= x.sort_order) && (0 < s.len()
            ==> s[0].sort_order > x.sort_order));
    } else {
        lemma_insert_chapter_shape(s.skip(1), x);
        let q = choose|q: int|
            0 <= q <= s.skip(1).len() && #[trigger] spec_insert_chapter(s.skip(1), x) == s.skip(
                1,
            ).take(q) + seq![x] + s.skip(1).skip(q) && (forall|m: int|
                0 <= m < q ==> s.skip(1)[m].sort_order <= x.sort_order) && (q < s.skip(1).len()
                ==> s.skip(1)[q].sort_order > x.sort_order);
        let p = q + 1;
        assert(seq![s[0]] + (s.skip(1).take(q) + seq![x] + s.skip(1).skip(q)) =~= s.take(p)
            + seq![x] + s.skip(p));
        assert(forall|m: int| 1 <= m < p ==> s.skip(1)[m - 1] == s[m]);
        assert(p < s.len() ==> s.skip(1)[q] == s[p]);
        assert(0 <= p <= s.len() && spec_insert_chapter(s, x) == s.take(p) + seq![x] + s.skip(
            p,
        ) && (forall|m: int| 0 <= m < p ==> s[m].sort_order <= x.sort_order) && (p < s.len()
            ==> s[p].sort_order > x.sort_order));
    }
}

/// Inserting preserves ascending order and grows the length by one.
proof fn lemma_insert_chapter_ascending(s: Seq<Chapter>, x: Chapter)
    requires
        ch_orders_ascending(s),
    ensures
        ch_orders_ascending(spec_insert_chapter(s, x)),
        spec_insert_chapter(s, x).len() == s.len() + 1,
{
    lemma_insert_chapter_shape(s, x);
    let p = choose|p: int|
        0 <= p <= s.len() && #[trigger] spec_insert_chapter(s, x) == s.take(p) + seq![x]
            + s.skip(p) && (forall|m: int| 0 <= m < p ==> s[m].sort_order <= x.sort_order) && (
        p < s.len() ==> s[p].sort_order > x.sort_order);
    let r = spec_insert_chapter(s, x);
    assert forall|a: int, b: int| 0 <= a < b < r.len() implies r[a].sort_order
        <= r[b].sort_order by {
        if a < p {
            assert(r[a] == s[a]);
        }
        if b < p {
            assert(r[b] == s[b]);
        }
        if a > p {
            assert(r[a] == s[a - 1]);
        }
        if b > p {
            assert(r[b] == s[b - 1]);
        }
    }
}

/// The ordered listing holds exactly as many chapters, ascending.
pub proof fn lemma_sort_chapters(s: Seq<Chapter>)
    ensures
        spec_sort_chapters(s).len() == s.len(),
        ch_orders_ascending(spec_sort_chapters(s)),
    decreases s.len(),
{
    if s.len() > 0 {
        lemma_sort_chapters(s.drop_last());
        lemma_insert_chapter_ascending(spec_sort_chapters(s.drop_last()), s.last());
    }
}

/// Places a volume into the order-sorted listing.
fn insert_volume_sorted(sorted: Vec<Volume>, x: Volume) -> (r: Vec<Volume>)
    ensures
        r@ == spec_insert_volume(sorted@, x),
    decreases sorted@.len(),
{
    let mut sorted = sorted;
    let ghost s0 = sorted@;
    if sorted.len() == 0 {
        let mut r: Vec<Volume> = Vec::new();
        r.push(x);
        proof {
            assert(r@ =~= seq![x]);
        }
        r
    } else if sorted[0].sort_order > x.sort_order {
        let mut r: Vec<Volume> = Vec::new();
        r.push(x);
        r.append(&mut sorted);
        proof {
            assert(r@ =~= seq![x] + s0);
        }
        r
    } else {
        let head = sorted.remove(0);
        proof {
            assert(sorted@ =~= s0.skip(1));
        }
        let mut rest = insert_volume_sorted(sorted, x);
        rest.insert(0, head);
        proof {
            assert(rest@ =~= seq![head] + spec_insert_volume(s0.skip(1), x));
        }
        rest
    }
}

/// Places a chapter into the order-sorted listing.
fn insert_chapter_sorted(sorted: Vec<Chapter>, x: Chapter) -> (r: Vec<Chapter>)
    ensures
        r@ == spec_insert_chapter(sorted@, x),
    decreases sorted@.len(),
{
    let mut sorted = sorted;
    let ghost s0 = sorted@;
    if sorted.len() == 0 {
        let mut r: Vec<Chapter> = Vec::new();
        r.push(x);
        proof {
            assert(r@ =~= seq![x]);
        }
        r
    } else if sorted[0].sort_order > x.sort_order {
        let mut r: Vec<Chapter> = Vec::new();
        r.push(x);
        r.append(&mut sorted);
        proof {
            assert(r@ =~= seq![x] + s0);
        }
        r
    } else {
        let head = sorted.remove(0);
        proof {
            assert(sorted@ =~= s0.skip(1));
        }
        let mut rest = insert_chapter_sorted(sorted, x);
        rest.insert(0, head);
        proof {
            assert(rest@ =~= seq![head] + spec_insert_chapter(s0.skip(1), x));
        }
        rest
    }
}

/// Places an entity into the creation-stamp-ordered listing.
fn insert_entity_desc(sorted: Vec<Entity>, x: Entity) -> (r: Vec<Entity>)
    ensures
        r@ == crate::seqext::spec_insert_desc(sorted@, x, |e: Entity| e.created_at@),
    decreases sorted@.len(),
{
    let mut sorted = sorted;
    let ghost s0 = sorted@;
    if sorted.len() == 0 {
        let mut r: Vec<Entity> = Vec::new();
        r.push(x);
        proof {
            assert(r@ =~= seq![x]);
        }
        r
    } else if crate::strutil::str_lt(sorted[0].created_at.as_str(), x.created_at.as_str()) {
        let mut r: Vec<Entity> = Vec::new();
        r.push(x);
        r.append(&mut sorted);
        proof {
            assert(r@ =~= seq![x] + s0);
        }
        r
    } else {
        let head = sorted.remove(0);
        proof {
            assert(sorted@ =~= s0.skip(1));
        }
        let mut rest = insert_entity_desc(sorted, x);
        rest.insert(0, head);
        proof {
            assert(rest@ =~= seq![head] + crate::seqext::spec_insert_desc(
                s0.skip(1),
                x,
                |e: Entity| e.created_at@,
            ));
        }
        rest
    }
}

/// Places a foreshadow marker into the creation-stamp-ordered listing.
fn insert_foreshadow_desc(sorted: Vec<Foreshadow>, x: Foreshadow) -> (r: Vec<Foreshadow>)
    ensures
        r@ == crate::seqext::spec_insert_desc(sorted@, x, |f: Foreshadow| f.created_at@),
    decreases sorted@.len(),
{
    let mut sorted = sorted;
    let ghost s0 = sorted@;
    if sorted.len() == 0 {
        let mut r: Vec<Foreshadow> = Vec::new();
        r.push(x);
        proof {
            assert(r@ =~= seq![x]);
        }
        r
    } else if crate::strutil::str_lt(sorted[0].created_at.as_str(), x.created_at.as_str()) {
        let mut r: Vec<Foreshadow> = Vec::new();
        r.push(x);
        r.append(&mut sorted);
        proof {
            assert(r@ =~= seq![x] + s0);
        }
        r
    } else {
        let head = sorted.remove(0);
        proof {
            assert(sorted@ =~= s0.skip(1));
        }
        let mut rest = insert_foreshadow_desc(sorted, x);
        rest.insert(0, head);
        proof {
            assert(rest@ =~= seq![head] + crate::seqext::spec_insert_desc(
                s0.skip(1),
                x,
                |f: Foreshadow| f.created_at@,
            ));
        }
        rest
    }
}

impl ProjectStore {
    /// A freshly provisioned project database: every table empty.
    pub fn new() -> (r: ProjectStore)
        ensures
            r.volumes@ =~= Seq::<Volume>::empty(),
            r.chapters@ =~= Seq::<Chapter>::empty(),
            r.entities@ =~= Seq::<Entity>::empty(),
            r.timeline@ =~= Seq::<TimelineNode>::empty(),
            r.foreshadows@ =~= Seq::<Foreshadow>::empty(),
            r.arcs@ =~= Seq::<RagArc>::empty(),
            r.snapshots@ =~= Seq::<Snapshot>::empty(),
            r.trash@ =~= Seq::<TrashItem>::empty(),
    {
        ProjectStore {
            volumes: Vec::new(),
            chapters: Vec::new(),
            entities: Vec::new(),
            timeline: Vec::new(),
            foreshadows: Vec::new(),
            arcs: Vec::new(),
            snapshots: Vec::new(),
            trash: Vec::new(),
        }
    }

    /// Position of the first chapter with this id, if any.
    fn find_chapter(&self, id: &str) -> (r: Option<usize>)
        ensures
            match r {
                Some(i) => is_first_chapter_idx(self.chapters@, id@, i as int),
                None => !chapter_found(self.chapters@, id@),
            },
    {
        let mut i: usize = 0;
        while i < self.chapters.len()
            invariant
                i <= self.chapters@.len(),
                forall|j: int| 0 <= j < i ==> self.chapters@[j].id@ != id@,
            decreases self.chapters@.len() - i,
        {
            if str_eq(self.chapters[i].id.as_str(), id) {
                return Some(i);
            }
            i = i + 1;
        }
        None
    }

    /// Position of the first volume with this id, if any.
    fn find_volume(&self, id: &str) -> (r: Option<usize>)
        ensures
            match r {
                Some(i) => is_first_volume_idx(self.volumes@, id@, i as int),
                None => !volume_found(self.volumes@, id@),
            },
    {
        let mut i: usize = 0;
        while i < self.volumes.len()
            invariant
                i <= self.volumes@.len(),
                forall|j: int| 0 <= j < i ==> self.volumes@[j].id@ != id@,
            decreases self.volumes@.len() - i,
        {
            if str_eq(self.volumes[i].id.as_str(), id) {
                return Some(i);
            }
            i = i + 1;
        }
        None
    }

    /// Position of the first entity with this id, if any.
    fn find_entity(&self, id: &str) -> (r: Option<usize>)
        ensures
            match r {
                Some(i) => is_first_entity_idx(self.entities@, id@, i as int),
                None => !entity_found(self.entities@, id@),
            },
    {
        let mut i: usize = 0;
        while i < self.entities.len()
            invariant
                i <= self.entities@.len(),
                forall|j: int| 0 <= j < i ==> self.entities@[j].id@ != id@,
            decreases self.entities@.len() - i,
        {
            if str_eq(self.entities[i].id.as_str(), id) {
                return Some(i);
            }
            i = i + 1;
        }
        None
    }

    // -----------------------------------------------------------------------
    // Volumes
    // -----------------------------------------------------------------------
    /// Creates a volume ordered after every existing one and returns it.
    /// Its identifier is freshly generated.
    pub fn create_volume(&mut self, name: &str, now: &str) -> (r: Volume)
        requires
            vol_max_order(old(self).volumes@) < i64::MAX,
        ensures
            final(self).volumes@ == old(self).volumes@.push(r),
            r.name@ == name@,
            r.created_at@ == now@,
            r.sort_order == vol_max_order(old(self).volumes@) + 1,
            r.id@.len() == 36,
            final(self).chapters@ == old(self).chapters@,
            final(self).entities@ == old(self).entities@,
            final(self).timeline@ == old(self).timeline@,
            final(self).foreshadows@ == old(self).foreshadows@,
            final(self).arcs@ == old(self).arcs@,
            final(self).snapshots@ == old(self).snapshots@,
            final(self).trash@ == old(self).trash@,
    {
        let ord = self.max_volume_order();
        let v = Volume {
            id: fresh_id(),
            name: name.to_owned(),
            sort_order: ord + 1,
            created_at: now.to_owned(),
        };
        let out = v.clone();
        self.volumes.push(v);
        out
    }

    /// The largest sort_order among existing volumes, or -1.
    fn max_volume_order(&self) -> (r: i64)
        ensures
            r == vol_max_order(self.volumes@),
    {
        let mut m: i64 = -1;
        let mut i: usize = 0;
        proof {
            assert(self.volumes@.take(0) =~= Seq::<Volume>::empty());
        }
        while i < self.volumes.len()
            invariant
                i <= self.volumes@.len(),
                m == vol_max_order(self.volumes@.take(i as int)),
            decreases self.volumes@.len() - i,
        {
            proof {
                assert(self.volumes@.take(i + 1).drop_last() =~= self.volumes@.take(i as int));
                assert(self.volumes@.take(i + 1).last() == self.volumes@[i as int]);
            }
            if self.volumes[i].sort_order > m {
                m = self.volumes[i].sort_order;
            }
            i = i + 1;
        }
        proof {
            assert(self.volumes@.take(self.volumes@.len() as int) =~= self.volumes@);
        }
        m
    }

    /// Every volume of the project, in ascending sort_order; equal
    /// orders keep table order.
    pub fn list_volumes(&self) -> (r: Vec<Volume>)
        ensures
            r@ == spec_sort_volumes(self.volumes@),
            r@.len() == self.volumes@.len(),
            vol_orders_ascending(r@),
    {
        let mut out: Vec<Volume> = Vec::new();
        let mut i: usize = 0;
        proof {
            assert(self.volumes@.take(0) =~= Seq::<Volume>::empty());
            assert(spec_sort_volumes(self.volumes@.take(0)) =~= Seq::<Volume>::empty());
        }
        while i < self.volumes.len()
            invariant
                i <= self.volumes@.len(),
                out@ == spec_sort_volumes(self.volumes@.take(i as int)),
            decreases self.volumes@.len() - i,
        {
            proof {
                assert(self.volumes@.take(i + 1).drop_last() =~= self.volumes@.take(i as int));
                assert(self.volumes@.take(i + 1).last() == self.volumes@[i as int]);
            }
            out = insert_volume_sorted(out, self.volumes[i].clone());
            i = i + 1;
        }
        proof {
            assert(self.volumes@.take(self.volumes@.len() as int) =~= self.volumes@);
            lemma_sort_volumes(self.volumes@);
        }
        out
    }

    /// Renames every volume whose id matches; a missing id changes nothing.
    pub fn rename_volume(&mut self, id: &str, name: &str)
        ensures
            final(self).volumes@.len() == old(self).volumes@.len(),
            forall|j: int| 0 <= j < old(self).volumes@.len() ==> final(self).volumes@[j] == (
            if old(self).volumes@[j].id@ == id@ {
                Volume { name: final(self).volumes@[j].name, ..old(self).volumes@[j] }
            } else {
                old(self).volumes@[j]
            }),
            forall|j: int| 0 <= j < old(self).volumes@.len() && old(self).volumes@[j].id@ == id@
                ==> final(self).volumes@[j].name@ == name@,
            final(self).chapters@ == old(self).chapters@,
            final(self).entities@ == old(self).entities@,
            final(self).timeline@ == old(self).timeline@,
            final(self).foreshadows@ == old(self).foreshadows@,
            final(self).arcs@ == old(self).arcs@,
            final(self).snapshots@ == old(self).snapshots@,
            final(self).trash@ == old(self).trash@,
    {
        let n = self.volumes.len();
        let mut i: usize = 0;
        while i < n
            invariant
                i <= n,
                n == self.volumes@.len(),
                self.volumes@.len() == old(self).volumes@.len(),
                forall|j: int| i <= j < n ==> self.volumes@[j] == old(self).volumes@[j],
                forall|j: int| 0 <= j < i ==> self.volumes@[j] == (
                if old(self).volumes@[j].id@ == id@ {
                    Volume { name: self.volumes@[j].name, ..old(self).volumes@[j] }
                } else {
                    old(self).volumes@[j]
                }),
                forall|j: int| 0 <= j < i && old(self).volumes@[j].id@ == id@
                    ==> self.volumes@[j].name@ == name@,
                self.chapters@ == old(self).chapters@,
                self.entities@ == old(self).entities@,
                self.timeline@ == old(self).timeline@,
                self.foreshadows@ == old(self).foreshadows@,
                self.arcs@ == old(self).arcs@,
                self.snapshots@ == old(self).snapshots@,
                self.trash@ == old(self).trash@,
            decreases n - i,
        {
            if str_eq(self.volumes[i].id.as_str(), id) {
                self.volumes[i].name = name.to_owned();
            }
            i = i + 1;
        }
    }

    /// Sets the sort_order of every volume whose id matches.
    fn set_volume_order_all(&mut self, id: &str, ord: i64)
        ensures
            final(self).volumes@ == spec_set_volume_order(old(self).volumes@, id@, ord),
            final(self).chapters@ == old(self).chapters@,
            final(self).entities@ == old(self).entities@,
            final(self).timeline@ == old(self).timeline@,
            final(self).foreshadows@ == old(self).foreshadows@,
            final(self).arcs@ == old(self).arcs@,
            final(self).snapshots@ == old(self).snapshots@,
            final(self).trash@ == old(self).trash@,
    {
        let n = self.volumes.len();
        let mut i: usize = 0;
        while i < n
            invariant
                i <= n,
                n == self.volumes@.len(),
                self.volumes@.len() == old(self).volumes@.len(),
                forall|j: int| i <= j < n ==> self.volumes@[j] == old(self).volumes@[j],
                forall|j: int| 0 <= j < i ==> self.volumes@[j] == spec_set_volume_order(
                    old(self).volumes@,
                    id@,
                    ord,
                )[j],
                self.chapters@ == old(self).chapters@,
                self.entities@ == old(self).entities@,
                self.timeline@ == old(self).timeline@,
                self.foreshadows@ == old(self).foreshadows@,
                self.arcs@ == old(self).arcs@,
                self.snapshots@ == old(self).snapshots@,
                self.trash@ == old(self).trash@,
            decreases n - i,
        {
            if str_eq(self.volumes[i].id.as_str(), id) {
                self.volumes[i].sort_order = ord;
            }
            i = i + 1;
        }
        proof {
            assert(self.volumes@ =~= spec_set_volume_order(old(self).volumes@, id@, ord));
        }
    }

    /// Reassigns volume ordering: the volume named by `ids[k]` gets
    /// sort_order `k`. Ids that name no volume change nothing.
    pub fn reorder_volumes(&mut self, ids: &Vec<String>)
        requires
            ids@.len() <= i64::MAX,
        ensures
            final(self).volumes@ == spec_reorder_volumes(old(self).volumes@, ids@, 0),
            final(self).chapters@ == old(self).chapters@,
            final(self).entities@ == old(self).entities@,
            final(self).timeline@ == old(self).timeline@,
            final(self).foreshadows@ == old(self).foreshadows@,
            final(self).arcs@ == old(self).arcs@,
            final(self).snapshots@ == old(self).snapshots@,
            final(self).trash@ == old(self).trash@,
    {
        let mut i: usize = 0;
        while i < ids.len()
            invariant
                i <= ids@.len(),
                ids@.len() <= i64::MAX,
                spec_reorder_volumes(old(self).volumes@, ids@, 0) == spec_reorder_volumes(
                    self.volumes@,
                    ids@,
                    i as int,
                ),
                self.chapters@ == old(self).chapters@,
                self.entities@ == old(self).entities@,
                self.timeline@ == old(self).timeline@,
                self.foreshadows@ == old(self).foreshadows@,
                self.arcs@ == old(self).arcs@,
                self.snapshots@ == old(self).snapshots@,
                self.trash@ == old(self).trash@,
            decreases ids@.len() - i,
        {
            self.set_volume_order_all(ids[i].as_str(), i as i64);
            i = i + 1;
        }
    }

    // -----------------------------------------------------------------------
    // Chapters
    // -----------------------------------------------------------------------
    /// Creates an empty draft chapter ordered after every existing chapter
    /// of the volume, and returns it. Its identifier is freshly generated.
    pub fn create_chapter(&mut self, volume_id: &str, name: &str, now: &str) -> (r: Chapter)
        requires
            ch_max_order(old(self).chapters@, volume_id@) < i64::MAX,
        ensures
            final(self).chapters@ == old(self).chapters@.push(r),
            r.volume_id@ == volume_id@,
            r.name@ == name@,
            r.content@ == Seq::<char>::empty(),
            r.l2_summary is None,
            r.l3_title is None,
            r.status@ == "draft"@,
            r.word_count == 0,
            r.sort_order == ch_max_order(old(self).chapters@, volume_id@) + 1,
            r.created_at@ == now@,
            r.updated_at@ == now@,
            r.id@.len() == 36,
            final(self).volumes@ == old(self).volumes@,
            final(self).entities@ == old(self).entities@,
            final(self).timeline@ == old(self).timeline@,
            final(self).foreshadows@ == old(self).foreshadows@,
            final(self).arcs@ == old(self).arcs@,
            final(self).snapshots@ == old(self).snapshots@,
            final(self).trash@ == old(self).trash@,
    {
        let ord = self.max_chapter_order(volume_id);
        let c = Chapter {
            id: fresh_id(),
            volume_id: volume_id.to_owned(),
            name: name.to_owned(),
            content: String::new(),
            l2_summary: None,
            l3_title: None,
            status: "draft".to_owned(),
            word_count: 0,
            sort_order: ord + 1,
            created_at: now.to_owned(),
            updated_at: now.to_owned(),
        };
        let out = c.clone();
        self.chapters.push(c);
        out
    }

    /// The largest sort_order among the chapters of this volume, or -1.
    fn max_chapter_order(&self, volume_id: &str) -> (r: i64)
        ensures
            r == ch_max_order(self.chapters@, volume_id@),
    {
        let mut m: i64 = -1;
        let mut i: usize = 0;
        proof {
            assert(self.chapters@.take(0) =~= Seq::<Chapter>::empty());
        }
        while i < self.chapters.len()
            invariant
                i <= self.chapters@.len(),
                m == ch_max_order(self.chapters@.take(i as int), volume_id@),
            decreases self.chapters@.len() - i,
        {
            proof {
                assert(self.chapters@.take(i + 1).drop_last() =~= self.chapters@.take(i as int));
                assert(self.chapters@.take(i + 1).last() == self.chapters@[i as int]);
            }
            if str_eq(self.chapters[i].volume_id.as_str(), volume_id) {
                if self.chapters[i].sort_order > m {
                    m = self.chapters[i].sort_order;
                }
            }
            i = i + 1;
        }
        proof {
            assert(self.chapters@.take(self.chapters@.len() as int) =~= self.chapters@);
        }
        m
    }

    /// The chapters of one volume in ascending sort_order (equal orders
    /// keep table order). Contents are included — a display tree that
    /// wants the light form drops the field itself.
    pub fn list_chapters(&self, volume_id: &str) -> (r: Vec<Chapter>)
        ensures
            r@ == spec_sort_chapters(chapters_of(self.chapters@, volume_id@)),
            r@.len() == chapters_of(self.chapters@, volume_id@).len(),
            ch_orders_ascending(r@),
    {
        let mut matched: Vec<Chapter> = Vec::new();
        let mut i: usize = 0;
        proof {
            assert(self.chapters@.take(0) =~= Seq::<Chapter>::empty());
            assert(chapters_of(self.chapters@.take(0), volume_id@) =~= Seq::<Chapter>::empty());
        }
        while i < self.chapters.len()
            invariant
                i <= self.chapters@.len(),
                matched@ == chapters_of(self.chapters@.take(i as int), volume_id@),
            decreases self.chapters@.len() - i,
        {
            proof {
                assert(self.chapters@.take(i + 1) =~= self.chapters@.take(i as int).push(
                    self.chapters@[i as int],
                ));
                lemma_chapters_of_push(
                    self.chapters@.take(i as int),
                    volume_id@,
                    self.chapters@[i as int],
                );
            }
            if str_eq(self.chapters[i].volume_id.as_str(), volume_id) {
                matched.push(self.chapters[i].clone());
            }
            i = i + 1;
        }
        proof {
            assert(self.chapters@.take(self.chapters@.len() as int) =~= self.chapters@);
        }
        let mut out: Vec<Chapter> = Vec::new();
        let mut k: usize = 0;
        proof {
            assert(matched@.take(0) =~= Seq::<Chapter>::empty());
            assert(spec_sort_chapters(matched@.take(0)) =~= Seq::<Chapter>::empty());
        }
        while k < matched.len()
            invariant
                k <= matched@.len(),
                matched@ == chapters_of(self.chapters@, volume_id@),
                out@ == spec_sort_chapters(matched@.take(k as int)),
            decreases matched@.len() - k,
        {
            proof {
                assert(matched@.take(k + 1).drop_last() =~= matched@.take(k as int));
                assert(matched@.take(k + 1).last() == matched@[k as int]);
            }
            out = insert_chapter_sorted(out, matched[k].clone());
            k = k + 1;
        }
        proof {
            assert(matched@.take(matched@.len() as int) =~= matched@);
            lemma_sort_chapters(chapters_of(self.chapters@, volume_id@));
        }
        out
    }

    /// The first chapter with this id, content included.
    pub fn get_chapter(&self, id: &str) -> (r: Result<Chapter, StoreError>)
        ensures
            r is Ok <==> chapter_found(self.chapters@, id@),
            forall|i: int| is_first_chapter_idx(self.chapters@, id@, i) ==> r == Ok::<
                Chapter,
                StoreError,
            >(self.chapters@[i]),
            r is Err ==> r == Err::<Chapter, StoreError>(StoreError::NotFound),
    {
        match self.find_chapter(id) {
            Some(i) => Ok(self.chapters[i].clone()),
            None => Err(StoreError::NotFound),
        }
    }

    /// Renames every chapter whose id matches and stamps it updated.
    pub fn rename_chapter(&mut self, id: &str, name: &str, now: &str)
        ensures
            final(self).chapters@.len() == old(self).chapters@.len(),
            forall|j: int| 0 <= j < old(self).chapters@.len() ==> final(self).chapters@[j] == (
            if old(self).chapters@[j].id@ == id@ {
                Chapter {
                    name: final(self).chapters@[j].name,
                    updated_at: final(self).chapters@[j].updated_at,
                    ..old(self).chapters@[j]
                }
            } else {
                old(self).chapters@[j]
            }),
            forall|j: int| 0 <= j < old(self).chapters@.len() && old(self).chapters@[j].id@ == id@
                ==> final(self).chapters@[j].name@ == name@ && final(self).chapters@[j].updated_at@
                == now@,
            final(self).volumes@ == old(self).volumes@,
            final(self).entities@ == old(self).entities@,
            final(self).timeline@ == old(self).timeline@,
            final(self).foreshadows@ == old(self).foreshadows@,
            final(self).arcs@ == old(self).arcs@,
            final(self).snapshots@ == old(self).snapshots@,
            final(self).trash@ == old(self).trash@,
    {
        let n = self.chapters.len();
        let mut i: usize = 0;
        while i < n
            invariant
                i <= n,
                n == self.chapters@.len(),
                self.chapters@.len() == old(self).chapters@.len(),
                forall|j: int| i <= j < n ==> self.chapters@[j] == old(self).chapters@[j],
                forall|j: int| 0 <= j < i ==> self.chapters@[j] == (
                if old(self).chapters@[j].id@ == id@ {
                    Chapter {
                        name: self.chapters@[j].name,
                        updated_at: self.chapters@[j].updated_at,
                        ..old(self).chapters@[j]
                    }
                } else {
                    old(self).chapters@[j]
                }),
                forall|j: int| 0 <= j < i && old(self).chapters@[j].id@ == id@
                    ==> self.chapters@[j].name@ == name@ && self.chapters@[j].updated_at@ == now@,
                self.volumes@ == old(self).volumes@,
                self.entities@ == old(self).entities@,
                self.timeline@ == old(self).timeline@,
                self.foreshadows@ == old(self).foreshadows@,
                self.arcs@ == old(self).arcs@,
                self.snapshots@ == old(self).snapshots@,
                self.trash@ == old(self).trash@,
            decreases n - i,
        {
            if str_eq(self.chapters[i].id.as_str(), id) {
                self.chapters[i].name = name.to_owned();
                self.chapters[i].updated_at = now.to_owned();
            }
            i = i + 1;
        }
    }

    /// Marks every chapter whose id matches with this status and stamps it
    /// updated.
    pub fn set_chapter_status(&mut self, id: &str, status: &str, now: &str)
        ensures
            final(self).chapters@.len() == old(self).chapters@.len(),
            forall|j: int| 0 <= j < old(self).chapters@.len() ==> final(self).chapters@[j] == (
            if old(self).chapters@[j].id@ == id@ {
                Chapter {
                    status: final(self).chapters@[j].status,
                    updated_at: final(self).chapters@[j].updated_at,
                    ..old(self).chapters@[j]
                }
            } else {
                old(self).chapters@[j]
            }),
            forall|j: int| 0 <= j < old(self).chapters@.len() && old(self).chapters@[j].id@ == id@
                ==> final(self).chapters@[j].status@ == status@
                    && final(self).chapters@[j].updated_at@ == now@,
            final(self).volumes@ == old(self).volumes@,
            final(self).entities@ == old(self).entities@,
            final(self).timeline@ == old(self).timeline@,
            final(self).foreshadows@ == old(self).foreshadows@,
            final(self).arcs@ == old(self).arcs@,
            final(self).snapshots@ == old(self).snapshots@,
            final(self).trash@ == old(self).trash@,
    {
        let n = self.chapters.len();
        let mut i: usize = 0;
        while i < n
            invariant
                i <= n,
                n == self.chapters@.len(),
                self.chapters@.len() == old(self).chapters@.len(),
                forall|j: int| i <= j < n ==> self.chapters@[j] == old(self).chapters@[j],
                forall|j: int| 0 <= j < i ==> self.chapters@[j] == (
                if old(self).chapters@[j].id@ == id@ {
                    Chapter {
                        status: self.chapters@[j].status,
                        updated_at: self.chapters@[j].updated_at,
                        ..old(self).chapters@[j]
                    }
                } else {
                    old(self).chapters@[j]
                }),
                forall|j: int| 0 <= j < i && old(self).chapters@[j].id@ == id@
                    ==> self.chapters@[j].status@ == status@ && self.chapters@[j].updated_at@
                    == now@,
                self.volumes@ == old(self).volumes@,
                self.entities@ == old(self).entities@,
                self.timeline@ == old(self).timeline@,
                self.foreshadows@ == old(self).foreshadows@,
                self.arcs@ == old(self).arcs@,
                self.snapshots@ == old(self).snapshots@,
                self.trash@ == old(self).trash@,
            decreases n - i,
        {
            if str_eq(self.chapters[i].id.as_str(), id) {
                self.chapters[i].status = status.to_owned();
                self.chapters[i].updated_at = now.to_owned();
            }
            i = i + 1;
        }
    }

    /// Moves every chapter whose id matches to the target volume, ordered
    /// after that volume's existing chapters, and stamps it updated.
    pub fn move_chapter(&mut self, id: &str, target_volume_id: &str, now: &str)
        requires
            ch_max_order(old(self).chapters@, target_volume_id@) < i64::MAX,
        ensures
            final(self).chapters@.len() == old(self).chapters@.len(),
            forall|j: int| 0 <= j < old(self).chapters@.len() ==> final(self).chapters@[j] == (
            if old(self).chapters@[j].id@ == id@ {
                Chapter {
                    volume_id: final(self).chapters@[j].volume_id,
                    sort_order: (ch_max_order(old(self).chapters@, target_volume_id@) + 1) as i64,
                    updated_at: final(self).chapters@[j].updated_at,
                    ..old(self).chapters@[j]
                }
            } else {
                old(self).chapters@[j]
            }),
            forall|j: int| 0 <= j < old(self).chapters@.len() && old(self).chapters@[j].id@ == id@
                ==> final(self).chapters@[j].volume_id@ == target_volume_id@
                    && final(self).chapters@[j].updated_at@ == now@,
            final(self).volumes@ == old(self).volumes@,
            final(self).entities@ == old(self).entities@,
            final(self).timeline@ == old(self).timeline@,
            final(self).foreshadows@ == old(self).foreshadows@,
            final(self).arcs@ == old(self).arcs@,
            final(self).snapshots@ == old(self).snapshots@,
            final(self).trash@ == old(self).trash@,
    {
        let ord = self.max_chapter_order(target_volume_id);
        let n = self.chapters.len();
        let mut i: usize = 0;
        while i < n
            invariant
                i <= n,
                n == self.chapters@.len(),
                self.chapters@.len() == old(self).chapters@.len(),
                forall|j: int| i <= j < n ==> self.chapters@[j] == old(self).chapters@[j],
                ord == ch_max_order(old(self).chapters@, target_volume_id@),
                ord < i64::MAX,
                forall|j: int| 0 <= j < i ==> self.chapters@[j] == (
                if old(self).chapters@[j].id@ == id@ {
                    Chapter {
                        volume_id: self.chapters@[j].volume_id,
                        sort_order: (ord + 1) as i64,
                        updated_at: self.chapters@[j].updated_at,
                        ..old(self).chapters@[j]
                    }
                } else {
                    old(self).chapters@[j]
                }),
                forall|j: int| 0 <= j < i && old(self).chapters@[j].id@ == id@
                    ==> self.chapters@[j].volume_id@ == target_volume_id@
                    && self.chapters@[j].updated_at@ == now@,
                self.volumes@ == old(self).volumes@,
                self.entities@ == old(self).entities@,
                self.timeline@ == old(self).timeline@,
                self.foreshadows@ == old(self).foreshadows@,
                self.arcs@ == old(self).arcs@,
                self.snapshots@ == old(self).snapshots@,
                self.trash@ == old(self).trash@,
            decreases n - i,
        {
            if str_eq(self.chapters[i].id.as_str(), id) {
                self.chapters[i].volume_id = target_volume_id.to_owned();
                self.chapters[i].sort_order = ord + 1;
                self.chapters[i].updated_at = now.to_owned();
            }
            i = i + 1;
        }
    }

    /// Sets the sort_order of every chapter whose id matches.
    fn set_chapter_order_all(&mut self, id: &str, ord: i64)
        ensures
            final(self).chapters@ == spec_set_chapter_order(old(self).chapters@, id@, ord),
            final(self).volumes@ == old(self).volumes@,
            final(self).entities@ == old(self).entities@,
            final(self).timeline@ == old(self).timeline@,
            final(self).foreshadows@ == old(self).foreshadows@,
            final(self).arcs@ == old(self).arcs@,
            final(self).snapshots@ == old(self).snapshots@,
            final(self).trash@ == old(self).trash@,
    {
        let n = self.chapters.len();
        let mut i: usize = 0;
        while i < n
            invariant
                i <= n,
                n == self.chapters@.len(),
                self.chapters@.len() == old(self).chapters@.len(),
                forall|j: int| i <= j < n ==> self.chapters@[j] == old(self).chapters@[j],
                forall|j: int| 0 <= j < i ==> self.chapters@[j] == spec_set_chapter_order(
                    old(self).chapters@,
                    id@,
                    ord,
                )[j],
                self.volumes@ == old(self).volumes@,
                self.entities@ == old(self).entities@,
                self.timeline@ == old(self).timeline@,
                self.foreshadows@ == old(self).foreshadows@,
                self.arcs@ == old(self).arcs@,
                self.snapshots@ == old(self).snapshots@,
                self.trash@ == old(self).trash@,
            decreases n - i,
        {
            if str_eq(self.chapters[i].id.as_str(), id) {
                self.chapters[i].sort_order = ord;
            }
            i = i + 1;
        }
        proof {
            assert(self.chapters@ =~= spec_set_chapter_order(old(self).chapters@, id@, ord));
        }
    }

    /// Reassigns chapter ordering: the chapter named by `ids[k]` gets
    /// sort_order `k`. Ids that name no chapter change nothing.
    pub fn reorder_chapters(&mut self, ids: &Vec<String>)
        requires
            ids@.len() <= i64::MAX,
        ensures
            final(self).chapters@ == spec_reorder_chapters(old(self).chapters@, ids@, 0),
            final(self).volumes@ == old(self).volumes@,
            final(self).entities@ == old(self).entities@,
            final(self).timeline@ == old(self).timeline@,
            final(self).foreshadows@ == old(self).foreshadows@,
            final(self).arcs@ == old(self).arcs@,
            final(self).snapshots@ == old(self).snapshots@,
            final(self).trash@ == old(self).trash@,
    {
        let mut i: usize = 0;
        while i < ids.len()
            invariant
                i <= ids@.len(),
                ids@.len() <= i64::MAX,
                spec_reorder_chapters(old(self).chapters@, ids@, 0) == spec_reorder_chapters(
                    self.chapters@,
                    ids@,
                    i as int,
                ),
                self.volumes@ == old(self).volumes@,
                self.entities@ == old(self).entities@,
                self.timeline@ == old(self).timeline@,
                self.foreshadows@ == old(self).foreshadows@,
                self.arcs@ == old(self).arcs@,
                self.snapshots@ == old(self).snapshots@,
                self.trash@ == old(self).trash@,
            decreases ids@.len() - i,
        {
            self.set_chapter_order_all(ids[i].as_str(), i as i64);
            i = i + 1;
        }
    }

    // -----------------------------------------------------------------------
    // Entities
    // -----------------------------------------------------------------------
    /// Creates a living entity and returns it. Its identifier is freshly
    /// generated.
    pub fn create_entity(
        &mut self,
        name: &str,
        entity_type: &str,
        attributes_json: &str,
        inbox: bool,
        now: &str,
    ) -> (r: Entity)
        ensures
            final(self).entities@ == old(self).entities@.push(r),
            r.name@ == name@,
            r.entity_type@ == entity_type@,
            r.attributes_json@ == attributes_json@,
            r.status@ == "alive"@,
            r.inbox == inbox,
            r.first_chapter_id is None,
            r.last_chapter_id is None,
            r.created_at@ == now@,
            r.updated_at@ == now@,
            r.id@.len() == 36,
            final(self).volumes@ == old(self).volumes@,
            final(self).chapters@ == old(self).chapters@,
            final(self).timeline@ == old(self).timeline@,
            final(self).foreshadows@ == old(self).foreshadows@,
            final(self).arcs@ == old(self).arcs@,
            final(self).snapshots@ == old(self).snapshots@,
            final(self).trash@ == old(self).trash@,
    {
        let e = Entity {
            id: fresh_id(),
            name: name.to_owned(),
            entity_type: entity_type.to_owned(),
            attributes_json: attributes_json.to_owned(),
            status: "alive".to_owned(),
            inbox,
            first_chapter_id: None,
            last_chapter_id: None,
            created_at: now.to_owned(),
            updated_at: now.to_owned(),
        };
        let out = e.clone();
        self.entities.push(e);
        out
    }

    /// The entities passing the optional type and inbox filters, newest
    /// creation first (stamp order; equal stamps keep table order).
    pub fn list_entities(&self, entity_type: Option<&str>, inbox_only: Option<bool>) -> (r: Vec<
        Entity,
    >)
        ensures
            r@ == crate::seqext::spec_sort_desc(
                self.entities@.filter(
                    |e: Entity|
                        (match entity_type {
                            Some(t) => e.entity_type@ == t@,
                            None => true,
                        }) && (match inbox_only {
                            Some(true) => e.inbox,
                            _ => true,
                        }),
                ),
                |e: Entity| e.created_at@,
            ),
            forall|a: int, b: int| 0 <= a < b < r@.len() ==> crate::strutil::lex_le(
                (#[trigger] r@[b]).created_at@,
                (#[trigger] r@[a]).created_at@,
            ),
    {
        let ghost pred = |e: Entity|
            (match entity_type {
                Some(t) => e.entity_type@ == t@,
                None => true,
            }) && (match inbox_only {
                Some(true) => e.inbox,
                _ => true,
            });
        let ghost key = |e: Entity| e.created_at@;
        let mut matched: Vec<Entity> = Vec::new();
        let mut i: usize = 0;
        proof {
            reveal(Seq::filter);
            assert(self.entities@.take(0) =~= Seq::<Entity>::empty());
        }
        while i < self.entities.len()
            invariant
                i <= self.entities@.len(),
                matched@ == self.entities@.take(i as int).filter(pred),
                pred == (|e: Entity|
                    (match entity_type {
                        Some(t) => e.entity_type@ == t@,
                        None => true,
                    }) && (match inbox_only {
                        Some(true) => e.inbox,
                        _ => true,
                    })),
            decreases self.entities@.len() - i,
        {
            proof {
                reveal(Seq::filter);
                assert(self.entities@.take(i + 1).drop_last() =~= self.entities@.take(i as int));
                assert(self.entities@.take(i + 1).last() == self.entities@[i as int]);
            }
            let e = &self.entities[i];
            let keep_type = match entity_type {
                Some(t) => str_eq(e.entity_type.as_str(), t),
                None => true,
            };
            let keep_inbox = match inbox_only {
                Some(true) => e.inbox,
                _ => true,
            };
            if keep_type && keep_inbox {
                matched.push(e.clone());
            }
            i = i + 1;
        }
        proof {
            assert(self.entities@.take(self.entities@.len() as int) =~= self.entities@);
        }
        let mut out: Vec<Entity> = Vec::new();
        let mut k: usize = 0;
        proof {
            assert(matched@.take(0) =~= Seq::<Entity>::empty());
            assert(crate::seqext::spec_sort_desc(matched@.take(0), key) =~= Seq::<
                Entity,
            >::empty());
        }
        while k < matched.len()
            invariant
                k <= matched@.len(),
                key == (|e: Entity| e.created_at@),
                matched@ == self.entities@.filter(pred),
                pred == (|e: Entity|
                    (match entity_type {
                        Some(t) => e.entity_type@ == t@,
                        None => true,
                    }) && (match inbox_only {
                        Some(true) => e.inbox,
                        _ => true,
                    })),
                out@ == crate::seqext::spec_sort_desc(matched@.take(k as int), key),
            decreases matched@.len() - k,
        {
            proof {
                assert(matched@.take(k + 1).drop_last() =~= matched@.take(k as int));
                assert(matched@.take(k + 1).last() == matched@[k as int]);
            }
            out = insert_entity_desc(out, matched[k].clone());
            k = k + 1;
        }
        proof {
            assert(matched@.take(matched@.len() as int) =~= matched@);
            crate::seqext::lemma_sort_desc(self.entities@.filter(pred), key);
        }
        out
    }

    /// The first entity with this id.
    pub fn get_entity(&self, id: &str) -> (r: Result<Entity, StoreError>)
        ensures
            r is Ok <==> entity_found(self.entities@, id@),
            forall|i: int| is_first_entity_idx(self.entities@, id@, i) ==> r == Ok::<
                Entity,
                StoreError,
            >(self.entities@[i]),
            r is Err ==> r == Err::<Entity, StoreError>(StoreError::NotFound),
    {
        match self.find_entity(id) {
            Some(i) => Ok(self.entities[i].clone()),
            None => Err(StoreError::NotFound),
        }
    }

    /// Applies each given field to every entity whose id matches, stamping
    /// it updated when anything was given; ids that name nothing change
    /// nothing.
    pub fn update_entity(
        &mut self,
        id: &str,
        name: Option<&str>,
        attributes_json: Option<&str>,
        status: Option<&str>,
        inbox: Option<bool>,
        now: &str,
    )
        ensures
            final(self).entities@.len() == old(self).entities@.len(),
            forall|j: int| 0 <= j < old(self).entities@.len() ==> final(self).entities@[j] == (
            if old(self).entities@[j].id@ == id@ {
                Entity {
                    name: final(self).entities@[j].name,
                    attributes_json: final(self).entities@[j].attributes_json,
                    status: final(self).entities@[j].status,
                    inbox: final(self).entities@[j].inbox,
                    updated_at: final(self).entities@[j].updated_at,
                    ..old(self).entities@[j]
                }
            } else {
                old(self).entities@[j]
            }),
            forall|j: int| 0 <= j < old(self).entities@.len() && old(self).entities@[j].id@ == id@
                ==> {
                    &&& (match name {
                        Some(v) => final(self).entities@[j].name@ == v@,
                        None => final(self).entities@[j].name == old(self).entities@[j].name,
                    })
                    &&& (match attributes_json {
                        Some(v) => final(self).entities@[j].attributes_json@ == v@,
                        None => final(self).entities@[j].attributes_json == old(
                            self,
                        ).entities@[j].attributes_json,
                    })
                    &&& (match status {
                        Some(v) => final(self).entities@[j].status@ == v@,
                        None => final(self).entities@[j].status == old(self).entities@[j].status,
                    })
                    &&& (match inbox {
                        Some(v) => final(self).entities@[j].inbox == v,
                        None => final(self).entities@[j].inbox == old(self).entities@[j].inbox,
                    })
                    &&& ((name is Some || attributes_json is Some || status is Some
                        || inbox is Some) ==> final(self).entities@[j].updated_at@ == now@)
                    &&& ((name is None && attributes_json is None && status is None
                        && inbox is None) ==> final(self).entities@[j] == old(self).entities@[j])
                },
            final(self).volumes@ == old(self).volumes@,
            final(self).chapters@ == old(self).chapters@,
            final(self).timeline@ == old(self).timeline@,
            final(self).foreshadows@ == old(self).foreshadows@,
            final(self).arcs@ == old(self).arcs@,
            final(self).snapshots@ == old(self).snapshots@,
            final(self).trash@ == old(self).trash@,
    {
        let n = self.entities.len();
        let mut i: usize = 0;
        while i < n
            invariant
                i <= n,
                n == self.entities@.len(),
                self.entities@.len() == old(self).entities@.len(),
                forall|j: int| i <= j < n ==> self.entities@[j] == old(self).entities@[j],
                forall|j: int| 0 <= j < i ==> self.entities@[j] == (
                if old(self).entities@[j].id@ == id@ {
                    Entity {
                        name: self.entities@[j].name,
                        attributes_json: self.entities@[j].attributes_json,
                        status: self.entities@[j].status,
                        inbox: self.entities@[j].inbox,
                        updated_at: self.entities@[j].updated_at,
                        ..old(self).entities@[j]
                    }
                } else {
                    old(self).entities@[j]
                }),
                forall|j: int| 0 <= j < i && old(self).entities@[j].id@ == id@ ==> {
                    &&& (match name {
                        Some(v) => self.entities@[j].name@ == v@,
                        None => self.entities@[j].name == old(self).entities@[j].name,
                    })
                    &&& (match attributes_json {
                        Some(v) => self.entities@[j].attributes_json@ == v@,
                        None => self.entities@[j].attributes_json == old(
                            self,
                        ).entities@[j].attributes_json,
                    })
                    &&& (match status {
                        Some(v) => self.entities@[j].status@ == v@,
                        None => self.entities@[j].status == old(self).entities@[j].status,
                    })
                    &&& (match inbox {
                        Some(v) => self.entities@[j].inbox == v,
                        None => self.entities@[j].inbox == old(self).entities@[j].inbox,
                    })
                    &&& ((name is Some || attributes_json is Some || status is Some
                        || inbox is Some) ==> self.entities@[j].updated_at@ == now@)
                    &&& ((name is None && attributes_json is None && status is None
                        && inbox is None) ==> self.entities@[j] == old(self).entities@[j])
                },
                self.volumes@ == old(self).volumes@,
                self.chapters@ == old(self).chapters@,
                self.timeline@ == old(self).timeline@,
                self.foreshadows@ == old(self).foreshadows@,
                self.arcs@ == old(self).arcs@,
                self.snapshots@ == old(self).snapshots@,
                self.trash@ == old(self).trash@,
            decreases n - i,
        {
            if str_eq(self.entities[i].id.as_str(), id) {
                let mut touched = false;
                match name {
                    Some(v) => {
                        self.entities[i].name = v.to_owned();
                        touched = true;
                    },
                    None => {},
                }
                match attributes_json {
                    Some(v) => {
                        self.entities[i].attributes_json = v.to_owned();
                        touched = true;
                    },
                    None => {},
                }
                match status {
                    Some(v) => {
                        self.entities[i].status = v.to_owned();
                        touched = true;
                    },
                    None => {},
                }
                match inbox {
                    Some(v) => {
                        self.entities[i].inbox = v;
                        touched = true;
                    },
                    None => {},
                }
                if touched {
                    self.entities[i].updated_at = now.to_owned();
                }
            }
            i = i + 1;
        }
    }

    // -----------------------------------------------------------------------
    // Foreshadows
    // -----------------------------------------------------------------------
    /// Creates an open foreshadow marker and returns it. Its identifier is
    /// freshly generated.
    pub fn create_foreshadow(
        &mut self,
        description: &str,
        plant_chapter_id: Option<&str>,
        now: &str,
    ) -> (r: Foreshadow)
        ensures
            final(self).foreshadows@ == old(self).foreshadows@.push(r),
            r.description@ == description@,
            (match plant_chapter_id {
                Some(v) => r.plant_chapter_id matches Some(p) && p@ == v@,
                None => r.plant_chapter_id is None,
            }),
            r.reap_chapter_id is None,
            r.status@ == "open"@,
            r.created_at@ == now@,
            r.updated_at@ == now@,
            r.id@.len() == 36,
            final(self).volumes@ == old(self).volumes@,
            final(self).chapters@ == old(self).chapters@,
            final(self).entities@ == old(self).entities@,
            final(self).timeline@ == old(self).timeline@,
            final(self).arcs@ == old(self).arcs@,
            final(self).snapshots@ == old(self).snapshots@,
            final(self).trash@ == old(self).trash@,
    {
        let f = Foreshadow {
            id: fresh_id(),
            description: description.to_owned(),
            plant_chapter_id: match plant_chapter_id {
                Some(v) => Some(v.to_owned()),
                None => None,
            },
            reap_chapter_id: None,
            status: "open".to_owned(),
            created_at: now.to_owned(),
            updated_at: now.to_owned(),
        };
        let out = f.clone();
        self.foreshadows.push(f);
        out
    }

    /// Every foreshadow marker, newest creation first (stamp order;
    /// equal stamps keep table order).
    pub fn list_foreshadows(&self) -> (r: Vec<Foreshadow>)
        ensures
            r@ == crate::seqext::spec_sort_desc(
                self.foreshadows@,
                |f: Foreshadow| f.created_at@,
            ),
            r@.len() == self.foreshadows@.len(),
            forall|a: int, b: int| 0 <= a < b < r@.len() ==> crate::strutil::lex_le(
                (#[trigger] r@[b]).created_at@,
                (#[trigger] r@[a]).created_at@,
            ),
    {
        let ghost key = |f: Foreshadow| f.created_at@;
        let mut out: Vec<Foreshadow> = Vec::new();
        let mut i: usize = 0;
        proof {
            assert(self.foreshadows@.take(0) =~= Seq::<Foreshadow>::empty());
            assert(crate::seqext::spec_sort_desc(self.foreshadows@.take(0), key) =~= Seq::<
                Foreshadow,
            >::empty());
        }
        while i < self.foreshadows.len()
            invariant
                i <= self.foreshadows@.len(),
                key == (|f: Foreshadow| f.created_at@),
                out@ == crate::seqext::spec_sort_desc(self.foreshadows@.take(i as int), key),
            decreases self.foreshadows@.len() - i,
        {
            proof {
                assert(self.foreshadows@.take(i + 1).drop_last() =~= self.foreshadows@.take(
                    i as int,
                ));
                assert(self.foreshadows@.take(i + 1).last() == self.foreshadows@[i as int]);
            }
            out = insert_foreshadow_desc(out, self.foreshadows[i].clone());
            i = i + 1;
        }
        proof {
            assert(self.foreshadows@.take(self.foreshadows@.len() as int) =~= self.foreshadows@);
            crate::seqext::lemma_sort_desc(self.foreshadows@, key);
        }
        out
    }

    /// Marks every foreshadow whose id matches as resolved by the given
    /// chapter and stamps it updated.
    pub fn resolve_foreshadow(&mut self, id: &str, reap_chapter_id: &str, now: &str)
        ensures
            final(self).foreshadows@.len() == old(self).foreshadows@.len(),
            forall|j: int| 0 <= j < old(self).foreshadows@.len() ==> final(self).foreshadows@[j]
                == (if old(self).foreshadows@[j].id@ == id@ {
                Foreshadow {
                    status: final(self).foreshadows@[j].status,
                    reap_chapter_id: final(self).foreshadows@[j].reap_chapter_id,
                    updated_at: final(self).foreshadows@[j].updated_at,
                    ..old(self).foreshadows@[j]
                }
            } else {
                old(self).foreshadows@[j]
            }),
            forall|j: int|
                0 <= j < old(self).foreshadows@.len() && old(self).foreshadows@[j].id@ == id@
                    ==> final(self).foreshadows@[j].status@ == "resolved"@
                    && (final(self).foreshadows@[j].reap_chapter_id matches Some(p) && p@
                    == reap_chapter_id@) && final(self).foreshadows@[j].updated_at@ == now@,
            final(self).volumes@ == old(self).volumes@,
            final(self).chapters@ == old(self).chapters@,
            final(self).entities@ == old(self).entities@,
            final(self).timeline@ == old(self).timeline@,
            final(self).arcs@ == old(self).arcs@,
            final(self).snapshots@ == old(self).snapshots@,
            final(self).trash@ == old(self).trash@,
    {
        let n = self.foreshadows.len();
        let mut i: usize = 0;
        while i < n
            invariant
                i <= n,
                n == self.foreshadows@.len(),
                self.foreshadows@.len() == old(self).foreshadows@.len(),
                forall|j: int| i <= j < n ==> self.foreshadows@[j] == old(self).foreshadows@[j],
                forall|j: int| 0 <= j < i ==> self.foreshadows@[j] == (
                if old(self).foreshadows@[j].id@ == id@ {
                    Foreshadow {
                        status: self.foreshadows@[j].status,
                        reap_chapter_id: self.foreshadows@[j].reap_chapter_id,
                        updated_at: self.foreshadows@[j].updated_at,
                        ..old(self).foreshadows@[j]
                    }
                } else {
                    old(self).foreshadows@[j]
                }),
                forall|j: int| 0 <= j < i && old(self).foreshadows@[j].id@ == id@
                    ==> self.foreshadows@[j].status@ == "resolved"@ && (
                    self.foreshadows@[j].reap_chapter_id matches Some(p) && p@ == reap_chapter_id@)
                    && self.foreshadows@[j].updated_at@ == now@,
                self.volumes@ == old(self).volumes@,
                self.chapters@ == old(self).chapters@,
                self.entities@ == old(self).entities@,
                self.timeline@ == old(self).timeline@,
                self.arcs@ == old(self).arcs@,
                self.snapshots@ == old(self).snapshots@,
                self.trash@ == old(self).trash@,
            decreases n - i,
        {
            if str_eq(self.foreshadows[i].id.as_str(), id) {
                self.foreshadows[i].status = "resolved".to_owned();
                self.foreshadows[i].reap_chapter_id = Some(reap_chapter_id.to_owned());
                self.foreshadows[i].updated_at = now.to_owned();
            }
            i = i + 1;
        }
    }

    /// Deletes every foreshadow whose id matches; no trash copy is kept.
    pub fn delete_foreshadow(&mut self, id: &str)
        ensures
            final(self).foreshadows@ == old(self).foreshadows@.filter(
                |f: Foreshadow| f.id@ != id@,
            ),
            final(self).volumes@ == old(self).volumes@,
            final(self).chapters@ == old(self).chapters@,
            final(self).entities@ == old(self).entities@,
            final(self).timeline@ == old(self).timeline@,
            final(self).arcs@ == old(self).arcs@,
            final(self).snapshots@ == old(self).snapshots@,
            final(self).trash@ == old(self).trash@,
    {
        let ghost pred = |f: Foreshadow| f.id@ != id@;
        let mut kept: Vec<Foreshadow> = Vec::new();
        let mut i: usize = 0;
        proof {
            reveal(Seq::filter);
            assert(self.foreshadows@.take(0) =~= Seq::<Foreshadow>::empty());
        }
        while i < self.foreshadows.len()
            invariant
                i <= self.foreshadows@.len(),
                kept@ == self.foreshadows@.take(i as int).filter(pred),
                pred == (|f: Foreshadow| f.id@ != id@),
            decreases self.foreshadows@.len() - i,
        {
            proof {
                reveal(Seq::filter);
                assert(self.foreshadows@.take(i + 1).drop_last() =~= self.foreshadows@.take(
                    i as int,
                ));
                assert(self.foreshadows@.take(i + 1).last() == self.foreshadows@[i as int]);
            }
            if !str_eq(self.foreshadows[i].id.as_str(), id) {
                kept.push(self.foreshadows[i].clone());
            }
            i = i + 1;
        }
        proof {
            assert(self.foreshadows@.take(self.foreshadows@.len() as int) =~= self.foreshadows@);
        }
        self.foreshadows = kept;
    }
}

} // verus!
