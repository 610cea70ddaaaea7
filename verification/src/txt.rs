//! Plain-text transfer: composing a whole project as one text, and
//! splitting an imported text into chapters.
//!
//! The file reads and writes around these functions are the caller's;
//! what is verified here is the exact text produced and the exact
//! partition of an imported text.

use vstd::prelude::*;
use vstd::string::StrSliceExecFns;
use vstd::string::StringExecFns;
use crate::records::{Chapter, Volume};
use crate::project::{chapters_of, spec_sort_chapters, spec_sort_volumes, ProjectStore};
use crate::strutil::{ltrim, rtrim, str_eq, str_trim};
use crate::ident::fresh_id;
use crate::numfmt::{dec_string, spec_dec};

verus! {

/// One chapter as exported text: its name, a blank line, its content, a
/// blank line.
pub open spec fn spec_chapter_block(c: Chapter) -> Seq<char> {
    c.name@ + seq!['\n', '\n'] + c.content@ + seq!['\n', '\n']
}

/// One volume's heading as exported text.
pub open spec fn spec_volume_header(v: Volume) -> Seq<char> {
    seq!['【'] + v.name@ + seq!['】', '\n', '\n']
}

/// The blocks of a run of chapters, in the order given.
pub open spec fn spec_blocks(chs: Seq<Chapter>) -> Seq<char>
    decreases chs.len(),
{
    if chs.len() == 0 {
        Seq::empty()
    } else {
        spec_chapter_block(chs[0]) + spec_blocks(chs.skip(1))
    }
}

/// The whole export: per volume, its heading then its chapters in
/// ascending sort_order.
pub open spec fn spec_export_from(vols: Seq<Volume>, chs: Seq<Chapter>) -> Seq<char>
    decreases vols.len(),
{
    if vols.len() == 0 {
        Seq::empty()
    } else {
        spec_volume_header(vols[0]) + spec_blocks(
            spec_sort_chapters(chapters_of(chs, vols[0].id@)),
        ) + spec_export_from(vols.skip(1), chs)
    }
}

impl ProjectStore {
    /// Composes the whole project as one text: each volume's bracketed
    /// heading followed by its chapters' names and contents, blank-line
    /// separated — volumes and chapters both in ascending sort_order,
    /// equal orders in table order.
    pub fn export_txt(&self) -> (r: String)
        ensures
            r@ == spec_export_from(spec_sort_volumes(self.volumes@), self.chapters@),
    {
        let ghost target = spec_export_from(spec_sort_volumes(self.volumes@), self.chapters@);
        let vols = self.list_volumes();
        let mut out = String::new();
        let mut i: usize = 0;
        proof {
            assert(vols@.skip(0) =~= vols@);
            assert(out@ + spec_export_from(vols@, self.chapters@) =~= target);
        }
        while i < vols.len()
            invariant
                i <= vols@.len(),
                vols@ == spec_sort_volumes(self.volumes@),
                target == spec_export_from(spec_sort_volumes(self.volumes@), self.chapters@),
                out@ + spec_export_from(vols@.skip(i as int), self.chapters@) == target,
            decreases vols@.len() - i,
        {
            proof {
                assert(vols@.skip(i as int)[0] == vols@[i as int]);
                assert(vols@.skip(i as int).skip(1) =~= vols@.skip(i + 1));
            }
            let ghost out0 = out@;
            let ghost vid = vols@[i as int].id@;
            let ghost rest = spec_blocks(spec_sort_chapters(chapters_of(self.chapters@, vid)))
                + spec_export_from(vols@.skip(i + 1), self.chapters@);
            out.append("【");
            out.append(vols[i].name.as_str());
            out.append("】\n\n");
            proof {
                reveal_strlit("【");
                reveal_strlit("】\n\n");
                assert("【"@ =~= seq!['【']);
                assert("】\n\n"@ =~= seq!['】', '\n', '\n']);
                assert(out0 + (spec_volume_header(vols@[i as int]) + rest) =~= (out0
                    + spec_volume_header(vols@[i as int])) + rest);
                assert(out@ =~= out0 + spec_volume_header(vols@[i as int]));
            }
            let chs = self.list_chapters(vols[i].id.as_str());
            let mut j: usize = 0;
            proof {
                assert(chs@.skip(0) =~= chs@);
                assert(out@ + spec_blocks(chs@) + spec_export_from(
                    vols@.skip(i + 1),
                    self.chapters@,
                ) =~= target);
            }
            while j < chs.len()
                invariant
                    j <= chs@.len(),
                    i < vols@.len(),
                    target == spec_export_from(
                        spec_sort_volumes(self.volumes@),
                        self.chapters@,
                    ),
                    vols@ == spec_sort_volumes(self.volumes@),
                    out@ + spec_blocks(chs@.skip(j as int)) + spec_export_from(
                        vols@.skip(i + 1),
                        self.chapters@,
                    ) == target,
                decreases chs@.len() - j,
            {
                proof {
                    assert(chs@.skip(j as int)[0] == chs@[j as int]);
                    assert(chs@.skip(j as int).skip(1) =~= chs@.skip(j + 1));
                }
                let ghost outj = out@;
                let ch = &chs[j];
                out.append(ch.name.as_str());
                out.append("\n\n");
                out.append(ch.content.as_str());
                out.append("\n\n");
                proof {
                    reveal_strlit("\n\n");
                    assert("\n\n"@ =~= seq!['\n', '\n']);
                    assert(out@ =~= outj + spec_chapter_block(chs@[j as int]));
                    assert(out@ + spec_blocks(chs@.skip(j + 1)) + spec_export_from(
                        vols@.skip(i + 1),
                        self.chapters@,
                    ) =~= target);
                }
                j = j + 1;
            }
            proof {
                assert(chs@.skip(chs@.len() as int) =~= Seq::<Chapter>::empty());
                assert(out@ + spec_export_from(vols@.skip(i + 1), self.chapters@) =~= target);
            }
            i = i + 1;
        }
        proof {
            assert(vols@.skip(vols@.len() as int) =~= Seq::<Volume>::empty());
            assert(out@ + Seq::<char>::empty() =~= out@);
        }
        out
    }
}

// ---------------------------------------------------------------------------
// Import: splitting a text into chapters
// ---------------------------------------------------------------------------
/// The views of a vector of strings.
pub open spec fn seq_views(v: Seq<String>) -> Seq<Seq<char>> {
    Seq::new(v.len(), |k: int| v[k]@)
}

/// The raw segments of `s`, split at every blank line (two consecutive
/// newlines, leftmost first); `acc` is the piece already read.
pub open spec fn spec_segments(s: Seq<char>, acc: Seq<char>) -> Seq<Seq<char>>
    decreases s.len(),
{
    if s.len() == 0 {
        seq![acc]
    } else if s.len() >= 2 && s[0] == '\n' && s[1] == '\n' {
        seq![acc] + spec_segments(s.skip(2), Seq::empty())
    } else {
        spec_segments(s.skip(1), acc.push(s[0]))
    }
}

/// The segments that survive trimming, each trimmed.
pub open spec fn spec_kept(segs: Seq<Seq<char>>) -> Seq<Seq<char>>
    decreases segs.len(),
{
    if segs.len() == 0 {
        Seq::empty()
    } else {
        let t = rtrim(ltrim(segs[0]));
        if t.len() == 0 {
            spec_kept(segs.skip(1))
        } else {
            seq![t] + spec_kept(segs.skip(1))
        }
    }
}

/// The chapters an imported text yields: its blank-line-separated
/// paragraphs, trimmed, empty ones dropped, in order.
pub open spec fn spec_paragraphs(s: Seq<char>) -> Seq<Seq<char>> {
    spec_kept(spec_segments(s, Seq::empty()))
}

/// Trimming never lengthens a sequence.
proof fn lemma_trim_len(s: Seq<char>)
    ensures
        ltrim(s).len() <= s.len(),
        rtrim(s).len() <= s.len(),
    decreases s.len(),
{
    if s.len() > 0 {
        lemma_trim_len(s.skip(1));
        lemma_trim_len(s.drop_last());
    }
}

/// Every raw segment is no longer than the accumulator plus the text.
proof fn lemma_segment_len(s: Seq<char>, acc: Seq<char>)
    ensures
        forall|k: int| 0 <= k < spec_segments(s, acc).len() ==> (#[trigger] spec_segments(
            s,
            acc,
        )[k]).len() <= acc.len() + s.len(),
        spec_segments(s, acc).len() <= s.len() + 1,
    decreases s.len(),
{
    if s.len() == 0 {
    } else if s.len() >= 2 && s[0] == '\n' && s[1] == '\n' {
        lemma_segment_len(s.skip(2), Seq::empty());
    } else {
        lemma_segment_len(s.skip(1), acc.push(s[0]));
    }
}

/// Kept paragraphs inherit a length bound from the raw segments, and
/// there are no more of them.
proof fn lemma_kept_len(segs: Seq<Seq<char>>, bound: int)
    requires
        forall|k: int| 0 <= k < segs.len() ==> (#[trigger] segs[k]).len() <= bound,
    ensures
        forall|k: int| 0 <= k < spec_kept(segs).len() ==> (#[trigger] spec_kept(segs)[k]).len()
            <= bound,
        spec_kept(segs).len() <= segs.len(),
    decreases segs.len(),
{
    if segs.len() > 0 {
        lemma_trim_len(segs[0]);
        lemma_trim_len(ltrim(segs[0]));
        lemma_kept_len(segs.skip(1), bound);
    }
}

/// Every kept paragraph of a text fits inside it, and a text yields at
/// most one more paragraph than its length.
pub proof fn lemma_paragraph_len(s: Seq<char>)
    ensures
        forall|k: int| 0 <= k < spec_paragraphs(s).len() ==> (#[trigger] spec_paragraphs(
            s,
        )[k]).len() <= s.len(),
        spec_paragraphs(s).len() <= s.len() + 1,
{
    lemma_segment_len(s, Seq::empty());
    lemma_kept_len(spec_segments(s, Seq::empty()), s.len() as int);
}

/// Splits an imported text into chapter contents: paragraphs separated
/// by blank lines, trimmed, empty ones dropped, in order.
pub fn split_paragraphs(content: &str) -> (r: Vec<String>)
    ensures
        seq_views(r@) == spec_paragraphs(content@),
        r@.len() == spec_paragraphs(content@).len(),
        forall|k: int| 0 <= k < r@.len() ==> (#[trigger] r@[k])@ == spec_paragraphs(content@)[k],
{
    let n = content.unicode_len();
    let mut segs: Vec<String> = Vec::new();
    let mut seg_start: usize = 0;
    let mut i: usize = 0;
    proof {
        assert(content@.skip(0) =~= content@);
        assert(content@.subrange(0, 0) =~= Seq::<char>::empty());
        assert(seq_views(segs@) + spec_segments(content@, Seq::empty()) =~= spec_segments(
            content@,
            Seq::empty(),
        ));
    }
    while i < n
        invariant
            seg_start <= i <= n,
            n == content@.len(),
            spec_segments(content@, Seq::empty()) == seq_views(segs@) + spec_segments(
                content@.skip(i as int),
                content@.subrange(seg_start as int, i as int),
            ),
        decreases n - i,
    {
        proof {
            assert(content@.skip(i as int)[0] == content@[i as int]);
            assert(content@.skip(i as int).skip(1) =~= content@.skip(i + 1));
            if i + 1 < n {
                assert(content@.skip(i as int)[1] == content@[i + 1]);
                assert(content@.skip(i as int).skip(2) =~= content@.skip(i + 2));
            }
        }
        let c = content.get_char(i);
        let is_sep = if (c as u32) == 10 && i + 1 < n {
            (content.get_char(i + 1) as u32) == 10
        } else {
            false
        };
        if is_sep {
            let ghost segs0 = segs@;
            let ghost acc = content@.subrange(seg_start as int, i as int);
            let seg = content.substring_char(seg_start, i).to_owned();
            segs.push(seg);
            proof {
                assert(seq_views(segs@) =~= seq_views(segs0).push(acc));
                assert(spec_segments(content@.skip(i as int), acc) == seq![acc]
                    + spec_segments(content@.skip(i + 2), Seq::empty()));
                assert(seq_views(segs0) + (seq![acc] + spec_segments(
                    content@.skip(i + 2),
                    Seq::empty(),
                )) =~= seq_views(segs0).push(acc) + spec_segments(
                    content@.skip(i + 2),
                    Seq::empty(),
                ));
                assert(content@.subrange(i + 2, i + 2) =~= Seq::<char>::empty());
            }
            i = i + 2;
            seg_start = i;
        } else {
            proof {
                assert(content@.subrange(seg_start as int, i as int).push(content@[i as int])
                    =~= content@.subrange(seg_start as int, i + 1));
            }
            i = i + 1;
        }
    }
    let ghost segs0 = segs@;
    let ghost acc = content@.subrange(seg_start as int, n as int);
    let last = content.substring_char(seg_start, n).to_owned();
    segs.push(last);
    proof {
        assert(content@.skip(n as int).len() == 0);
        assert(spec_segments(content@.skip(n as int), acc) == seq![acc]);
        assert(seq_views(segs@) =~= seq_views(segs0).push(acc));
        assert(seq_views(segs0) + seq![acc] =~= seq_views(segs0).push(acc));
        assert(seq_views(segs@) == spec_segments(content@, Seq::empty()));
    }
    let mut out: Vec<String> = Vec::new();
    let mut k: usize = 0;
    proof {
        assert(seq_views(segs@).skip(0) =~= seq_views(segs@));
        assert(seq_views(out@) + spec_kept(seq_views(segs@)) =~= spec_kept(seq_views(segs@)));
    }
    while k < segs.len()
        invariant
            k <= segs@.len(),
            seq_views(segs@) == spec_segments(content@, Seq::empty()),
            spec_kept(seq_views(segs@)) == seq_views(out@) + spec_kept(
                seq_views(segs@).skip(k as int),
            ),
        decreases segs@.len() - k,
    {
        proof {
            assert(seq_views(segs@).skip(k as int)[0] == segs@[k as int]@);
            assert(seq_views(segs@).skip(k as int).skip(1) =~= seq_views(segs@).skip(k + 1));
        }
        let ghost out0 = out@;
        let t = str_trim(segs[k].as_str());
        if !t.as_str().is_empty() {
            let ghost tv = t@;
            out.push(t);
            proof {
                assert(seq_views(out@) =~= seq_views(out0).push(tv));
                assert(seq_views(out0) + (seq![tv] + spec_kept(seq_views(segs@).skip(k + 1)))
                    =~= seq_views(out0).push(tv) + spec_kept(seq_views(segs@).skip(k + 1)));
            }
        }
        k = k + 1;
    }
    proof {
        assert(seq_views(segs@).skip(segs@.len() as int) =~= Seq::<Seq<char>>::empty());
        assert(seq_views(out@) + Seq::<Seq<char>>::empty() =~= seq_views(out@));
    }
    out
}

impl ProjectStore {
    /// Imports a text as one new volume: each trimmed, non-empty,
    /// blank-line-separated paragraph becomes one draft chapter, numbered
    /// in reading order; the volume is ordered after every existing one.
    pub fn import_txt(&mut self, volume_name: &str, content: &str, now: &str) -> (r: Volume)
        requires
            crate::project::vol_max_order(old(self).volumes@) < i64::MAX,
            content@.len() <= i64::MAX,
        ensures
            final(self).volumes@ == old(self).volumes@.push(r),
            r.name@ == volume_name@,
            r.created_at@ == now@,
            r.sort_order == crate::project::vol_max_order(old(self).volumes@) + 1,
            r.id@.len() == 36,
            ({
                let paras = spec_paragraphs(content@);
                &&& final(self).chapters@.len() == old(self).chapters@.len() + paras.len()
                &&& final(self).chapters@.take(old(self).chapters@.len() as int) == old(
                    self,
                ).chapters@
                &&& forall|k: int| 0 <= k < paras.len() ==> ({
                    let c = #[trigger] final(self).chapters@[old(self).chapters@.len() + k];
                    &&& c.volume_id == r.id
                    &&& c.name@ == seq!['第'] + spec_dec((k + 1) as nat) + seq!['章']
                    &&& c.content@ == paras[k]
                    &&& c.l2_summary is None
                    &&& c.l3_title is None
                    &&& c.status@ == "draft"@
                    &&& c.word_count == paras[k].len()
                    &&& c.sort_order == k
                    &&& c.created_at@ == now@
                    &&& c.updated_at@ == now@
                })
            }),
            final(self).entities@ == old(self).entities@,
            final(self).timeline@ == old(self).timeline@,
            final(self).foreshadows@ == old(self).foreshadows@,
            final(self).arcs@ == old(self).arcs@,
            final(self).snapshots@ == old(self).snapshots@,
            final(self).trash@ == old(self).trash@,
    {
        let vol = self.create_volume(volume_name, now);
        let paras = split_paragraphs(content);
        proof {
            lemma_paragraph_len(content@);
        }
        let ghost chaps0 = self.chapters@;
        let mut k: usize = 0;
        proof {
            assert(self.chapters@.take(chaps0.len() as int) =~= chaps0);
        }
        while k < paras.len()
            invariant
                k <= paras@.len(),
                paras@.len() == spec_paragraphs(content@).len(),
                forall|j: int| 0 <= j < paras@.len() ==> (#[trigger] paras@[j])@
                    == spec_paragraphs(content@)[j],
                forall|j: int| 0 <= j < spec_paragraphs(content@).len() ==> (
                #[trigger] spec_paragraphs(content@)[j]).len() <= content@.len(),
                paras@.len() <= content@.len() + 1,
                content@.len() <= i64::MAX,
                self.chapters@.len() == chaps0.len() + k,
                self.chapters@.take(chaps0.len() as int) == chaps0,
                forall|j: int| 0 <= j < k ==> ({
                    let c = #[trigger] self.chapters@[chaps0.len() + j];
                    &&& c.volume_id == vol.id
                    &&& c.name@ == seq!['第'] + spec_dec((j + 1) as nat) + seq!['章']
                    &&& c.content@ == spec_paragraphs(content@)[j]
                    &&& c.l2_summary is None
                    &&& c.l3_title is None
                    &&& c.status@ == "draft"@
                    &&& c.word_count == spec_paragraphs(content@)[j].len()
                    &&& c.sort_order == j
                    &&& c.created_at@ == now@
                    &&& c.updated_at@ == now@
                }),
                self.volumes@ == old(self).volumes@.push(vol),
                self.entities@ == old(self).entities@,
                self.timeline@ == old(self).timeline@,
                self.foreshadows@ == old(self).foreshadows@,
                self.arcs@ == old(self).arcs@,
                self.snapshots@ == old(self).snapshots@,
                self.trash@ == old(self).trash@,
            decreases paras@.len() - k,
        {
            let text: &String = &paras[k];
            let wc = text.as_str().unicode_len() as i64;
            let mut nm: String = "第".to_owned();
            nm.append(dec_string((k + 1) as u64).as_str());
            nm.append("章");
            proof {
                reveal_strlit("第");
                reveal_strlit("章");
                assert("第"@ =~= seq!['第']);
                assert("章"@ =~= seq!['章']);
                assert(nm@ =~= seq!['第'] + spec_dec((k + 1) as nat) + seq!['章']);
            }
            let c = Chapter {
                id: fresh_id(),
                volume_id: vol.id.clone(),
                name: nm,
                content: text.clone(),
                l2_summary: None,
                l3_title: None,
                status: "draft".to_owned(),
                word_count: wc,
                sort_order: k as i64,
                created_at: now.to_owned(),
                updated_at: now.to_owned(),
            };
            self.chapters.push(c);
            proof {
                assert(self.chapters@.take(chaps0.len() as int) =~= chaps0);
            }
            k = k + 1;
        }
        vol
    }
}

} // verus!
