//! General sequence tools the store contracts lean on: lemmas about
//! `filter`, and a stable newest-first arrangement by a string key.

use vstd::prelude::*;
use crate::strutil::{lemma_lex_lt_irrefl, lemma_lex_lt_trans, lex_le, lex_lt};

verus! {

/// `x` placed into `s` (held newest-first by `key`): it goes in front of
/// the first element whose key is strictly older, after any element with
/// an equal key.
pub open spec fn spec_insert_desc<T>(s: Seq<T>, x: T, key: spec_fn(T) -> Seq<char>) -> Seq<T>
    decreases s.len(),
{
    if s.len() == 0 {
        seq![x]
    } else if lex_lt(key(s[0]), key(x)) {
        seq![x] + s
    } else {
        seq![s[0]] + spec_insert_desc(s.skip(1), x, key)
    }
}

/// `s` ordered by `key`, newest first; equal keys keep the given order.
pub open spec fn spec_sort_desc<T>(s: Seq<T>, key: spec_fn(T) -> Seq<char>) -> Seq<T>
    decreases s.len(),
{
    if s.len() == 0 {
        Seq::empty()
    } else {
        spec_insert_desc(spec_sort_desc(s.drop_last(), key), s.last(), key)
    }
}

/// Keys run newest-first.
pub open spec fn keys_descending<T>(s: Seq<T>, key: spec_fn(T) -> Seq<char>) -> bool {
    forall|a: int, b: int| 0 <= a < b < s.len() ==> lex_le(key(s[b]), key(s[a]))
}

/// One insertion splits the ordered elements around the new one:
/// everything before the returned position is at least as new, the first
/// element after it strictly older.
proof fn lemma_insert_desc_shape<T>(s: Seq<T>, x: T, key: spec_fn(T) -> Seq<char>) -> (p: int)
    ensures
        0 <= p <= s.len(),
        spec_insert_desc(s, x, key) == s.take(p) + seq![x] + s.skip(p),
        forall|m: int| 0 <= m < p ==> !lex_lt(key(s[m]), key(x)),
        p < s.len() ==> lex_lt(key(s[p]), key(x)),
    decreases s.len(),
{
    if s.len() == 0 {
        assert(spec_insert_desc(s, x, key) =~= s.take(0) + seq![x] + s.skip(0));
        0
    } else if lex_lt(key(s[0]), key(x)) {
        assert(spec_insert_desc(s, x, key) =~= s.take(0) + seq![x] + s.skip(0));
        0
    } else {
        let q = lemma_insert_desc_shape(s.skip(1), x, key);
        let p = q + 1;
        assert(seq![s[0]] + (s.skip(1).take(q) + seq![x] + s.skip(1).skip(q)) =~= s.take(p)
            + seq![x] + s.skip(p));
        assert(forall|m: int| 1 <= m < p ==> s.skip(1)[m - 1] == s[m]);
        assert(p < s.len() ==> s.skip(1)[q] == s[p]);
        p
    }
}

/// Inserting preserves the newest-first order and grows the length by
/// one.
proof fn lemma_insert_desc_descending<T>(s: Seq<T>, x: T, key: spec_fn(T) -> Seq<char>)
    requires
        keys_descending(s, key),
    ensures
        keys_descending(spec_insert_desc(s, x, key), key),
        spec_insert_desc(s, x, key).len() == s.len() + 1,
{
    let p = lemma_insert_desc_shape(s, x, key);
    let r = spec_insert_desc(s, x, key);
    assert forall|a: int, b: int| 0 <= a < b < r.len() implies lex_le(
        key(r[b]),
        key(r[a]),
    ) by {
        if a < p {
            assert(r[a] == s[a]);
        }
        if b < p {
            assert(r[b] == s[b]);
        }
        if a > p {
            assert(r[a] == s[a - 1]);
        }
        if b > p {
            assert(r[b] == s[b - 1]);
        }
        if a == p && b > p {
            if lex_lt(key(x), key(s[b - 1])) {
                lemma_lex_lt_trans(key(s[p]), key(x), key(s[b - 1]));
                if p == b - 1 {
                    lemma_lex_lt_irrefl(key(s[p]));
                }
            }
        }
    }
}

/// The arrangement holds exactly as many elements, newest first.
pub proof fn lemma_sort_desc<T>(s: Seq<T>, key: spec_fn(T) -> Seq<char>)
    ensures
        spec_sort_desc(s, key).len() == s.len(),
        keys_descending(spec_sort_desc(s, key), key),
    decreases s.len(),
{
    if s.len() > 0 {
        lemma_sort_desc(s.drop_last(), key);
        lemma_insert_desc_descending(spec_sort_desc(s.drop_last(), key), s.last(), key);
    }
}

/// `filter` looked at from the front: the head either stays or goes, and
/// the rest is filtered unchanged.
pub proof fn lemma_filter_first<T>(s: Seq<T>, p: spec_fn(T) -> bool)
    requires
        s.len() > 0,
    ensures
        s.filter(p) == (if p(s[0]) {
            seq![s[0]] + s.skip(1).filter(p)
        } else {
            s.skip(1).filter(p)
        }),
    decreases s.len(),
{
    reveal(Seq::filter);
    if s.len() == 1 {
        assert(s.drop_last().filter(p) =~= Seq::<T>::empty().filter(p));
        assert(s.skip(1) =~= Seq::<T>::empty());
        if p(s[0]) {
            assert(s.filter(p) =~= seq![s[0]] + s.skip(1).filter(p));
        }
    } else {
        let d = s.drop_last();
        lemma_filter_first(d, p);
        assert(d.skip(1) =~= s.skip(1).drop_last());
        if p(s.last()) {
            if p(s[0]) {
                assert(s.filter(p) == d.filter(p).push(s.last()));
                assert(d.filter(p) == seq![s[0]] + d.skip(1).filter(p));
                assert(s.skip(1).filter(p) == s.skip(1).drop_last().filter(p).push(
                    s.skip(1).last(),
                ));
                assert(s.skip(1).last() == s.last());
                assert((seq![s[0]] + d.skip(1).filter(p)).push(s.last()) =~= seq![s[0]] + d.skip(
                    1,
                ).filter(p).push(s.last()));
            } else {
                assert(s.filter(p) == d.filter(p).push(s.last()));
                assert(s.skip(1).filter(p) == s.skip(1).drop_last().filter(p).push(s.last()));
            }
        } else {
            if p(s[0]) {
                assert(s.filter(p) == d.filter(p));
            }
        }
    }
}

/// Reversing a sequence that starts with `x` puts `x` at the end.
pub proof fn lemma_reverse_cons<T>(x: T, t: Seq<T>)
    ensures
        (seq![x] + t).reverse() == t.reverse().push(x),
{
    assert((seq![x] + t).reverse() =~= t.reverse().push(x));
}

/// Filtering keeps everything when the predicate holds everywhere.
pub proof fn lemma_filter_all<T>(s: Seq<T>, p: spec_fn(T) -> bool)
    requires
        forall|j: int| 0 <= j < s.len() ==> p(#[trigger] s[j]),
    ensures
        s.filter(p) == s,
    decreases s.len(),
{
    reveal(Seq::filter);
    if s.len() > 0 {
        lemma_filter_all(s.drop_last(), p);
        assert(s.filter(p) =~= s);
    } else {
        assert(s.filter(p) =~= s);
    }
}

/// When exactly one position fails the predicate, filtering equals removing
/// that position.
pub proof fn lemma_filter_remove_one<T>(s: Seq<T>, p: spec_fn(T) -> bool, i: int)
    requires
        0 <= i < s.len(),
        !p(s[i]),
        forall|j: int| 0 <= j < s.len() && j != i ==> p(#[trigger] s[j]),
    ensures
        s.filter(p) == s.remove(i),
    decreases s.len(),
{
    reveal(Seq::filter);
    if i == s.len() - 1 {
        lemma_filter_all(s.drop_last(), p);
        assert(s.remove(i) =~= s.drop_last());
    } else {
        lemma_filter_remove_one(s.drop_last(), p, i);
        assert(s.filter(p) == s.drop_last().filter(p).push(s.last()));
        assert(s.remove(i) =~= s.drop_last().remove(i).push(s.last()));
    }
}

} // verus!
