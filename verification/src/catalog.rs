//! The in-memory model of the shared catalog database: the project list
//! ("books") with its soft-delete lifecycle, the key-value settings table,
//! and the daily statistics table.
//!
//! Tables are sequences in insertion order; statement semantics are as in
//! the project store: updates rewrite every key match, deletes remove
//! every match, single-row reads take the first match.

use vstd::prelude::*;
use crate::records::{clone_opt_string, Book, DailyStat, DeletedBook, EntityShelfItem, Setting};
use crate::strutil::{lex_le, str_eq, str_lt};
use crate::ident::fresh_id;
use crate::numfmt::dec_string_i64;

verus! {

/// One stored catalog row: a `Book` plus its optional soft-delete stamp.
pub struct BookRow {
    pub id: String,
    pub name: String,
    pub author_name: String,
    pub cover_path: Option<String>,
    pub storage_path: String,
    pub created_at: String,
    pub updated_at: String,
    pub deleted_at: Option<String>,
}

impl Clone for BookRow {
    fn clone(&self) -> (r: Self)
        ensures
            r == *self,
    {
        BookRow {
            id: self.id.clone(),
            name: self.name.clone(),
            author_name: self.author_name.clone(),
            cover_path: clone_opt_string(&self.cover_path),
            storage_path: self.storage_path.clone(),
            created_at: self.created_at.clone(),
            updated_at: self.updated_at.clone(),
            deleted_at: clone_opt_string(&self.deleted_at),
        }
    }
}

/// The row carries exactly these book columns.
pub open spec fn book_of_row(b: Book, row: BookRow) -> bool {
    &&& b.id == row.id
    &&& b.name == row.name
    &&& b.author_name == row.author_name
    &&& b.cover_path == row.cover_path
    &&& b.storage_path == row.storage_path
    &&& b.created_at == row.created_at
    &&& b.updated_at == row.updated_at
}

/// The trash listing carries exactly these columns of a soft-deleted row.
pub open spec fn deleted_book_of_row(b: DeletedBook, row: BookRow) -> bool {
    &&& b.id == row.id
    &&& b.name == row.name
    &&& b.author_name == row.author_name
    &&& b.cover_path == row.cover_path
    &&& b.storage_path == row.storage_path
    &&& b.created_at == row.created_at
    &&& b.updated_at == row.updated_at
    &&& row.deleted_at matches Some(d) && b.deleted_at == d
}

/// `i` is the position of the first row whose id is `id`.
pub open spec fn is_first_book_idx(s: Seq<BookRow>, id: Seq<char>, i: int) -> bool {
    &&& 0 <= i < s.len()
    &&& s[i].id@ == id
    &&& forall|j: int| 0 <= j < i ==> s[j].id@ != id
}

/// Some row with id `id` exists.
pub open spec fn book_found(s: Seq<BookRow>, id: Seq<char>) -> bool {
    exists|i: int| 0 <= i < s.len() && s[i].id@ == id
}

/// Some setting with key `key` exists.
pub open spec fn setting_found(s: Seq<Setting>, key: Seq<char>) -> bool {
    exists|i: int| 0 <= i < s.len() && s[i].key@ == key
}

/// `i` is the position of the first setting whose key is `key`.
pub open spec fn is_first_setting_idx(s: Seq<Setting>, key: Seq<char>, i: int) -> bool {
    &&& 0 <= i < s.len()
    &&& s[i].key@ == key
    &&& forall|j: int| 0 <= j < i ==> s[j].key@ != key
}

/// Some statistics row for `date` exists.
pub open spec fn stat_found(s: Seq<DailyStat>, date: Seq<char>) -> bool {
    exists|i: int| 0 <= i < s.len() && s[i].date@ == date
}

/// The deletion stamp of a soft-deleted row.
pub open spec fn row_stamp(b: BookRow) -> Seq<char> {
    b.deleted_at->Some_0@
}

/// Places a live row into the creation-stamp-ordered listing.
fn insert_created_desc(sorted: Vec<BookRow>, x: BookRow) -> (r: Vec<BookRow>)
    ensures
        r@ == crate::seqext::spec_insert_desc(sorted@, x, |b: BookRow| b.created_at@),
    decreases sorted@.len(),
{
    let mut sorted = sorted;
    let ghost s0 = sorted@;
    if sorted.len() == 0 {
        let mut r: Vec<BookRow> = Vec::new();
        r.push(x);
        proof {
            assert(r@ =~= seq![x]);
        }
        r
    } else if str_lt(sorted[0].created_at.as_str(), x.created_at.as_str()) {
        let mut r: Vec<BookRow> = Vec::new();
        r.push(x);
        r.append(&mut sorted);
        proof {
            assert(r@ =~= seq![x] + s0);
        }
        r
    } else {
        let head = sorted.remove(0);
        proof {
            assert(sorted@ =~= s0.skip(1));
        }
        let mut rest = insert_created_desc(sorted, x);
        rest.insert(0, head);
        proof {
            assert(rest@ =~= seq![head] + crate::seqext::spec_insert_desc(
                s0.skip(1),
                x,
                |b: BookRow| b.created_at@,
            ));
        }
        rest
    }
}

/// Places a soft-deleted row into the deletion-stamp-ordered listing.
fn insert_deleted_desc(sorted: Vec<BookRow>, x: BookRow) -> (r: Vec<BookRow>)
    requires
        x.deleted_at is Some,
        forall|k: int| 0 <= k < sorted@.len() ==> (#[trigger] sorted@[k]).deleted_at is Some,
    ensures
        r@ == crate::seqext::spec_insert_desc(sorted@, x, |b: BookRow| row_stamp(b)),
        forall|k: int| 0 <= k < r@.len() ==> (#[trigger] r@[k]).deleted_at is Some,
    decreases sorted@.len(),
{
    let mut sorted = sorted;
    let ghost s0 = sorted@;
    if sorted.len() == 0 {
        let mut r: Vec<BookRow> = Vec::new();
        r.push(x);
        proof {
            assert(r@ =~= seq![x]);
        }
        r
    } else {
        let first_older = match (&sorted[0].deleted_at, &x.deleted_at) {
            (Some(a), Some(b)) => str_lt(a.as_str(), b.as_str()),
            _ => {
                proof {
                    assert(false);
                }
                false
            },
        };
        if first_older {
            let mut r: Vec<BookRow> = Vec::new();
            r.push(x);
            r.append(&mut sorted);
            proof {
                assert(r@ =~= seq![x] + s0);
            }
            r
        } else {
            let head = sorted.remove(0);
            proof {
                assert(sorted@ =~= s0.skip(1));
            }
            let mut rest = insert_deleted_desc(sorted, x);
            rest.insert(0, head);
            proof {
                assert(rest@ =~= seq![head] + crate::seqext::spec_insert_desc(
                    s0.skip(1),
                    x,
                    |b: BookRow| row_stamp(b),
                ));
            }
            rest
        }
    }
}

/// All tables of the catalog database.
pub struct CatalogStore {
    pub books: Vec<BookRow>,
    pub settings: Vec<Setting>,
    pub stats: Vec<DailyStat>,
    pub shelf: Vec<EntityShelfItem>,
}

impl CatalogStore {
    /// A freshly provisioned catalog: every table empty. (On disk,
    /// provisioning also seeds default settings; callers model those by
    /// inserting them.)
    pub fn new() -> (r: CatalogStore)
        ensures
            r.books@ =~= Seq::<BookRow>::empty(),
            r.settings@ =~= Seq::<Setting>::empty(),
            r.stats@ =~= Seq::<DailyStat>::empty(),
            r.shelf@ =~= Seq::<EntityShelfItem>::empty(),
    {
        CatalogStore {
            books: Vec::new(),
            settings: Vec::new(),
            stats: Vec::new(),
            shelf: Vec::new(),
        }
    }

    /// Registers a project: inserts its catalog row, not soft-deleted,
    /// and returns the entry. The storage directory name is the caller's,
    /// computed beforehand; the identifier is freshly generated.
    pub fn create_book(&mut self, name: &str, author_name: &str, storage_path: &str, now: &str)
        -> (r: Book)
        ensures
            final(self).books@.len() == old(self).books@.len() + 1,
            final(self).books@ == old(self).books@.push(final(self).books@.last()),
            book_of_row(r, final(self).books@.last()),
            final(self).books@.last().deleted_at is None,
            r.name@ == name@,
            r.author_name@ == author_name@,
            r.cover_path is None,
            r.storage_path@ == storage_path@,
            r.created_at@ == now@,
            r.updated_at@ == now@,
            r.id@.len() == 36,
            final(self).settings@ == old(self).settings@,
            final(self).stats@ == old(self).stats@,
            final(self).shelf@ == old(self).shelf@,
    {
        let row = BookRow {
            id: fresh_id(),
            name: name.to_owned(),
            author_name: author_name.to_owned(),
            cover_path: None,
            storage_path: storage_path.to_owned(),
            created_at: now.to_owned(),
            updated_at: now.to_owned(),
            deleted_at: None,
        };
        let b = Book {
            id: row.id.clone(),
            name: row.name.clone(),
            author_name: row.author_name.clone(),
            cover_path: None,
            storage_path: row.storage_path.clone(),
            created_at: row.created_at.clone(),
            updated_at: row.updated_at.clone(),
        };
        self.books.push(row);
        b
    }

    /// The live (not soft-deleted) projects, newest creation first
    /// (stamp order; equal stamps keep table order).
    pub fn list_books(&self) -> (r: Vec<Book>)
        ensures
            ({
                let live = crate::seqext::spec_sort_desc(
                    self.books@.filter(|b: BookRow| b.deleted_at is None),
                    |b: BookRow| b.created_at@,
                );
                &&& r@.len() == live.len()
                &&& forall|j: int| 0 <= j < live.len() ==> book_of_row(#[trigger] r@[j], live[j])
            }),
            r@.len() == self.books@.filter(|b: BookRow| b.deleted_at is None).len(),
            forall|a: int, b: int| 0 <= a < b < r@.len() ==> lex_le(
                (#[trigger] r@[b]).created_at@,
                (#[trigger] r@[a]).created_at@,
            ),
    {
        let ghost pred = |b: BookRow| b.deleted_at is None;
        let ghost key = |b: BookRow| b.created_at@;
        let mut rows: Vec<BookRow> = Vec::new();
        let mut i: usize = 0;
        proof {
            reveal(Seq::filter);
            assert(self.books@.take(0) =~= Seq::<BookRow>::empty());
            assert(crate::seqext::spec_sort_desc(self.books@.take(0).filter(pred), key) =~= Seq::<
                BookRow,
            >::empty());
        }
        while i < self.books.len()
            invariant
                i <= self.books@.len(),
                pred == (|b: BookRow| b.deleted_at is None),
                key == (|b: BookRow| b.created_at@),
                rows@ == crate::seqext::spec_sort_desc(
                    self.books@.take(i as int).filter(pred),
                    key,
                ),
            decreases self.books@.len() - i,
        {
            proof {
                reveal(Seq::filter);
                assert(self.books@.take(i + 1).drop_last() =~= self.books@.take(i as int));
                assert(self.books@.take(i + 1).last() == self.books@[i as int]);
            }
            match &self.books[i].deleted_at {
                Some(_) => {},
                None => {
                    let ghost f = self.books@.take(i as int).filter(pred);
                    let row = self.books[i].clone();
                    rows = insert_created_desc(rows, row);
                    proof {
                        let f1 = self.books@.take(i + 1).filter(pred);
                        assert(f1 == f.push(self.books@[i as int]));
                        assert(f1.drop_last() =~= f);
                        assert(f1.last() == self.books@[i as int]);
                    }
                },
            }
            i = i + 1;
        }
        proof {
            assert(self.books@.take(self.books@.len() as int) =~= self.books@);
        }
        let mut out: Vec<Book> = Vec::new();
        let mut j: usize = 0;
        while j < rows.len()
            invariant
                j <= rows@.len(),
                out@.len() == j,
                forall|m: int| 0 <= m < j ==> book_of_row(#[trigger] out@[m], rows@[m]),
            decreases rows@.len() - j,
        {
            let row = &rows[j];
            let b = Book {
                id: row.id.clone(),
                name: row.name.clone(),
                author_name: row.author_name.clone(),
                cover_path: clone_opt_string(&row.cover_path),
                storage_path: row.storage_path.clone(),
                created_at: row.created_at.clone(),
                updated_at: row.updated_at.clone(),
            };
            out.push(b);
            j = j + 1;
        }
        proof {
            crate::seqext::lemma_sort_desc(self.books@.filter(pred), key);
            assert forall|a: int, b: int| 0 <= a < b < out@.len() implies lex_le(
                (#[trigger] out@[b]).created_at@,
                (#[trigger] out@[a]).created_at@,
            ) by {
                assert(out@[a].created_at@ == key(rows@[a]));
                assert(out@[b].created_at@ == key(rows@[b]));
            }
        }
        out
    }

    /// The soft-deleted projects, newest deletion first (stamp order;
    /// equal stamps keep table order), each with its deletion stamp.
    pub fn list_deleted_books(&self) -> (r: Vec<DeletedBook>)
        ensures
            ({
                let gone = crate::seqext::spec_sort_desc(
                    self.books@.filter(|b: BookRow| b.deleted_at is Some),
                    |b: BookRow| row_stamp(b),
                );
                &&& r@.len() == gone.len()
                &&& forall|j: int| 0 <= j < gone.len() ==> deleted_book_of_row(
                    #[trigger] r@[j],
                    gone[j],
                )
            }),
            r@.len() == self.books@.filter(|b: BookRow| b.deleted_at is Some).len(),
            forall|a: int, b: int| 0 <= a < b < r@.len() ==> lex_le(
                (#[trigger] r@[b]).deleted_at@,
                (#[trigger] r@[a]).deleted_at@,
            ),
    {
        let ghost pred = |b: BookRow| b.deleted_at is Some;
        let ghost key = |b: BookRow| row_stamp(b);
        let mut rows: Vec<BookRow> = Vec::new();
        let mut i: usize = 0;
        proof {
            reveal(Seq::filter);
            assert(self.books@.take(0) =~= Seq::<BookRow>::empty());
            assert(crate::seqext::spec_sort_desc(self.books@.take(0).filter(pred), key) =~= Seq::<
                BookRow,
            >::empty());
        }
        while i < self.books.len()
            invariant
                i <= self.books@.len(),
                pred == (|b: BookRow| b.deleted_at is Some),
                key == (|b: BookRow| row_stamp(b)),
                rows@ == crate::seqext::spec_sort_desc(
                    self.books@.take(i as int).filter(pred),
                    key,
                ),
                forall|k: int| 0 <= k < rows@.len() ==> (#[trigger] rows@[k]).deleted_at
                    is Some,
            decreases self.books@.len() - i,
        {
            proof {
                reveal(Seq::filter);
                assert(self.books@.take(i + 1).drop_last() =~= self.books@.take(i as int));
                assert(self.books@.take(i + 1).last() == self.books@[i as int]);
            }
            match &self.books[i].deleted_at {
                Some(_) => {
                    let ghost f = self.books@.take(i as int).filter(pred);
                    let row = self.books[i].clone();
                    rows = insert_deleted_desc(rows, row);
                    proof {
                        let f1 = self.books@.take(i + 1).filter(pred);
                        assert(f1 == f.push(self.books@[i as int]));
                        assert(f1.drop_last() =~= f);
                        assert(f1.last() == self.books@[i as int]);
                    }
                },
                None => {},
            }
            i = i + 1;
        }
        proof {
            assert(self.books@.take(self.books@.len() as int) =~= self.books@);
        }
        let mut out: Vec<DeletedBook> = Vec::new();
        let mut j: usize = 0;
        while j < rows.len()
            invariant
                j <= rows@.len(),
                out@.len() == j,
                forall|m: int| 0 <= m < j ==> deleted_book_of_row(
                    #[trigger] out@[m],
                    rows@[m],
                ),
                forall|k: int| 0 <= k < rows@.len() ==> (#[trigger] rows@[k]).deleted_at
                    is Some,
            decreases rows@.len() - j,
        {
            let row = &rows[j];
            match &row.deleted_at {
                Some(d) => {
                    let b = DeletedBook {
                        id: row.id.clone(),
                        name: row.name.clone(),
                        author_name: row.author_name.clone(),
                        cover_path: clone_opt_string(&row.cover_path),
                        storage_path: row.storage_path.clone(),
                        created_at: row.created_at.clone(),
                        updated_at: row.updated_at.clone(),
                        deleted_at: d.clone(),
                    };
                    out.push(b);
                },
                None => {
                    proof {
                        assert(false);
                    }
                },
            }
            j = j + 1;
        }
        proof {
            crate::seqext::lemma_sort_desc(self.books@.filter(pred), |b: BookRow| row_stamp(b));
            assert forall|a: int, b: int| 0 <= a < b < out@.len() implies lex_le(
                (#[trigger] out@[b]).deleted_at@,
                (#[trigger] out@[a]).deleted_at@,
            ) by {
                assert(out@[a].deleted_at@ == row_stamp(rows@[a]));
                assert(out@[b].deleted_at@ == row_stamp(rows@[b]));
            }
        }
        out
    }

    /// Applies each given field to every row whose id matches, stamping
    /// it updated when anything was given.
    pub fn update_book(
        &mut self,
        id: &str,
        name: Option<&str>,
        author_name: Option<&str>,
        cover_path: Option<&str>,
        now: &str,
    )
        ensures
            final(self).books@.len() == old(self).books@.len(),
            forall|j: int| 0 <= j < old(self).books@.len() ==> final(self).books@[j] == (
            if old(self).books@[j].id@ == id@ {
                BookRow {
                    name: final(self).books@[j].name,
                    author_name: final(self).books@[j].author_name,
                    cover_path: final(self).books@[j].cover_path,
                    updated_at: final(self).books@[j].updated_at,
                    ..old(self).books@[j]
                }
            } else {
                old(self).books@[j]
            }),
            forall|j: int| 0 <= j < old(self).books@.len() && old(self).books@[j].id@ == id@
                ==> {
                    &&& (match name {
                        Some(v) => final(self).books@[j].name@ == v@,
                        None => final(self).books@[j].name == old(self).books@[j].name,
                    })
                    &&& (match author_name {
                        Some(v) => final(self).books@[j].author_name@ == v@,
                        None => final(self).books@[j].author_name == old(self).books@[j].author_name,
                    })
                    &&& (match cover_path {
                        Some(v) => final(self).books@[j].cover_path matches Some(c) && c@ == v@,
                        None => final(self).books@[j].cover_path == old(self).books@[j].cover_path,
                    })
                    &&& ((name is Some || author_name is Some || cover_path is Some) ==> final(self).books@[j].updated_at@ == now@)
                    &&& ((name is None && author_name is None && cover_path is None) ==> final(self).books@[j] == old(self).books@[j])
                },
            final(self).settings@ == old(self).settings@,
            final(self).stats@ == old(self).stats@,
            final(self).shelf@ == old(self).shelf@,
    {
        let n = self.books.len();
        let mut i: usize = 0;
        while i < n
            invariant
                i <= n,
                n == self.books@.len(),
                self.books@.len() == old(self).books@.len(),
                forall|j: int| i <= j < n ==> self.books@[j] == old(self).books@[j],
                forall|j: int| 0 <= j < i ==> self.books@[j] == (
                if old(self).books@[j].id@ == id@ {
                    BookRow {
                        name: self.books@[j].name,
                        author_name: self.books@[j].author_name,
                        cover_path: self.books@[j].cover_path,
                        updated_at: self.books@[j].updated_at,
                        ..old(self).books@[j]
                    }
                } else {
                    old(self).books@[j]
                }),
                forall|j: int| 0 <= j < i && old(self).books@[j].id@ == id@ ==> {
                    &&& (match name {
                        Some(v) => self.books@[j].name@ == v@,
                        None => self.books@[j].name == old(self).books@[j].name,
                    })
                    &&& (match author_name {
                        Some(v) => self.books@[j].author_name@ == v@,
                        None => self.books@[j].author_name == old(self).books@[j].author_name,
                    })
                    &&& (match cover_path {
                        Some(v) => self.books@[j].cover_path matches Some(c) && c@ == v@,
                        None => self.books@[j].cover_path == old(self).books@[j].cover_path,
                    })
                    &&& ((name is Some || author_name is Some || cover_path is Some)
                        ==> self.books@[j].updated_at@ == now@)
                    &&& ((name is None && author_name is None && cover_path is None)
                        ==> self.books@[j] == old(self).books@[j])
                },
                self.settings@ == old(self).settings@,
                self.stats@ == old(self).stats@,
                self.shelf@ == old(self).shelf@,
            decreases n - i,
        {
            if str_eq(self.books[i].id.as_str(), id) {
                let mut touched = false;
                match name {
                    Some(v) => {
                        self.books[i].name = v.to_owned();
                        touched = true;
                    },
                    None => {},
                }
                match author_name {
                    Some(v) => {
                        self.books[i].author_name = v.to_owned();
                        touched = true;
                    },
                    None => {},
                }
                match cover_path {
                    Some(v) => {
                        self.books[i].cover_path = Some(v.to_owned());
                        touched = true;
                    },
                    None => {},
                }
                if touched {
                    self.books[i].updated_at = now.to_owned();
                }
            }
            i = i + 1;
        }
    }

    /// Soft delete: stamps every row whose id matches as deleted now. The
    /// row stays; only the stamp changes.
    pub fn delete_book(&mut self, id: &str, now: &str)
        ensures
            final(self).books@.len() == old(self).books@.len(),
            forall|j: int| 0 <= j < old(self).books@.len() ==> final(self).books@[j] == (
            if old(self).books@[j].id@ == id@ {
                BookRow { deleted_at: final(self).books@[j].deleted_at, ..old(self).books@[j] }
            } else {
                old(self).books@[j]
            }),
            forall|j: int| 0 <= j < old(self).books@.len() && old(self).books@[j].id@ == id@
                ==> (final(self).books@[j].deleted_at matches Some(d) && d@ == now@),
            final(self).settings@ == old(self).settings@,
            final(self).stats@ == old(self).stats@,
            final(self).shelf@ == old(self).shelf@,
    {
        let n = self.books.len();
        let mut i: usize = 0;
        while i < n
            invariant
                i <= n,
                n == self.books@.len(),
                self.books@.len() == old(self).books@.len(),
                forall|j: int| i <= j < n ==> self.books@[j] == old(self).books@[j],
                forall|j: int| 0 <= j < i ==> self.books@[j] == (
                if old(self).books@[j].id@ == id@ {
                    BookRow { deleted_at: self.books@[j].deleted_at, ..old(self).books@[j] }
                } else {
                    old(self).books@[j]
                }),
                forall|j: int| 0 <= j < i && old(self).books@[j].id@ == id@
                    ==> (self.books@[j].deleted_at matches Some(d) && d@ == now@),
                self.settings@ == old(self).settings@,
                self.stats@ == old(self).stats@,
                self.shelf@ == old(self).shelf@,
            decreases n - i,
        {
            if str_eq(self.books[i].id.as_str(), id) {
                self.books[i].deleted_at = Some(now.to_owned());
            }
            i = i + 1;
        }
    }

    /// Restore from the catalog trash: clears the soft-delete stamp of
    /// every row whose id matches.
    pub fn restore_book(&mut self, id: &str)
        ensures
            final(self).books@.len() == old(self).books@.len(),
            forall|j: int| 0 <= j < old(self).books@.len() ==> final(self).books@[j] == (
            if old(self).books@[j].id@ == id@ {
                BookRow { deleted_at: None, ..old(self).books@[j] }
            } else {
                old(self).books@[j]
            }),
            final(self).settings@ == old(self).settings@,
            final(self).stats@ == old(self).stats@,
            final(self).shelf@ == old(self).shelf@,
    {
        let n = self.books.len();
        let mut i: usize = 0;
        while i < n
            invariant
                i <= n,
                n == self.books@.len(),
                self.books@.len() == old(self).books@.len(),
                forall|j: int| i <= j < n ==> self.books@[j] == old(self).books@[j],
                forall|j: int| 0 <= j < i ==> self.books@[j] == (
                if old(self).books@[j].id@ == id@ {
                    BookRow { deleted_at: None, ..old(self).books@[j] }
                } else {
                    old(self).books@[j]
                }),
                self.settings@ == old(self).settings@,
                self.stats@ == old(self).stats@,
                self.shelf@ == old(self).shelf@,
            decreases n - i,
        {
            if str_eq(self.books[i].id.as_str(), id) {
                self.books[i].deleted_at = None;
            }
            i = i + 1;
        }
    }

    /// Permanent destruction, catalog side: removes every row whose id
    /// matches and hands back the storage directory name of the first
    /// match, so the caller can delete the project's directory subtree —
    /// the irreversible second step, which is the caller's, after this one
    /// has already committed.
    pub fn permanently_delete_book(&mut self, id: &str) -> (r: Option<String>)
        ensures
            r is Some <==> book_found(old(self).books@, id@),
            forall|i: int| is_first_book_idx(old(self).books@, id@, i) ==> (r matches Some(sp)
                && sp == old(self).books@[i].storage_path),
            final(self).books@ == old(self).books@.filter(|b: BookRow| b.id@ != id@),
            final(self).settings@ == old(self).settings@,
            final(self).stats@ == old(self).stats@,
            final(self).shelf@ == old(self).shelf@,
    {
        let ghost pred = |b: BookRow| b.id@ != id@;
        let mut sp: Option<String> = None;
        let mut kept: Vec<BookRow> = Vec::new();
        let mut i: usize = 0;
        proof {
            reveal(Seq::filter);
            assert(self.books@.take(0) =~= Seq::<BookRow>::empty());
        }
        while i < self.books.len()
            invariant
                i <= self.books@.len(),
                kept@ == self.books@.take(i as int).filter(pred),
                pred == (|b: BookRow| b.id@ != id@),
                sp is Some <==> book_found(self.books@.take(i as int), id@),
                forall|k: int| is_first_book_idx(self.books@, id@, k) && k < i ==> (
                sp matches Some(s) && s == self.books@[k].storage_path),
                forall|k: int| 0 <= k < i && self.books@[k].id@ == id@ ==> book_found(
                    self.books@.take(i as int),
                    id@,
                ),
            decreases self.books@.len() - i,
        {
            proof {
                reveal(Seq::filter);
                assert(self.books@.take(i + 1).drop_last() =~= self.books@.take(i as int));
                assert(self.books@.take(i + 1).last() == self.books@[i as int]);
                assert(forall|k: int| 0 <= k < i && self.books@.take(i as int)[k].id@ == id@
                    ==> self.books@.take(i + 1)[k].id@ == id@);
            }
            if str_eq(self.books[i].id.as_str(), id) {
                if sp.is_none() {
                    sp = Some(self.books[i].storage_path.clone());
                }
                proof {
                    assert(self.books@.take(i + 1)[i as int].id@ == id@);
                }
            } else {
                kept.push(self.books[i].clone());
            }
            i = i + 1;
        }
        proof {
            assert(self.books@.take(self.books@.len() as int) =~= self.books@);
        }
        self.books = kept;
        sp
    }

    // -----------------------------------------------------------------------
    // Settings
    // -----------------------------------------------------------------------
    /// Every setting, in table order.
    pub fn get_settings(&self) -> (r: Vec<Setting>)
        ensures
            r@ == self.settings@,
    {
        let mut out: Vec<Setting> = Vec::new();
        let mut i: usize = 0;
        while i < self.settings.len()
            invariant
                i <= self.settings@.len(),
                out@ =~= self.settings@.take(i as int),
            decreases self.settings@.len() - i,
        {
            out.push(self.settings[i].clone());
            i = i + 1;
        }
        proof {
            assert(self.settings@.take(self.settings@.len() as int) =~= self.settings@);
        }
        out
    }

    /// The value of the first setting with this key, if any.
    pub fn get_setting(&self, key: &str) -> (r: Option<String>)
        ensures
            r is Some <==> setting_found(self.settings@, key@),
            forall|i: int| is_first_setting_idx(self.settings@, key@, i) ==> (r matches Some(v)
                && v == self.settings@[i].value),
    {
        let mut i: usize = 0;
        while i < self.settings.len()
            invariant
                i <= self.settings@.len(),
                forall|j: int| 0 <= j < i ==> self.settings@[j].key@ != key@,
            decreases self.settings@.len() - i,
        {
            if str_eq(self.settings[i].key.as_str(), key) {
                return Some(self.settings[i].value.clone());
            }
            i = i + 1;
        }
        None
    }

    /// Writes a setting: rewrites the value of every row with this key,
    /// or inserts the pair when the key is new.
    pub fn update_setting(&mut self, key: &str, value: &str)
        ensures
            setting_found(old(self).settings@, key@) ==> {
                &&& final(self).settings@.len() == old(self).settings@.len()
                &&& forall|j: int| 0 <= j < old(self).settings@.len()
                    ==> final(self).settings@[j] == (if old(self).settings@[j].key@ == key@ {
                    Setting {
                        value: final(self).settings@[j].value,
                        ..old(self).settings@[j]
                    }
                } else {
                    old(self).settings@[j]
                })
                &&& forall|j: int| 0 <= j < old(self).settings@.len() && old(self).settings@[j].key@ == key@ ==> final(self).settings@[j].value@ == value@
            },
            !setting_found(old(self).settings@, key@) ==> {
                &&& final(self).settings@.len() == old(self).settings@.len() + 1
                &&& final(self).settings@ == old(self).settings@.push(
                    final(self).settings@.last(),
                )
                &&& final(self).settings@.last().key@ == key@
                &&& final(self).settings@.last().value@ == value@
            },
            final(self).books@ == old(self).books@,
            final(self).stats@ == old(self).stats@,
            final(self).shelf@ == old(self).shelf@,
    {
        let n = self.settings.len();
        let mut i: usize = 0;
        let mut hit = false;
        while i < n
            invariant
                i <= n,
                n == self.settings@.len(),
                self.settings@.len() == old(self).settings@.len(),
                forall|j: int| i <= j < n ==> self.settings@[j] == old(self).settings@[j],
                hit <==> setting_found(old(self).settings@.take(i as int), key@),
                forall|j: int| 0 <= j < i ==> self.settings@[j] == (
                if old(self).settings@[j].key@ == key@ {
                    Setting { value: self.settings@[j].value, ..old(self).settings@[j] }
                } else {
                    old(self).settings@[j]
                }),
                forall|j: int| 0 <= j < i && old(self).settings@[j].key@ == key@
                    ==> self.settings@[j].value@ == value@,
                self.books@ == old(self).books@,
                self.stats@ == old(self).stats@,
                self.shelf@ == old(self).shelf@,
            decreases n - i,
        {
            proof {
                assert(forall|j: int| 0 <= j < i + 1 ==> old(self).settings@.take(i + 1)[j]
                    == old(self).settings@[j]);
            }
            if str_eq(self.settings[i].key.as_str(), key) {
                self.settings[i].value = value.to_owned();
                hit = true;
            }
            i = i + 1;
        }
        proof {
            assert(old(self).settings@.take(n as int) =~= old(self).settings@);
        }
        if !hit {
            let s = Setting { key: key.to_owned(), value: value.to_owned() };
            self.settings.push(s);
        }
    }

    /// Stores the daily word-count goal under its well-known settings
    /// key, rendered in decimal. The key is written only if it already
    /// exists, as the provisioning script always seeds it.
    pub fn set_daily_goal(&mut self, goal: i64)
        ensures
            final(self).settings@.len() == old(self).settings@.len(),
            forall|j: int| 0 <= j < old(self).settings@.len() ==> final(self).settings@[j] == (
            if old(self).settings@[j].key@ == "daily_goal"@ {
                Setting { value: final(self).settings@[j].value, ..old(self).settings@[j] }
            } else {
                old(self).settings@[j]
            }),
            forall|j: int| 0 <= j < old(self).settings@.len() && old(self).settings@[j].key@
                == "daily_goal"@ ==> final(self).settings@[j].value@
                == crate::numfmt::spec_dec_i64(goal as int),
            final(self).books@ == old(self).books@,
            final(self).stats@ == old(self).stats@,
            final(self).shelf@ == old(self).shelf@,
    {
        let rendered = dec_string_i64(goal);
        let n = self.settings.len();
        let mut i: usize = 0;
        while i < n
            invariant
                i <= n,
                n == self.settings@.len(),
                self.settings@.len() == old(self).settings@.len(),
                rendered@ == crate::numfmt::spec_dec_i64(goal as int),
                forall|j: int| i <= j < n ==> self.settings@[j] == old(self).settings@[j],
                forall|j: int| 0 <= j < i ==> self.settings@[j] == (
                if old(self).settings@[j].key@ == "daily_goal"@ {
                    Setting { value: self.settings@[j].value, ..old(self).settings@[j] }
                } else {
                    old(self).settings@[j]
                }),
                forall|j: int| 0 <= j < i && old(self).settings@[j].key@ == "daily_goal"@
                    ==> self.settings@[j].value@ == crate::numfmt::spec_dec_i64(goal as int),
                self.books@ == old(self).books@,
                self.stats@ == old(self).stats@,
                self.shelf@ == old(self).shelf@,
            decreases n - i,
        {
            if str_eq(self.settings[i].key.as_str(), "daily_goal") {
                self.settings[i].value = rendered.clone();
            }
            i = i + 1;
        }
    }

    // -----------------------------------------------------------------------
    // Daily statistics
    // -----------------------------------------------------------------------
    /// The statistics rows whose date falls inside the inclusive range,
    /// in table order.
    pub fn get_daily_stats(&self, start_date: &str, end_date: &str) -> (r: Vec<DailyStat>)
        ensures
            r@ == self.stats@.filter(
                |d: DailyStat| lex_le(start_date@, d.date@) && lex_le(d.date@, end_date@),
            ),
    {
        let ghost pred = |d: DailyStat| lex_le(start_date@, d.date@) && lex_le(d.date@, end_date@);
        let mut out: Vec<DailyStat> = Vec::new();
        let mut i: usize = 0;
        proof {
            reveal(Seq::filter);
            assert(self.stats@.take(0) =~= Seq::<DailyStat>::empty());
        }
        while i < self.stats.len()
            invariant
                i <= self.stats@.len(),
                out@ == self.stats@.take(i as int).filter(pred),
                pred == (|d: DailyStat| lex_le(start_date@, d.date@) && lex_le(
                    d.date@,
                    end_date@,
                )),
            decreases self.stats@.len() - i,
        {
            proof {
                reveal(Seq::filter);
                assert(self.stats@.take(i + 1).drop_last() =~= self.stats@.take(i as int));
                assert(self.stats@.take(i + 1).last() == self.stats@[i as int]);
            }
            let d = &self.stats[i];
            let ge_start = !str_lt(d.date.as_str(), start_date);
            let le_end = !str_lt(end_date, d.date.as_str());
            if ge_start && le_end {
                out.push(self.stats[i].clone());
            }
            i = i + 1;
        }
        proof {
            assert(self.stats@.take(self.stats@.len() as int) =~= self.stats@);
        }
        out
    }

    /// Adds the deltas onto the day's counters, inserting the row (with a
    /// zero goal) when the date is new.
    pub fn update_daily_stats(&mut self, date: &str, word_count_delta: i64, duration_delta: i64)
        requires
            forall|j: int| 0 <= j < old(self).stats@.len() && (#[trigger] old(self).stats@[j]).date@ == date@ ==> i64::MIN <= old(self).stats@[j].word_count
                + word_count_delta <= i64::MAX && i64::MIN <= old(self).stats@[j].duration_seconds
                + duration_delta <= i64::MAX,
        ensures
            stat_found(old(self).stats@, date@) ==> {
                &&& final(self).stats@.len() == old(self).stats@.len()
                &&& forall|j: int| 0 <= j < old(self).stats@.len() ==> final(self).stats@[j] == (
                if old(self).stats@[j].date@ == date@ {
                    DailyStat {
                        word_count: (old(self).stats@[j].word_count + word_count_delta) as i64,
                        duration_seconds: (old(self).stats@[j].duration_seconds
                            + duration_delta) as i64,
                        ..old(self).stats@[j]
                    }
                } else {
                    old(self).stats@[j]
                })
            },
            !stat_found(old(self).stats@, date@) ==> {
                &&& final(self).stats@.len() == old(self).stats@.len() + 1
                &&& final(self).stats@ == old(self).stats@.push(final(self).stats@.last())
                &&& final(self).stats@.last().date@ == date@
                &&& final(self).stats@.last().word_count == word_count_delta
                &&& final(self).stats@.last().duration_seconds == duration_delta
                &&& final(self).stats@.last().daily_goal == 0
                &&& final(self).stats@.last().id@.len() == 36
            },
            final(self).books@ == old(self).books@,
            final(self).settings@ == old(self).settings@,
            final(self).shelf@ == old(self).shelf@,
    {
        let n = self.stats.len();
        let mut i: usize = 0;
        let mut hit = false;
        while i < n
            invariant
                i <= n,
                n == self.stats@.len(),
                self.stats@.len() == old(self).stats@.len(),
                forall|j: int| i <= j < n ==> self.stats@[j] == old(self).stats@[j],
                forall|j: int| 0 <= j < old(self).stats@.len() && (#[trigger] old(self).stats@[j]).date@ == date@ ==> i64::MIN <= old(self).stats@[j].word_count
                    + word_count_delta <= i64::MAX && i64::MIN <= old(self).stats@[j].duration_seconds + duration_delta <= i64::MAX,
                hit <==> stat_found(old(self).stats@.take(i as int), date@),
                forall|j: int| 0 <= j < i ==> self.stats@[j] == (
                if old(self).stats@[j].date@ == date@ {
                    DailyStat {
                        word_count: (old(self).stats@[j].word_count + word_count_delta) as i64,
                        duration_seconds: (old(self).stats@[j].duration_seconds
                            + duration_delta) as i64,
                        ..old(self).stats@[j]
                    }
                } else {
                    old(self).stats@[j]
                }),
                self.books@ == old(self).books@,
                self.settings@ == old(self).settings@,
                self.shelf@ == old(self).shelf@,
            decreases n - i,
        {
            proof {
                assert(forall|j: int| 0 <= j < i + 1 ==> old(self).stats@.take(i + 1)[j] == old(self).stats@[j]);
            }
            if str_eq(self.stats[i].date.as_str(), date) {
                let wc = self.stats[i].word_count;
                let du = self.stats[i].duration_seconds;
                self.stats[i].word_count = wc + word_count_delta;
                self.stats[i].duration_seconds = du + duration_delta;
                hit = true;
            }
            i = i + 1;
        }
        proof {
            assert(old(self).stats@.take(n as int) =~= old(self).stats@);
        }
        if !hit {
            let s = DailyStat {
                id: fresh_id(),
                date: date.to_owned(),
                word_count: word_count_delta,
                duration_seconds: duration_delta,
                daily_goal: 0,
            };
            self.stats.push(s);
        }
    }
}

} // verus!
