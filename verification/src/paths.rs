//! The path resolver: pure functions from the persisted configuration (a
//! single root directory) to every location the engine touches on disk.
//!
//! Layout, relative to the configured root:
//! `{root}/AppData/Library/catalog.db` for the shared catalog,
//! `{root}/AppData/Projects/{storage_id}/project.db` for a project, and
//! `{root}/AppData/Projects/{storage_id}/.milestones/` for its milestones.
//! Paths are built with `/` as the separator.

use vstd::prelude::*;
use vstd::string::StringExecFns;
use vstd::string::StrSliceExecFns;
use crate::numfmt::{dec_string, lemma_dec_injective, spec_dec};
use crate::strutil::{char_is_space, is_space, ltrim, rtrim, str_eq, str_trim};

verus! {

broadcast use vstd::seq_lib::seq_to_set_is_finite;

/// The one persisted configuration value: the directory under which the
/// whole data tree lives.
pub struct AppConfig {
    pub data_dir: String,
}

impl Clone for AppConfig {
    fn clone(&self) -> (r: Self)
        ensures
            r == *self,
    {
        AppConfig { data_dir: self.data_dir.clone() }
    }
}

/// `a`, a separator, then `b`.
pub open spec fn spec_path_join(a: Seq<char>, b: Seq<char>) -> Seq<char> {
    a + seq!['/'] + b
}

/// Joins two path fragments with a `/` separator.
pub fn path_join(a: &str, b: &str) -> (r: String)
    ensures
        r@ == spec_path_join(a@, b@),
{
    let mut s: String = a.to_owned();
    s.append("/");
    s.append(b);
    proof {
        reveal_strlit("/");
        assert("/"@ =~= seq!['/']);
    }
    s
}

/// The data root under the configured directory.
pub open spec fn spec_data_dir(cfg: AppConfig) -> Seq<char> {
    spec_path_join(cfg.data_dir@, "AppData"@)
}

/// The catalog database file.
pub open spec fn spec_global_db_path(cfg: AppConfig) -> Seq<char> {
    spec_path_join(spec_path_join(spec_data_dir(cfg), "Library"@), "catalog.db"@)
}

/// The directory that holds one subdirectory per project.
pub open spec fn spec_books_dir(cfg: AppConfig) -> Seq<char> {
    spec_path_join(spec_data_dir(cfg), "Projects"@)
}

/// The database file of the project stored under `storage_path`.
pub open spec fn spec_book_db_path(cfg: AppConfig, storage_path: Seq<char>) -> Seq<char> {
    spec_path_join(spec_path_join(spec_books_dir(cfg), storage_path), "project.db"@)
}

/// The milestones directory of the project stored under `storage_path`.
pub open spec fn spec_milestones_dir(cfg: AppConfig, storage_path: Seq<char>) -> Seq<char> {
    spec_path_join(spec_path_join(spec_books_dir(cfg), storage_path), ".milestones"@)
}

/// The data root: `{data_dir}/AppData`.
pub fn xinzuo_data_dir(config: &AppConfig) -> (r: String)
    ensures
        r@ == spec_data_dir(*config),
{
    path_join(config.data_dir.as_str(), "AppData")
}

/// The catalog database: `{data_dir}/AppData/Library/catalog.db`.
pub fn global_db_path(config: &AppConfig) -> (r: String)
    ensures
        r@ == spec_global_db_path(*config),
{
    let lib = path_join(xinzuo_data_dir(config).as_str(), "Library");
    path_join(lib.as_str(), "catalog.db")
}

/// The projects root: `{data_dir}/AppData/Projects`.
pub fn books_dir(config: &AppConfig) -> (r: String)
    ensures
        r@ == spec_books_dir(*config),
{
    path_join(xinzuo_data_dir(config).as_str(), "Projects")
}

/// A project's database file: `{projects}/{storage_path}/project.db`.
pub fn book_db_path(config: &AppConfig, book_storage_path: &str) -> (r: String)
    ensures
        r@ == spec_book_db_path(*config, book_storage_path@),
{
    let dir = path_join(books_dir(config).as_str(), book_storage_path);
    path_join(dir.as_str(), "project.db")
}

/// A project's milestones directory: `{projects}/{storage_path}/.milestones`.
pub fn milestones_dir(config: &AppConfig, book_storage_path: &str) -> (r: String)
    ensures
        r@ == spec_milestones_dir(*config, book_storage_path@),
{
    let dir = path_join(books_dir(config).as_str(), book_storage_path);
    path_join(dir.as_str(), ".milestones")
}

// ---------------------------------------------------------------------------
// Directory names for new projects
// ---------------------------------------------------------------------------
/// The characters a directory name may not carry: the file-system
/// specials and the control range.
pub open spec fn is_unsafe_char(c: char) -> bool {
    c == '<' || c == '>' || c == ':' || c == '"' || c == '/' || c == '\\' || c == '|' || c == '?'
        || c == '*' || (c as u32) < 32
}

/// Every unsafe character replaced by an underscore.
pub open spec fn spec_mask(s: Seq<char>) -> Seq<char> {
    Seq::new(
        s.len(),
        |i: int|
            if is_unsafe_char(s[i]) {
                '_'
            } else {
                s[i]
            },
    )
}

/// The sanitized directory name: whitespace trimmed, unsafe characters
/// masked, and a fixed fallback when nothing remains.
pub open spec fn spec_sanitized(s: Seq<char>) -> Seq<char> {
    let t = spec_mask(rtrim(ltrim(s)));
    if t.len() == 0 {
        "unnamed_book"@
    } else {
        t
    }
}

/// File-system-special or control-character test.
fn char_is_unsafe(c: char) -> (r: bool)
    ensures
        r == is_unsafe_char(c),
{
    let u = c as u32;
    u == 60 || u == 62 || u == 58 || u == 34 || u == 47 || u == 92 || u == 124 || u == 63 || u
        == 42 || u < 32
}

/// Turns a display name into a directory name: trims whitespace, masks
/// the characters no file system accepts, and falls back to a fixed name
/// when nothing remains.
pub fn sanitize_dir_name(name: &str) -> (r: String)
    ensures
        r@ == spec_sanitized(name@),
{
    let trimmed = str_trim(name);
    if trimmed.as_str().is_empty() {
        proof {
            assert(spec_mask(rtrim(ltrim(name@))).len() == 0);
        }
        return "unnamed_book".to_owned();
    }
    let t = trimmed.as_str();
    let m = t.unicode_len();
    let mut out = String::new();
    let mut i: usize = 0;
    proof {
        assert(out@ =~= spec_mask(t@.subrange(0, 0)));
    }
    while i < m
        invariant
            i <= m,
            m == t@.len(),
            t@ == rtrim(ltrim(name@)),
            out@ == spec_mask(t@.subrange(0, i as int)),
        decreases m - i,
    {
        let c = t.get_char(i);
        if char_is_unsafe(c) {
            out.append("_");
            proof {
                reveal_strlit("_");
                assert("_"@ =~= seq!['_']);
                assert(out@ =~= spec_mask(t@.subrange(0, i + 1)));
            }
        } else {
            let piece = t.substring_char(i, i + 1);
            out.append(piece);
            proof {
                assert(out@ =~= spec_mask(t@.subrange(0, i + 1)));
            }
        }
        i = i + 1;
    }
    proof {
        assert(t@.subrange(0, m as int) =~= t@);
        assert(spec_mask(rtrim(ltrim(name@))).len() > 0);
    }
    out
}

/// The `k`-th candidate directory name for `base`: the base itself, then
/// numbered variants.
pub open spec fn spec_candidate(base: Seq<char>, k: nat) -> Seq<char> {
    if k <= 1 {
        base
    } else {
        base + seq!['_'] + spec_dec(k)
    }
}

/// Some existing name equals `name`.
pub open spec fn name_taken(existing: Seq<String>, name: Seq<char>) -> bool {
    exists|j: int| 0 <= j < existing.len() && existing[j]@ == name
}

/// Whether the list holds this name.
fn contains_name(existing: &Vec<String>, name: &str) -> (r: bool)
    ensures
        r == name_taken(existing@, name@),
{
    let mut j: usize = 0;
    while j < existing.len()
        invariant
            j <= existing@.len(),
            forall|m: int| 0 <= m < j ==> existing@[m]@ != name@,
        decreases existing@.len() - j,
    {
        if str_eq(existing[j].as_str(), name) {
            return true;
        }
        j = j + 1;
    }
    false
}

/// Renders the `k`-th numbered candidate.
fn candidate_string(base: &str, k: u64) -> (r: String)
    requires
        k >= 2,
    ensures
        r@ == spec_candidate(base@, k as nat),
{
    let mut s: String = base.to_owned();
    s.append("_");
    s.append(dec_string(k).as_str());
    proof {
        reveal_strlit("_");
        assert("_"@ =~= seq!['_']);
    }
    s
}

/// Numbered candidates are pairwise distinct.
proof fn lemma_candidate_injective(base: Seq<char>, i: nat, j: nat)
    requires
        2 <= i,
        2 <= j,
        spec_candidate(base, i) == spec_candidate(base, j),
    ensures
        i == j,
{
    let a = spec_candidate(base, i);
    let b = spec_candidate(base, j);
    assert(spec_dec(i) =~= a.subrange(base.len() as int + 1, a.len() as int));
    assert(spec_dec(j) =~= b.subrange(base.len() as int + 1, b.len() as int));
    lemma_dec_injective(i, j);
}

/// If every candidate from 2 up to `k` is taken, the list holds at least
/// `k - 1` distinct names.
proof fn lemma_candidates_pigeonhole(existing: Seq<String>, base: Seq<char>, k: nat)
    requires
        k >= 2,
        forall|m: nat| 2 <= m <= k ==> name_taken(existing, #[trigger] spec_candidate(base, m)),
    ensures
        k - 1 <= existing.len(),
{
    let names = existing.map_values(|s: String| s@);
    let cands = Seq::new((k - 1) as nat, |i: int| spec_candidate(base, (i + 2) as nat));
    assert(cands.no_duplicates()) by {
        assert forall|i: int, j: int|
            0 <= i < cands.len() && 0 <= j < cands.len() && i != j implies cands[i]
            != cands[j] by {
            if cands[i] == cands[j] {
                lemma_candidate_injective(base, (i + 2) as nat, (j + 2) as nat);
            }
        }
    }
    cands.unique_seq_to_set();
    assert(cands.to_set().subset_of(names.to_set())) by {
        assert forall|c: Seq<char>| cands.to_set().contains(c) implies names.to_set().contains(
            c,
        ) by {
            let i = choose|i: int| 0 <= i < cands.len() && cands[i] == c;
            assert(name_taken(existing, spec_candidate(base, (i + 2) as nat)));
            let j = choose|j: int| 0 <= j < existing.len() && existing[j]@ == c;
            assert(names[j] == c);
            assert(names.contains(c));
        }
    }
    names.lemma_cardinality_of_set();
    vstd::set_lib::lemma_len_subset(cands.to_set(), names.to_set());
}

/// Picks the first directory name not already in use: the base name
/// itself, else the base with the smallest numbered suffix starting at 2.
pub fn ensure_unique_dir(existing: &Vec<String>, base_name: &str) -> (r: String)
    requires
        existing@.len() < u64::MAX - 2,
    ensures
        !name_taken(existing@, r@),
        exists|k: nat|
            1 <= k && r@ == #[trigger] spec_candidate(base_name@, k) && (forall|m: nat|
                1 <= m < k ==> name_taken(existing@, #[trigger] spec_candidate(base_name@, m))),
{
    if !contains_name(existing, base_name) {
        let r = base_name.to_owned();
        proof {
            assert(spec_candidate(base_name@, 1) == base_name@);
            assert(1 <= 1nat && r@ == spec_candidate(base_name@, 1) && (forall|m: nat|
                1 <= m < 1 ==> name_taken(existing@, #[trigger] spec_candidate(base_name@, m))));
        }
        return r;
    }
    let n = existing.len();
    let mut k: u64 = 2;
    loop
        invariant
            2 <= k,
            k as int <= n as int + 2,
            n == existing@.len(),
            n < u64::MAX - 2,
            forall|m: nat| 1 <= m < k ==> name_taken(
                existing@,
                #[trigger] spec_candidate(base_name@, m),
            ),
        decreases n as int + 2 - k as int,
    {
        let cand = candidate_string(base_name, k);
        if !contains_name(existing, cand.as_str()) {
            proof {
                assert(1 <= k as nat && cand@ == spec_candidate(base_name@, k as nat) && (
                forall|m: nat| 1 <= m < k as nat ==> name_taken(
                    existing@,
                    #[trigger] spec_candidate(base_name@, m),
                )));
            }
            return cand;
        }
        proof {
            lemma_candidates_pigeonhole(existing@, base_name@, k as nat);
        }
        k = k + 1;
    }
}

} // verus!
