//! The decisions of the header-scan cache. The cache itself lives in an
//! SQLite database that the application reads and writes; what changed, what
//! to rescan, and what a stored record reads back as, are decided here.
use vstd::prelude::*;
use crate::text::{ends_with, ends_with_str, seq_of_strings, str_eq};

verus! {

/// Files with these extensions are followed for changes.
pub open spec fn tracked_ext_spec(ext: Seq<char>) -> bool {
    ext == "h"@ || ext == "hpp"@ || ext == "hxx"@ || ext == "inl"@ || ext == "cpp"@ || ext == "cxx"@
        || ext == "cc"@ || ext == "c"@
}

pub fn is_tracked_ext(ext: &str) -> (r: bool)
    ensures
        r == tracked_ext_spec(ext@),
{
    str_eq(ext, "h") || str_eq(ext, "hpp") || str_eq(ext, "hxx") || str_eq(ext, "inl") || str_eq(ext, "cpp")
        || str_eq(ext, "cxx") || str_eq(ext, "cc") || str_eq(ext, "c")
}

/// Directories that the walk of the source tree does not enter.
pub open spec fn skipped_dir_spec(name: Seq<char>) -> bool {
    name == ".git"@ || name == "target"@ || name == "node_modules"@
}

pub fn is_skipped_dir(name: &str) -> (r: bool)
    ensures
        r == skipped_dir_spec(name@),
{
    str_eq(name, ".git") || str_eq(name, "target") || str_eq(name, "node_modules")
}

/// A header: a name ending in `.h`, `.hpp`, `.hxx` or `.inl`.
pub open spec fn is_header_spec(name: Seq<char>) -> bool {
    ends_with(name, ".h"@) || ends_with(name, ".hpp"@) || ends_with(name, ".hxx"@) || ends_with(name, ".inl"@)
}

pub fn is_header(name: &str) -> (r: bool)
    ensures
        r == is_header_spec(name@),
{
    ends_with_str(name, ".h") || ends_with_str(name, ".hpp") || ends_with_str(name, ".hxx") || ends_with_str(
        name,
        ".inl",
    )
}

/// What changed since the last run: the files to scan (new, changed, or
/// using a changed header) and the files gone from disk; each once.
pub struct Diff {
    pub needs_scan: Vec<String>,
    pub deleted: Vec<String>,
}

/// A file walked on disk (its path and time stamp) set against what the
/// cache holds for it: it needs a scan when the cache has no time stamp for
/// it or another one.
pub open spec fn needs_scan_row(new_mtime: i64, old_mtime: Option<i64>) -> bool {
    match old_mtime {
        None => true,
        Some(old) => old != new_mtime,
    }
}

/// A changed header: a header whose cached time stamp differs.
pub open spec fn changed_header_row(path: Seq<char>, new_mtime: i64, old_mtime: Option<i64>) -> bool {
    old_mtime is Some && old_mtime->0 != new_mtime && is_header_spec(path)
}

pub open spec fn row_paths(rows: Seq<(String, i64, Option<i64>)>) -> Seq<Seq<char>> {
    rows.map_values(|r: (String, i64, Option<i64>)| r.0@)
}

/// The changed headers of the rows, in order.
pub open spec fn changed_headers_spec(rows: Seq<(String, i64, Option<i64>)>) -> Seq<Seq<char>>
    decreases rows.len(),
{
    if rows.len() == 0 {
        Seq::empty()
    } else {
        let r = rows.last();
        changed_headers_spec(rows.drop_last()) + if changed_header_row(r.0@, r.1, r.2) {
            seq![r.0@]
        } else {
            Seq::<Seq<char>>::empty()
        }
    }
}

/// Whether no path occurs twice in `v`: what [`insert_unique`] needs.
pub fn all_distinct(v: &Vec<String>) -> (r: bool)
    ensures
        r == seq_of_strings(v@).no_duplicates(),
{
    let ghost s = seq_of_strings(v@);
    let mut i: usize = 0;
    while i < v.len()
        invariant
            i <= v.len(),
            s == seq_of_strings(v@),
            forall|a: int, b: int| 0 <= a < b < s.len() && a < i ==> s[a] != s[b],
        decreases v.len() - i,
    {
        let mut j: usize = i + 1;
        while j < v.len()
            invariant
                i < j <= v.len(),
                s == seq_of_strings(v@),
                forall|a: int, b: int| 0 <= a < b < s.len() && a < i ==> s[a] != s[b],
                forall|b: int| i < b < j ==> s[i as int] != s[b],
            decreases v.len() - j,
        {
            if str_eq(v[i].as_str(), v[j].as_str()) {
                assert(s[i as int] == s[j as int]);
                return false;
            }
            j += 1;
        }
        i += 1;
    }
    true
}

/// Adds `p` to a duplicate-free list, as `HashSet::insert` does: whether it
/// was new.
pub fn insert_unique(v: &mut Vec<String>, p: String) -> (r: bool)
    requires
        seq_of_strings(old(v)@).no_duplicates(),
    ensures
        seq_of_strings(final(v)@).no_duplicates(),
        seq_of_strings(final(v)@).to_set() == seq_of_strings(old(v)@).to_set().insert(p@),
        r == !seq_of_strings(old(v)@).contains(p@),
{
    let ghost s = seq_of_strings(v@);
    let mut k: usize = 0;
    while k < v.len()
        invariant
            k <= v.len(),
            s == seq_of_strings(v@),
            s == seq_of_strings(old(v)@),
            s.no_duplicates(),
            forall|j: int| 0 <= j < k ==> s[j] != p@,
        decreases v.len() - k,
    {
        if str_eq(v[k].as_str(), p.as_str()) {
            assert(s[k as int] == p@);
            assert(s.to_set().insert(p@) =~= s.to_set());
            return false;
        }
        k += 1;
    }
    let ghost pv = p@;
    v.push(p);
    assert(seq_of_strings(v@) =~= s.push(pv));
    assert forall|a: int, b: int| 0 <= a < b < s.push(pv).len() implies s.push(pv)[a] != s.push(pv)[b] by {
        if b == s.len() {
            assert(s[a] != pv);
        }
    }
    proof {
        crate::generate::lemma_push_to_set(s, pv);
    }
    true
}

impl Diff {
    pub fn new() -> (r: Diff)
        ensures
            r.needs_scan@.len() == 0,
            r.deleted@.len() == 0,
    {
        Diff { needs_scan: Vec::new(), deleted: Vec::new() }
    }
}

/// Sets the rows of a walk against the cache: every file that needs a scan
/// (each once), and the headers that changed (in row order), whose users
/// must be scanned again too; `gone` are the cached files no longer on disk.
pub fn diff_rows(rows: &Vec<(String, i64, Option<i64>)>, gone: &Vec<String>) -> (r: (Diff, Vec<String>))
    ensures
        seq_of_strings(r.0.needs_scan@).no_duplicates(),
        forall|p: Seq<char>|
            #[trigger] seq_of_strings(r.0.needs_scan@).contains(p) <==> exists|k: int|
                0 <= k < rows@.len() && rows@[k].0@ == p && needs_scan_row(rows@[k].1, rows@[k].2),
        seq_of_strings(r.0.deleted@).no_duplicates(),
        seq_of_strings(r.0.deleted@).to_set() == seq_of_strings(gone@).to_set(),
        seq_of_strings(r.1@) == changed_headers_spec(rows@),
{
    let mut diff = Diff::new();
    let mut changed: Vec<String> = Vec::new();
    assert(seq_of_strings(diff.needs_scan@) =~= Seq::<Seq<char>>::empty());
    assert(seq_of_strings(diff.deleted@) =~= Seq::<Seq<char>>::empty());
    let mut i: usize = 0;
    while i < rows.len()
        invariant
            i <= rows.len(),
            seq_of_strings(diff.needs_scan@).no_duplicates(),
            forall|p: Seq<char>|
                #[trigger] seq_of_strings(diff.needs_scan@).contains(p) <==> exists|k: int|
                    0 <= k < i && rows@[k].0@ == p && needs_scan_row(rows@[k].1, rows@[k].2),
            seq_of_strings(changed@) == changed_headers_spec(rows@.take(i as int)),
            diff.deleted@.len() == 0,
        decreases rows.len() - i,
    {
        let row = &rows[i];
        let ghost before = seq_of_strings(diff.needs_scan@);
        let ghost before_c = seq_of_strings(changed@);
        assert(rows@.take(i + 1).drop_last() =~= rows@.take(i as int));
        let needs = match row.2 {
            None => true,
            Some(old) => old != row.1,
        };
        if needs {
            if row.2.is_some() && is_header(row.0.as_str()) {
                changed.push(row.0.clone());
                assert(seq_of_strings(changed@) =~= before_c + seq![row.0@]);
            } else {
                assert(seq_of_strings(changed@) =~= before_c + Seq::<Seq<char>>::empty());
            }
            insert_unique(&mut diff.needs_scan, row.0.clone());
            assert forall|p: Seq<char>|
                #[trigger] seq_of_strings(diff.needs_scan@).contains(p) <==> exists|k: int|
                    0 <= k < i + 1 && rows@[k].0@ == p && needs_scan_row(rows@[k].1, rows@[k].2) by {
                assert(seq_of_strings(diff.needs_scan@).to_set().contains(p) == seq_of_strings(diff.needs_scan@).contains(p));
                assert(before.to_set().contains(p) == before.contains(p));
                if p == row.0@ {
                    assert(rows@[i as int].0@ == p && needs_scan_row(rows@[i as int].1, rows@[i as int].2));
                }
            }
        } else {
            assert(seq_of_strings(changed@) =~= before_c + Seq::<Seq<char>>::empty());
            assert forall|p: Seq<char>|
                #[trigger] seq_of_strings(diff.needs_scan@).contains(p) <==> exists|k: int|
                    0 <= k < i + 1 && rows@[k].0@ == p && needs_scan_row(rows@[k].1, rows@[k].2) by {
                if exists|k: int| 0 <= k < i + 1 && rows@[k].0@ == p && needs_scan_row(rows@[k].1, rows@[k].2) {
                    let k = choose|k: int| 0 <= k < i + 1 && rows@[k].0@ == p && needs_scan_row(rows@[k].1, rows@[k].2);
                    assert(k < i);
                }
            }
        }
        i += 1;
    }
    assert(rows@.take(rows.len() as int) =~= rows@);
    let ghost ns0 = diff.needs_scan@;
    let mut j: usize = 0;
    while j < gone.len()
        invariant
            j <= gone.len(),
            diff.needs_scan@ == ns0,
            seq_of_strings(diff.deleted@).no_duplicates(),
            seq_of_strings(diff.deleted@).to_set() == seq_of_strings(gone@).take(j as int).to_set(),
        decreases gone.len() - j,
    {
        insert_unique(&mut diff.deleted, gone[j].clone());
        assert(seq_of_strings(gone@).take(j + 1) =~= seq_of_strings(gone@).take(j as int).push(gone@[j as int]@));
        proof {
            crate::generate::lemma_push_to_set(seq_of_strings(gone@).take(j as int), gone@[j as int]@);
        }
        j += 1;
    }
    assert(seq_of_strings(gone@).take(gone.len() as int) =~= seq_of_strings(gone@));
    (diff, changed)
}

/// The list of strings that a JSON text holds, as `serde_json` reads it
/// into a `Vec<String>`; `None` where it is not such a list.
pub uninterp spec fn json_string_list(text: Seq<char>) -> Option<Seq<Seq<char>>>;

/// The JSON text that `serde_json` writes for a list of strings.
pub uninterp spec fn json_of_strings(items: Seq<Seq<char>>) -> Seq<char>;

/// `serde_json::from_str::<Vec<String>>`. What it reads is named by
/// [`json_string_list`]; the error is dropped.
#[verifier::external_body]
fn decode_strings(text: &str) -> (r: Option<Vec<String>>)
    ensures
        match r {
            Some(v) => json_string_list(text@) == Some(seq_of_strings(v@)),
            None => json_string_list(text@) is None,
        },
{
    serde_json::from_str::<Vec<String>>(text).ok()
}

/// `serde_json::to_string` of a list of strings, named by
/// [`json_of_strings`]. Writing a list of strings does not fail, and
/// `serde_json` reads the text back as the same list (strings are written
/// with all the escapes they need).
#[verifier::external_body]
fn encode_strings(items: &Vec<String>) -> (r: String)
    ensures
        r@ == json_of_strings(seq_of_strings(items@)),
        json_string_list(r@) == Some(seq_of_strings(items@)),
{
    match serde_json::to_string(items) {
        Ok(s) => s,
        Err(_) => String::new(),
    }
}

/// The record stored for a scanned source: its headers as a JSON list.
pub fn headers_record(headers: &Vec<String>) -> (r: String)
    ensures
        r@ == json_of_strings(seq_of_strings(headers@)),
        json_string_list(r@) == Some(seq_of_strings(headers@)),
{
    encode_strings(headers)
}

/// What a cached record gives for a source with time stamp `mtime`:
/// nothing when the record is for another time stamp (the database holds it
/// as an `i64`), else the headers it lists.
pub open spec fn cached_headers_spec(cached_mtime: i64, mtime: u64, record: Seq<char>) -> Option<Seq<Seq<char>>> {
    if cached_mtime != mtime as i64 {
        None
    } else {
        json_string_list(record)
    }
}

pub fn cached_headers(cached_mtime: i64, mtime: u64, record: &str) -> (r: Option<Vec<String>>)
    ensures
        match r {
            Some(v) => cached_headers_spec(cached_mtime, mtime, record@) == Some(seq_of_strings(v@)),
            None => cached_headers_spec(cached_mtime, mtime, record@) is None,
        },
{
    if cached_mtime != mtime as i64 {
        return None;
    }
    decode_strings(record)
}

/// The headers of a stored record that are no longer used by the source
/// (the reverse index drops them): those of the old record; an unreadable
/// old record refuses the update.
pub fn old_record_headers(old_record: Option<&str>) -> (r: Option<Vec<String>>)
    ensures
        match old_record {
            None => r matches Some(v) && v@.len() == 0,
            Some(t) => match r {
                Some(v) => json_string_list(t@) == Some(seq_of_strings(v@)),
                None => json_string_list(t@) is None,
            },
        },
{
    match old_record {
        None => Some(Vec::new()),
        Some(t) => decode_strings(t),
    }
}

/// Law: a record read back at the time stamp it was stored with gives the
/// headers it was made of.
pub proof fn lemma_cache_read_back(mtime: u64, headers: Seq<Seq<char>>, record: Seq<char>)
    requires
        json_string_list(record) == Some(headers),
    ensures
        cached_headers_spec(mtime as i64, mtime, record) == Some(headers),
{
}

} // verus!
