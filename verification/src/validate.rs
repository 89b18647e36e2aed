//! Validation of load candidates.  A file candidate is accepted only if it
//! exists, is a regular file, and carries an accepted extension (`csv` or
//! `xlsx`, case-insensitively); its dataset name is the file stem, uppercased.
//! A directory candidate is scanned, non-recursively, for entries that pass
//! the same file rule.  Whether a path exists on disk is a fact of the session
//! loop's world; the policy here is a pure function of the path text and of
//! those facts.

use vstd::prelude::*;

use crate::registry::Datasets;
use crate::strutil::{lower_seq, upper_seq, views_of};

verus! {

/// The last index below `k` at which `c` occurs in `p`, or -1.
pub open spec fn rlast_before(p: Seq<char>, c: char, k: int) -> int
    decreases k,
{
    if k <= 0 {
        -1
    } else if p[k - 1] == c {
        k - 1
    } else {
        rlast_before(p, c, k - 1)
    }
}

/// `rlast_before` stays in range and points at an occurrence.
pub proof fn lemma_rlast_bounds(p: Seq<char>, c: char, k: int)
    requires
        0 <= k <= p.len(),
    ensures
        -1 <= rlast_before(p, c, k) < k,
        rlast_before(p, c, k) >= 0 ==> p[rlast_before(p, c, k)] == c,
    decreases k,
{
    if k > 0 && p[k - 1] != c {
        lemma_rlast_bounds(p, c, k - 1);
    }
}

/// Where the base name of the path begins: just after the last `/`.
pub open spec fn base_start_of(p: Seq<char>) -> int {
    rlast_before(p, '/', p.len() as int) + 1
}

/// The last `.` of the path, or -1.
pub open spec fn ext_dot_of(p: Seq<char>) -> int {
    rlast_before(p, '.', p.len() as int)
}

/// The path has an extension: a `.` inside the base name, not as its first
/// character (a leading dot marks a hidden file, not an extension).
pub open spec fn has_ext(p: Seq<char>) -> bool {
    ext_dot_of(p) > base_start_of(p)
}

/// The file stem: the base name up to the extension dot, if any.
pub open spec fn stem_of(p: Seq<char>) -> Seq<char> {
    if has_ext(p) {
        p.subrange(base_start_of(p), ext_dot_of(p))
    } else {
        p.subrange(base_start_of(p), p.len() as int)
    }
}

/// The extension text after the dot (meaningful only when `has_ext`).
pub open spec fn ext_of(p: Seq<char>) -> Seq<char> {
    p.subrange(ext_dot_of(p) + 1, p.len() as int)
}

/// The extension, lowercased, is on the allow-list.
pub open spec fn has_accepted_ext(p: Seq<char>) -> bool {
    has_ext(p) && (lower_seq(ext_of(p)) == "csv"@ || lower_seq(ext_of(p)) == "xlsx"@)
}

/// The dataset name derived from a path: the uppercased file stem.  This is
/// a pure function of the path text alone, so the same file name always
/// derives the same name.
pub open spec fn dataset_name_of(p: Seq<char>) -> Seq<char> {
    upper_seq(stem_of(p))
}

/// The last index at which `c` occurs in `s`, if any.
pub fn last_index_of(s: &str, c: char) -> (r: Option<usize>)
    ensures
        match r {
            Some(k) => k == rlast_before(s@, c, s@.len() as int),
            None => rlast_before(s@, c, s@.len() as int) == -1,
        },
{
    let n = s.unicode_len();
    let mut k: usize = n;
    while k > 0
        invariant
            n == s@.len(),
            k <= n,
            rlast_before(s@, c, n as int) == rlast_before(s@, c, k as int),
        decreases k,
    {
        if s.get_char(k - 1) == c {
            return Some(k - 1);
        }
        k = k - 1;
    }
    None
}

/// Whether the candidate's extension is on the allow-list.
pub fn has_valid_extension(path: &str) -> (r: bool)
    ensures
        r == has_accepted_ext(path@),
{
    let n = path.unicode_len();
    proof {
        lemma_rlast_bounds(path@, '/', n as int);
        lemma_rlast_bounds(path@, '.', n as int);
    }
    let slash = last_index_of(path, '/');
    let dot = last_index_of(path, '.');
    let base_start: usize = match slash {
        Some(k) => k + 1,
        None => 0,
    };
    match dot {
        Some(d) => {
            if d > base_start {
                let ext = path.substring_char(d + 1, n);
                let low = crate::strutil::to_lowercase(ext);
                crate::strutil::str_eq(low.as_str(), "csv") || crate::strutil::str_eq(
                    low.as_str(),
                    "xlsx",
                )
            } else {
                false
            }
        },
        None => false,
    }
}

/// The dataset name derived from a path: the uppercased file stem.
pub fn dataset_name(path: &str) -> (name: String)
    ensures
        name@ == dataset_name_of(path@),
{
    let n = path.unicode_len();
    proof {
        lemma_rlast_bounds(path@, '/', n as int);
        lemma_rlast_bounds(path@, '.', n as int);
    }
    let slash = last_index_of(path, '/');
    let dot = last_index_of(path, '.');
    let base_start: usize = match slash {
        Some(k) => k + 1,
        None => 0,
    };
    let stem_end: usize = match dot {
        Some(d) => if d > base_start {
            d
        } else {
            n
        },
        None => n,
    };
    let stem = path.substring_char(base_start, stem_end);
    crate::strutil::to_uppercase(stem)
}

/// The outcome of validating one file candidate against the rules and the
/// registry.
#[derive(Debug)]
pub enum FileVerdict {
    /// Accepted; carries the derived dataset name.
    Accepted(String),
    /// The path names nothing on disk.
    DoesNotExist,
    /// The path names something that is not a regular file.
    NotAFile,
    /// The extension is not on the allow-list.
    BadExtension,
    /// A dataset of the derived name is already registered; carries the name.
    Collision(String),
}

/// Validates one file candidate.  `found` and `regular` are the session
/// loop's findings about the path on disk; everything else is decided here.
/// A rejected candidate is skipped by its caller, never renamed.
pub fn validate_file_path(path: &str, found: bool, regular: bool, datasets: &Datasets) -> (v:
    FileVerdict)
    ensures
        !found ==> v is DoesNotExist,
        found && !regular ==> v is NotAFile,
        found && regular && !has_accepted_ext(path@) ==> v is BadExtension,
        found && regular && has_accepted_ext(path@) && datasets.has_name(dataset_name_of(path@))
            ==> (v matches FileVerdict::Collision(n) && n@ == dataset_name_of(path@)),
        found && regular && has_accepted_ext(path@) && !datasets.has_name(dataset_name_of(path@))
            ==> (v matches FileVerdict::Accepted(n) && n@ == dataset_name_of(path@)),
{
    if !found {
        return FileVerdict::DoesNotExist;
    }
    if !regular {
        return FileVerdict::NotAFile;
    }
    if !has_valid_extension(path) {
        return FileVerdict::BadExtension;
    }
    let name = dataset_name(path);
    if datasets.contains_key(name.as_str()) {
        FileVerdict::Collision(name)
    } else {
        FileVerdict::Accepted(name)
    }
}

/// One entry of a scanned directory: its full path and whether it is a
/// regular file.
#[derive(Debug)]
pub struct DirEntry {
    /// The entry's path, as the session loop joined it.
    pub name: String,
    /// Whether the entry is a regular file.
    pub is_file: bool,
}

/// The diagnostic of one directory candidate.
#[derive(Debug, Clone, Copy, PartialEq, Eq, Structural)]
pub enum DirOutcome {
    /// The path names nothing on disk.
    Missing,
    /// The path names something that is not a directory.
    NotADirectory,
    /// The directory could not be read.
    ReadFailed,
    /// The directory holds no entry that passes the file rule.
    NoMatches,
    /// This many entries pass the file rule.
    Found(usize),
}

/// The entries from position `i` on that pass the file rule.
pub open spec fn matching_from(entries: Seq<DirEntry>, i: int) -> Seq<Seq<char>>
    decreases entries.len() - i,
    when 0 <= i <= entries.len()
{
    if i == entries.len() {
        Seq::empty()
    } else {
        let rest = matching_from(entries, i + 1);
        if entries[i].is_file && has_accepted_ext(entries[i].name@) {
            seq![entries[i].name@] + rest
        } else {
            rest
        }
    }
}

/// The entries of a scanned directory that pass the file rule, in order.
pub open spec fn matching_of(entries: Seq<DirEntry>) -> Seq<Seq<char>> {
    matching_from(entries, 0)
}

/// Validates one directory candidate and filters its entries.  `found` and
/// `is_dir` are the session loop's findings about the path, `scan_ok`
/// whether its non-recursive scan succeeded, and `entries` the scan.  Each
/// failure — missing, not a directory, unreadable, nothing matching —
/// yields an empty list and its own single diagnostic; none aborts the
/// batch.
pub fn validate_dir_path(
    path: &str,
    found: bool,
    is_dir: bool,
    scan_ok: bool,
    entries: &Vec<DirEntry>,
) -> (r: (Vec<String>, DirOutcome))
    ensures
        !found ==> r.0@.len() == 0 && r.1 == DirOutcome::Missing,
        found && !is_dir ==> r.0@.len() == 0 && r.1 == DirOutcome::NotADirectory,
        found && is_dir && !scan_ok ==> r.0@.len() == 0 && r.1 == DirOutcome::ReadFailed,
        found && is_dir && scan_ok ==> views_of(r.0@) == matching_of(entries@) && (if matching_of(
            entries@,
        ) =~= Seq::<Seq<char>>::empty() {
            r.1 == DirOutcome::NoMatches
        } else {
            r.1 == DirOutcome::Found(r.0@.len() as usize)
        }),
{
    if !found {
        return (Vec::new(), DirOutcome::Missing);
    }
    if !is_dir {
        return (Vec::new(), DirOutcome::NotADirectory);
    }
    if !scan_ok {
        return (Vec::new(), DirOutcome::ReadFailed);
    }
    let n = entries.len();
    let mut acc: Vec<String> = Vec::new();
    proof {
        assert(views_of(acc@) =~= Seq::<Seq<char>>::empty());
    }
    let mut i: usize = 0;
    while i < n
        invariant
            n == entries@.len(),
            i <= n,
            matching_of(entries@) == views_of(acc@) + matching_from(entries@, i as int),
        decreases n - i,
    {
        let keep = entries[i].is_file && has_valid_extension(entries[i].name.as_str());
        if keep {
            let p = entries[i].name.clone();
            proof {
                assert(views_of(acc@.push(p)) =~= views_of(acc@).push(p@));
                assert(views_of(acc@).push(p@) + matching_from(entries@, i + 1) =~= views_of(acc@)
                    + matching_from(entries@, i as int));
            }
            acc.push(p);
        }
        i = i + 1;
    }
    proof {
        assert(matching_from(entries@, n as int) =~= Seq::<Seq<char>>::empty());
        assert(views_of(acc@) =~= views_of(acc@) + matching_from(entries@, n as int));
    }
    if acc.len() == 0 {
        proof {
            assert(matching_of(entries@) =~= Seq::<Seq<char>>::empty());
        }
        (acc, DirOutcome::NoMatches)
    } else {
        let count = acc.len();
        proof {
            assert(matching_of(entries@).len() == views_of(acc@).len());
        }
        (acc, DirOutcome::Found(count))
    }
}

} // verus!
