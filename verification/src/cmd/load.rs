//! The `load` command: validates a batch of file candidates and an optional
//! directory, hands each accepted candidate's parsed table to the registry,
//! and reports every candidate's fate.  A per-candidate failure never aborts
//! the batch.  Reading the files themselves is the external table engine's
//! work; the session loop performs it and passes the results in, so that the
//! whole batch policy is verified here for every possible engine outcome.

use vstd::prelude::*;

use crate::registry::Datasets;
use crate::strutil::views_of;
use crate::table::Table;
use crate::validate::{
    dataset_name_of, has_accepted_ext, DirOutcome, FileVerdict,
};

verus! {

/// Arguments of the `load` command: file paths from `--file`, or one
/// directory from `--dir`.
#[derive(Debug, PartialEq, Eq)]
pub struct LoadCmd {
    /// Paths of files to load.
    pub files: Vec<String>,
    /// Path of a directory to load.
    pub dir: Option<String>,
}

/// One file candidate together with the session loop's findings about it:
/// whether the path exists, whether it is a regular file, and what the table
/// engine returned for it (`None` when the engine failed or was never asked).
#[derive(Debug)]
pub struct FileInput {
    /// The candidate path as the user gave it.
    pub path: String,
    /// The path names something on disk.
    pub found: bool,
    /// The path names a regular file.
    pub regular: bool,
    /// The engine's parse of the file, if it succeeded.
    pub parsed: Option<Table>,
}

/// A directory candidate after scanning: its path, the scan diagnostic, and
/// one `FileInput` per matching entry, in scan order.
#[derive(Debug)]
pub struct DirLoad {
    /// The directory path as the user gave it.
    pub path: String,
    /// What validating and scanning the directory found.
    pub outcome: DirOutcome,
    /// The matching entries, prepared like file candidates.
    pub inputs: Vec<FileInput>,
}

/// The fate of one candidate, or a batch-level note.
#[derive(Debug, PartialEq, Eq)]
pub enum LoadEvent {
    /// The path names nothing on disk.
    DoesNotExist(String),
    /// The path is not a regular file.
    NotAFile(String),
    /// The extension is not on the allow-list.
    BadExtension(String),
    /// The derived name (first field) is already registered.
    Collision(String, String),
    /// The table engine could not read the file.
    EngineFailed(String),
    /// Loaded and registered under the derived name (first field).
    Loaded(String, String),
    /// The directory does not exist.
    DirMissing(String),
    /// The path is not a directory.
    DirNotADirectory(String),
    /// The directory could not be read.
    DirReadFailed(String),
    /// The directory holds no loadable file.
    DirEmpty(String),
    /// This many loadable files were found in the directory.
    DirFound(String, usize),
    /// Not one candidate of the batch could be loaded.
    NoValidFiles,
}

impl LoadEvent {
    /// The diagnostic line shown for this event.
    pub fn message(&self) -> (m: String)
        ensures
            m@ == match *self {
                LoadEvent::DoesNotExist(p) => "file '"@ + p@ + "' does not exist"@,
                LoadEvent::NotAFile(p) => "'"@ + p@ + "' is not a file"@,
                LoadEvent::BadExtension(p) => "file '"@ + p@
                    + "' has an unsupported file extension"@,
                LoadEvent::Collision(n, p) => "\""@ + n@ + "\" (from '"@ + p@
                    + "') already exists in memory"@,
                LoadEvent::EngineFailed(p) => "failed to load file '"@ + p@ + "'"@,
                LoadEvent::Loaded(n, p) => n@ + " \u{2190} '"@ + p@ + "' successfully loaded"@,
                LoadEvent::DirMissing(p) => "directory '"@ + p@ + "' does not exist"@,
                LoadEvent::DirNotADirectory(p) => "'"@ + p@ + "' is not a directory"@,
                LoadEvent::DirReadFailed(p) => "failed to read '"@ + p@ + "'"@,
                LoadEvent::DirEmpty(p) => "'"@ + p@
                    + "' does not contain any valid .csv or .xlsx files"@,
                LoadEvent::DirFound(p, c) => crate::strutil::dec_of(c as nat)
                    + " valid file(s) found in '"@ + p@ + "'"@,
                LoadEvent::NoValidFiles => "no valid files were loaded"@,
            },
    {
        match self {
            LoadEvent::DoesNotExist(p) => String::from_str("file '").concat(p.as_str()).concat(
                "' does not exist",
            ),
            LoadEvent::NotAFile(p) => String::from_str("'").concat(p.as_str()).concat(
                "' is not a file",
            ),
            LoadEvent::BadExtension(p) => String::from_str("file '").concat(p.as_str()).concat(
                "' has an unsupported file extension",
            ),
            LoadEvent::Collision(n, p) => String::from_str("\"").concat(n.as_str()).concat(
                "\" (from '",
            ).concat(p.as_str()).concat("') already exists in memory"),
            LoadEvent::EngineFailed(p) => String::from_str("failed to load file '").concat(
                p.as_str(),
            ).concat("'"),
            LoadEvent::Loaded(n, p) => n.clone().concat(" \u{2190} '").concat(p.as_str()).concat(
                "' successfully loaded",
            ),
            LoadEvent::DirMissing(p) => String::from_str("directory '").concat(p.as_str()).concat(
                "' does not exist",
            ),
            LoadEvent::DirNotADirectory(p) => String::from_str("'").concat(p.as_str()).concat(
                "' is not a directory",
            ),
            LoadEvent::DirReadFailed(p) => String::from_str("failed to read '").concat(
                p.as_str(),
            ).concat("'"),
            LoadEvent::DirEmpty(p) => String::from_str("'").concat(p.as_str()).concat(
                "' does not contain any valid .csv or .xlsx files",
            ),
            LoadEvent::DirFound(p, c) => crate::strutil::u64_to_dec(*c as u64).concat(
                " valid file(s) found in '",
            ).concat(p.as_str()).concat("'"),
            LoadEvent::NoValidFiles => String::from_str("no valid files were loaded"),
        }
    }

    /// Whether this event is reported as an error rather than as an info
    /// line.
    pub fn is_error(&self) -> (r: bool)
        ensures
            r == !(self matches LoadEvent::Loaded(_, _) || self matches LoadEvent::DirFound(
                _,
                _,
            )),
    {
        match self {
            LoadEvent::Loaded(_, _) => false,
            LoadEvent::DirFound(_, _) => false,
            _ => true,
        }
    }
}

/// Every parsed table among the inputs is well formed.
pub open spec fn inputs_wf(inputs: Seq<FileInput>) -> bool {
    forall|i: int|
        0 <= i < inputs.len() ==> match (#[trigger] inputs[i]).parsed {
            Some(t) => t.well_formed(),
            None => true,
        }
}

/// A candidate is accepted against the given registered names: it exists,
/// is a regular file, has an accepted extension, derives a fresh name, and
/// the engine produced a table for it.
pub open spec fn spec_accepted(inp: FileInput, names: Seq<Seq<char>>) -> bool {
    &&& inp.found
    &&& inp.regular
    &&& has_accepted_ext(inp.path@)
    &&& !names.contains(dataset_name_of(inp.path@))
    &&& inp.parsed is Some
}

/// The registered names after the first `k` candidates of the batch.
pub open spec fn names_after(inputs: Seq<FileInput>, names0: Seq<Seq<char>>, k: int) -> Seq<
    Seq<char>,
>
    decreases k,
{
    if k <= 0 {
        names0
    } else {
        let prev = names_after(inputs, names0, k - 1);
        if spec_accepted(inputs[k - 1], prev) {
            prev.push(dataset_name_of(inputs[k - 1].path@))
        } else {
            prev
        }
    }
}

/// The registered tables after the first `k` candidates of the batch.
pub open spec fn tables_after(
    inputs: Seq<FileInput>,
    names0: Seq<Seq<char>>,
    tables0: Seq<Table>,
    k: int,
) -> Seq<Table>
    decreases k,
{
    if k <= 0 {
        tables0
    } else {
        let prev = tables_after(inputs, names0, tables0, k - 1);
        if spec_accepted(inputs[k - 1], names_after(inputs, names0, k - 1)) {
            prev.push(inputs[k - 1].parsed.unwrap())
        } else {
            prev
        }
    }
}

/// A batch never unregisters a dataset.
pub proof fn lemma_names_after_grows(inputs: Seq<FileInput>, names0: Seq<Seq<char>>, k: int)
    ensures
        names_after(inputs, names0, k).len() >= names0.len(),
    decreases k,
{
    if k > 0 {
        lemma_names_after_grows(inputs, names0, k - 1);
    }
}

/// A name once registered stays registered for the rest of the batch.
pub proof fn lemma_names_after_monotone(
    inputs: Seq<FileInput>,
    names0: Seq<Seq<char>>,
    x: Seq<char>,
    k1: int,
    k2: int,
)
    requires
        k1 <= k2,
        names_after(inputs, names0, k1).contains(x),
    ensures
        names_after(inputs, names0, k2).contains(x),
    decreases k2 - k1,
{
    if k1 < k2 {
        lemma_names_after_monotone(inputs, names0, x, k1, k2 - 1);
        let s = names_after(inputs, names0, k2 - 1);
        if spec_accepted(inputs[k2 - 1], s) {
            let nm = dataset_name_of(inputs[k2 - 1].path@);
            let w = choose|w: int| 0 <= w < s.len() && s[w] == x;
            assert(s.push(nm)[w] == x);
        }
    }
}

/// The derived dataset name is a pure function of the file name, so loading
/// the same file name twice in one session, without clearing the registry,
/// always has the second attempt rejected as a collision: once the earlier
/// candidate is accepted its name is registered, and the later candidate of
/// the same path derives that very name.
pub proof fn lemma_second_load_collides(
    inputs: Seq<FileInput>,
    names0: Seq<Seq<char>>,
    i: int,
    j: int,
    e: LoadEvent,
)
    requires
        0 <= i < j < inputs.len(),
        inputs[i].path@ == inputs[j].path@,
        spec_accepted(inputs[i], names_after(inputs, names0, i)),
        inputs[j].found,
        inputs[j].regular,
        event_matches(e, inputs[j], names_after(inputs, names0, j)),
    ensures
        e matches LoadEvent::Collision(n, p) && n@ == dataset_name_of(inputs[j].path@) && p@
            == inputs[j].path@,
{
    let nm = dataset_name_of(inputs[i].path@);
    let si = names_after(inputs, names0, i);
    let si1 = names_after(inputs, names0, i + 1);
    assert(si1 == si.push(nm));
    assert(si1[si1.len() - 1] == nm);
    assert(si1.contains(nm));
    lemma_names_after_monotone(inputs, names0, nm, i + 1, j);
}

/// The event reported for one candidate, given the names registered when it
/// was examined.
pub open spec fn event_matches(e: LoadEvent, inp: FileInput, names: Seq<Seq<char>>) -> bool {
    if !inp.found {
        e matches LoadEvent::DoesNotExist(p) && p@ == inp.path@
    } else if !inp.regular {
        e matches LoadEvent::NotAFile(p) && p@ == inp.path@
    } else if !has_accepted_ext(inp.path@) {
        e matches LoadEvent::BadExtension(p) && p@ == inp.path@
    } else if names.contains(dataset_name_of(inp.path@)) {
        e matches LoadEvent::Collision(n, p) && n@ == dataset_name_of(inp.path@) && p@
            == inp.path@
    } else if inp.parsed is None {
        e matches LoadEvent::EngineFailed(p) && p@ == inp.path@
    } else {
        e matches LoadEvent::Loaded(n, p) && n@ == dataset_name_of(inp.path@) && p@ == inp.path@
    }
}

/// The diagnostic event reported for a directory candidate.
pub open spec fn dir_event_matches(e: LoadEvent, path: Seq<char>, outcome: DirOutcome) -> bool {
    match outcome {
        DirOutcome::Missing => e matches LoadEvent::DirMissing(p) && p@ == path,
        DirOutcome::NotADirectory => e matches LoadEvent::DirNotADirectory(p) && p@ == path,
        DirOutcome::ReadFailed => e matches LoadEvent::DirReadFailed(p) && p@ == path,
        DirOutcome::NoMatches => e matches LoadEvent::DirEmpty(p) && p@ == path,
        DirOutcome::Found(k) => e matches LoadEvent::DirFound(p, c) && p@ == path && c == k,
    }
}

/// Validates and registers a batch of file candidates, in order.  Each
/// candidate gets exactly one event; an accepted one is registered under its
/// derived name at the moment it is examined, so a later candidate deriving
/// the same name collides.
pub fn load_candidates(inputs: Vec<FileInput>, datasets: &mut Datasets) -> (events: Vec<
    LoadEvent,
>)
    requires
        old(datasets).well_formed(),
        inputs_wf(inputs@),
    ensures
        final(datasets).well_formed(),
        final(datasets).spec_names() == names_after(
            inputs@,
            old(datasets).spec_names(),
            inputs@.len() as int,
        ),
        final(datasets).spec_tables() == tables_after(
            inputs@,
            old(datasets).spec_names(),
            old(datasets).spec_tables(),
            inputs@.len() as int,
        ),
        events@.len() == inputs@.len(),
        forall|i: int|
            0 <= i < inputs@.len() ==> event_matches(
                #[trigger] events@[i],
                inputs@[i],
                names_after(inputs@, old(datasets).spec_names(), i),
            ),
{
    let ghost inputs0 = inputs@;
    let ghost names0 = datasets.spec_names();
    let ghost tables0 = datasets.spec_tables();
    let n = inputs.len();
    let mut rest = inputs;
    let mut events: Vec<LoadEvent> = Vec::new();
    let mut k: usize = 0;
    while k < n
        invariant
            n == inputs0.len(),
            k <= n,
            rest@ == inputs0.subrange(k as int, n as int),
            inputs_wf(inputs0),
            datasets.well_formed(),
            datasets.spec_names() == names_after(inputs0, names0, k as int),
            datasets.spec_tables() == tables_after(inputs0, names0, tables0, k as int),
            events@.len() == k,
            forall|i: int|
                0 <= i < k ==> event_matches(
                    #[trigger] events@[i],
                    inputs0[i],
                    names_after(inputs0, names0, i),
                ),
        decreases n - k,
    {
        let inp = rest.remove(0);
        proof {
            assert(inp == inputs0[k as int]);
            assert(rest@ =~= inputs0.subrange(k + 1, n as int));
        }
        let FileInput { path, found, regular, parsed } = inp;
        let verdict = crate::validate::validate_file_path(
            path.as_str(),
            found,
            regular,
            datasets,
        );
        proof {
            assert(datasets.has_name(dataset_name_of(path@)) == names_after(
                inputs0,
                names0,
                k as int,
            ).contains(dataset_name_of(path@)));
        }
        match verdict {
            FileVerdict::DoesNotExist => {
                events.push(LoadEvent::DoesNotExist(path));
            },
            FileVerdict::NotAFile => {
                events.push(LoadEvent::NotAFile(path));
            },
            FileVerdict::BadExtension => {
                events.push(LoadEvent::BadExtension(path));
            },
            FileVerdict::Collision(name) => {
                events.push(LoadEvent::Collision(name, path));
            },
            FileVerdict::Accepted(name) => {
                match parsed {
                    Some(t) => {
                        let display_name = name.clone();
                        datasets.insert(name, t);
                        events.push(LoadEvent::Loaded(display_name, path));
                    },
                    None => {
                        events.push(LoadEvent::EngineFailed(path));
                    },
                }
            },
        }
        k = k + 1;
    }
    events
}

/// Runs the whole `load` command over prepared inputs: the `--file`
/// candidates first, then the directory diagnostic and the directory's
/// matching entries.  When not one candidate was loaded, one closing
/// `NoValidFiles` event says so.
pub fn run(files: Vec<FileInput>, dir: Option<DirLoad>, datasets: &mut Datasets) -> (events: Vec<
    LoadEvent,
>)
    requires
        old(datasets).well_formed(),
        inputs_wf(files@),
        (dir matches Some(d) ==> inputs_wf(d.inputs@)),
    ensures
        final(datasets).well_formed(),
        ({
            let names0 = old(datasets).spec_names();
            let mid = names_after(files@, names0, files@.len() as int);
            let dfiles = match dir {
                Some(d) => d.inputs@,
                None => Seq::<FileInput>::empty(),
            };
            let fin = names_after(dfiles, mid, dfiles.len() as int);
            let dlen: int = if dir is Some {
                1int
            } else {
                0int
            };
            let loaded_any = fin.len() > names0.len();
            let tmid = tables_after(files@, names0, old(datasets).spec_tables(), files@.len() as int);
            &&& final(datasets).spec_names() == fin
            &&& final(datasets).spec_tables() == tables_after(dfiles, mid, tmid, dfiles.len() as int)
            &&& events@.len() == files@.len() + dlen + dfiles.len() + (
            if loaded_any {
                0int
            } else {
                1int
            })
            &&& forall|i: int|
                0 <= i < files@.len() ==> event_matches(
                    #[trigger] events@[i],
                    files@[i],
                    names_after(files@, names0, i),
                )
            &&& (dir matches Some(d) ==> dir_event_matches(
                events@[files@.len() as int],
                d.path@,
                d.outcome,
            ))
            &&& forall|i: int|
                0 <= i < dfiles.len() ==> event_matches(
                    #[trigger] events@[files@.len() + dlen + i],
                    dfiles[i],
                    names_after(dfiles, mid, i),
                )
            &&& (!loaded_any ==> events@.last() == LoadEvent::NoValidFiles)
        }),
{
    let ghost names0 = datasets.spec_names();
    let ghost gfiles = files@;
    let ghost gdir = dir;
    let n0 = datasets.len();
    let mut events = load_candidates(files, datasets);
    match dir {
        None => {},
        Some(d) => {
            let DirLoad { path, outcome, inputs } = d;
            let diag = match outcome {
                DirOutcome::Missing => LoadEvent::DirMissing(path),
                DirOutcome::NotADirectory => LoadEvent::DirNotADirectory(path),
                DirOutcome::ReadFailed => LoadEvent::DirReadFailed(path),
                DirOutcome::NoMatches => LoadEvent::DirEmpty(path),
                DirOutcome::Found(c) => LoadEvent::DirFound(path, c),
            };
            events.push(diag);
            let mut more = load_candidates(inputs, datasets);
            events.append(&mut more);
        },
    }
    proof {
        let mid = names_after(gfiles, names0, gfiles.len() as int);
        let dfiles = match gdir {
            Some(d) => d.inputs@,
            None => Seq::<FileInput>::empty(),
        };
        lemma_names_after_grows(gfiles, names0, gfiles.len() as int);
        lemma_names_after_grows(dfiles, mid, dfiles.len() as int);
    }
    if datasets.len() == n0 {
        events.push(LoadEvent::NoValidFiles);
    }
    events
}

} // verus!
