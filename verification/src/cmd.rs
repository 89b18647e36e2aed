//! The command layer: the typed commands of the shell, the parser from
//! shell tokens to a command, and the dispatcher that the session loop calls
//! once per input line.  The verb is the first token, case-insensitively;
//! the rest of the grammar is fixed per verb.  A malformed line yields a
//! diagnostic and never ends the session.
//!
//! Grammar: `load {-f|--file PATH... | -d|--dir PATH}` (exactly one of the
//! two, `-f` taking every following token up to the next flag);
//! `preview [-n|--rows N]` with `N` signed and non-zero, six by default;
//! `save PATTERN [-i|--ignore-case]`; `exit`.

pub mod load;
pub mod preview;
pub mod save;

use vstd::prelude::*;

use crate::cmd::load::LoadCmd;
use crate::cmd::preview::{PreviewCmd, DEFAULT_ROWS};
use crate::cmd::save::SaveCmd;
use crate::registry::Datasets;
use crate::strutil::{lower_seq, views_of};
use crate::tokenize::{tokenize_spec, TokenizeError};

verus! {

/// The commands of the shell.
#[derive(Debug, PartialEq, Eq)]
pub enum Commands {
    /// Load a file or directory.
    Load(LoadCmd),
    /// Preview loaded data.
    Preview(PreviewCmd),
    /// Save current data.
    Save(SaveCmd),
    /// Exit the shell.
    Exit,
}

/// Why a token list failed to parse as a command.
#[derive(Debug, PartialEq, Eq)]
pub enum ParseError {
    /// The first token is no known verb.
    UnknownCommand(String),
    /// A token that the verb's grammar has no place for.
    UnexpectedArgument(String),
    /// `load` named neither files nor a directory.
    MissingLoadSource,
    /// `load` named both files and a directory.
    ConflictingLoadSources,
    /// A flag that needs a value has none.
    MissingValue(String),
    /// The row count did not parse; carries the reason.
    InvalidRowCount(String),
    /// A flag that may be given once was repeated.
    DuplicateFlag(String),
    /// `save` was given no pattern.
    MissingPattern,
}

impl ParseError {
    /// The usage diagnostic shown for this parse failure.
    pub fn message(&self) -> (m: String)
        ensures
            m@ == match *self {
                ParseError::UnknownCommand(v) => "unknown command '"@ + v@ + "'"@,
                ParseError::UnexpectedArgument(t) => "unexpected argument '"@ + t@ + "'"@,
                ParseError::MissingLoadSource => "load requires exactly one of --file or --dir"@,
                ParseError::ConflictingLoadSources => "load accepts only one of --file and --dir"@,
                ParseError::MissingValue(f) => "flag '"@ + f@ + "' requires a value"@,
                ParseError::InvalidRowCount(w) => w@,
                ParseError::DuplicateFlag(f) => "flag '"@ + f@ + "' was given more than once"@,
                ParseError::MissingPattern => "save requires a pattern"@,
            },
    {
        match self {
            ParseError::UnknownCommand(v) => String::from_str("unknown command '").concat(
                v.as_str(),
            ).concat("'"),
            ParseError::UnexpectedArgument(t) => String::from_str("unexpected argument '").concat(
                t.as_str(),
            ).concat("'"),
            ParseError::MissingLoadSource => String::from_str(
                "load requires exactly one of --file or --dir",
            ),
            ParseError::ConflictingLoadSources => String::from_str(
                "load accepts only one of --file and --dir",
            ),
            ParseError::MissingValue(f) => String::from_str("flag '").concat(f.as_str()).concat(
                "' requires a value",
            ),
            ParseError::InvalidRowCount(w) => w.clone(),
            ParseError::DuplicateFlag(f) => String::from_str("flag '").concat(f.as_str()).concat(
                "' was given more than once",
            ),
            ParseError::MissingPattern => String::from_str("save requires a pattern"),
        }
    }
}

/// The parsed command, at the specification level.
pub enum CommandSpec {
    /// Load these files, or this directory.
    Load { files: Seq<Seq<char>>, dir: Option<Seq<char>> },
    /// Preview this many rows.
    Preview { rows: int },
    /// Save by this pattern.
    Save { pattern: Seq<char>, ignore_case: bool },
    /// End the session.
    Exit,
}

/// The parse failure, at the specification level.
pub enum ParseErrSpec {
    /// The first token is no known verb.
    UnknownCommand(Seq<char>),
    /// A token that the verb's grammar has no place for.
    UnexpectedArgument(Seq<char>),
    /// `load` named neither files nor a directory.
    MissingLoadSource,
    /// `load` named both files and a directory.
    ConflictingLoadSources,
    /// A flag that needs a value has none.
    MissingValue(Seq<char>),
    /// The row count did not parse; carries the reason.
    InvalidRowCount(Seq<char>),
    /// A flag that may be given once was repeated.
    DuplicateFlag(Seq<char>),
    /// `save` was given no pattern.
    MissingPattern,
}

/// The token begins a flag.
pub open spec fn starts_dash(t: Seq<char>) -> bool {
    t.len() > 0 && t[0] == '-'
}

/// Parsing the `load` arguments from position `i`: `files` and `dir` are
/// what earlier tokens established, `collecting` whether a `-f` value list
/// is still open.
pub open spec fn load_spec(
    tokens: Seq<Seq<char>>,
    i: int,
    files: Seq<Seq<char>>,
    dir: Option<Seq<char>>,
    collecting: bool,
) -> Result<CommandSpec, ParseErrSpec>
    decreases tokens.len() - i,
    when 1 <= i <= tokens.len()
{
    if i == tokens.len() {
        if files.len() > 0 && dir is Some {
            Err(ParseErrSpec::ConflictingLoadSources)
        } else if files.len() == 0 && dir is None {
            Err(ParseErrSpec::MissingLoadSource)
        } else {
            Ok(CommandSpec::Load { files, dir })
        }
    } else {
        let t = tokens[i];
        if collecting && !starts_dash(t) {
            load_spec(tokens, i + 1, files.push(t), dir, true)
        } else if t == "-f"@ || t == "--file"@ {
            if i + 1 < tokens.len() && !starts_dash(tokens[i + 1]) {
                load_spec(tokens, i + 1, files, dir, true)
            } else {
                Err(ParseErrSpec::MissingValue(t))
            }
        } else if t == "-d"@ || t == "--dir"@ {
            if dir is Some {
                Err(ParseErrSpec::DuplicateFlag(t))
            } else if i + 1 < tokens.len() && !starts_dash(tokens[i + 1]) {
                load_spec(tokens, i + 2, files, Some(tokens[i + 1]), false)
            } else {
                Err(ParseErrSpec::MissingValue(t))
            }
        } else {
            Err(ParseErrSpec::UnexpectedArgument(t))
        }
    }
}

/// Parsing the `preview` arguments from position `i`.
pub open spec fn preview_spec(tokens: Seq<Seq<char>>, i: int, rows: Option<int>) -> Result<
    CommandSpec,
    ParseErrSpec,
>
    decreases tokens.len() - i,
    when 1 <= i <= tokens.len()
{
    if i == tokens.len() {
        Ok(
            CommandSpec::Preview {
                rows: match rows {
                    Some(v) => v,
                    None => DEFAULT_ROWS as int,
                },
            },
        )
    } else {
        let t = tokens[i];
        if t == "-n"@ || t == "--rows"@ {
            if rows is Some {
                Err(ParseErrSpec::DuplicateFlag(t))
            } else if i + 1 < tokens.len() {
                let v = tokens[i + 1];
                if crate::cmd::preview::is_int_literal(v) && crate::cmd::preview::in_i64(
                    crate::cmd::preview::int_val(v),
                ) && crate::cmd::preview::int_val(v) != 0 {
                    preview_spec(tokens, i + 2, Some(crate::cmd::preview::int_val(v)))
                } else {
                    Err(
                        ParseErrSpec::InvalidRowCount(
                            if crate::cmd::preview::is_int_literal(v)
                                && crate::cmd::preview::in_i64(
                                crate::cmd::preview::int_val(v),
                            ) {
                                "argument must be a non-zero integer number"@
                            } else {
                                "argument must be an integer number"@
                            },
                        ),
                    )
                }
            } else {
                Err(ParseErrSpec::MissingValue(t))
            }
        } else {
            Err(ParseErrSpec::UnexpectedArgument(t))
        }
    }
}

/// Parsing the `save` arguments from position `i`.
pub open spec fn save_spec(
    tokens: Seq<Seq<char>>,
    i: int,
    pattern: Option<Seq<char>>,
    ignore_case: bool,
) -> Result<CommandSpec, ParseErrSpec>
    decreases tokens.len() - i,
    when 1 <= i <= tokens.len()
{
    if i == tokens.len() {
        match pattern {
            Some(p) => Ok(CommandSpec::Save { pattern: p, ignore_case }),
            None => Err(ParseErrSpec::MissingPattern),
        }
    } else {
        let t = tokens[i];
        if t == "-i"@ || t == "--ignore-case"@ {
            save_spec(tokens, i + 1, pattern, true)
        } else if starts_dash(t) {
            Err(ParseErrSpec::UnexpectedArgument(t))
        } else if pattern is Some {
            Err(ParseErrSpec::UnexpectedArgument(t))
        } else {
            save_spec(tokens, i + 1, Some(t), ignore_case)
        }
    }
}

/// Parsing a whole non-empty token list: the first token picks the verb,
/// case-insensitively.
pub open spec fn parse_spec(tokens: Seq<Seq<char>>) -> Result<CommandSpec, ParseErrSpec>
    recommends
        tokens.len() > 0,
{
    let verb = lower_seq(tokens[0]);
    if verb == "load"@ {
        load_spec(tokens, 1, Seq::empty(), None, false)
    } else if verb == "preview"@ {
        preview_spec(tokens, 1, None)
    } else if verb == "save"@ {
        save_spec(tokens, 1, None, false)
    } else if verb == "exit"@ {
        if tokens.len() == 1 {
            Ok(CommandSpec::Exit)
        } else {
            Err(ParseErrSpec::UnexpectedArgument(tokens[1]))
        }
    } else {
        Err(ParseErrSpec::UnknownCommand(tokens[0]))
    }
}

/// An option's view.
pub open spec fn opt_view(o: Option<String>) -> Option<Seq<char>> {
    match o {
        Some(s) => Some(s@),
        None => None,
    }
}

/// The parsed command carries exactly what the specification-level parse
/// says.
pub open spec fn cmd_matches(c: Commands, s: CommandSpec) -> bool {
    match (c, s) {
        (Commands::Load(lc), CommandSpec::Load { files, dir }) => views_of(lc.files@) == files
            && opt_view(lc.dir) == dir,
        (Commands::Preview(pc), CommandSpec::Preview { rows }) => pc.rows == rows,
        (Commands::Save(sc), CommandSpec::Save { pattern, ignore_case }) => sc.pattern@ == pattern
            && sc.ignore_case == ignore_case,
        (Commands::Exit, CommandSpec::Exit) => true,
        _ => false,
    }
}

/// The parse error carries exactly what the specification-level parse says.
pub open spec fn perr_matches(e: ParseError, s: ParseErrSpec) -> bool {
    match (e, s) {
        (ParseError::UnknownCommand(a), ParseErrSpec::UnknownCommand(b)) => a@ == b,
        (ParseError::UnexpectedArgument(a), ParseErrSpec::UnexpectedArgument(b)) => a@ == b,
        (ParseError::MissingLoadSource, ParseErrSpec::MissingLoadSource) => true,
        (ParseError::ConflictingLoadSources, ParseErrSpec::ConflictingLoadSources) => true,
        (ParseError::MissingValue(a), ParseErrSpec::MissingValue(b)) => a@ == b,
        (ParseError::InvalidRowCount(a), ParseErrSpec::InvalidRowCount(b)) => a@ == b,
        (ParseError::DuplicateFlag(a), ParseErrSpec::DuplicateFlag(b)) => a@ == b,
        (ParseError::MissingPattern, ParseErrSpec::MissingPattern) => true,
        _ => false,
    }
}

/// Whether the token begins a flag.
fn starts_dash_exec(t: &str) -> (r: bool)
    ensures
        r == starts_dash(t@),
{
    t.unicode_len() > 0 && t.get_char(0) == '-'
}

/// Parses the `load` arguments.
fn parse_load(tokens: &Vec<String>) -> (r: Result<Commands, ParseError>)
    requires
        tokens@.len() >= 1,
    ensures
        match (r, load_spec(views_of(tokens@), 1, Seq::empty(), None, false)) {
            (Ok(c), Ok(s)) => cmd_matches(c, s),
            (Err(e), Err(s)) => perr_matches(e, s),
            _ => false,
        },
{
    let ghost gt = views_of(tokens@);
    let n = tokens.len();
    let mut files: Vec<String> = Vec::new();
    let mut dir: Option<String> = None;
    let mut collecting = false;
    let mut i: usize = 1;
    proof {
        assert(views_of(files@) =~= Seq::<Seq<char>>::empty());
    }
    while i < n
        invariant
            gt == views_of(tokens@),
            n == tokens@.len(),
            n >= 1,
            1 <= i <= n,
            load_spec(gt, 1, Seq::empty(), None, false) == load_spec(
                gt,
                i as int,
                views_of(files@),
                opt_view(dir),
                collecting,
            ),
        decreases n - i,
    {
        let t = &tokens[i];
        proof {
            assert(gt[i as int] == tokens@[i as int]@);
        }
        if collecting && !starts_dash_exec(t.as_str()) {
            let v = t.clone();
            proof {
                assert(views_of(files@.push(v)) =~= views_of(files@).push(v@));
            }
            files.push(v);
            i = i + 1;
        } else if crate::strutil::str_eq(t.as_str(), "-f") || crate::strutil::str_eq(
            t.as_str(),
            "--file",
        ) {
            if i + 1 < n && !starts_dash_exec(tokens[i + 1].as_str()) {
                proof {
                    assert(gt[i + 1] == tokens@[i + 1]@);
                }
                collecting = true;
                i = i + 1;
            } else {
                proof {
                    if i + 1 < n {
                        assert(gt[i + 1] == tokens@[i + 1]@);
                    }
                }
                return Err(ParseError::MissingValue(t.clone()));
            }
        } else if crate::strutil::str_eq(t.as_str(), "-d") || crate::strutil::str_eq(
            t.as_str(),
            "--dir",
        ) {
            if dir.is_some() {
                return Err(ParseError::DuplicateFlag(t.clone()));
            }
            if i + 1 < n && !starts_dash_exec(tokens[i + 1].as_str()) {
                proof {
                    assert(gt[i + 1] == tokens@[i + 1]@);
                }
                dir = Some(tokens[i + 1].clone());
                collecting = false;
                i = i + 2;
            } else {
                proof {
                    if i + 1 < n {
                        assert(gt[i + 1] == tokens@[i + 1]@);
                    }
                }
                return Err(ParseError::MissingValue(t.clone()));
            }
        } else {
            return Err(ParseError::UnexpectedArgument(t.clone()));
        }
    }
    if files.len() > 0 && dir.is_some() {
        Err(ParseError::ConflictingLoadSources)
    } else if files.len() == 0 && dir.is_none() {
        Err(ParseError::MissingLoadSource)
    } else {
        Ok(Commands::Load(LoadCmd { files, dir }))
    }
}

/// Parses the `preview` arguments.
fn parse_preview(tokens: &Vec<String>) -> (r: Result<Commands, ParseError>)
    requires
        tokens@.len() >= 1,
    ensures
        match (r, preview_spec(views_of(tokens@), 1, None)) {
            (Ok(c), Ok(s)) => cmd_matches(c, s),
            (Err(e), Err(s)) => perr_matches(e, s),
            _ => false,
        },
{
    let ghost gt = views_of(tokens@);
    let n = tokens.len();
    let mut rows: Option<i64> = None;
    let mut i: usize = 1;
    while i < n
        invariant
            gt == views_of(tokens@),
            n == tokens@.len(),
            n >= 1,
            1 <= i <= n,
            preview_spec(gt, 1, None) == preview_spec(
                gt,
                i as int,
                match rows {
                    Some(v) => Some(v as int),
                    None => None,
                },
            ),
        decreases n - i,
    {
        let t = &tokens[i];
        proof {
            assert(gt[i as int] == tokens@[i as int]@);
        }
        if crate::strutil::str_eq(t.as_str(), "-n") || crate::strutil::str_eq(
            t.as_str(),
            "--rows",
        ) {
            if rows.is_some() {
                return Err(ParseError::DuplicateFlag(t.clone()));
            }
            if i + 1 < n {
                proof {
                    assert(gt[i + 1] == tokens@[i + 1]@);
                }
                match crate::cmd::preview::validate_nonzero(tokens[i + 1].as_str()) {
                    Ok(v) => {
                        rows = Some(v);
                        i = i + 2;
                    },
                    Err(m) => {
                        return Err(ParseError::InvalidRowCount(m));
                    },
                }
            } else {
                return Err(ParseError::MissingValue(t.clone()));
            }
        } else {
            return Err(ParseError::UnexpectedArgument(t.clone()));
        }
    }
    Ok(
        Commands::Preview(
            PreviewCmd {
                rows: match rows {
                    Some(v) => v,
                    None => DEFAULT_ROWS,
                },
            },
        ),
    )
}

/// Parses the `save` arguments.
fn parse_save(tokens: &Vec<String>) -> (r: Result<Commands, ParseError>)
    requires
        tokens@.len() >= 1,
    ensures
        match (r, save_spec(views_of(tokens@), 1, None, false)) {
            (Ok(c), Ok(s)) => cmd_matches(c, s),
            (Err(e), Err(s)) => perr_matches(e, s),
            _ => false,
        },
{
    let ghost gt = views_of(tokens@);
    let n = tokens.len();
    let mut pattern: Option<String> = None;
    let mut ignore_case = false;
    let mut i: usize = 1;
    while i < n
        invariant
            gt == views_of(tokens@),
            n == tokens@.len(),
            n >= 1,
            1 <= i <= n,
            save_spec(gt, 1, None, false) == save_spec(
                gt,
                i as int,
                opt_view(pattern),
                ignore_case,
            ),
        decreases n - i,
    {
        let t = &tokens[i];
        proof {
            assert(gt[i as int] == tokens@[i as int]@);
        }
        if crate::strutil::str_eq(t.as_str(), "-i") || crate::strutil::str_eq(
            t.as_str(),
            "--ignore-case",
        ) {
            ignore_case = true;
            i = i + 1;
        } else if starts_dash_exec(t.as_str()) {
            return Err(ParseError::UnexpectedArgument(t.clone()));
        } else if pattern.is_some() {
            return Err(ParseError::UnexpectedArgument(t.clone()));
        } else {
            pattern = Some(t.clone());
            i = i + 1;
        }
    }
    match pattern {
        Some(p) => Ok(Commands::Save(SaveCmd { pattern: p, ignore_case })),
        None => Err(ParseError::MissingPattern),
    }
}

/// Parses a non-empty token list into a command.
pub fn parse_tokens(tokens: &Vec<String>) -> (r: Result<Commands, ParseError>)
    requires
        tokens@.len() > 0,
    ensures
        match (r, parse_spec(views_of(tokens@))) {
            (Ok(c), Ok(s)) => cmd_matches(c, s),
            (Err(e), Err(s)) => perr_matches(e, s),
            _ => false,
        },
{
    let ghost gt = views_of(tokens@);
    proof {
        assert(gt[0] == tokens@[0]@);
    }
    let verb = crate::strutil::to_lowercase(tokens[0].as_str());
    if crate::strutil::str_eq(verb.as_str(), "load") {
        parse_load(tokens)
    } else if crate::strutil::str_eq(verb.as_str(), "preview") {
        parse_preview(tokens)
    } else if crate::strutil::str_eq(verb.as_str(), "save") {
        parse_save(tokens)
    } else if crate::strutil::str_eq(verb.as_str(), "exit") {
        if tokens.len() == 1 {
            Ok(Commands::Exit)
        } else {
            proof {
                assert(gt[1] == tokens@[1]@);
            }
            Err(ParseError::UnexpectedArgument(tokens[1].clone()))
        }
    } else {
        Err(ParseError::UnknownCommand(tokens[0].clone()))
    }
}

/// A successful `load` parse always yields a `Load` command.
pub proof fn lemma_load_spec_shape(
    tokens: Seq<Seq<char>>,
    i: int,
    files: Seq<Seq<char>>,
    dir: Option<Seq<char>>,
    collecting: bool,
)
    requires
        1 <= i <= tokens.len(),
    ensures
        load_spec(tokens, i, files, dir, collecting) matches Ok(s) ==> s
            matches CommandSpec::Load { .. },
    decreases tokens.len() - i,
{
    if i < tokens.len() {
        let t = tokens[i];
        if collecting && !starts_dash(t) {
            lemma_load_spec_shape(tokens, i + 1, files.push(t), dir, true);
        } else if t == "-f"@ || t == "--file"@ {
            if i + 1 < tokens.len() && !starts_dash(tokens[i + 1]) {
                lemma_load_spec_shape(tokens, i + 1, files, dir, true);
            }
        } else if t == "-d"@ || t == "--dir"@ {
            if dir is None && i + 1 < tokens.len() && !starts_dash(tokens[i + 1]) {
                lemma_load_spec_shape(tokens, i + 2, files, Some(tokens[i + 1]), false);
            }
        }
    }
}

/// A successful `save` parse always yields a `Save` command.
pub proof fn lemma_save_spec_shape(
    tokens: Seq<Seq<char>>,
    i: int,
    pattern: Option<Seq<char>>,
    ignore_case: bool,
)
    requires
        1 <= i <= tokens.len(),
    ensures
        save_spec(tokens, i, pattern, ignore_case) matches Ok(s) ==> s
            matches CommandSpec::Save { .. },
    decreases tokens.len() - i,
{
    if i < tokens.len() {
        let t = tokens[i];
        if t == "-i"@ || t == "--ignore-case"@ {
            lemma_save_spec_shape(tokens, i + 1, pattern, true);
        } else if !starts_dash(t) && pattern is None {
            lemma_save_spec_shape(tokens, i + 1, Some(t), ignore_case);
        }
    }
}

/// A `preview` that parses always carries a non-zero row count: the default
/// is non-zero, and an explicit count of zero is rejected at parsing.
pub proof fn lemma_preview_rows_nonzero(tokens: Seq<Seq<char>>, i: int, rows: Option<int>)
    requires
        1 <= i <= tokens.len(),
        rows matches Some(v) ==> v != 0,
    ensures
        preview_spec(tokens, i, rows) matches Ok(s) ==> (s matches CommandSpec::Preview { rows: rv }
            && rv != 0),
    decreases tokens.len() - i,
{
    if i < tokens.len() {
        let t = tokens[i];
        if t == "-n"@ || t == "--rows"@ {
            if rows is None && i + 1 < tokens.len() {
                let v = tokens[i + 1];
                if crate::cmd::preview::is_int_literal(v) && crate::cmd::preview::in_i64(
                    crate::cmd::preview::int_val(v),
                ) && crate::cmd::preview::int_val(v) != 0 {
                    lemma_preview_rows_nonzero(
                        tokens,
                        i + 2,
                        Some(crate::cmd::preview::int_val(v)),
                    );
                }
            }
        }
    }
}

/// What one executed line yields, beside the continue flag.
#[derive(Debug)]
pub enum ExecOutcome {
    /// The line held no tokens: nothing to do.
    Empty,
    /// The line could not be split into tokens.
    BadLine(TokenizeError),
    /// The tokens did not parse as a command.
    BadCommand(ParseError),
    /// Every dataset's preview attempt.
    Previewed(crate::cmd::preview::PreviewOutcome),
    /// The `save` diagnostic.
    Saved(String),
    /// A `load` that the session loop must perform against the engine.
    PendingLoad(LoadCmd),
    /// The session ends.
    Exit,
}

/// Executes one raw input line against the registry: tokenizes, parses, and
/// answers.  Only `exit` stops the session; every failure is a diagnostic
/// and the session continues.  A `load` is handed back for the session loop
/// to perform, since only it can reach the file system and the table
/// engine.
pub fn execute(line: &str, datasets: &Datasets) -> (r: (bool, ExecOutcome))
    requires
        datasets.well_formed(),
    ensures
        r.0 == !(tokenize_spec(line@) matches Ok(ts) && ts.len() > 0 && parse_spec(ts) matches Ok(
            CommandSpec::Exit,
        )),
        match tokenize_spec(line@) {
            Err(te) => r.1 matches ExecOutcome::BadLine(e) && e == te,
            Ok(ts) => if ts.len() == 0 {
                r.1 is Empty
            } else {
                match parse_spec(ts) {
                    Err(pe) => r.1 matches ExecOutcome::BadCommand(e) && perr_matches(e, pe),
                    Ok(CommandSpec::Exit) => r.1 is Exit,
                    Ok(CommandSpec::Load { files, dir }) => r.1 matches ExecOutcome::PendingLoad(
                        lc,
                    ) && views_of(lc.files@) == files && opt_view(lc.dir) == dir,
                    Ok(CommandSpec::Save { pattern, ignore_case }) => r.1
                        matches ExecOutcome::Saved(m) && m@
                        == "the 'save' command is not implemented yet"@,
                    Ok(CommandSpec::Preview { rows }) => r.1 matches ExecOutcome::Previewed(o) && (
                    (o is Empty) == (datasets.spec_len() == 0)) && (o
                        matches crate::cmd::preview::PreviewOutcome::Items(items) ==> items@.len()
                        == datasets.spec_len() && forall|i: int|
                        0 <= i < items@.len() ==> crate::cmd::preview::item_ok(
                            #[trigger] items@[i],
                            datasets.spec_names()[i],
                            datasets.spec_tables()[i],
                            rows,
                        )),
                }
            },
        },
{
    match crate::tokenize::split_line(line) {
        Err(e) => (true, ExecOutcome::BadLine(e)),
        Ok(tokens) => {
            if tokens.len() == 0 {
                (true, ExecOutcome::Empty)
            } else {
                match parse_tokens(&tokens) {
                    Err(e) => (true, ExecOutcome::BadCommand(e)),
                    Ok(c) => match c {
                        Commands::Exit => (false, ExecOutcome::Exit),
                        Commands::Load(lc) => (true, ExecOutcome::PendingLoad(lc)),
                        Commands::Save(sc) => (true, ExecOutcome::Saved(crate::cmd::save::run(&sc))),
                        Commands::Preview(pc) => {
                            proof {
                                let gt = views_of(tokens@);
                                lemma_load_spec_shape(gt, 1, Seq::empty(), None, false);
                                lemma_save_spec_shape(gt, 1, None, false);
                                lemma_preview_rows_nonzero(gt, 1, None);
                            }
                            (
                                true,
                                ExecOutcome::Previewed(crate::cmd::preview::run(&pc, datasets)),
                            )
                        },
                    },
                }
            }
        },
    }
}

} // verus!
