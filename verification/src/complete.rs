//! The completion and highlight engine that the line editor consults on
//! every keystroke.  Completion has exactly two phases, decided by the text
//! before the cursor: within the first token it offers command verbs whose
//! names begin with the partial token, case-insensitively; after `load` and
//! a path-valued flag it offers loadable entries of the fragment's
//! directory.  The loadable-file rule is applied uniformly to every
//! path-valued flag, `--dir` included — the engine only ever offers what
//! the load pipeline would accept, the reading chosen where the shell's
//! contract is silent.  Every other cursor position yields no candidates.
//! Highlighting emphasises the first token when it names a verb exactly,
//! case-insensitively, and passes everything else through unchanged; it is a
//! pure function of the line and never touches the buffer itself.

use vstd::prelude::*;

use crate::strutil::{
    is_prefix, is_space_char, lower_seq, skip_back, skip_front, views_of,
};
use crate::validate::{has_accepted_ext, rlast_before};

verus! {

/// One completion candidate: what is shown, and what replaces the fragment.
#[derive(Debug, PartialEq, Eq)]
pub struct Candidate {
    /// The text listed to the user.
    pub display: String,
    /// The text that replaces the line from the anchor on.
    pub replacement: String,
}

/// The completion and highlight helper bound to the line editor: it holds
/// the registered command verbs.
#[derive(Debug)]
pub struct ReadLineHelper {
    /// The verbs offered in command-name completion and highlighted.
    pub commands: Vec<String>,
}

/// The first index at or after `i` holding a space (the end of the token
/// that begins at `i`).
pub open spec fn run_end(s: Seq<char>, i: int) -> int
    decreases s.len() - i,
    when 0 <= i <= s.len()
{
    if i < s.len() && !is_space_char(s[i]) {
        run_end(s, i + 1)
    } else {
        i
    }
}

/// `run_end` stays within range.
pub proof fn lemma_run_end_bounds(s: Seq<char>, i: int)
    requires
        0 <= i <= s.len(),
    ensures
        i <= run_end(s, i) <= s.len(),
    decreases s.len() - i,
{
    if i < s.len() && !is_space_char(s[i]) {
        lemma_run_end_bounds(s, i + 1);
    }
}

/// The start of the trailing run of non-spaces that ends at `k`.
pub open spec fn frag_start_before(s: Seq<char>, k: int) -> int
    decreases k,
    when 0 <= k <= s.len()
{
    if k > 0 && !is_space_char(s[k - 1]) {
        frag_start_before(s, k - 1)
    } else {
        k
    }
}

/// The command-name phase: the cursor is within the first token and no
/// space follows it yet.
pub open spec fn verb_phase(input: Seq<char>) -> bool {
    &&& input.len() > 0
    &&& !is_space_char(input.last())
    &&& forall|i: int|
        skip_front(input, 0) <= i < input.len() ==> !is_space_char(#[trigger] input[i])
}

/// The partial verb under the cursor.
pub open spec fn verb_prefix(input: Seq<char>) -> Seq<char> {
    input.subrange(skip_front(input, 0), input.len() as int)
}

/// The first whitespace-delimited token of the input.
pub open spec fn first_tok(input: Seq<char>) -> Seq<char> {
    input.subrange(skip_front(input, 0), run_end(input, skip_front(input, 0)))
}

/// The token standing right before the path fragment under the cursor.
pub open spec fn prev_tok(input: Seq<char>) -> Seq<char> {
    let fs = frag_start_before(input, input.len() as int);
    let pe = skip_back(input, fs);
    input.subrange(frag_start_before(input, pe), pe)
}

/// A flag whose value is a path.
pub open spec fn is_path_flag(t: Seq<char>) -> bool {
    t == "-f"@ || t == "--file"@ || t == "-d"@ || t == "--dir"@
}

/// The path-argument phase: the first token is `load`, case-insensitively,
/// and the token right before the fragment is a path-valued flag.
pub open spec fn path_phase(input: Seq<char>) -> bool {
    &&& lower_seq(first_tok(input)) == "load"@
    &&& prev_tok(input).len() > 0
    &&& is_path_flag(prev_tok(input))
}

/// The displays of a candidate list.
pub open spec fn displays_of(cs: Seq<Candidate>) -> Seq<Seq<char>> {
    cs.map_values(|c: Candidate| c.display@)
}

/// The verbs from position `i` on whose names begin with the partial token,
/// case-insensitively.
pub open spec fn verbs_from(cmds: Seq<Seq<char>>, prefix: Seq<char>, i: int) -> Seq<Seq<char>>
    decreases cmds.len() - i,
    when 0 <= i <= cmds.len()
{
    if i == cmds.len() {
        Seq::empty()
    } else {
        let rest = verbs_from(cmds, prefix, i + 1);
        if is_prefix(lower_seq(prefix), lower_seq(cmds[i])) {
            seq![cmds[i]] + rest
        } else {
            rest
        }
    }
}

/// The directory entries from position `i` on that begin with the
/// fragment's base name and carry an accepted extension — the same rule for
/// every path-valued flag, so only loadable files are ever offered.
pub open spec fn paths_from(entries: Seq<Seq<char>>, base: Seq<char>, i: int) -> Seq<Seq<char>>
    decreases entries.len() - i,
    when 0 <= i <= entries.len()
{
    if i == entries.len() {
        Seq::empty()
    } else {
        let rest = paths_from(entries, base, i + 1);
        if is_prefix(base, entries[i]) && has_accepted_ext(entries[i]) {
            seq![entries[i]] + rest
        } else {
            rest
        }
    }
}

/// Where the fragment's directory part ends: just after its last `/`.
pub open spec fn frag_dir_end(frag: Seq<char>) -> int {
    rlast_before(frag, '/', frag.len() as int) + 1
}

/// The candidates are exactly the matching verbs, each replacing from
/// column zero with itself.
pub open spec fn verb_cands_ok(cs: Seq<Candidate>, cmds: Seq<Seq<char>>, prefix: Seq<char>) -> bool {
    &&& displays_of(cs) == verbs_from(cmds, prefix, 0)
    &&& forall|j: int| 0 <= j < cs.len() ==> (#[trigger] cs[j]).replacement@ == cs[j].display@
}

/// The candidates are exactly the matching entries, each replacing the
/// fragment with the directory part plus the entry.
pub open spec fn path_cands_ok(cs: Seq<Candidate>, entries: Seq<Seq<char>>, frag: Seq<char>) -> bool {
    &&& displays_of(cs) == paths_from(entries, frag.subrange(frag_dir_end(frag), frag.len() as int), 0)
    &&& forall|j: int|
        0 <= j < cs.len() ==> (#[trigger] cs[j]).replacement@ == frag.subrange(0, frag_dir_end(frag))
            + cs[j].display@
}

/// A verb is registered, compared case-insensitively.
pub open spec fn known_verb(cmds: Seq<Seq<char>>, tok: Seq<char>) -> bool {
    exists|i: int| 0 <= i < cmds.len() && lower_seq(#[trigger] cmds[i]) == lower_seq(tok)
}

/// The line with its first token wrapped in the given emphasis codes and
/// everything else unchanged.
pub open spec fn highlighted_form(line: Seq<char>, pre: Seq<char>, post: Seq<char>) -> Seq<char> {
    let a = skip_front(line, 0);
    let e = run_end(line, a);
    line.subrange(0, a) + pre + line.subrange(a, e) + post + line.subrange(e, line.len() as int)
}

/// Some pair of emphasis codes makes this from the line: the codes' color
/// digits depend on the environment, but the structure never does, the
/// opening code is non-empty, and the closing one is the constant reset
/// escape — the verb really is emphasised.
pub open spec fn is_highlighted(r: Seq<char>, line: Seq<char>) -> bool {
    exists|pre: Seq<char>, post: Seq<char>|
        pre.len() > 0 && post == "\u{1b}[0m"@ && r == highlighted_form(line, pre, post)
}

impl ReadLineHelper {
    /// A helper over the given command verbs.
    pub fn new(commands: Vec<String>) -> (h: ReadLineHelper)
        ensures
            h.commands@ == commands@,
    {
        ReadLineHelper { commands }
    }

    /// Computes the completion for a cursor position.  `entries` is the
    /// session loop's non-recursive listing of the fragment's directory,
    /// consulted only in the path phase.  Returns the anchor from which the
    /// replacement applies, and the candidates.
    pub fn complete(&self, line: &str, pos: usize, entries: &Vec<String>) -> (r: (
        usize,
        Vec<Candidate>,
    ))
        requires
            pos <= line@.len(),
        ensures
            ({
                let input = line@.subrange(0, pos as int);
                &&& verb_phase(input) ==> r.0 == 0 && verb_cands_ok(
                    r.1@,
                    views_of(self.commands@),
                    verb_prefix(input),
                )
                &&& !verb_phase(input) && path_phase(input) ==> r.0 == frag_start_before(
                    input,
                    pos as int,
                ) && path_cands_ok(
                    r.1@,
                    views_of(entries@),
                    input.subrange(frag_start_before(input, pos as int), pos as int),
                )
                &&& !verb_phase(input) && !path_phase(input) ==> r.0 == 0 && r.1@.len() == 0
            }),
    {
        let input = line.substring_char(0, pos);
        let ghost ginput = line@.subrange(0, pos as int);
        let m = pos;
        let mut a: usize = 0;
        while a < m && crate::strutil::is_space(input.get_char(a))
            invariant
                input@ == ginput,
                m == input@.len(),
                a <= m,
                skip_front(ginput, 0) == skip_front(ginput, a as int),
            decreases m - a,
        {
            a = a + 1;
        }
        proof {
            assert(a == skip_front(ginput, 0));
        }
        let is_verb_phase = if m > 0 && !crate::strutil::is_space(input.get_char(m - 1)) {
            let mut j: usize = a;
            let mut all_solid = true;
            while j < m
                invariant
                    input@ == ginput,
                    m == input@.len(),
                    a <= j <= m,
                    a == skip_front(ginput, 0),
                    all_solid == forall|i: int|
                        a <= i < j ==> !is_space_char(#[trigger] ginput[i]),
                decreases m - j,
            {
                if crate::strutil::is_space(input.get_char(j)) {
                    all_solid = false;
                }
                j = j + 1;
            }
            all_solid
        } else {
            false
        };
        if is_verb_phase {
            let prefix = input.substring_char(a, m);
            let lp = crate::strutil::to_lowercase(prefix);
            let ghost cmds = views_of(self.commands@);
            let ncmd = self.commands.len();
            let mut cands: Vec<Candidate> = Vec::new();
            proof {
                assert(displays_of(cands@) =~= Seq::<Seq<char>>::empty());
            }
            let mut i: usize = 0;
            while i < ncmd
                invariant
                    ncmd == self.commands@.len(),
                    cmds == views_of(self.commands@),
                    i <= ncmd,
                    lp@ == lower_seq(verb_prefix(ginput)),
                    prefix@ == verb_prefix(ginput),
                    verbs_from(cmds, verb_prefix(ginput), 0) == displays_of(cands@) + verbs_from(
                        cmds,
                        verb_prefix(ginput),
                        i as int,
                    ),
                    forall|j: int|
                        0 <= j < cands@.len() ==> (#[trigger] cands@[j]).replacement@
                            == cands@[j].display@,
                decreases ncmd - i,
            {
                let cmd = &self.commands[i];
                proof {
                    assert(cmds[i as int] == self.commands@[i as int]@);
                }
                let lc = crate::strutil::to_lowercase(cmd.as_str());
                if crate::strutil::starts_with(lc.as_str(), lp.as_str()) {
                    let c = Candidate { display: cmd.clone(), replacement: cmd.clone() };
                    proof {
                        assert(displays_of(cands@.push(c)) =~= displays_of(cands@).push(c.display@));
                        assert(displays_of(cands@).push(cmds[i as int]) + verbs_from(
                            cmds,
                            verb_prefix(ginput),
                            i + 1,
                        ) =~= displays_of(cands@) + verbs_from(cmds, verb_prefix(ginput), i as int));
                    }
                    cands.push(c);
                } else {
                }
                i = i + 1;
            }
            proof {
                assert(verbs_from(cmds, verb_prefix(ginput), ncmd as int)
                    =~= Seq::<Seq<char>>::empty());
                assert(displays_of(cands@) =~= displays_of(cands@) + verbs_from(
                    cmds,
                    verb_prefix(ginput),
                    ncmd as int,
                ));
            }
            return (0, cands);
        }
        // Path phase: find the fragment, the token before it, and the first
        // token.
        let mut fs: usize = m;
        while fs > 0 && !crate::strutil::is_space(input.get_char(fs - 1))
            invariant
                input@ == ginput,
                m == input@.len(),
                fs <= m,
                frag_start_before(ginput, m as int) == frag_start_before(ginput, fs as int),
            decreases fs,
        {
            fs = fs - 1;
        }
        proof {
            assert(fs == frag_start_before(ginput, m as int));
        }
        let mut pe: usize = fs;
        while pe > 0 && crate::strutil::is_space(input.get_char(pe - 1))
            invariant
                input@ == ginput,
                m == input@.len(),
                pe <= fs <= m,
                skip_back(ginput, fs as int) == skip_back(ginput, pe as int),
            decreases pe,
        {
            pe = pe - 1;
        }
        proof {
            assert(pe == skip_back(ginput, fs as int));
        }
        let mut ps: usize = pe;
        while ps > 0 && !crate::strutil::is_space(input.get_char(ps - 1))
            invariant
                input@ == ginput,
                m == input@.len(),
                ps <= pe <= m,
                frag_start_before(ginput, pe as int) == frag_start_before(ginput, ps as int),
            decreases ps,
        {
            ps = ps - 1;
        }
        proof {
            assert(ps == frag_start_before(ginput, pe as int));
        }
        let mut e: usize = a;
        while e < m && !crate::strutil::is_space(input.get_char(e))
            invariant
                input@ == ginput,
                m == input@.len(),
                a <= e <= m,
                run_end(ginput, a as int) == run_end(ginput, e as int),
            decreases m - e,
        {
            e = e + 1;
        }
        proof {
            assert(e == run_end(ginput, a as int));
        }
        let first = input.substring_char(a, e);
        let lf = crate::strutil::to_lowercase(first);
        let prev = input.substring_char(ps, pe);
        let is_load = crate::strutil::str_eq(lf.as_str(), "load");
        let prev_is_flag = crate::strutil::str_eq(prev, "-f") || crate::strutil::str_eq(
            prev,
            "--file",
        ) || crate::strutil::str_eq(prev, "-d") || crate::strutil::str_eq(prev, "--dir");
        if is_load && pe > ps && prev_is_flag {
            proof {
                assert(path_phase(ginput));
            }
            let frag = input.substring_char(fs, m);
            let fl = frag.unicode_len();
            proof {
                crate::validate::lemma_rlast_bounds(frag@, '/', fl as int);
            }
            let ds: usize = match crate::validate::last_index_of(frag, '/') {
                Some(k) => k + 1,
                None => 0,
            };
            let dirp = frag.substring_char(0, ds);
            let base = frag.substring_char(ds, fl);
            let ghost ents = views_of(entries@);
            let nent = entries.len();
            let mut cands: Vec<Candidate> = Vec::new();
            proof {
                assert(displays_of(cands@) =~= Seq::<Seq<char>>::empty());
            }
            let mut i: usize = 0;
            while i < nent
                invariant
                    nent == entries@.len(),
                    ents == views_of(entries@),
                    i <= nent,
                    base@ == frag@.subrange(frag_dir_end(frag@), frag@.len() as int),
                    dirp@ == frag@.subrange(0, frag_dir_end(frag@)),
                    paths_from(ents, base@, 0) == displays_of(cands@) + paths_from(
                        ents,
                        base@,
                        i as int,
                    ),
                    forall|j: int|
                        0 <= j < cands@.len() ==> (#[trigger] cands@[j]).replacement@ == dirp@
                            + cands@[j].display@,
                decreases nent - i,
            {
                let entry = &entries[i];
                proof {
                    assert(ents[i as int] == entries@[i as int]@);
                }
                if crate::strutil::starts_with(entry.as_str(), base)
                    && crate::validate::has_valid_extension(entry.as_str()) {
                    let c = Candidate {
                        display: entry.clone(),
                        replacement: dirp.to_owned().concat(entry.as_str()),
                    };
                    proof {
                        assert(displays_of(cands@.push(c)) =~= displays_of(cands@).push(c.display@));
                        assert(displays_of(cands@).push(ents[i as int]) + paths_from(
                            ents,
                            base@,
                            i + 1,
                        ) =~= displays_of(cands@) + paths_from(ents, base@, i as int));
                    }
                    cands.push(c);
                } else {
                }
                i = i + 1;
            }
            proof {
                assert(paths_from(ents, base@, nent as int) =~= Seq::<Seq<char>>::empty());
                assert(displays_of(cands@) =~= displays_of(cands@) + paths_from(
                    ents,
                    base@,
                    nent as int,
                ));
            }
            return (fs, cands);
        }
        proof {
            assert(!path_phase(ginput));
        }
        (0, Vec::new())
    }

    /// Rewrites the line's display form with the given emphasis codes: when
    /// the first token names a verb exactly, case-insensitively, it is
    /// wrapped in `pre`/`post`; everything else is passed through
    /// unchanged.
    pub fn highlight_with(&self, line: &str, pre: &str, post: &str) -> (r: String)
        ensures
            ({
                let a = skip_front(line@, 0);
                let e = run_end(line@, a);
                let tok = line@.subrange(a, e);
                &&& (tok.len() == 0 || !known_verb(views_of(self.commands@), tok)) ==> r@ == line@
                &&& tok.len() > 0 && known_verb(views_of(self.commands@), tok) ==> r@
                    == highlighted_form(line@, pre@, post@)
            }),
    {
        let n = line.unicode_len();
        let mut a: usize = 0;
        while a < n && crate::strutil::is_space(line.get_char(a))
            invariant
                n == line@.len(),
                a <= n,
                skip_front(line@, 0) == skip_front(line@, a as int),
            decreases n - a,
        {
            a = a + 1;
        }
        proof {
            assert(a == skip_front(line@, 0));
        }
        let mut e: usize = a;
        while e < n && !crate::strutil::is_space(line.get_char(e))
            invariant
                n == line@.len(),
                a <= e <= n,
                run_end(line@, a as int) == run_end(line@, e as int),
            decreases n - e,
        {
            e = e + 1;
        }
        proof {
            assert(e == run_end(line@, a as int));
        }
        let tok = line.substring_char(a, e);
        let lt = crate::strutil::to_lowercase(tok);
        let ghost cmds = views_of(self.commands@);
        let ncmd = self.commands.len();
        let mut found = false;
        let mut i: usize = 0;
        while i < ncmd
            invariant
                ncmd == self.commands@.len(),
                cmds == views_of(self.commands@),
                i <= ncmd,
                lt@ == lower_seq(tok@),
                found == exists|k: int|
                    0 <= k < i && lower_seq(#[trigger] cmds[k]) == lower_seq(tok@),
            decreases ncmd - i,
        {
            let lc = crate::strutil::to_lowercase(self.commands[i].as_str());
            proof {
                assert(cmds[i as int] == self.commands@[i as int]@);
            }
            if crate::strutil::str_eq(lc.as_str(), lt.as_str()) {
                found = true;
            }
            i = i + 1;
        }
        if e > a && found {
            let left = line.substring_char(0, a);
            let right = line.substring_char(e, n);
            let r = left.to_owned().concat(pre).concat(tok).concat(post).concat(right);
            proof {
                assert(tok@.len() > 0);
                assert(known_verb(cmds, tok@));
                assert(r@ =~= highlighted_form(line@, pre@, post@));
            }
            r
        } else {
            proof {
                if e <= a {
                    assert(line@.subrange(a as int, e as int).len() == 0);
                } else {
                    assert(!known_verb(cmds, tok@));
                }
            }
            line.to_owned()
        }
    }

    /// Rewrites the line's display form under the current verb emphasis
    /// codes.  The codes' color digits depend on the process environment,
    /// so their values are not promised, but the emphasis itself is: a line
    /// without a leading verb passes through unchanged, one with a leading
    /// verb has that token, and nothing else, wrapped in a non-empty pair
    /// of codes, and so is never the unchanged line.
    pub fn highlight(&self, line: &str) -> (r: String)
        ensures
            ({
                let a = skip_front(line@, 0);
                let e = run_end(line@, a);
                let tok = line@.subrange(a, e);
                &&& (tok.len() == 0 || !known_verb(views_of(self.commands@), tok)) ==> r@ == line@
                &&& tok.len() > 0 && known_verb(views_of(self.commands@), tok) ==> is_highlighted(
                    r@,
                    line@,
                ) && r@ != line@
            }),
    {
        let codes = crate::io::bold_green_codes();
        let r = self.highlight_with(line, codes.0.as_str(), codes.1.as_str());
        proof {
            let a = skip_front(line@, 0);
            let e = run_end(line@, a);
            let tok = line@.subrange(a, e);
            if tok.len() > 0 && known_verb(views_of(self.commands@), tok) {
                assert(r@ == highlighted_form(line@, codes.0@, codes.1@));
                crate::strutil::lemma_skip_front_bounds(line@, 0);
                lemma_run_end_bounds(line@, a);
                reveal_strlit("\u{1b}[0m");
                assert(r@.len() == line@.len() + codes.0@.len() + 4);
                assert(r@ != line@);
            }
        }
        r
    }
}

} // verus!
