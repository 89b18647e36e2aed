//! Styled terminal output.  The escape sequences that carry color come from
//! crossterm and depend on the process environment (the `NO_COLOR` variable,
//! and crossterm's `force_color_output`), so they are fetched through
//! trusted wrappers that promise nothing of their values; everything around
//! them — which spans of a message are emphasised, how a diagnostic line is
//! composed, how a rendered table is framed — is verified exactly over
//! whatever codes were fetched.  Text within single quotes in a message is
//! highlighted, keeping the quote characters.

use vstd::prelude::*;

use crossterm::style::Stylize;
use crossterm::Command;
use std::io::Write;

use crate::render::RenderedTable;
use crate::table::Table;

verus! {

/// Relies on crossterm's SetForegroundColor, SetAttribute and ResetColor:
/// the escape sequences that currently introduce (`.0`) and clear (`.1`)
/// bold green text, as PrintStyledContent emits them around styled content.
/// The color digits are dropped when color output is disabled, a setting
/// read from the environment and changeable at any moment, so the opening
/// code's value is not promised; but every write still begins with the CSI
/// prefix, so it is never empty, and ResetColor writes the constant reset
/// escape unconditionally.
#[verifier::external_body]
pub(crate) fn bold_green_codes() -> (r: (String, String))
    ensures
        r.0@.len() > 0,
        r.1@ == "\u{1b}[0m"@,
{
    let mut pre = String::new();
    let _ = crossterm::style::SetForegroundColor(crossterm::style::Color::Green)
        .write_ansi(&mut pre);
    let _ = crossterm::style::SetAttribute(crossterm::style::Attribute::Bold)
        .write_ansi(&mut pre);
    let mut post = String::new();
    let _ = crossterm::style::ResetColor.write_ansi(&mut post);
    (pre, post)
}

/// Relies on crossterm's SetForegroundColor, SetAttribute and ResetColor:
/// the sequences that currently introduce and clear bold yellow text.  As
/// with the green pair, the environment decides the color digits, so only
/// the opening code's non-emptiness and the constant reset escape are
/// promised.
#[verifier::external_body]
fn bold_yellow_codes() -> (r: (String, String))
    ensures
        r.0@.len() > 0,
        r.1@ == "\u{1b}[0m"@,
{
    let mut pre = String::new();
    let _ = crossterm::style::SetForegroundColor(crossterm::style::Color::Yellow)
        .write_ansi(&mut pre);
    let _ = crossterm::style::SetAttribute(crossterm::style::Attribute::Bold)
        .write_ansi(&mut pre);
    let mut post = String::new();
    let _ = crossterm::style::ResetColor.write_ansi(&mut post);
    (pre, post)
}

/// Relies on crossterm's SetForegroundColor, SetAttribute and ResetColor:
/// the sequences that currently introduce and clear bold red text.  As with
/// the green pair, the environment decides the color digits, so only the
/// opening code's non-emptiness and the constant reset escape are promised.
#[verifier::external_body]
fn bold_red_codes() -> (r: (String, String))
    ensures
        r.0@.len() > 0,
        r.1@ == "\u{1b}[0m"@,
{
    let mut pre = String::new();
    let _ = crossterm::style::SetForegroundColor(crossterm::style::Color::Red)
        .write_ansi(&mut pre);
    let _ = crossterm::style::SetAttribute(crossterm::style::Attribute::Bold)
        .write_ansi(&mut pre);
    let mut post = String::new();
    let _ = crossterm::style::ResetColor.write_ansi(&mut post);
    (pre, post)
}

/// Relies on crossterm's SetForegroundColor: the sequences that currently
/// introduce dark yellow text and return to the default color, as
/// PrintStyledContent emits them around color-only styled content.  The
/// environment decides the color digits of both, but every write begins
/// with the CSI prefix, so neither is ever empty; no more is promised.
#[verifier::external_body]
fn dark_yellow_codes() -> (r: (String, String))
    ensures
        r.0@.len() > 0,
        r.1@.len() > 0,
{
    let mut pre = String::new();
    let _ = crossterm::style::SetForegroundColor(crossterm::style::Color::DarkYellow)
        .write_ansi(&mut pre);
    let mut post = String::new();
    let _ = crossterm::style::SetForegroundColor(crossterm::style::Color::Reset)
        .write_ansi(&mut post);
    (pre, post)
}

/// Relies on crossterm's PrintStyledContent::write_ansi: with only the bold
/// attribute set it writes the bold escape, the text, and the reset escape;
/// attribute escapes never consult the environment.
#[verifier::external_body]
pub fn style_bold(s: &str) -> (r: String)
    ensures
        r@ == "\u{1b}[1m"@ + s@ + "\u{1b}[0m"@,
{
    let mut out = String::new();
    let _ = crossterm::style::PrintStyledContent(s.bold()).write_ansi(&mut out);
    out
}

/// Relies on std's Stdout: writes the text and a newline to standard
/// output.
#[verifier::external_body]
pub fn write_stdout_line(s: &str) {
    let mut out = std::io::stdout();
    let _ = writeln!(out, "{}", s);
}

/// Relies on std's Stderr: writes the text and a newline to standard error.
#[verifier::external_body]
pub fn write_stderr_line(s: &str) {
    let mut err = std::io::stderr();
    let _ = writeln!(err, "{}", s);
}

/// The styled form of a message given the emphasis codes: text within
/// single quotes is wrapped in `qpre`/`qpost`, the quotes and everything
/// else pass through.  `buf` is the span being gathered, `in_q` whether it
/// began after an opening quote.
pub open spec fn styled_msg_rec(
    s: Seq<char>,
    i: int,
    buf: Seq<char>,
    in_q: bool,
    acc: Seq<char>,
    qpre: Seq<char>,
    qpost: Seq<char>,
) -> Seq<char>
    decreases s.len() - i,
    when 0 <= i <= s.len()
{
    if i == s.len() {
        acc + buf
    } else {
        let c = s[i];
        if c == '\'' {
            if in_q {
                styled_msg_rec(
                    s,
                    i + 1,
                    Seq::empty(),
                    false,
                    acc + qpre + buf + qpost + seq!['\''],
                    qpre,
                    qpost,
                )
            } else {
                styled_msg_rec(s, i + 1, Seq::empty(), true, acc + buf + seq!['\''], qpre, qpost)
            }
        } else {
            styled_msg_rec(s, i + 1, buf.push(c), in_q, acc, qpre, qpost)
        }
    }
}

/// The styled form of a whole message, given the emphasis codes.
pub open spec fn styled_msg_spec(s: Seq<char>, qpre: Seq<char>, qpost: Seq<char>) -> Seq<char> {
    styled_msg_rec(s, 0, Seq::empty(), false, Seq::empty(), qpre, qpost)
}

/// Applies the quote styling to a message: spans within single quotes are
/// wrapped in the given emphasis codes, the quote characters themselves are
/// kept as they are.
pub fn stylize_single_quoted(msg: &str, qpre: &str, qpost: &str) -> (r: String)
    ensures
        r@ == styled_msg_spec(msg@, qpre@, qpost@),
{
    let n = msg.unicode_len();
    let mut buf = String::new();
    let mut acc = String::new();
    let mut in_q = false;
    let mut i: usize = 0;
    while i < n
        invariant
            n == msg@.len(),
            i <= n,
            styled_msg_spec(msg@, qpre@, qpost@) == styled_msg_rec(
                msg@,
                i as int,
                buf@,
                in_q,
                acc@,
                qpre@,
                qpost@,
            ),
        decreases n - i,
    {
        let c = msg.get_char(i);
        let ghost prev_acc = acc@;
        let ghost prev_buf = buf@;
        if c == '\'' {
            if in_q {
                acc.append(qpre);
                acc.append(buf.as_str());
                acc.append(qpost);
                crate::strutil::push_char(&mut acc, '\'');
                buf = String::new();
                in_q = false;
                proof {
                    assert(acc@ =~= prev_acc + qpre@ + prev_buf + qpost@ + seq!['\'']);
                }
            } else {
                acc.append(buf.as_str());
                crate::strutil::push_char(&mut acc, '\'');
                buf = String::new();
                in_q = true;
                proof {
                    assert(acc@ =~= prev_acc + prev_buf + seq!['\'']);
                }
            }
        } else {
            crate::strutil::push_char(&mut buf, c);
        }
        i = i + 1;
    }
    acc.append(buf.as_str());
    acc
}

/// One diagnostic line built from given emphasis codes: the label wrapped
/// in its codes, a space, the message with its quoted spans wrapped in
/// theirs.
pub open spec fn diag_line_spec(
    label: Seq<char>,
    lpre: Seq<char>,
    lpost: Seq<char>,
    msg: Seq<char>,
    qpre: Seq<char>,
    qpost: Seq<char>,
) -> Seq<char> {
    lpre + label + lpost + " "@ + styled_msg_spec(msg, qpre, qpost)
}

/// Some emphasis codes make this line from this label and message: their
/// color digits depend on the environment, but the structure never does,
/// every code is non-empty, and the label always closes with the constant
/// reset escape — the label and the quoted spans really are emphasised.
pub open spec fn is_diag_line(r: Seq<char>, label: Seq<char>, msg: Seq<char>) -> bool {
    exists|lpre: Seq<char>, lpost: Seq<char>, qpre: Seq<char>, qpost: Seq<char>|
        lpre.len() > 0 && lpost == "\u{1b}[0m"@ && qpre.len() > 0 && qpost.len() > 0 && r
            == diag_line_spec(label, lpre, lpost, msg, qpre, qpost)
}

/// Composes one diagnostic line from the given label and emphasis codes.
fn compose_diag_line(
    label: &str,
    lpre: &str,
    lpost: &str,
    msg: &str,
    qpre: &str,
    qpost: &str,
) -> (r: String)
    ensures
        r@ == diag_line_spec(label@, lpre@, lpost@, msg@, qpre@, qpost@),
{
    let styled = stylize_single_quoted(msg, qpre, qpost);
    let r = lpre.to_owned().concat(label).concat(lpost).concat(" ").concat(styled.as_str());
    proof {
        assert(r@ =~= diag_line_spec(label@, lpre@, lpost@, msg@, qpre@, qpost@));
    }
    r
}

/// One printed info line: the `info:` label under the current bold green
/// codes, a space, the message with quoted spans under the current dark
/// yellow codes.
pub fn styled_info_line(msg: &str) -> (r: String)
    ensures
        is_diag_line(r@, "info:"@, msg@),
{
    let l = bold_green_codes();
    let q = dark_yellow_codes();
    let r = compose_diag_line("info:", l.0.as_str(), l.1.as_str(), msg, q.0.as_str(), q.1.as_str());
    proof {
        assert(r@ == diag_line_spec("info:"@, l.0@, l.1@, msg@, q.0@, q.1@));
    }
    r
}

/// One printed warning line, as the info line but under the warning label
/// and the bold yellow codes.
pub fn styled_warn_line(msg: &str) -> (r: String)
    ensures
        is_diag_line(r@, "warning:"@, msg@),
{
    let l = bold_yellow_codes();
    let q = dark_yellow_codes();
    let r = compose_diag_line(
        "warning:",
        l.0.as_str(),
        l.1.as_str(),
        msg,
        q.0.as_str(),
        q.1.as_str(),
    );
    proof {
        assert(r@ == diag_line_spec("warning:"@, l.0@, l.1@, msg@, q.0@, q.1@));
    }
    r
}

/// One printed error line, as the info line but under the error label and
/// the bold red codes.
pub fn styled_error_line(msg: &str) -> (r: String)
    ensures
        is_diag_line(r@, "error:"@, msg@),
{
    let l = bold_red_codes();
    let q = dark_yellow_codes();
    let r = compose_diag_line(
        "error:",
        l.0.as_str(),
        l.1.as_str(),
        msg,
        q.0.as_str(),
        q.1.as_str(),
    );
    proof {
        assert(r@ == diag_line_spec("error:"@, l.0@, l.1@, msg@, q.0@, q.1@));
    }
    r
}

/// Prints a successful-operation message to stdout, under a green label,
/// with quoted spans highlighted.
pub fn print_info(msg: &str) {
    let line = styled_info_line(msg);
    write_stdout_line(line.as_str());
}

/// Prints a warning to stderr, under a yellow label, with quoted spans
/// highlighted.
pub fn print_warn(msg: &str) {
    let line = styled_warn_line(msg);
    write_stderr_line(line.as_str());
}

/// Prints an error to stderr, under a red label, with quoted spans
/// highlighted.
pub fn print_error(msg: &str) {
    let line = styled_error_line(msg);
    write_stderr_line(line.as_str());
}

/// Prints one rendered table: a blank line, the bold title with the slice
/// subtitle, then the grid.
pub fn print_rendered(rt: &RenderedTable) {
    write_stdout_line("");
    let title = style_bold(rt.title.as_str());
    let headline = title.concat(" ").concat(rt.subtitle.as_str());
    write_stdout_line(headline.as_str());
    let n = rt.lines.len();
    let mut i: usize = 0;
    while i < n
        invariant
            n == rt.lines@.len(),
            i <= n,
        decreases n - i,
    {
        write_stdout_line(rt.lines[i].as_str());
        i = i + 1;
    }
}

/// Prints one table as a grid with its title, or the renderer's error when
/// the count exceeds this table's height.
pub fn print_table(data: &Table, name: &str, nrows: i64)
    requires
        data.well_formed(),
        nrows != 0,
{
    match crate::render::render_table(data, name, nrows) {
        Err(_) => {
            print_error("cannot print more rows than dataset height");
        },
        Ok(rt) => {
            print_rendered(&rt);
        },
    }
}

} // verus!
