use cone::io::{
    style_bold, styled_error_line, styled_info_line, styled_warn_line, stylize_single_quoted,
};
use crossterm::style::{PrintStyledContent, Stylize};
use crossterm::Command;

fn ansi_styled<D: std::fmt::Display>(styled: crossterm::style::StyledContent<D>) -> String {
    let mut out = String::new();
    let _ = PrintStyledContent(styled).write_ansi(&mut out);
    out
}

#[test]
fn bold_wraps_in_the_fixed_attribute_escapes() {
    assert_eq!(style_bold("text"), "\u{1b}[1mtext\u{1b}[0m");
    assert_eq!(style_bold(""), "\u{1b}[1m\u{1b}[0m");
    assert_eq!(style_bold("x"), ansi_styled("x".bold()));
}

#[test]
fn quoted_spans_are_wrapped_in_the_given_codes() {
    assert_eq!(stylize_single_quoted("see 'x.csv' here", "<", ">"), "see '<x.csv>' here");
    assert_eq!(stylize_single_quoted("'a' and 'b'", "<", ">"), "'<a>' and '<b>'");
}

#[test]
fn messages_without_quotes_pass_through() {
    assert_eq!(stylize_single_quoted("plain text", "<", ">"), "plain text");
    assert_eq!(stylize_single_quoted("", "<", ">"), "");
}

#[test]
fn an_unclosed_quote_keeps_the_tail_plain() {
    assert_eq!(stylize_single_quoted("a 'tail", "<", ">"), "a 'tail");
}

#[test]
fn diagnostic_lines_carry_their_labels_under_the_current_codes() {
    assert_eq!(
        styled_info_line("done"),
        format!("{} done", ansi_styled("info:".bold().green()))
    );
    assert_eq!(
        styled_warn_line("careful"),
        format!("{} careful", ansi_styled("warning:".bold().yellow()))
    );
    assert_eq!(
        styled_error_line("broken"),
        format!("{} broken", ansi_styled("error:".bold().red()))
    );
}

#[test]
fn diagnostic_lines_emphasise_quoted_spans_like_crossterm() {
    assert_eq!(
        styled_info_line("see 'x.csv' here"),
        format!(
            "{} see '{}' here",
            ansi_styled("info:".bold().green()),
            ansi_styled("x.csv".dark_yellow())
        )
    );
}
