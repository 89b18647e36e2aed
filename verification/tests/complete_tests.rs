use cone::complete::{Candidate, ReadLineHelper};
use crossterm::style::{PrintStyledContent, Stylize};
use crossterm::Command;

fn helper() -> ReadLineHelper {
    ReadLineHelper::new(vec![
        "load".to_string(),
        "preview".to_string(),
        "save".to_string(),
        "exit".to_string(),
    ])
}

fn displays(cands: &[Candidate]) -> Vec<String> {
    cands.iter().map(|c| c.display.clone()).collect()
}

fn ansi_bold_green(s: &str) -> String {
    let mut out = String::new();
    let _ = PrintStyledContent(s.bold().green()).write_ansi(&mut out);
    out
}

#[test]
fn partial_verb_completes_to_matching_verbs_only() {
    let h = helper();
    let (anchor, cands) = h.complete("lo", 2, &vec![]);
    assert_eq!(anchor, 0);
    assert_eq!(displays(&cands), vec!["load"]);
    assert_eq!(cands[0].replacement, "load");
}

#[test]
fn verb_completion_is_case_insensitive() {
    let h = helper();
    let (_, cands) = h.complete("LO", 2, &vec![]);
    assert_eq!(displays(&cands), vec!["load"]);
}

#[test]
fn single_letter_prefix_matches_one_verb() {
    let h = helper();
    let (anchor, cands) = h.complete("p", 1, &vec![]);
    assert_eq!(anchor, 0);
    assert_eq!(displays(&cands), vec!["preview"]);
}

#[test]
fn path_completion_after_load_flag_filters_by_extension() {
    let h = helper();
    let entries = vec!["a.csv".to_string(), "b.txt".to_string()];
    let (anchor, cands) = h.complete("load -f ", 8, &entries);
    assert_eq!(anchor, 8);
    assert_eq!(displays(&cands), vec!["a.csv"]);
    assert_eq!(cands[0].replacement, "a.csv");
}

#[test]
fn path_completion_keeps_the_directory_part_in_the_replacement() {
    let h = helper();
    let entries = vec!["a.csv".to_string(), "ab.xlsx".to_string(), "b.csv".to_string()];
    let line = "load -f data/a";
    let (anchor, cands) = h.complete(line, line.len(), &entries);
    assert_eq!(anchor, 8);
    assert_eq!(displays(&cands), vec!["a.csv", "ab.xlsx"]);
    assert_eq!(cands[0].replacement, "data/a.csv");
    assert_eq!(cands[1].replacement, "data/ab.xlsx");
}

#[test]
fn no_candidates_outside_the_two_phases() {
    let h = helper();
    let entries = vec!["a.csv".to_string()];
    let (anchor, cands) = h.complete("save x", 6, &entries);
    assert_eq!((anchor, cands.len()), (0, 0));
    let (anchor, cands) = h.complete("load a", 6, &entries);
    assert_eq!((anchor, cands.len()), (0, 0));
    let (anchor, cands) = h.complete("preview -f ", 11, &entries);
    assert_eq!((anchor, cands.len()), (0, 0));
    let (anchor, cands) = h.complete("", 0, &entries);
    assert_eq!((anchor, cands.len()), (0, 0));
}

#[test]
fn highlight_emphasises_an_exact_verb() {
    let h = helper();
    let styled = h.highlight("load -f x");
    assert_eq!(styled, format!("{} -f x", ansi_bold_green("load")));
    assert_ne!(styled, "load -f x");
}

#[test]
fn highlight_is_case_insensitive_and_keeps_spacing() {
    let h = helper();
    assert_eq!(h.highlight("  LOAD x"), format!("  {} x", ansi_bold_green("LOAD")));
}

#[test]
fn highlight_leaves_other_lines_unchanged() {
    let h = helper();
    assert_eq!(h.highlight("loadx -f y"), "loadx -f y");
    assert_eq!(h.highlight(""), "");
    assert_eq!(h.highlight("   "), "   ");
}

#[test]
fn highlight_with_wraps_only_the_verb_in_the_given_codes() {
    let h = helper();
    assert_eq!(h.highlight_with("load -f x", "<", ">"), "<load> -f x");
    assert_eq!(h.highlight_with("  save  x ", "<", ">"), "  <save>  x ");
    assert_eq!(h.highlight_with("nope x", "<", ">"), "nope x");
}
