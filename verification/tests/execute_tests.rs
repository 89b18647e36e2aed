use cone::cmd::preview::PreviewOutcome;
use cone::cmd::{execute, ExecOutcome, ParseError};
use cone::registry::Datasets;
use cone::table::{Cell, Table};
use cone::tokenize::TokenizeError;

fn registry_with_one_table() -> Datasets {
    let mut ds = Datasets::new();
    let mut t = Table::new(vec!["v".to_string()]);
    for i in 0..10 {
        t.push_row(vec![Cell::Num(i * 100)]);
    }
    ds.insert("T".to_string(), t);
    ds
}

#[test]
fn exit_stops_the_session() {
    let ds = Datasets::new();
    let (keep_going, outcome) = execute("exit", &ds);
    assert!(!keep_going);
    assert!(matches!(outcome, ExecOutcome::Exit));
    let (keep_going, _) = execute("EXIT", &ds);
    assert!(!keep_going);
}

#[test]
fn a_blank_line_is_a_no_op() {
    let ds = Datasets::new();
    let (keep_going, outcome) = execute("   ", &ds);
    assert!(keep_going);
    assert!(matches!(outcome, ExecOutcome::Empty));
}

#[test]
fn a_bad_quote_is_reported_and_the_session_continues() {
    let ds = Datasets::new();
    let (keep_going, outcome) = execute("load -f \"oops", &ds);
    assert!(keep_going);
    assert!(matches!(outcome, ExecOutcome::BadLine(TokenizeError::UnmatchedQuote)));
}

#[test]
fn an_unknown_verb_is_reported_and_the_session_continues() {
    let ds = Datasets::new();
    let (keep_going, outcome) = execute("help", &ds);
    assert!(keep_going);
    match outcome {
        ExecOutcome::BadCommand(ParseError::UnknownCommand(v)) => assert_eq!(v, "help"),
        other => panic!("expected an unknown-command diagnostic, got {:?}", other),
    }
}

#[test]
fn load_is_handed_back_for_the_session_loop() {
    let ds = Datasets::new();
    let (keep_going, outcome) = execute("load -f \"my file.csv\"", &ds);
    assert!(keep_going);
    match outcome {
        ExecOutcome::PendingLoad(lc) => {
            assert_eq!(lc.files, vec!["my file.csv"]);
            assert_eq!(lc.dir, None);
        },
        other => panic!("expected a pending load, got {:?}", other),
    }
}

#[test]
fn preview_renders_against_the_registry() {
    let ds = registry_with_one_table();
    let (keep_going, outcome) = execute("preview -n -3", &ds);
    assert!(keep_going);
    match outcome {
        ExecOutcome::Previewed(PreviewOutcome::Items(items)) => {
            assert_eq!(items.len(), 1);
            let rt = items[0].rendered.as_ref().expect("within height");
            assert_eq!(rt.subtitle, "(last 3 rows)");
            assert_eq!(rt.lines[3], "7.00");
        },
        other => panic!("expected a preview, got {:?}", other),
    }
}

#[test]
fn preview_of_nothing_is_its_own_outcome() {
    let ds = Datasets::new();
    let (_, outcome) = execute("preview", &ds);
    assert!(matches!(
        outcome,
        ExecOutcome::Previewed(PreviewOutcome::Empty)
    ));
}

#[test]
fn save_answers_with_its_diagnostic() {
    let ds = Datasets::new();
    let (keep_going, outcome) = execute("save pat -i", &ds);
    assert!(keep_going);
    match outcome {
        ExecOutcome::Saved(m) => assert_eq!(m, "the 'save' command is not implemented yet"),
        other => panic!("expected the save diagnostic, got {:?}", other),
    }
}
