use cone::cmd::load::{load_candidates, run, DirLoad, FileInput, LoadEvent};
use cone::registry::Datasets;
use cone::table::{Cell, Table};
use cone::validate::DirOutcome;

fn table_with_rows(n: i64) -> Table {
    let mut t = Table::new(vec!["v".to_string()]);
    for i in 0..n {
        t.push_row(vec![Cell::Num(i * 100)]);
    }
    t
}

fn good(path: &str) -> FileInput {
    FileInput { path: path.to_string(), found: true, regular: true, parsed: Some(table_with_rows(2)) }
}

fn missing(path: &str) -> FileInput {
    FileInput { path: path.to_string(), found: false, regular: false, parsed: None }
}

#[test]
fn batch_with_one_missing_file_loads_the_other_two() {
    let mut ds = Datasets::new();
    let events = load_candidates(vec![good("a.csv"), missing("b.csv"), good("c.csv")], &mut ds);
    assert_eq!(events.len(), 3);
    assert_eq!(events[0], LoadEvent::Loaded("A".to_string(), "a.csv".to_string()));
    assert_eq!(events[1], LoadEvent::DoesNotExist("b.csv".to_string()));
    assert_eq!(events[2], LoadEvent::Loaded("C".to_string(), "c.csv".to_string()));
    assert_eq!(ds.len(), 2);
    assert!(ds.contains_key("A"));
    assert!(ds.contains_key("C"));
    assert!(!ds.contains_key("B"));
}

#[test]
fn loading_the_same_filename_twice_collides_the_second_time() {
    let mut ds = Datasets::new();
    let events = load_candidates(vec![good("a.csv"), good("sub/a.csv")], &mut ds);
    assert_eq!(events[0], LoadEvent::Loaded("A".to_string(), "a.csv".to_string()));
    assert_eq!(
        events[1],
        LoadEvent::Collision("A".to_string(), "sub/a.csv".to_string())
    );
    assert_eq!(ds.len(), 1);
}

#[test]
fn engine_failure_is_reported_and_skipped() {
    let mut ds = Datasets::new();
    let broken = FileInput {
        path: "bad.csv".to_string(),
        found: true,
        regular: true,
        parsed: None,
    };
    let events = run(vec![broken], None, &mut ds);
    assert_eq!(events[0], LoadEvent::EngineFailed("bad.csv".to_string()));
    assert_eq!(events[1], LoadEvent::NoValidFiles);
    assert_eq!(ds.len(), 0);
}

#[test]
fn empty_batch_reports_no_valid_files() {
    let mut ds = Datasets::new();
    let events = run(vec![], None, &mut ds);
    assert_eq!(events, vec![LoadEvent::NoValidFiles]);
}

#[test]
fn directory_entries_load_after_the_file_candidates() {
    let mut ds = Datasets::new();
    let dir = DirLoad {
        path: "d".to_string(),
        outcome: DirOutcome::Found(1),
        inputs: vec![good("d/x.csv")],
    };
    let events = run(vec![good("a.csv")], Some(dir), &mut ds);
    assert_eq!(events.len(), 3);
    assert_eq!(events[0], LoadEvent::Loaded("A".to_string(), "a.csv".to_string()));
    assert_eq!(events[1], LoadEvent::DirFound("d".to_string(), 1));
    assert_eq!(events[2], LoadEvent::Loaded("X".to_string(), "d/x.csv".to_string()));
    assert_eq!(ds.len(), 2);
}

#[test]
fn unreadable_directory_is_one_diagnostic_and_no_loads() {
    let mut ds = Datasets::new();
    let dir = DirLoad {
        path: "d".to_string(),
        outcome: DirOutcome::ReadFailed,
        inputs: vec![],
    };
    let events = run(vec![], Some(dir), &mut ds);
    assert_eq!(
        events,
        vec![LoadEvent::DirReadFailed("d".to_string()), LoadEvent::NoValidFiles]
    );
    assert_eq!(ds.len(), 0);
}

#[test]
fn empty_directory_scan_is_one_diagnostic_and_no_loads() {
    let mut ds = Datasets::new();
    let dir = DirLoad {
        path: "d".to_string(),
        outcome: DirOutcome::NoMatches,
        inputs: vec![],
    };
    let events = run(vec![], Some(dir), &mut ds);
    assert_eq!(
        events,
        vec![LoadEvent::DirEmpty("d".to_string()), LoadEvent::NoValidFiles]
    );
    assert_eq!(ds.len(), 0);
}

#[test]
fn event_messages_match_the_session_wording() {
    assert_eq!(
        LoadEvent::DoesNotExist("x.csv".to_string()).message(),
        "file 'x.csv' does not exist"
    );
    assert_eq!(
        LoadEvent::Loaded("A".to_string(), "a.csv".to_string()).message(),
        "A \u{2190} 'a.csv' successfully loaded"
    );
    assert_eq!(
        LoadEvent::Collision("A".to_string(), "a.csv".to_string()).message(),
        "\"A\" (from 'a.csv') already exists in memory"
    );
    assert_eq!(
        LoadEvent::DirFound("d".to_string(), 2).message(),
        "2 valid file(s) found in 'd'"
    );
    assert_eq!(
        LoadEvent::DirReadFailed("d".to_string()).message(),
        "failed to read 'd'"
    );
    assert_eq!(LoadEvent::NoValidFiles.message(), "no valid files were loaded");
    assert!(LoadEvent::NoValidFiles.is_error());
    assert!(!LoadEvent::DirFound("d".to_string(), 2).is_error());
    assert!(!LoadEvent::Loaded("A".to_string(), "a.csv".to_string()).is_error());
}
