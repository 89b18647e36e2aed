use cone::registry::Datasets;
use cone::table::Table;
use cone::validate::{
    dataset_name, has_valid_extension, validate_dir_path, validate_file_path, DirEntry,
    DirOutcome, FileVerdict,
};

fn empty_table() -> Table {
    Table::new(vec!["v".to_string()])
}

#[test]
fn dataset_name_is_the_uppercased_stem() {
    assert_eq!(dataset_name("sales.csv"), "SALES");
    assert_eq!(dataset_name("data/q1_report.xlsx"), "Q1_REPORT");
    assert_eq!(dataset_name("/tmp/a.b.csv"), "A.B");
    assert_eq!(dataset_name(".hidden"), ".HIDDEN");
}

#[test]
fn same_filename_always_derives_the_same_name() {
    assert_eq!(dataset_name("x/one.csv"), dataset_name("x/one.csv"));
}

#[test]
fn extension_allow_list_is_case_insensitive() {
    assert!(has_valid_extension("a.csv"));
    assert!(has_valid_extension("a.CSV"));
    assert!(has_valid_extension("b.XlSx"));
    assert!(!has_valid_extension("b.txt"));
    assert!(!has_valid_extension("noext"));
    assert!(!has_valid_extension(".csv"));
}

#[test]
fn file_validation_checks_in_order() {
    let ds = Datasets::new();
    assert!(matches!(
        validate_file_path("a.csv", false, false, &ds),
        FileVerdict::DoesNotExist
    ));
    assert!(matches!(
        validate_file_path("a.csv", true, false, &ds),
        FileVerdict::NotAFile
    ));
    assert!(matches!(
        validate_file_path("a.txt", true, true, &ds),
        FileVerdict::BadExtension
    ));
    match validate_file_path("a.csv", true, true, &ds) {
        FileVerdict::Accepted(name) => assert_eq!(name, "A"),
        other => panic!("expected acceptance, got {:?}", other),
    }
}

#[test]
fn file_validation_rejects_name_collisions() {
    let mut ds = Datasets::new();
    ds.insert("A".to_string(), empty_table());
    match validate_file_path("sub/a.csv", true, true, &ds) {
        FileVerdict::Collision(name) => assert_eq!(name, "A"),
        other => panic!("expected a collision, got {:?}", other),
    }
}

#[test]
fn dir_validation_reports_missing_and_non_directories() {
    let (paths, outcome) = validate_dir_path("d", false, false, true, &vec![]);
    assert!(paths.is_empty());
    assert_eq!(outcome, DirOutcome::Missing);
    let (paths, outcome) = validate_dir_path("d", true, false, true, &vec![]);
    assert!(paths.is_empty());
    assert_eq!(outcome, DirOutcome::NotADirectory);
}

#[test]
fn unreadable_dir_has_its_own_diagnostic() {
    let (paths, outcome) = validate_dir_path("d", true, true, false, &vec![]);
    assert!(paths.is_empty());
    assert_eq!(outcome, DirOutcome::ReadFailed);
}

#[test]
fn dir_with_no_matching_extension_yields_empty_set_and_one_diagnostic() {
    let entries = vec![
        DirEntry { name: "d/readme.md".to_string(), is_file: true },
        DirEntry { name: "d/notes.txt".to_string(), is_file: true },
        DirEntry { name: "d/sub.csv".to_string(), is_file: false },
    ];
    let (paths, outcome) = validate_dir_path("d", true, true, true, &entries);
    assert!(paths.is_empty());
    assert_eq!(outcome, DirOutcome::NoMatches);
}

#[test]
fn dir_scan_keeps_matching_files_in_order() {
    let entries = vec![
        DirEntry { name: "d/a.csv".to_string(), is_file: true },
        DirEntry { name: "d/skip.txt".to_string(), is_file: true },
        DirEntry { name: "d/b.XLSX".to_string(), is_file: true },
    ];
    let (paths, outcome) = validate_dir_path("d", true, true, true, &entries);
    assert_eq!(paths, vec!["d/a.csv", "d/b.XLSX"]);
    assert_eq!(outcome, DirOutcome::Found(2));
}
