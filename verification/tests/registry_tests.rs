use cone::cmd::preview::validate_nonzero;
use cone::registry::Datasets;
use cone::strutil::{str_eq, to_lowercase, to_uppercase, u64_to_dec};
use cone::table::{Cell, Table};

fn small_table(name_col: &str) -> Table {
    let mut t = Table::new(vec![name_col.to_string()]);
    t.push_row(vec![Cell::Num(100)]);
    t
}

#[test]
fn registry_starts_empty_and_grows_in_order() {
    let mut ds = Datasets::new();
    assert!(ds.is_empty());
    assert_eq!(ds.len(), 0);
    ds.insert("B".to_string(), small_table("b"));
    ds.insert("A".to_string(), small_table("a"));
    assert!(!ds.is_empty());
    assert_eq!(ds.len(), 2);
    assert_eq!(ds.name_at(0).as_str(), "B");
    assert_eq!(ds.name_at(1).as_str(), "A");
    assert_eq!(ds.table_at(0).height(), 1);
}

#[test]
fn contains_key_matches_exactly() {
    let mut ds = Datasets::new();
    ds.insert("SALES".to_string(), small_table("v"));
    assert!(ds.contains_key("SALES"));
    assert!(!ds.contains_key("sales"));
    assert!(!ds.contains_key("SALE"));
}

#[test]
fn tables_report_their_shape() {
    let mut t = Table::new(vec!["a".to_string(), "b".to_string()]);
    assert_eq!((t.height(), t.width()), (0, 2));
    t.push_row(vec![Cell::Num(0), Cell::Missing]);
    assert_eq!(t.height(), 1);
    assert_eq!(t.column_at(1).as_str(), "b");
    assert_eq!(t.cell_at(0, 0), Cell::Num(0));
    assert_eq!(t.cell_at(0, 1), Cell::Missing);
}

#[test]
fn row_count_parsing_accepts_non_zero_integers() {
    assert_eq!(validate_nonzero("6"), Ok(6));
    assert_eq!(validate_nonzero("-3"), Ok(-3));
    assert_eq!(validate_nonzero("+3"), Ok(3));
    assert_eq!(validate_nonzero("9223372036854775807"), Ok(i64::MAX));
    assert_eq!(validate_nonzero("-9223372036854775808"), Ok(i64::MIN));
}

#[test]
fn row_count_parsing_rejects_zero_with_its_own_message() {
    assert_eq!(
        validate_nonzero("0"),
        Err("argument must be a non-zero integer number".to_string())
    );
    assert_eq!(
        validate_nonzero("-0"),
        Err("argument must be a non-zero integer number".to_string())
    );
    assert_eq!(
        validate_nonzero("+0"),
        Err("argument must be a non-zero integer number".to_string())
    );
}

#[test]
fn row_count_parsing_rejects_junk_and_overflow() {
    let msg = "argument must be an integer number".to_string();
    assert_eq!(validate_nonzero(""), Err(msg.clone()));
    assert_eq!(validate_nonzero("-"), Err(msg.clone()));
    assert_eq!(validate_nonzero("+"), Err(msg.clone()));
    assert_eq!(validate_nonzero("+-3"), Err(msg.clone()));
    assert_eq!(validate_nonzero("12a"), Err(msg.clone()));
    assert_eq!(validate_nonzero("9223372036854775808"), Err(msg.clone()));
    assert_eq!(validate_nonzero("-9223372036854775809"), Err(msg));
}

#[test]
fn ascii_case_folding_and_digits() {
    assert_eq!(to_lowercase("LoAd-9"), "load-9");
    assert_eq!(to_uppercase("q1_report"), "Q1_REPORT");
    assert_eq!(u64_to_dec(0), "0");
    assert_eq!(u64_to_dec(7), "7");
    assert_eq!(u64_to_dec(9081726354), "9081726354");
    assert!(str_eq("abc", "abc"));
    assert!(!str_eq("abc", "abd"));
}
