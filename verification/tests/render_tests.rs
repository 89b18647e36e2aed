use cone::cmd::preview::{run, PreviewCmd, PreviewOutcome};
use cone::registry::Datasets;
use cone::render::{fmt_cell, fmt_fixed, render_table, split_header, RenderError};
use cone::table::{Cell, Table};

fn ten_row_table() -> Table {
    let mut t = Table::new(vec!["v".to_string()]);
    for i in 0..10 {
        t.push_row(vec![Cell::Num(i * 100)]);
    }
    t
}

#[test]
fn fixed_point_cells_show_two_fraction_digits() {
    assert_eq!(fmt_fixed(0), "0.00");
    assert_eq!(fmt_fixed(123456), "1234.56");
    assert_eq!(fmt_fixed(-5), "-0.05");
    assert_eq!(fmt_fixed(-123450), "-1234.50");
    assert_eq!(fmt_cell(Cell::Num(700)), "7.00");
    assert_eq!(fmt_cell(Cell::Missing), "--");
}

#[test]
fn headers_split_into_label_and_unit() {
    assert_eq!(split_header("speed (m/s)"), ("speed".to_string(), "(m/s)".to_string()));
    assert_eq!(split_header("name"), ("name".to_string(), "".to_string()));
    assert_eq!(split_header("temp ( K )"), ("temp".to_string(), "(K )".to_string()));
    assert_eq!(split_header("x((m))"), ("x(".to_string(), "(m)".to_string()));
}

#[test]
fn positive_count_shows_the_first_rows() {
    let t = ten_row_table();
    let rt = render_table(&t, "T", 3).expect("within height");
    assert_eq!(rt.title, " \u{276f} \u{276f} T");
    assert_eq!(rt.subtitle, "(first 3 rows)");
    // label row, unit row, ruler, then rows [0, 3)
    assert_eq!(rt.lines.len(), 6);
    assert_eq!(rt.lines[0], "   v");
    assert_eq!(rt.lines[1], "    ");
    assert_eq!(rt.lines[2], "====");
    assert_eq!(rt.lines[3], "0.00");
    assert_eq!(rt.lines[4], "1.00");
    assert_eq!(rt.lines[5], "2.00");
}

#[test]
fn negative_count_shows_the_last_rows() {
    let t = ten_row_table();
    let rt = render_table(&t, "T", -3).expect("within height");
    assert_eq!(rt.subtitle, "(last 3 rows)");
    assert_eq!(rt.lines[3], "7.00");
    assert_eq!(rt.lines[4], "8.00");
    assert_eq!(rt.lines[5], "9.00");
}

#[test]
fn singular_row_count_reads_naturally() {
    let t = ten_row_table();
    let rt = render_table(&t, "T", 1).expect("within height");
    assert_eq!(rt.subtitle, "(first 1 row)");
}

#[test]
fn count_beyond_height_is_an_error() {
    let t = ten_row_table();
    assert_eq!(render_table(&t, "T", 11).unwrap_err(), RenderError::CountExceedsHeight);
    assert_eq!(render_table(&t, "T", -11).unwrap_err(), RenderError::CountExceedsHeight);
    assert!(render_table(&t, "T", 10).is_ok());
}

#[test]
fn grid_aligns_columns_and_marks_missing_cells() {
    let mut t = Table::new(vec!["a (m)".to_string(), "b".to_string()]);
    t.push_row(vec![Cell::Num(123456), Cell::Missing]);
    let rt = render_table(&t, "G", 1).expect("within height");
    assert_eq!(rt.lines[0], "      a  b");
    assert_eq!(rt.lines[1], "    (m)   ");
    assert_eq!(rt.lines[2], "======= ==");
    assert_eq!(rt.lines[3], "1234.56 --");
}

#[test]
fn one_failing_table_leaves_the_others_rendered() {
    let mut ds = Datasets::new();
    let mut small = Table::new(vec!["v".to_string()]);
    small.push_row(vec![Cell::Num(100)]);
    small.push_row(vec![Cell::Num(200)]);
    ds.insert("SMALL".to_string(), small);
    ds.insert("BIG".to_string(), ten_row_table());
    match run(&PreviewCmd { rows: 5 }, &ds) {
        PreviewOutcome::Items(items) => {
            assert_eq!(items.len(), 2);
            assert_eq!(items[0].name, "SMALL");
            assert_eq!(items[0].rendered.as_ref().unwrap_err(), &RenderError::CountExceedsHeight);
            assert_eq!(items[1].name, "BIG");
            let rt = items[1].rendered.as_ref().expect("big table renders");
            assert_eq!(rt.subtitle, "(first 5 rows)");
            assert_eq!(rt.lines.len(), 8);
        },
        PreviewOutcome::Empty => panic!("registry is not empty"),
    }
}

#[test]
fn preview_of_an_empty_registry_says_so() {
    let ds = Datasets::new();
    assert!(matches!(run(&PreviewCmd { rows: 6 }, &ds), PreviewOutcome::Empty));
}

#[test]
fn print_table_prints_without_panicking() {
    let t = ten_row_table();
    cone::io::print_table(&t, "T", 3);
    cone::io::print_table(&t, "T", 99);
}
