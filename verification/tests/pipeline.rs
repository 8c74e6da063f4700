use sheet_records::cells::{Cell, FloatCell, RowFailure, RunError};
use sheet_records::extract::extract_row;
use sheet_records::header::build_header_index;
use sheet_records::pipeline::{run_pipeline, RunOutcome};

fn text(s: &str) -> Cell {
    Cell::Text(s.to_string())
}

fn whole(v: i64) -> Cell {
    Cell::Int(v)
}

fn frac(x: f64) -> Cell {
    Cell::Float(FloatCell {
        repr: x.to_string(),
        ceil: x.ceil() as i64,
    })
}

fn header_row() -> Vec<Cell> {
    vec![text("Name"), text("Stock"), text("Price")]
}

fn example_rows() -> Vec<Vec<Cell>> {
    vec![
        header_row(),
        vec![text("Widget"), frac(10.5), whole(100)],
        vec![text("Gadget"), text("bad"), whole(50)],
        vec![text("Widget"), whole(3), whole(99)],
    ]
}

fn sorted_triples(out: &RunOutcome) -> Vec<(String, String, String)> {
    let mut v: Vec<(String, String, String)> = out
        .records
        .iter()
        .map(|r| (r.name.clone(), r.stock.clone(), r.price.clone()))
        .collect();
    v.sort();
    v
}

#[test]
fn end_to_end_example() {
    let out = run_pipeline(Some(example_rows())).unwrap();
    assert_eq!(
        sorted_triples(&out),
        vec![("Widget".to_string(), "3".to_string(), "99".to_string())]
    );
    assert_eq!(out.success_count, 2);
    assert_eq!(out.error_count, 1);
    assert_eq!(
        out.log_lines,
        vec!["Error in product row 'Gadget'".to_string()]
    );
}

#[test]
fn header_duplicate_text_later_position_wins() {
    let h = build_header_index(&vec![text("A"), text("B"), text("A"), whole(7)]);
    assert_eq!(h.lookup(&"A".to_string()), Some(2));
    assert_eq!(h.lookup(&"B".to_string()), Some(1));
    assert_eq!(h.lookup(&"C".to_string()), None);
}

#[test]
fn non_text_header_cells_are_skipped() {
    let h = build_header_index(&vec![whole(1), text("Name"), Cell::Other]);
    assert_eq!(h.lookup(&"Name".to_string()), Some(1));
}

#[test]
fn rejected_row_counts_one_error_and_is_excluded() {
    let rows = vec![
        header_row(),
        vec![text("Widget"), Cell::Other, whole(100)],
    ];
    let out = run_pipeline(Some(rows)).unwrap();
    assert_eq!(out.success_count, 0);
    assert_eq!(out.error_count, 1);
    assert!(out.records.is_empty());
    assert_eq!(
        out.log_lines,
        vec!["Error in product row 'Widget'".to_string()]
    );
}

#[test]
fn integer_stock_keeps_its_exact_value() {
    let rows = vec![header_row(), vec![text("Widget"), whole(42), whole(5)]];
    let out = run_pipeline(Some(rows)).unwrap();
    assert_eq!(
        sorted_triples(&out),
        vec![("Widget".to_string(), "42".to_string(), "5".to_string())]
    );
}

#[test]
fn fractional_price_rounds_up() {
    let rows = vec![
        header_row(),
        vec![text("A"), whole(1), frac(12.1)],
        vec![text("B"), whole(1), frac(12.0)],
    ];
    let out = run_pipeline(Some(rows)).unwrap();
    assert_eq!(
        sorted_triples(&out),
        vec![
            ("A".to_string(), "1".to_string(), "13".to_string()),
            ("B".to_string(), "1".to_string(), "12".to_string()),
        ]
    );
}

#[test]
fn later_row_with_same_name_wins_but_both_count() {
    let rows = vec![
        header_row(),
        vec![text("Widget"), whole(1), whole(10)],
        vec![text("Widget"), whole(2), whole(20)],
    ];
    let out = run_pipeline(Some(rows)).unwrap();
    assert_eq!(out.success_count, 2);
    assert_eq!(out.error_count, 0);
    assert_eq!(
        sorted_triples(&out),
        vec![("Widget".to_string(), "2".to_string(), "20".to_string())]
    );
}

#[test]
fn rerunning_the_same_input_gives_the_same_outcome() {
    let a = run_pipeline(Some(example_rows())).unwrap();
    let b = run_pipeline(Some(example_rows())).unwrap();
    assert_eq!(sorted_triples(&a), sorted_triples(&b));
    assert_eq!(a.success_count, b.success_count);
    assert_eq!(a.error_count, b.error_count);
    assert_eq!(a.log_lines, b.log_lines);
}

#[test]
fn missing_sheet_is_run_fatal() {
    assert_eq!(run_pipeline(None).unwrap_err(), RunError::MissingSheet);
}

#[test]
fn empty_sheet_is_run_fatal() {
    assert_eq!(
        run_pipeline(Some(Vec::new())).unwrap_err(),
        RunError::EmptyInput
    );
}

#[test]
fn missing_column_fails_before_a_name_is_read() {
    let h = build_header_index(&vec![text("Stock"), text("Price")]);
    let rej = extract_row(&vec![whole(1), whole(2)], &h).unwrap_err();
    assert_eq!(rej.kind, RowFailure::MissingColumn);
    assert_eq!(rej.name, None);
}

#[test]
fn short_row_fails_with_the_captured_name() {
    let h = build_header_index(&header_row());
    let rej = extract_row(&vec![text("Widget"), whole(4)], &h).unwrap_err();
    assert_eq!(rej.kind, RowFailure::RowTooShort);
    assert_eq!(rej.name, Some("Widget".to_string()));
}

#[test]
fn wrong_cell_tag_fails_with_invalid_cell_type() {
    let h = build_header_index(&header_row());
    let rej = extract_row(&vec![whole(9), whole(4), whole(5)], &h).unwrap_err();
    assert_eq!(rej.kind, RowFailure::InvalidCellType);
    assert_eq!(rej.name, None);
    let rej = extract_row(&vec![text("W"), whole(4), text("x")], &h).unwrap_err();
    assert_eq!(rej.kind, RowFailure::InvalidCellType);
    assert_eq!(rej.name, Some("W".to_string()));
}

#[test]
fn fractional_stock_keeps_its_decimal_form() {
    let h = build_header_index(&header_row());
    let entry = extract_row(&vec![text("W"), frac(10.5), whole(3)], &h).unwrap();
    assert_eq!(entry.name, "W".to_string());
    assert_eq!(entry.stock, "10.5".to_string());
    assert_eq!(entry.price, 3);
}
