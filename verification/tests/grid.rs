use mrcli::grid::{result_grid, GridContent};
use mrcli::model::{ExecutionResult, ResultKind};

fn result(columns: &[&str], rows: &[&[&str]]) -> ExecutionResult {
    ExecutionResult {
        kind: ResultKind::Query,
        elapsed_ms: 1,
        columns: columns.iter().map(|c| c.to_string()).collect(),
        rows: rows.iter().map(|r| r.iter().map(|c| c.to_string()).collect()).collect(),
        affected_rows: None,
        error_message: None,
        truncated: false,
    }
}

#[test]
fn grid_without_columns() {
    let r = result(&[], &[]);
    assert!(matches!(result_grid(&r, 0, 0, 10, 0, 0, 80), GridContent::NoColumns));
}

#[test]
fn grid_offset_past_the_columns() {
    let r = result(&["a", "b"], &[&["1", "2"]]);
    assert!(matches!(result_grid(&r, 0, 2, 10, 0, 0, 80), GridContent::NoVisibleColumns));
}

#[test]
fn grid_window_widths_and_cells() {
    let r = result(
        &["actor_id", "first_name", "last_name"],
        &[
            &["1", "PENELOPE", "GUINESS"],
            &["2", "NICK", "WAHLBERG"],
            &["3", "ED", "A-VERY-LONG-FAMILY-NAME-THAT-GOES-ON-AND-ON-AND-ON"],
        ],
    );
    // width 38: (38 - 10) / 14 = 2 columns from offset 1; rows 1..3 (two rows shown)
    let view = match result_grid(&r, 1, 1, 2, 2, 2, 38) {
        GridContent::Grid(view) => view,
        _ => panic!("expected a grid"),
    };
    assert_eq!(view.headers, vec!["first_name", "last_name"]);
    // the table is 38 wide: (38 - (2 + 7)) / 2 = 14 per column at most, at least 8
    assert_eq!(view.widths, vec![10, 14]);
    assert_eq!(view.rows.len(), 2);
    assert_eq!(view.rows[0].label, "   2");
    assert_eq!(view.rows[0].cells, vec!["NICK", "WAHLBERG"]);
    assert!(!view.rows[0].selected);
    assert_eq!(view.rows[0].highlight, None);
    assert_eq!(view.rows[1].label, "   3");
    assert_eq!(view.rows[1].cells, vec!["ED", "A-VERY-LON..."]);
    assert!(view.rows[1].selected);
    assert_eq!(view.rows[1].highlight, Some(1));
}

#[test]
fn grid_short_rows_and_minimum_window() {
    let r = result(&["a", "b"], &[&["x"], &["y", "z"]]);
    let view = match result_grid(&r, 0, 0, 0, 0, 1, 80) {
        GridContent::Grid(view) => view,
        _ => panic!("expected a grid"),
    };
    // a window of zero rows still shows one
    assert_eq!(view.rows.len(), 1);
    assert_eq!(view.rows[0].cells, vec!["x"]);
    // the selected cell lies past the end of this short row
    assert!(view.rows[0].selected);
    assert_eq!(view.rows[0].highlight, None);
    assert_eq!(view.widths, vec![8, 8]);
}
