use mrcli::db::command_result;
use mrcli::layout::{inner_area, result_viewport, grid_viewport, Area};
use mrcli::model::{AppState, ConnectionProfile, ExecutionResult, ResultKind};
use mrcli::nav::{move_index, normalize_axis};
use mrcli::view::{
    cell_heading, command_detail_lines, connection_detail_lines, editor_title, list_entry,
    running_preview, draft_preview, connection_label, draft_label, error_detail, grid_footer,
    grid_headings, no_result_text, result_connection_label, running_labels, status_text,
    buffer_size_text, column_width, cursor_position_text, footer_help, mask_password,
    max_visible_cell_len, other_meta, query_meta, result_header, row_number_label, shorten,
    state_name, state_phrase, truncate_cell, visible_column_capacity, visible_range_end,
    visible_range_start, width_to_cell_len,
};

fn query_result(rows: usize, cols: usize, truncated: bool) -> ExecutionResult {
    ExecutionResult {
        kind: ResultKind::Query,
        elapsed_ms: 12,
        columns: (0..cols).map(|c| format!("c{c}")).collect(),
        rows: (0..rows).map(|r| (0..cols).map(|c| format!("{r}-{c}")).collect()).collect(),
        affected_rows: None,
        error_message: None,
        truncated,
    }
}

#[test]
fn screen_names_and_phrases() {
    assert_eq!(state_name(&AppState::QueryRunning), "QUERY RUNNING");
    assert_eq!(state_phrase(&AppState::ResultView), "DATA MATRIX");
    assert_eq!(state_phrase(&AppState::Init), "BOOT SEQUENCE");
}

#[test]
fn passwords_are_masked() {
    assert_eq!(mask_password(""), "<empty>");
    assert_eq!(mask_password("root"), "****");
    assert_eq!(mask_password("a-very-long-password"), "************");
    assert_eq!(mask_password("密码"), "**");
}

#[test]
fn long_values_are_shortened() {
    assert_eq!(shorten("select 1", 20), "select 1");
    assert_eq!(shorten("select * from actor", 10), "select ...");
    assert_eq!(shorten("abcdef", 2), "...");
    assert_eq!(truncate_cell("PENELOPE", 8), "PENELOPE");
    assert_eq!(truncate_cell("GUINESS-LONG", 7), "GUIN...");
}

#[test]
fn visible_ranges_are_one_based() {
    assert_eq!(visible_range_start(0, 5), 0);
    assert_eq!(visible_range_start(10, 0), 1);
    assert_eq!(visible_range_end(0, 0, 20), 0);
    assert_eq!(visible_range_end(200, 0, 20), 20);
    assert_eq!(visible_range_end(25, 20, 20), 25);
}

#[test]
fn column_capacity_follows_the_width() {
    assert_eq!(visible_column_capacity(10, 0, 80), 5);
    assert_eq!(visible_column_capacity(10, 8, 80), 2);
    assert_eq!(visible_column_capacity(10, 10, 80), 0);
    assert_eq!(visible_column_capacity(10, 0, 5), 1);
}

#[test]
fn cell_widths() {
    assert_eq!(width_to_cell_len(16), 15);
    assert_eq!(width_to_cell_len(3), 4);
    assert_eq!(column_width(4, 3, 80, 4), 8);
    assert_eq!(column_width(40, 3, 200, 2), 32);
    assert_eq!(column_width(20, 30, 60, 4), 12);
    assert_eq!(column_width(20, 0, 10, 4), 8);
}

#[test]
fn widest_visible_cell() {
    let rows = vec![
        vec!["a".to_string(), "bbbb".to_string()],
        vec!["ccc".to_string()],
        vec!["dd".to_string(), "eeeeeeee".to_string()],
    ];
    assert_eq!(max_visible_cell_len(&rows, 1, 0, 2), 4);
    assert_eq!(max_visible_cell_len(&rows, 1, 1, 2), 8);
    assert_eq!(max_visible_cell_len(&rows, 0, 0, 0), 1);
    assert_eq!(max_visible_cell_len(&rows, 5, 0, 3), 0);
}

#[test]
fn row_numbers_are_right_aligned() {
    assert_eq!(row_number_label(7), "   7");
    assert_eq!(row_number_label(1234), "1234");
    assert_eq!(row_number_label(98765), "98765");
}

#[test]
fn result_titles() {
    assert_eq!(result_header(&query_result(3, 2, false)), "RESULT MATRIX | 12 ms | 3 rows | 2 cols");
    assert_eq!(result_header(&command_result(1, 4)), "COMMAND RESULT | 4 ms");
    let e = ExecutionResult::error("boom".to_string(), 9);
    assert_eq!(result_header(&e), "ERROR | 9 ms");
}

#[test]
fn result_status_lines() {
    let r = query_result(250, 12, true);
    assert_eq!(
        query_meta(&r, "local", 0, 2, 0, 0, 20, 80),
        "connection local | cell r1 c3 | visible rows 1-20 / 250 | visible cols 1-5 / 12 | truncated to 200 rows"
    );
    let r = query_result(0, 0, false);
    assert_eq!(
        query_meta(&r, "<none>", 0, 0, 0, 0, 0, 80),
        "connection <none> | cell r1 c1 | visible rows 0-0 / 0 | visible cols 0-0 / 0"
    );
    assert_eq!(other_meta(&command_result(7, 1)), "affected rows: 7");
    assert_eq!(other_meta(&ExecutionResult::error("x".to_string(), 1)), "review database error details below");
}

#[test]
fn editor_status_texts() {
    assert_eq!(cursor_position_text(0, 4), "1:5");
    let lines = vec!["select *".to_string(), "from actor;".to_string()];
    assert_eq!(buffer_size_text(&lines).as_deref(), Some("2 lines / 19 chars"));
}

#[test]
fn footer_help_per_screen() {
    assert_eq!(footer_help(&AppState::QueryEdit, false), "Ctrl+S Save  F5 Save+Run  Esc Back");
    assert_eq!(footer_help(&AppState::ResultView, true), "Enter/Esc Close Detail  q Quit");
}

#[test]
fn list_selection_wraps() {
    assert_eq!(move_index(0, 3, -1), 2);
    assert_eq!(move_index(2, 3, 1), 0);
    assert_eq!(move_index(1, 3, 1), 2);
    assert_eq!(move_index(5, 0, 1), 0);
    // moving down then up comes back
    assert_eq!(move_index(move_index(1, 4, 1), 4, -1), 1);
}

#[test]
fn grid_axis_normalisation() {
    // selection past the end is clamped; the window follows it
    assert_eq!(normalize_axis(0, 50, 30, 10), (20, 29));
    // selection above the window pulls the window up
    assert_eq!(normalize_axis(15, 3, 30, 10), (3, 3));
    // an axis already in order is unchanged, and normalising twice changes nothing more
    assert_eq!(normalize_axis(5, 8, 30, 10), (5, 8));
    let (o, s) = normalize_axis(100, 100, 7, 0);
    assert_eq!((o, s), (6, 6));
    assert_eq!(normalize_axis(o, s, 7, 0), (o, s));
    assert_eq!(normalize_axis(3, 3, 0, 10), (0, 0));
}

#[test]
fn bordered_panel_inside() {
    let a = inner_area(Area { x: 0, y: 3, width: 80, height: 18 });
    assert_eq!(a, Area { x: 1, y: 4, width: 78, height: 16 });
    let a = inner_area(Area { x: 5, y: 5, width: 1, height: 0 });
    assert_eq!(a, Area { x: 6, y: 5, width: 0, height: 0 });
}

#[test]
fn result_viewport_of_a_screen() {
    // 24 rows: 3 title + 18 body + 3 footer; the body gives 3 to the status line and 15 to
    // the grid panel, whose inside is 13 high and 78 wide.
    assert_eq!(result_viewport(Area { x: 0, y: 0, width: 80, height: 24 }), (11, 4));
    assert_eq!(grid_viewport(Area { x: 0, y: 6, width: 80, height: 15 }), (11, 4));
    assert_eq!(grid_viewport(Area { x: 0, y: 0, width: 8, height: 3 }), (0, 1));
}

#[test]
fn panel_texts() {
    assert_eq!(list_entry(true, "local"), ">> local");
    assert_eq!(list_entry(false, "local"), "   local");
    let p = ConnectionProfile {
        name: "local".to_string(),
        kind: "mysql".to_string(),
        host: "db.example".to_string(),
        port: 3307,
        username: "app".to_string(),
        password: "secret".to_string(),
        database: "shop".to_string(),
    };
    assert_eq!(
        connection_detail_lines(&p),
        vec![
            "kind     : mysql",
            "host     : db.example",
            "port     : 3307",
            "username : app",
            "database : shop",
            "password : ******",
        ]
    );
    assert_eq!(editor_title(Some("2026-08-20-1.sql")), "COMMAND INPUT [2026-08-20-1.sql]");
    assert_eq!(editor_title(None), "COMMAND INPUT");
    assert_eq!(running_preview("  select * from actor  \n", 80), "select * from actor");
    assert_eq!(running_preview("select * from actor", 3), "select...");
    assert_eq!(command_detail_lines(&command_result(4, 12)), vec!["affected_rows = 4", "elapsed_ms    = 12"]);
    assert_eq!(
        cell_heading("first_name", 0, 1),
        ("COLUMN: first_name".to_string(), "ROW: 1  COL: 2".to_string())
    );
}

#[test]
fn the_preview_shows_the_draft_or_a_placeholder() {
    assert_eq!(draft_preview(Some("select 1")), "select 1");
    assert_eq!(draft_preview(Some("")), "Draft preview will appear here.");
    assert_eq!(draft_preview(None), "Draft preview will appear here.");
}

#[test]
fn screen_fallback_texts() {
    assert_eq!(no_result_text(), "No result");
    assert_eq!(error_detail(None), "Unknown error");
    assert_eq!(error_detail(Some("syntax error")), "syntax error");
    assert_eq!(connection_label(None), "NO-LINK");
    let profile = ConnectionProfile {
        name: "local".to_string(),
        kind: "mysql".to_string(),
        host: "127.0.0.1".to_string(),
        port: 3306,
        username: "root".to_string(),
        password: "secret".to_string(),
        database: "app".to_string(),
    };
    assert_eq!(connection_label(Some(&profile)), "local");
    assert_eq!(draft_label(None), "<unsaved>");
    let draft = mrcli::model::DraftEntry {
        file_name: "2026-08-20-1.sql".to_string(),
        path: std::path::PathBuf::from("/tmp/2026-08-20-1.sql"),
        content: String::new(),
        modified_at: None,
    };
    assert_eq!(draft_label(Some(&draft)), "2026-08-20-1.sql");
}

#[test]
fn grid_header_and_footer() {
    assert_eq!(
        grid_headings(&vec!["id".to_string(), "name".to_string()]),
        vec!["#".to_string(), "id".to_string(), "name".to_string()]
    );
    assert_eq!(grid_footer(true), "WARN result truncated to first 200 rows | ENTER cell detail");
    assert_eq!(grid_footer(false), "ENTER cell detail");
}

#[test]
fn status_and_running_fallbacks() {
    assert_eq!(status_text(Some("saved"), Some("boom")), "saved");
    assert_eq!(status_text(None, Some("boom")), "boom");
    assert_eq!(status_text(None, None), "Ready");
    assert_eq!(running_labels(None), ("No connection", "No SQL queued"));
    assert_eq!(result_connection_label(None), "<none>");
}
