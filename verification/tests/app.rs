use std::path::PathBuf;

use mrcli::app::{App, KeyCode, KeyPress, Outcome, Received, Request};
use mrcli::model::{
    AppConfig, AppState, ColumnMetadata, ConnectionProfile, DatabaseMetadata, DraftEntry, EditorMode,
    ExecutionResult, ResultKind, TableMetadata,
};

fn input_key(code: KeyCode) -> tui_textarea::Key {
    match code {
        KeyCode::Char(c) => tui_textarea::Key::Char(c),
        KeyCode::Enter => tui_textarea::Key::Enter,
        KeyCode::Esc => tui_textarea::Key::Esc,
        KeyCode::Tab => tui_textarea::Key::Tab,
        KeyCode::Backspace => tui_textarea::Key::Backspace,
        KeyCode::Up => tui_textarea::Key::Up,
        KeyCode::Down => tui_textarea::Key::Down,
        KeyCode::Left => tui_textarea::Key::Left,
        KeyCode::Right => tui_textarea::Key::Right,
        KeyCode::Home => tui_textarea::Key::Home,
        KeyCode::End => tui_textarea::Key::End,
        KeyCode::PageUp => tui_textarea::Key::PageUp,
        KeyCode::PageDown => tui_textarea::Key::PageDown,
        KeyCode::F(n) => tui_textarea::Key::F(n),
        KeyCode::Other => tui_textarea::Key::Null,
    }
}

fn key(code: KeyCode) -> KeyPress {
    KeyPress {
        code,
        ctrl: false,
        input: tui_textarea::Input { key: input_key(code), ctrl: false, alt: false, shift: false },
    }
}

fn ctrl(c: char) -> KeyPress {
    KeyPress {
        code: KeyCode::Char(c),
        ctrl: true,
        input: tui_textarea::Input { key: tui_textarea::Key::Char(c), ctrl: true, alt: false, shift: false },
    }
}

fn profile(name: &str) -> ConnectionProfile {
    ConnectionProfile {
        name: name.to_string(),
        kind: "mysql".to_string(),
        host: "127.0.0.1".to_string(),
        port: 3306,
        username: "root".to_string(),
        password: "root".to_string(),
        database: "app_db".to_string(),
    }
}

fn config() -> AppConfig {
    AppConfig {
        default_connection: Some("second".to_string()),
        connections: vec![profile("first"), profile("second"), profile("third")],
    }
}

fn draft(name: &str, content: &str) -> DraftEntry {
    DraftEntry {
        file_name: name.to_string(),
        path: PathBuf::from(format!("/tmp/drafts/{name}")),
        content: content.to_string(),
        modified_at: None,
    }
}

fn drafts() -> Vec<DraftEntry> {
    vec![draft("2026-08-20-2.sql", "select * from actor"), draft("2026-08-20-1.sql", "   ")]
}

fn started() -> App {
    let mut app = App::new();
    assert!(matches!(app.start(), Request::LoadConfig));
    assert!(matches!(app.resume(Outcome::ConfigLoaded(Ok(config()))), Request::ListDrafts));
    assert!(matches!(app.resume(Outcome::DraftsListed(Ok(drafts()))), Request::Done));
    app
}

fn in_list() -> App {
    let mut app = started();
    assert!(matches!(app.handle_key_event(key(KeyCode::Enter)), Request::ListDrafts));
    let r = app.resume(Outcome::DraftsListed(Ok(drafts())));
    assert!(matches!(r, Request::LoadMetadata(_)));
    app
}

fn text(o: &Option<String>) -> &str {
    o.as_deref().unwrap_or("")
}

#[test]
fn startup_loads_config_then_drafts() {
    let app = started();
    assert_eq!(app.state, AppState::Init);
    assert_eq!(app.selected_connection_index, 1);
    assert_eq!(app.current_connection().map(|c| c.name.as_str()), Some("second"));
    assert_eq!(app.drafts.len(), 2);
    assert_eq!(app.selected_draft_index, Some(0));
    assert_eq!(text(&app.status_message), "loaded 2 drafts");
}

#[test]
fn a_config_that_cannot_load_is_reported() {
    let mut app = App::new();
    app.start();
    app.resume(Outcome::ConfigLoaded(Err("config must contain at least one connection".to_string())));
    assert!(app.config.is_none());
    assert_eq!(text(&app.last_error), "config must contain at least one connection");
    assert_eq!(text(&app.status_message), "failed to load config");
}

#[test]
fn the_config_error_stays_after_the_drafts_load() {
    let mut app = App::new();
    app.start();
    app.resume(Outcome::ConfigLoaded(Err("config must contain at least one connection".to_string())));
    assert!(matches!(app.resume(Outcome::DraftsListed(Ok(drafts()))), Request::Done));
    assert_eq!(app.state, AppState::Init);
    assert!(app.config.is_none());
    assert_eq!(app.selected_connection_index, 0);
    assert_eq!(text(&app.last_error), "config must contain at least one connection");
    assert_eq!(app.drafts.len(), 2);
    assert_eq!(app.selected_draft_index, Some(0));
}

#[test]
fn an_outcome_that_answers_nothing_is_dropped() {
    let mut app = App::new();
    let r = app.resume(Outcome::DraftDeleted(Ok(())));
    assert!(matches!(r, Request::Done));
    assert_eq!(app.state, AppState::Init);
}

#[test]
fn init_keys_move_reload_and_quit() {
    let mut app = started();
    app.handle_key_event(key(KeyCode::Down));
    assert_eq!(app.selected_connection_index, 2);
    app.handle_key_event(key(KeyCode::Down));
    assert_eq!(app.selected_connection_index, 0);
    app.handle_key_event(key(KeyCode::Up));
    assert_eq!(app.selected_connection_index, 2);
    assert!(matches!(app.handle_key_event(key(KeyCode::Char('r'))), Request::LoadConfig));
    app.resume(Outcome::ConfigLoaded(Ok(config())));
    assert_eq!(app.selected_connection_index, 1);
    assert_eq!(text(&app.status_message), "config loaded");
    app.handle_key_event(key(KeyCode::Char('q')));
    assert!(app.should_quit);
}

#[test]
fn enter_opens_the_draft_list_and_loads_metadata() {
    let app = in_list();
    assert_eq!(app.state, AppState::QueryList);
    assert!(app.metadata_loading);
    assert_eq!(text(&app.status_message), "entered draft list");
}

#[test]
fn draft_list_navigation_and_back() {
    let mut app = in_list();
    app.handle_key_event(key(KeyCode::Down));
    assert_eq!(app.selected_draft_index, Some(1));
    app.handle_key_event(key(KeyCode::Down));
    assert_eq!(app.selected_draft_index, Some(0));
    app.handle_key_event(key(KeyCode::Esc));
    assert_eq!(app.state, AppState::Init);
}

#[test]
fn opening_a_draft_loads_it_into_the_editor() {
    let mut app = in_list();
    app.handle_key_event(key(KeyCode::Enter));
    assert_eq!(app.state, AppState::QueryEdit);
    assert_eq!(app.editor_mode, EditorMode::Normal);
    assert_eq!(app.buffer_lines(), vec!["select * from actor".to_string()]);
    assert_eq!(text(&app.status_message), "editing 2026-08-20-2.sql");
}

#[test]
fn creating_a_draft_opens_it() {
    let mut app = in_list();
    assert!(matches!(app.handle_key_event(key(KeyCode::Char('n'))), Request::CreateDraft));
    let created = draft("2026-08-20-3.sql", "");
    assert!(matches!(app.resume(Outcome::DraftCreated(Ok(created))), Request::ListDrafts));
    let mut listed = drafts();
    listed.insert(0, draft("2026-08-20-3.sql", ""));
    app.resume(Outcome::DraftsListed(Ok(listed)));
    assert_eq!(app.state, AppState::QueryEdit);
    assert_eq!(app.selected_draft_index, Some(0));
    assert_eq!(text(&app.status_message), "created 2026-08-20-3.sql");
}

#[test]
fn a_failed_create_stays_on_the_list() {
    let mut app = in_list();
    app.handle_key_event(key(KeyCode::Char('n')));
    let r = app.resume(Outcome::DraftCreated(Err("disk full".to_string())));
    assert!(matches!(r, Request::Done));
    assert_eq!(app.state, AppState::QueryList);
    assert_eq!(text(&app.last_error), "disk full");
    assert_eq!(text(&app.status_message), "failed to create draft");
}

#[test]
fn deleting_a_draft_removes_the_selected_file() {
    let mut app = in_list();
    match app.handle_key_event(key(KeyCode::Char('d'))) {
        Request::DeleteDraft(path) => assert_eq!(path, PathBuf::from("/tmp/drafts/2026-08-20-2.sql")),
        _ => panic!("expected a delete request"),
    }
    assert!(matches!(app.resume(Outcome::DraftDeleted(Ok(()))), Request::ListDrafts));
    app.resume(Outcome::DraftsListed(Ok(vec![draft("2026-08-20-1.sql", "")])));
    assert_eq!(text(&app.status_message), "deleted 2026-08-20-2.sql");
    assert_eq!(app.selected_draft_index, Some(0));
}

#[test]
fn running_a_draft_waits_for_the_worker() {
    let mut app = in_list();
    let job = match app.handle_key_event(key(KeyCode::F(5))) {
        Request::RunQuery(job) => job,
        _ => panic!("expected a query to run"),
    };
    assert_eq!(job.sql, "select * from actor");
    assert_eq!(job.connection.name, "second");
    assert_eq!(app.state, AppState::QueryRunning);
    assert_eq!(text(&app.status_message), "executing SQL");
    app.on_tick();
    assert_eq!(app.state, AppState::QueryRunning);
    let result = ExecutionResult {
        kind: ResultKind::Query,
        elapsed_ms: 3,
        columns: vec!["total".to_string()],
        rows: vec![vec!["200".to_string()]],
        affected_rows: None,
        error_message: None,
        truncated: false,
    };
    job.sender.sender.send(result).unwrap();
    app.on_tick();
    assert_eq!(app.state, AppState::ResultView);
    assert_eq!(text(&app.status_message), "query returned 1 rows");
    assert_eq!(app.current_result_cell(), Some(("total", "200")));
}

#[test]
fn a_vanished_worker_is_an_error_result() {
    let mut app = in_list();
    let job = match app.handle_key_event(key(KeyCode::F(5))) {
        Request::RunQuery(job) => job,
        _ => panic!("expected a query to run"),
    };
    drop(job);
    app.on_tick();
    assert_eq!(app.state, AppState::ResultView);
    let result = app.current_result.as_ref().unwrap();
    assert_eq!(result.kind, ResultKind::Error);
    assert_eq!(text(&result.error_message), "query worker disconnected unexpectedly");
    assert_eq!(text(&app.status_message), "query worker disconnected");
}

#[test]
fn blank_sql_is_not_run() {
    let mut app = in_list();
    app.handle_key_event(key(KeyCode::Down));
    let r = app.handle_key_event(key(KeyCode::F(5)));
    assert!(matches!(r, Request::Done));
    assert_eq!(app.state, AppState::ResultView);
    let result = app.current_result.as_ref().unwrap();
    assert_eq!(text(&result.error_message), "SQL is empty");
    assert_eq!(text(&app.status_message), "cannot execute empty SQL");
}

fn with_result(rows: usize, cols: usize) -> App {
    let mut app = in_list();
    let job = match app.handle_key_event(key(KeyCode::F(5))) {
        Request::RunQuery(job) => job,
        _ => panic!("expected a query to run"),
    };
    let result = ExecutionResult {
        kind: ResultKind::Query,
        elapsed_ms: 1,
        columns: (0..cols).map(|c| format!("c{c}")).collect(),
        rows: (0..rows).map(|r| (0..cols).map(|c| format!("{r}:{c}")).collect()).collect(),
        affected_rows: None,
        error_message: None,
        truncated: false,
    };
    job.sender.sender.send(result).unwrap();
    app.on_tick();
    app.set_result_viewport(10, 2);
    app
}

#[test]
fn result_grid_keeps_the_selection_in_view() {
    let mut app = with_result(30, 5);
    for _ in 0..12 {
        app.handle_key_event(key(KeyCode::Down));
    }
    assert_eq!(app.result_selected_row, 12);
    assert_eq!(app.result_row_offset, 3);
    for _ in 0..3 {
        app.handle_key_event(key(KeyCode::Right));
    }
    assert_eq!(app.result_selected_col, 3);
    assert_eq!(app.result_col_offset, 2);
    assert_eq!(app.current_result_cell(), Some(("c3", "12:3")));
    app.handle_key_event(key(KeyCode::End));
    assert_eq!((app.result_selected_row, app.result_selected_col), (29, 4));
    assert_eq!((app.result_row_offset, app.result_col_offset), (20, 3));
    app.handle_key_event(key(KeyCode::Home));
    assert_eq!((app.result_selected_row, app.result_row_offset), (0, 0));
    app.handle_key_event(key(KeyCode::Up));
    assert_eq!(app.result_selected_row, 0);
}

#[test]
fn result_cell_detail_opens_and_closes() {
    let mut app = with_result(3, 2);
    app.handle_key_event(key(KeyCode::Enter));
    assert!(app.result_cell_detail_open);
    app.handle_key_event(key(KeyCode::Down));
    assert_eq!(app.result_selected_row, 0);
    assert!(app.result_cell_detail_open);
    assert!(!app.should_quit);
    app.handle_key_event(key(KeyCode::Esc));
    assert!(!app.result_cell_detail_open);
    app.handle_key_event(key(KeyCode::Esc));
    assert_eq!(app.state, AppState::QueryList);
}

#[test]
fn enter_opens_no_detail_without_a_cell() {
    let mut app = with_result(0, 2);
    app.handle_key_event(key(KeyCode::Enter));
    assert!(!app.result_cell_detail_open);
    assert_eq!(app.state, AppState::ResultView);
}

#[test]
fn q_quits_from_the_cell_detail() {
    let mut app = with_result(3, 2);
    app.handle_key_event(key(KeyCode::Enter));
    app.handle_key_event(key(KeyCode::Char('q')));
    assert!(app.should_quit);
    assert!(app.result_cell_detail_open);
}

#[test]
fn page_keys_move_a_window_at_a_time() {
    let mut app = with_result(30, 5);
    app.handle_key_event(key(KeyCode::PageDown));
    assert_eq!((app.result_row_offset, app.result_selected_row), (10, 10));
    app.handle_key_event(key(KeyCode::PageDown));
    assert_eq!((app.result_row_offset, app.result_selected_row), (20, 20));
    app.handle_key_event(key(KeyCode::PageDown));
    assert_eq!((app.result_row_offset, app.result_selected_row), (20, 20));
    app.handle_key_event(key(KeyCode::PageUp));
    assert_eq!((app.result_row_offset, app.result_selected_row), (10, 10));
    app.handle_key_event(key(KeyCode::PageUp));
    app.handle_key_event(key(KeyCode::PageUp));
    assert_eq!((app.result_row_offset, app.result_selected_row), (0, 0));
}

#[test]
fn r_runs_the_shown_statement_again() {
    let mut app = with_result(3, 2);
    match app.handle_key_event(key(KeyCode::Char('r'))) {
        Request::RunQuery(job) => assert_eq!(job.sql, "select * from actor"),
        _ => panic!("expected the statement to run again"),
    }
    assert_eq!(app.state, AppState::QueryRunning);
    assert_eq!(app.pending_execution.as_ref().unwrap().sql, "select * from actor");
}

#[test]
fn editing_saving_and_returning() {
    let mut app = in_list();
    app.handle_key_event(key(KeyCode::Enter));
    app.handle_key_event(key(KeyCode::Char('i')));
    assert_eq!(app.editor_mode, EditorMode::Insert);
    assert_eq!(text(&app.status_message), "insert mode");
    app.handle_key_event(key(KeyCode::Esc));
    assert_eq!(app.state, AppState::QueryList);
    assert_eq!(app.editor_mode, EditorMode::Normal);
    assert_eq!(text(&app.status_message), "returned to draft list");
    app.handle_key_event(key(KeyCode::Enter));
    assert_eq!(app.state, AppState::QueryEdit);
    app.handle_key_event(key(KeyCode::Char(':')));
    assert_eq!(app.editor_mode, EditorMode::Command);
    app.handle_key_event(key(KeyCode::Char('w')));
    app.handle_key_event(key(KeyCode::Char('q')));
    assert_eq!(app.command_hints(), vec!["wq"]);
    match app.handle_key_event(key(KeyCode::Enter)) {
        Request::SaveDraft(path, content) => {
            assert_eq!(path, PathBuf::from("/tmp/drafts/2026-08-20-2.sql"));
            assert_eq!(content, "select * from actor");
        }
        _ => panic!("expected a save"),
    }
    assert!(matches!(app.resume(Outcome::DraftSaved(Ok(()))), Request::ListDrafts));
    app.resume(Outcome::DraftsListed(Ok(drafts())));
    assert_eq!(app.state, AppState::QueryList);
    assert_eq!(text(&app.status_message), "saved and returned to draft list");
}

#[test]
fn esc_leaves_the_editor_from_every_mode() {
    let mut app = in_list();
    app.handle_key_event(key(KeyCode::Enter));
    app.handle_key_event(key(KeyCode::Char('2')));
    app.handle_key_event(key(KeyCode::Esc));
    assert_eq!(app.state, AppState::QueryList);
    assert!(app.normal_count_buffer.is_empty());
    app.handle_key_event(key(KeyCode::Enter));
    app.handle_key_event(key(KeyCode::Char(':')));
    app.handle_key_event(key(KeyCode::Char('w')));
    assert!(matches!(app.handle_key_event(key(KeyCode::Esc)), Request::Done));
    assert_eq!(app.state, AppState::QueryList);
    assert_eq!(app.editor_mode, EditorMode::Normal);
    assert!(app.command_buffer.is_empty());
}

#[test]
fn ctrl_s_saves_in_normal_and_command_mode() {
    let mut app = in_list();
    app.handle_key_event(key(KeyCode::Enter));
    assert_eq!(app.editor_mode, EditorMode::Normal);
    match app.handle_key_event(ctrl('s')) {
        Request::SaveDraft(path, content) => {
            assert_eq!(path, PathBuf::from("/tmp/drafts/2026-08-20-2.sql"));
            assert_eq!(content, "select * from actor");
        }
        _ => panic!("expected a save"),
    }
    app.resume(Outcome::DraftSaved(Ok(())));
    app.resume(Outcome::DraftsListed(Ok(drafts())));
    assert_eq!(app.state, AppState::QueryEdit);
    assert_eq!(text(&app.status_message), "saved 2026-08-20-2.sql");
    app.handle_key_event(key(KeyCode::Char(':')));
    assert!(matches!(app.handle_key_event(ctrl('s')), Request::SaveDraft(_, _)));
    assert_eq!(app.editor_mode, EditorMode::Command);
}

#[test]
fn f5_in_command_mode_saves_then_runs() {
    let mut app = in_list();
    app.handle_key_event(key(KeyCode::Enter));
    app.handle_key_event(key(KeyCode::Char(':')));
    assert!(matches!(app.handle_key_event(key(KeyCode::F(5))), Request::SaveDraft(_, _)));
    app.resume(Outcome::DraftSaved(Ok(())));
    let r = app.resume(Outcome::DraftsListed(Ok(drafts())));
    match r {
        Request::RunQuery(job) => assert_eq!(job.sql, "select * from actor"),
        _ => panic!("expected a query to run"),
    }
    assert_eq!(app.state, AppState::QueryRunning);
}

#[test]
fn ctrl_s_saves_in_insert_mode() {
    let mut app = in_list();
    app.handle_key_event(key(KeyCode::Enter));
    app.handle_key_event(key(KeyCode::Char('i')));
    assert!(matches!(app.handle_key_event(ctrl('s')), Request::SaveDraft(_, _)));
    app.resume(Outcome::DraftSaved(Ok(())));
    app.resume(Outcome::DraftsListed(Ok(drafts())));
    assert_eq!(app.state, AppState::QueryEdit);
    assert_eq!(text(&app.status_message), "saved 2026-08-20-2.sql");
}

#[test]
fn typed_keywords_are_upper_cased() {
    let mut app = in_list();
    app.handle_key_event(key(KeyCode::Down));
    app.handle_key_event(key(KeyCode::Enter));
    app.handle_key_event(key(KeyCode::Char('i')));
    for c in "select 1".chars() {
        app.handle_key_event(key(KeyCode::Char(c)));
    }
    assert_eq!(app.buffer_lines(), vec!["SELECT 1   ".to_string()]);
}

#[test]
fn quitting_while_a_query_runs() {
    let mut app = in_list();
    app.handle_key_event(key(KeyCode::F(5)));
    let r = app.handle_key_event(key(KeyCode::Char('x')));
    assert!(matches!(r, Request::Done));
    assert_eq!(app.state, AppState::QueryRunning);
    assert!(!app.should_quit);
    app.handle_key_event(key(KeyCode::Esc));
    assert_eq!(app.state, AppState::QueryRunning);
    assert!(!app.should_quit);
    app.handle_key_event(key(KeyCode::Char('q')));
    assert!(app.should_quit);
    assert_eq!(app.state, AppState::QueryRunning);
}

#[test]
fn accepting_a_completion_replaces_the_prefix() {
    let mut app = started();
    assert!(matches!(app.handle_key_event(key(KeyCode::Enter)), Request::ListDrafts));
    let job = match app.resume(Outcome::DraftsListed(Ok(drafts()))) {
        Request::LoadMetadata(job) => job,
        _ => panic!("expected a metadata load"),
    };
    let metadata = DatabaseMetadata {
        tables: vec![TableMetadata {
            name: "actor".to_string(),
            columns: vec![ColumnMetadata { name: "actor_id".to_string(), data_type: "smallint".to_string() }],
        }],
    };
    job.sender.sender.send(Ok(metadata)).unwrap();
    app.on_tick();
    assert_eq!(text(&app.status_message), "metadata loaded: 1 tables");
    app.handle_key_event(key(KeyCode::Down));
    app.handle_key_event(key(KeyCode::Enter));
    app.handle_key_event(key(KeyCode::Char('i')));
    for c in "select * from ac".chars() {
        app.handle_key_event(key(KeyCode::Char(c)));
    }
    assert!(app.completion_open);
    assert_eq!(app.completion_items[0].label, "actor");
    app.handle_key_event(key(KeyCode::Tab));
    assert!(!app.completion_open);
    assert_eq!(app.buffer_lines(), vec!["SELECT * FROM actor   ".to_string()]);
    assert_eq!(app.cursor_position(), (0, 19));
}

#[test]
fn enter_upper_cases_the_keyword_and_breaks_the_line() {
    let mut app = in_list();
    app.handle_key_event(key(KeyCode::Down));
    app.handle_key_event(key(KeyCode::Enter));
    app.handle_key_event(key(KeyCode::Char('i')));
    for c in "order by".chars() {
        app.handle_key_event(key(KeyCode::Char(c)));
    }
    // no completion starts with BY, so Enter breaks the line
    assert!(!app.completion_open);
    app.handle_key_event(key(KeyCode::Enter));
    assert_eq!(app.buffer_lines(), vec!["ORDER BY".to_string(), "   ".to_string()]);
    assert_eq!(app.cursor_position(), (1, 0));
}

#[test]
fn enter_with_the_list_open_accepts_the_completion() {
    let mut app = in_list();
    app.handle_key_event(key(KeyCode::Down));
    app.handle_key_event(key(KeyCode::Enter));
    app.handle_key_event(key(KeyCode::Char('i')));
    for c in "from".chars() {
        app.handle_key_event(key(KeyCode::Char(c)));
    }
    assert!(app.completion_open);
    app.handle_key_event(key(KeyCode::Enter));
    assert_eq!(app.buffer_lines(), vec!["FROM   ".to_string()]);
}

#[test]
fn words_that_are_not_keywords_stay_as_typed() {
    let mut app = in_list();
    app.handle_key_event(key(KeyCode::Down));
    app.handle_key_event(key(KeyCode::Enter));
    app.handle_key_event(key(KeyCode::Char('i')));
    for c in "actor, 'select '".chars() {
        app.handle_key_event(key(KeyCode::Char(c)));
    }
    assert_eq!(app.buffer_lines(), vec!["actor, 'select '   ".to_string()]);
}

fn editing(content: &str) -> App {
    let mut app = started();
    app.handle_key_event(key(KeyCode::Enter));
    let listed = vec![draft("2026-08-20-9.sql", content)];
    app.resume(Outcome::DraftsListed(Ok(listed)));
    app.handle_key_event(key(KeyCode::Enter));
    assert_eq!(app.state, AppState::QueryEdit);
    app
}

#[test]
fn normal_mode_counts_repeat_moves_and_deletes() {
    let mut app = editing("select 1\nfrom a\nwhere b\nlimit 4");
    app.handle_key_event(key(KeyCode::Char('2')));
    app.handle_key_event(key(KeyCode::Char('j')));
    assert_eq!(app.cursor_position().0, 2);
    app.handle_key_event(key(KeyCode::Char('9')));
    app.handle_key_event(key(KeyCode::Char('j')));
    assert_eq!(app.cursor_position().0, 3);
    app.handle_key_event(key(KeyCode::Char('k')));
    assert_eq!(app.cursor_position().0, 2);
    app.handle_key_event(key(KeyCode::Char('G')));
    assert_eq!(app.cursor_position().0, 3);
    app.handle_key_event(key(KeyCode::Char('1')));
    app.handle_key_event(key(KeyCode::Char('G')));
    assert_eq!(app.cursor_position(), (0, 0));
    app.handle_key_event(key(KeyCode::Char('3')));
    app.handle_key_event(key(KeyCode::Char('x')));
    assert_eq!(app.buffer_lines()[0], "ect 1");
    app.handle_key_event(key(KeyCode::Char('$')));
    app.handle_key_event(key(KeyCode::Char('x')));
    assert_eq!(app.buffer_lines()[0], "ect 1from a");
    assert_eq!(app.buffer_lines().len(), 3);
}

#[test]
fn a_zero_without_count_goes_to_the_line_head() {
    let mut app = editing("select 1");
    app.handle_key_event(key(KeyCode::Char('$')));
    assert_eq!(app.cursor_position(), (0, 8));
    app.handle_key_event(key(KeyCode::Char('0')));
    assert_eq!(app.cursor_position(), (0, 0));
}

#[test]
fn worker_outcomes_are_taken() {
    let mut app = started();
    app.accept_metadata(Received::Value(Err("access denied".to_string())));
    assert!(app.metadata.is_none());
    assert_eq!(text(&app.metadata_error), "access denied");
    assert_eq!(text(&app.status_message), "metadata load failed: access denied");
    app.accept_metadata(Received::Disconnected);
    assert_eq!(text(&app.status_message), "metadata worker disconnected");
    app.accept_metadata(Received::Empty);
    assert_eq!(text(&app.status_message), "metadata worker disconnected");

    app.accept_execution(Received::Value(mrcli::db::command_result(3, 8)), 0);
    assert_eq!(app.state, AppState::ResultView);
    assert_eq!(text(&app.status_message), "statement affected 3 rows");
    app.accept_execution(Received::Disconnected, 42);
    let result = app.current_result.as_ref().unwrap();
    assert_eq!(result.elapsed_ms, 42);
    assert_eq!(text(&result.error_message), "query worker disconnected unexpectedly");
    assert!(result.rows.is_empty() && result.columns.is_empty());
    assert!(result.affected_rows.is_none() && !result.truncated);
    let failed = ExecutionResult::error("syntax error".to_string(), 2);
    app.accept_execution(Received::Value(failed), 0);
    assert_eq!(text(&app.status_message), "query failed");
}

#[test]
fn command_line_editing() {
    let mut app = editing("select 1");
    app.handle_key_event(key(KeyCode::Char(':')));
    app.handle_key_event(key(KeyCode::Char('r')));
    app.handle_key_event(key(KeyCode::Char('x')));
    assert_eq!(app.command_buffer, "rx");
    app.handle_key_event(key(KeyCode::Backspace));
    assert_eq!(app.command_buffer, "r");
    app.handle_key_event(ctrl('u'));
    assert_eq!(app.command_buffer, "r");
    app.handle_key_event(key(KeyCode::Char('u')));
    app.handle_key_event(key(KeyCode::Char('n')));
    assert_eq!(app.command_hints(), vec!["run"]);
    match app.handle_key_event(key(KeyCode::Enter)) {
        Request::SaveDraft(_, content) => assert_eq!(content, "select 1"),
        _ => panic!("expected a save"),
    }
    assert_eq!(app.editor_mode, EditorMode::Normal);
    assert!(matches!(app.resume(Outcome::DraftSaved(Ok(()))), Request::ListDrafts));
    let r = app.resume(Outcome::DraftsListed(Ok(vec![draft("2026-08-20-9.sql", "select 1")])));
    assert!(matches!(r, Request::RunQuery(_)));
    assert_eq!(app.state, AppState::QueryRunning);
}

#[test]
fn unknown_commands_are_reported() {
    let mut app = editing("select 1");
    app.handle_key_event(key(KeyCode::Char(':')));
    for c in " Foo ".chars() {
        app.handle_key_event(key(KeyCode::Char(c)));
    }
    assert!(matches!(app.handle_key_event(key(KeyCode::Enter)), Request::Done));
    assert_eq!(text(&app.status_message), "unknown command: foo");
    app.handle_key_event(key(KeyCode::Char(':')));
    app.handle_key_event(key(KeyCode::Char('Q')));
    app.handle_key_event(key(KeyCode::Enter));
    assert_eq!(app.state, AppState::QueryList);
}

fn delete_key() -> KeyPress {
    KeyPress {
        code: KeyCode::Other,
        ctrl: false,
        input: tui_textarea::Input { key: tui_textarea::Key::Delete, ctrl: false, alt: false, shift: false },
    }
}

#[test]
fn backspace_and_delete_in_insert_mode() {
    let mut app = editing("ab\ncd");
    app.handle_key_event(key(KeyCode::Char('j')));
    app.handle_key_event(key(KeyCode::Char('i')));
    assert_eq!(app.cursor_position(), (1, 0));
    app.handle_key_event(key(KeyCode::Backspace));
    assert_eq!(app.buffer_lines(), vec!["abcd".to_string()]);
    assert_eq!(app.cursor_position(), (0, 2));
    app.handle_key_event(delete_key());
    assert_eq!(app.buffer_lines(), vec!["abd".to_string()]);
    assert_eq!(app.cursor_position(), (0, 2));
    app.handle_key_event(key(KeyCode::Backspace));
    assert_eq!(app.buffer_lines(), vec!["ad".to_string()]);
    assert_eq!(app.cursor_position(), (0, 1));
    assert_eq!(app.editor_mode, EditorMode::Insert);
}

#[test]
fn opening_a_later_draft_keeps_its_selection() {
    let mut app = in_list();
    app.handle_key_event(key(KeyCode::Down));
    app.handle_key_event(key(KeyCode::Enter));
    assert_eq!(app.state, AppState::QueryEdit);
    assert_eq!(app.selected_draft_index, Some(1));
    assert_eq!(app.drafts.len(), 2);
    assert_eq!(app.buffer_lines(), vec!["   ".to_string()]);
}

#[test]
fn a_created_draft_is_selected_by_name() {
    let mut app = in_list();
    app.handle_key_event(key(KeyCode::Char('n')));
    app.resume(Outcome::DraftCreated(Ok(draft("2026-08-20-3.sql", ""))));
    let mut listed = drafts();
    listed.push(draft("2026-08-20-3.sql", ""));
    app.resume(Outcome::DraftsListed(Ok(listed)));
    assert_eq!(app.selected_draft_index, Some(2));
    assert_eq!(app.buffer_lines(), vec![String::new()]);
}

#[test]
fn startup_leaves_the_app_on_the_connection_screen() {
    let app = started();
    assert_eq!(app.state, AppState::Init);
    assert!(app.pending_execution.is_none());
    assert!(app.current_result.is_none());
    assert!(!app.should_quit);
    assert!(app.last_error.is_none());
    assert_eq!(app.editor_mode, EditorMode::Normal);
    let mut fresh = App::new();
    assert!(matches!(fresh.start(), Request::LoadConfig));
    assert_eq!(fresh.state, AppState::Init);
    assert!(!fresh.should_quit);
}

#[test]
fn the_window_follows_the_selection_a_line_at_a_time() {
    let mut app = with_result(30, 5);
    app.handle_key_event(key(KeyCode::End));
    assert_eq!((app.result_selected_row, app.result_row_offset), (29, 20));
    app.handle_key_event(key(KeyCode::Up));
    assert_eq!((app.result_selected_row, app.result_row_offset), (28, 20));
    for _ in 0..9 {
        app.handle_key_event(key(KeyCode::Up));
    }
    assert_eq!((app.result_selected_row, app.result_row_offset), (19, 19));
    app.handle_key_event(key(KeyCode::Left));
    assert_eq!((app.result_selected_col, app.result_col_offset), (3, 3));
}

#[test]
fn normalizing_brings_the_selection_into_view() {
    let mut app = with_result(30, 5);
    app.result_selected_row = 100;
    app.result_selected_col = 100;
    app.result_row_offset = 0;
    app.normalize_result_selection();
    assert_eq!((app.result_selected_row, app.result_row_offset), (29, 20));
    assert_eq!((app.result_selected_col, app.result_col_offset), (4, 3));
}

#[test]
fn normal_mode_reports_the_mode_it_enters() {
    let mut app = editing("select 1\nab");
    app.handle_key_event(key(KeyCode::Char('a')));
    assert_eq!(text(&app.status_message), "append mode");
    let mut app = editing("select 1\nab");
    app.handle_key_event(key(KeyCode::Char('o')));
    assert_eq!(text(&app.status_message), "opened new line");
    let mut app = editing("select 1\nab");
    app.handle_key_event(key(KeyCode::Char(':')));
    assert_eq!(text(&app.status_message), "command mode");
}

#[test]
fn moving_down_keeps_the_column_within_the_line() {
    let mut app = editing("select 1\nab");
    app.handle_key_event(key(KeyCode::Char('$')));
    assert_eq!(app.cursor_position(), (0, 8));
    app.handle_key_event(key(KeyCode::Char('j')));
    assert_eq!(app.cursor_position(), (1, 2));
}

#[test]
fn tab_indents_to_the_next_multiple_of_four() {
    let mut app = editing("select");
    app.handle_key_event(key(KeyCode::Char('$')));
    app.handle_key_event(key(KeyCode::Char('i')));
    app.handle_key_event(key(KeyCode::Tab));
    assert_eq!(app.buffer_lines(), vec!["SELECT  ".to_string()]);
    assert_eq!(app.cursor_position(), (0, 8));
    app.handle_key_event(key(KeyCode::Tab));
    assert_eq!(app.buffer_lines(), vec!["SELECT      ".to_string()]);
    assert_eq!(app.cursor_position(), (0, 12));
}
