//! The workbench's state machine: the five screens, the modal SQL editor, completion, and the
//! result grid. File, configuration and database work is not done here: a handler returns a
//! `Request`, the caller performs it and hands back an `Outcome`, and `resume` goes on.

use std::path::PathBuf;
use std::sync::mpsc::{Receiver, TryRecvError};
use std::time::Instant;

use tui_textarea::Input;
use vstd::prelude::*;

use crate::completion::{self, CompletionItem};
use crate::config::{default_connection_index, default_index};
use crate::editor::{
    clear_cursor_line_style, clear_editor_style, editor_cursor, editor_delete_next_char,
    editor_from_lines, editor_input, editor_insert_newline, editor_insert_str, editor_lines,
    empty_editor, lines_view, move_editor_cursor, editor_position, editor_text, cursor_ok,
    breaks_line, deleted_next, editor_selecting, inserted_at, inserted_piece, next_position,
    repeated_moves, split_at, typed_char, CursorStep, Editor, deletes_back, deletes_forward,
    deleted_before, position_before, plain_ascii, tab_spaces, tabs,
};
use crate::model::{
    AppConfig, AppState, ConnectionProfile, DatabaseMetadata, DraftEntry, EditorMode,
    ExecutionHandle, ExecutionResult, ExecutionSender, MetadataHandle, MetadataSender,
    PendingExecution, ResultKind,
};
use crate::nav::{
    axis_ok, max_offset, max_selected, move_index, moved_index, normalize_axis,
    normalized_offset, normalized_selected, sat_sub, at_least_one,
};
use crate::text::{
    chars_of, concat2, decimal, decimal_string, is_blank, is_word_char, is_word_char_exec, lower,
    owned, parse_usize, parse_usize_exec, push_char, str_equal, string_from_range, to_ascii_lower, upper,
    trim, trim_chars, lemma_trim_empty_iff_blank,
};

verus! {

#[verifier::external_type_specification]
#[verifier::external_body]
pub struct ExTryRecvError(TryRecvError);

// ---------------------------------------------------------------------------
// Keys
// ---------------------------------------------------------------------------

/// The keys the workbench tells apart.
#[derive(Debug, Clone, Copy, PartialEq, Eq, Structural)]
pub enum KeyCode {
    Char(char),
    Enter,
    Esc,
    Tab,
    Backspace,
    Up,
    Down,
    Left,
    Right,
    Home,
    End,
    PageUp,
    PageDown,
    F(u8),
    Other,
}

/// A key press: what the workbench decides on (`code`, `ctrl`), and the same press in the form
/// the editor takes (`input`).
pub struct KeyPress {
    pub code: KeyCode,
    pub ctrl: bool,
    pub input: Input,
}

/// Characters that end an SQL word for keyword normalisation.
pub open spec fn is_sql_delimiter(c: char) -> bool {
    c == ' ' || c == '\t' || c == '\n' || c == '(' || c == ')' || c == ',' || c == ';' || c == '='
        || c == '<' || c == '>' || c == '+' || c == '-' || c == '*' || c == '/'
}

pub fn is_sql_delimiter_exec(c: char) -> (r: bool)
    ensures
        r == is_sql_delimiter(c),
{
    c == ' ' || c == '\t' || c == '\n' || c == '(' || c == ')' || c == ',' || c == ';' || c == '='
        || c == '<' || c == '>' || c == '+' || c == '-' || c == '*' || c == '/'
}

/// Keys after which the word before the cursor is normalised: Enter, Tab and delimiters.
pub open spec fn normalizes_after(code: KeyCode) -> bool {
    match code {
        KeyCode::Enter | KeyCode::Tab => true,
        KeyCode::Char(c) => is_sql_delimiter(c),
        _ => false,
    }
}

pub fn should_normalize_previous_keyword(code: KeyCode) -> (r: bool)
    ensures
        r == normalizes_after(code),
{
    match code {
        KeyCode::Enter | KeyCode::Tab => true,
        KeyCode::Char(c) => is_sql_delimiter_exec(c),
        _ => false,
    }
}

/// Number of single quotes in `s` that are not escaped by a backslash.
pub open spec fn quote_count(s: Seq<char>) -> nat
    decreases s.len(),
{
    if s.len() == 0 {
        0
    } else {
        let rest = quote_count(s.drop_last());
        if s.last() == '\'' && !escaped_at(s, s.len() - 1) {
            rest + 1
        } else {
            rest
        }
    }
}

/// Whether the character at `i` follows an escaping backslash: a backslash escapes the next
/// character unless it is itself escaped.
pub open spec fn escaped_at(s: Seq<char>, i: int) -> bool
    decreases i,
{
    if i <= 0 || i > s.len() {
        false
    } else {
        s[i - 1] == '\\' && !escaped_at(s, i - 1)
    }
}

/// The text before the cursor is inside a single-quoted string literal.
pub open spec fn inside_single_quote(s: Seq<char>) -> bool {
    quote_count(s) % 2 == 1
}

pub fn is_inside_single_quote(value: &str) -> (r: bool)
    ensures
        r == inside_single_quote(value@),
{
    let chars = chars_of(value);
    let mut escaped = false;
    let mut quote_count: usize = 0;
    let mut i: usize = 0;
    while i < chars.len()
        invariant
            i <= chars@.len(),
            chars@ == value@,
            quote_count as nat == crate::app::quote_count(value@.take(i as int)),
            quote_count <= i,
            escaped == escaped_at(value@, i as int),
        decreases chars@.len() - i,
    {
        let ch = chars[i];
        let ghost pre = value@.take(i as int);
        let ghost next = value@.take(i + 1);
        assert(next.drop_last() =~= pre);
        assert(next.last() == ch);
        proof {
            lemma_escaped_prefix(value@, i as int, i + 1);
        }
        if ch == '\\' && !escaped {
            escaped = true;
        } else {
            if ch == '\'' && !escaped {
                quote_count += 1;
            }
            escaped = false;
        }
        i += 1;
    }
    assert(value@.take(chars@.len() as int) =~= value@);
    quote_count % 2 == 1
}

proof fn lemma_escaped_prefix(s: Seq<char>, i: int, n: int)
    requires
        0 <= i < n <= s.len(),
    ensures
        escaped_at(s.take(n), i) == escaped_at(s, i),
    decreases i,
{
    if i > 0 {
        lemma_escaped_prefix(s, i - 1, n);
    }
}

// ---------------------------------------------------------------------------
// Requests to the caller and their outcomes
// ---------------------------------------------------------------------------

/// A statement to run on a worker, and where to send its result.
pub struct ExecutionJob {
    pub connection: ConnectionProfile,
    pub sql: String,
    pub sender: ExecutionSender,
}

/// A metadata load to run on a worker, and where to send its result.
pub struct MetadataJob {
    pub connection: ConnectionProfile,
    pub sender: MetadataSender,
}

/// Work the caller must do for the workbench.
pub enum Request {
    /// Nothing to do.
    Done,
    /// Read and check the configuration; answer with `Outcome::ConfigLoaded`.
    LoadConfig,
    /// List the drafts; answer with `Outcome::DraftsListed`.
    ListDrafts,
    /// Create an empty draft; answer with `Outcome::DraftCreated`.
    CreateDraft,
    /// Delete the draft file; answer with `Outcome::DraftDeleted`.
    DeleteDraft(PathBuf),
    /// Write the text to the draft file; answer with `Outcome::DraftSaved`.
    SaveDraft(PathBuf, String),
    /// Start a worker that executes the statement. No answer.
    RunQuery(ExecutionJob),
    /// Start a worker that loads the database metadata. No answer.
    LoadMetadata(MetadataJob),
}

/// What the caller reports back; errors are the message of the failure.
pub enum Outcome {
    ConfigLoaded(Result<AppConfig, String>),
    DraftsListed(Result<Vec<DraftEntry>, String>),
    DraftCreated(Result<DraftEntry, String>),
    DraftDeleted(Result<(), String>),
    DraftSaved(Result<(), String>),
}

/// What to do once a save has succeeded.
#[derive(Debug, Clone, Copy, PartialEq, Eq, Structural)]
pub enum AfterSave {
    Stay,
    Run,
    ReturnToList,
}

/// The workbench is waiting for the outcome of a request it made.
pub enum Step {
    Idle,
    Startup,
    StartupDrafts,
    ReloadConfig,
    EnterList,
    Create,
    CreateDrafts(String),
    Delete(String),
    DeleteDrafts(String),
    Save(String, AfterSave),
    SaveDrafts(String, AfterSave),
}

/// A value received from a worker's channel, if any.
pub enum Received<T> {
    Value(T),
    Empty,
    Disconnected,
}

/// Trusted: `Receiver::try_recv`. What it returns depends on the worker thread; nothing is
/// stated of it.
#[verifier::external_body]
fn poll<T>(receiver: &Receiver<T>) -> Received<T> {
    match receiver.try_recv() {
        Ok(value) => Received::Value(value),
        Err(TryRecvError::Empty) => Received::Empty,
        Err(TryRecvError::Disconnected) => Received::Disconnected,
    }
}

/// Trusted: `std::sync::mpsc::channel`, split into the two halves the workbench uses.
#[verifier::external_body]
fn execution_channel() -> (ExecutionSender, ExecutionHandle) {
    let (sender, receiver) = std::sync::mpsc::channel();
    (ExecutionSender { sender }, ExecutionHandle { receiver })
}

/// Trusted: `std::sync::mpsc::channel`, split into the two halves the workbench uses.
#[verifier::external_body]
fn metadata_channel() -> (MetadataSender, MetadataHandle) {
    let (sender, receiver) = std::sync::mpsc::channel();
    (MetadataSender { sender }, MetadataHandle { receiver })
}

/// Trusted: `Instant::now`; the time is not stated.
#[verifier::external_body]
fn now() -> Instant {
    Instant::now()
}

/// Trusted: `Instant::elapsed`, in whole milliseconds; the time is not stated.
#[verifier::external_body]
fn elapsed_ms(t: &Instant) -> u128 {
    t.elapsed().as_millis()
}

/// Trusted: `String::pop`, which std documents as removing and returning the last character.
#[verifier::external_body]
fn pop_char(s: &mut String) -> (r: Option<char>)
    ensures
        old(s)@.len() == 0 ==> r is None && final(s)@ == old(s)@,
        old(s)@.len() > 0 ==> r == Some(old(s)@.last()) && final(s)@ == old(s)@.drop_last(),
{
    s.pop()
}

// ---------------------------------------------------------------------------
// Small text builders
// ---------------------------------------------------------------------------

pub open spec fn is_text(o: Option<String>, t: Seq<char>) -> bool {
    match o {
        Some(s) => s@ == t,
        None => false,
    }
}

fn text_with_number(before: &str, n: u128, after: &str) -> (r: String)
    ensures
        r@ == before@ + decimal(n as nat) + after@,
{
    let d = decimal_string(n);
    let a = concat2(before, d.as_str());
    concat2(a.as_str(), after)
}

/// The editor text as one string, lines joined by `\n`.
pub open spec fn joined(lines: Seq<Seq<char>>) -> Seq<char>
    decreases lines.len(),
{
    if lines.len() == 0 {
        Seq::empty()
    } else if lines.len() == 1 {
        lines[0]
    } else {
        joined(lines.drop_last()) + "\n"@ + lines.last()
    }
}

pub fn join_lines(lines: &Vec<String>) -> (r: String)
    ensures
        r@ == joined(lines@.map_values(|l: String| l@)),
{
    let ghost ls = lines@.map_values(|l: String| l@);
    let mut r = String::new();
    let mut i: usize = 0;
    while i < lines.len()
        invariant
            i <= lines@.len(),
            ls == lines@.map_values(|l: String| l@),
            r@ == joined(ls.take(i as int)),
        decreases lines@.len() - i,
    {
        assert(ls.take(i + 1).drop_last() =~= ls.take(i as int));
        if i == 0 {
            r = lines[0].clone();
        } else {
            let a = concat2(r.as_str(), "\n");
            r = concat2(a.as_str(), lines[i].as_str());
        }
        i += 1;
    }
    assert(ls.take(lines@.len() as int) =~= ls);
    r
}

// ---------------------------------------------------------------------------
// The application
// ---------------------------------------------------------------------------

pub struct App {
    pub state: AppState,
    pub config: Option<AppConfig>,
    pub selected_connection_index: usize,
    pub drafts: Vec<DraftEntry>,
    pub selected_draft_index: Option<usize>,
    pub editor: Editor,
    pub editor_mode: EditorMode,
    pub command_buffer: String,
    pub normal_count_buffer: String,
    pub completion_open: bool,
    pub completion_items: Vec<CompletionItem>,
    pub completion_selected_index: usize,
    pub completion_prefix: String,
    pub metadata: Option<DatabaseMetadata>,
    pub metadata_loading: bool,
    pub metadata_error: Option<String>,
    pub metadata_handle: Option<MetadataHandle>,
    pub current_result: Option<ExecutionResult>,
    pub status_message: Option<String>,
    pub last_error: Option<String>,
    pub result_row_offset: usize,
    pub result_col_offset: usize,
    pub result_selected_row: usize,
    pub result_selected_col: usize,
    pub result_cell_detail_open: bool,
    pub result_visible_rows: usize,
    pub result_visible_cols: usize,
    pub should_quit: bool,
    pub pending_execution: Option<PendingExecution>,
    pub execution_handle: Option<ExecutionHandle>,
    pub step: Step,
    /// The statement most recently started, which `r` on the result screen runs again.
    pub last_sql: String,
}

/// What taking a loaded configuration does: it becomes the configuration, with its default
/// connection selected, and the metadata of the previous one is dropped; a configuration that
/// could not be loaded leaves none, the first index selected and the reason as the last error.
/// Apart from the status line (and the pending step, which the caller sets) nothing else
/// changes.
pub open spec fn config_reloaded(before: App, after: App, loaded: Result<AppConfig, String>) -> bool {
    &&& after == (App {
        config: after.config,
        selected_connection_index: after.selected_connection_index,
        metadata: after.metadata,
        metadata_error: after.metadata_error,
        metadata_handle: after.metadata_handle,
        metadata_loading: after.metadata_loading,
        last_error: after.last_error,
        status_message: after.status_message,
        step: after.step,
        ..before
    })
    &&& after.metadata is None
    &&& after.metadata_error is None
    &&& after.metadata_handle is None
    &&& !after.metadata_loading
    &&& match loaded {
        Ok(config) => {
            &&& after.config == Some(config)
            &&& after.selected_connection_index == default_index(config)
            &&& after.last_error is None
            &&& is_text(after.status_message, "config loaded"@)
        },
        Err(e) => {
            &&& after.config is None
            &&& after.selected_connection_index == 0
            &&& after.last_error == Some(e)
            &&& is_text(after.status_message, "failed to load config"@)
        },
    }
}

/// The selection after listing the drafts `list`: none for an empty list, else the draft of
/// the same file name as before when it is still listed, else the first.
pub open spec fn reselected(before: App, list: Seq<DraftEntry>) -> Option<usize> {
    if list.len() == 0 {
        None
    } else {
        match before.draft_at() {
            Some(d) => match draft_position(list, d.file_name@, 0) {
                Some(i) => Some(i as usize),
                None => Some(0usize),
            },
            None => Some(0usize),
        }
    }
}

/// What taking a listing of the drafts does, apart from the last error: the list and its
/// selection are replaced (emptied when the listing failed); apart from the status line, the
/// last error and the pending step, nothing else changes.
pub open spec fn drafts_taken(before: App, after: App, listed: Result<Vec<DraftEntry>, String>) -> bool {
    &&& after == (App {
        drafts: after.drafts,
        selected_draft_index: after.selected_draft_index,
        last_error: after.last_error,
        status_message: after.status_message,
        step: after.step,
        ..before
    })
    &&& match listed {
        Ok(list) => {
            &&& after.drafts@ == list@
            &&& after.selected_draft_index == reselected(before, list@)
            &&& is_text(after.status_message, "loaded "@ + decimal(list@.len()) + " drafts"@)
        },
        Err(e) => {
            &&& after.drafts@.len() == 0
            &&& after.selected_draft_index is None
            &&& is_text(after.status_message, "failed to load drafts"@)
        },
    }
}

/// What taking a listing of the drafts does: as `drafts_taken`, with no last error after a
/// listing and the reason as the last error after a failure.
pub open spec fn drafts_reloaded(before: App, after: App, listed: Result<Vec<DraftEntry>, String>) -> bool {
    &&& drafts_taken(before, after, listed)
    &&& after.last_error == match listed {
        Ok(_) => None,
        Err(e) => Some(e),
    }
}

/// The first draft named `name`.
pub open spec fn draft_position(drafts: Seq<DraftEntry>, name: Seq<char>, i: int) -> Option<int>
    decreases drafts.len() - i,
{
    if i < 0 || i >= drafts.len() {
        None
    } else if drafts[i].file_name@ == name {
        Some(i)
    } else {
        draft_position(drafts, name, i + 1)
    }
}

fn find_draft(drafts: &Vec<DraftEntry>, name: &str) -> (r: Option<usize>)
    ensures
        match r {
            Some(i) => draft_position(drafts@, name@, 0) == Some(i as int) && i < drafts@.len(),
            None => draft_position(drafts@, name@, 0) is None,
        },
{
    let mut i: usize = 0;
    while i < drafts.len()
        invariant
            i <= drafts@.len(),
            draft_position(drafts@, name@, 0) == draft_position(drafts@, name@, i as int),
        decreases drafts@.len() - i,
    {
        if str_equal(drafts[i].file_name.as_str(), name) {
            return Some(i);
        }
        i += 1;
    }
    None
}

impl App {
    // ----- what the result grid shows -----

    pub open spec fn rows_total(&self) -> int {
        match self.current_result {
            Some(r) => r.rows@.len() as int,
            None => 0,
        }
    }

    pub open spec fn cols_total(&self) -> int {
        match self.current_result {
            Some(r) => r.columns@.len() as int,
            None => 0,
        }
    }

    /// The selected cell lies in the result and inside the visible window, on both axes.
    pub open spec fn result_view_ok(&self) -> bool {
        &&& axis_ok(
            self.result_row_offset as int,
            self.result_selected_row as int,
            self.rows_total(),
            self.result_visible_rows as int,
        )
        &&& axis_ok(
            self.result_col_offset as int,
            self.result_selected_col as int,
            self.cols_total(),
            self.result_visible_cols as int,
        )
    }

    /// The connection chosen in the list, when there is one.
    pub open spec fn connection_at(&self) -> Option<ConnectionProfile> {
        match self.config {
            Some(c) => if self.selected_connection_index < c.connections@.len() {
                Some(c.connections@[self.selected_connection_index as int])
            } else {
                None
            },
            None => None,
        }
    }

    /// The draft chosen in the list, when there is one.
    pub open spec fn draft_at(&self) -> Option<DraftEntry> {
        match self.selected_draft_index {
            Some(i) => if i < self.drafts@.len() {
                Some(self.drafts@[i as int])
            } else {
                None
            },
            None => None,
        }
    }

    pub fn new() -> (r: App)
        ensures
            r.state == AppState::Init,
            r.config is None,
            r.drafts@.len() == 0,
            r.selected_draft_index is None,
            r.editor_mode == EditorMode::Normal,
            !r.should_quit,
            r.result_visible_rows == 20,
            r.result_visible_cols == 1,
            r.step is Idle,
            r.selected_connection_index == 0,
            editor_text(r.editor) == seq![Seq::<char>::empty()],
            editor_position(r.editor) == (0usize, 0usize),
            !editor_selecting(r.editor),
            r.command_buffer@.len() == 0,
            r.normal_count_buffer@.len() == 0,
            !r.completion_open,
            r.completion_items@.len() == 0,
            r.metadata is None,
            !r.metadata_loading,
            r.metadata_handle is None,
            r.current_result is None,
            r.status_message is None,
            r.last_error is None,
            r.result_row_offset == 0 && r.result_col_offset == 0,
            r.result_selected_row == 0 && r.result_selected_col == 0,
            !r.result_cell_detail_open,
            r.pending_execution is None,
            r.execution_handle is None,
            r.last_sql@.len() == 0,
    {
        App {
            state: AppState::Init,
            config: None,
            selected_connection_index: 0,
            drafts: Vec::new(),
            selected_draft_index: None,
            editor: Self::new_editor(String::new()),
            editor_mode: EditorMode::Normal,
            command_buffer: String::new(),
            normal_count_buffer: String::new(),
            completion_open: false,
            completion_items: Vec::new(),
            completion_selected_index: 0,
            completion_prefix: String::new(),
            metadata: None,
            metadata_loading: false,
            metadata_error: None,
            metadata_handle: None,
            current_result: None,
            status_message: None,
            last_error: None,
            result_row_offset: 0,
            result_col_offset: 0,
            result_selected_row: 0,
            result_selected_col: 0,
            result_cell_detail_open: false,
            result_visible_rows: 20,
            result_visible_cols: 1,
            should_quit: false,
            pending_execution: None,
            execution_handle: None,
            step: Step::Idle,
            last_sql: String::new(),
        }
    }

    /// The loading done at start: first the configuration, then the drafts.
    pub fn start(&mut self) -> (r: Request)
        ensures
            r is LoadConfig,
            *final(self) == (App { step: Step::Startup, ..*old(self) }),
    {
        self.step = Step::Startup;
        Request::LoadConfig
    }

    pub fn current_connection(&self) -> (r: Option<&ConnectionProfile>)
        ensures
            match r {
                Some(c) => self.connection_at() == Some(*c),
                None => self.connection_at() is None,
            },
    {
        match &self.config {
            Some(config) => if self.selected_connection_index < config.connections.len() {
                Some(&config.connections[self.selected_connection_index])
            } else {
                None
            },
            None => None,
        }
    }

    pub fn current_draft(&self) -> (r: Option<&DraftEntry>)
        ensures
            match r {
                Some(d) => self.draft_at() == Some(*d),
                None => self.draft_at() is None,
            },
    {
        match self.selected_draft_index {
            Some(index) => if index < self.drafts.len() {
                Some(&self.drafts[index])
            } else {
                None
            },
            None => None,
        }
    }

    // ----- applying what the caller reports -----

    fn set_status(&mut self, text: &str)
        ensures
            is_text(final(self).status_message, text@),
            *final(self) == (App { status_message: final(self).status_message, ..*old(self) }),
    {
        self.status_message = Some(owned(text));
    }

    /// Takes a freshly loaded configuration (or the reason it could not be loaded).
    pub fn reload_config(&mut self, loaded: Result<AppConfig, String>)
        ensures
            final(self).step == old(self).step,
            config_reloaded(*old(self), *final(self), loaded),
    {
        match loaded {
            Ok(config) => {
                self.selected_connection_index = default_connection_index(&config);
                self.config = Some(config);
                self.metadata = None;
                self.metadata_error = None;
                self.metadata_handle = None;
                self.metadata_loading = false;
                self.last_error = None;
                self.status_message = Some(owned("config loaded"));
            },
            Err(error) => {
                self.config = None;
                self.metadata = None;
                self.metadata_error = None;
                self.metadata_handle = None;
                self.metadata_loading = false;
                self.selected_connection_index = 0;
                self.last_error = Some(error);
                self.status_message = Some(owned("failed to load config"));
            },
        }
    }

    /// Takes a freshly listed set of drafts, keeping the selection on the same file name when
    /// it is still there.
    pub fn reload_drafts(&mut self, listed: Result<Vec<DraftEntry>, String>)
        ensures
            final(self).step == old(self).step,
            drafts_reloaded(*old(self), *final(self), listed),
    {
        match listed {
            Ok(drafts_list) => {
                let previous_file = match self.current_draft() {
                    Some(draft) => Some(draft.file_name.clone()),
                    None => None,
                };
                self.drafts = drafts_list;
                self.selected_draft_index = if self.drafts.len() == 0 {
                    None
                } else if let Some(file_name) = previous_file {
                    match find_draft(&self.drafts, file_name.as_str()) {
                        Some(i) => Some(i),
                        None => Some(0),
                    }
                } else {
                    Some(0)
                };
                self.last_error = None;
                self.status_message = Some(
                    text_with_number("loaded ", self.drafts.len() as u128, " drafts"),
                );
            },
            Err(error) => {
                self.drafts.clear();
                self.selected_draft_index = None;
                self.last_error = Some(error);
                self.status_message = Some(owned("failed to load drafts"));
            },
        }
    }

    // ----- the result grid -----

    fn result_counts(&self) -> (r: (usize, usize))
        ensures
            r.0 == self.rows_total(),
            r.1 == self.cols_total(),
    {
        match &self.current_result {
            Some(result) => (result.rows.len(), result.columns.len()),
            None => (0, 0),
        }
    }

    /// Brings the selection back into the result and the window back onto the selection: the
    /// selection is the old one cut down to the last line, the window's offset does not run past
    /// the last full window, and the selected cell is inside the window.
    pub fn normalize_result_selection(&mut self)
        ensures
            final(self).result_view_ok(),
            final(self).result_selected_row == normalized_selected(
                old(self).result_selected_row as int,
                old(self).rows_total(),
            ),
            final(self).result_row_offset == normalized_offset(
                old(self).result_row_offset as int,
                old(self).result_selected_row as int,
                old(self).rows_total(),
                old(self).result_visible_rows as int,
            ),
            final(self).result_selected_col == normalized_selected(
                old(self).result_selected_col as int,
                old(self).cols_total(),
            ),
            final(self).result_col_offset == normalized_offset(
                old(self).result_col_offset as int,
                old(self).result_selected_col as int,
                old(self).cols_total(),
                old(self).result_visible_cols as int,
            ),
            *final(self) == (App {
                result_row_offset: final(self).result_row_offset,
                result_selected_row: final(self).result_selected_row,
                result_col_offset: final(self).result_col_offset,
                result_selected_col: final(self).result_selected_col,
                ..*old(self)
            }),
    {
        let (rows, cols) = self.result_counts();
        let (ro, rs) = normalize_axis(
            self.result_row_offset,
            self.result_selected_row,
            rows,
            self.result_visible_rows,
        );
        let (co, cs) = normalize_axis(
            self.result_col_offset,
            self.result_selected_col,
            cols,
            self.result_visible_cols,
        );
        self.result_row_offset = ro;
        self.result_selected_row = rs;
        self.result_col_offset = co;
        self.result_selected_col = cs;
    }

    /// Records the size of the grid on screen (at least one row and one column) and keeps the
    /// selected cell in view.
    pub fn set_result_viewport(&mut self, visible_rows: usize, visible_cols: usize)
        ensures
            final(self).result_visible_rows == at_least_one(visible_rows as int),
            final(self).result_visible_cols == at_least_one(visible_cols as int),
            final(self).result_view_ok(),
            final(self).result_selected_row == normalized_selected(
                old(self).result_selected_row as int,
                old(self).rows_total(),
            ),
            final(self).result_row_offset == normalized_offset(
                old(self).result_row_offset as int,
                old(self).result_selected_row as int,
                old(self).rows_total(),
                visible_rows as int,
            ),
            final(self).result_selected_col == normalized_selected(
                old(self).result_selected_col as int,
                old(self).cols_total(),
            ),
            final(self).result_col_offset == normalized_offset(
                old(self).result_col_offset as int,
                old(self).result_selected_col as int,
                old(self).cols_total(),
                visible_cols as int,
            ),
            *final(self) == (App {
                result_visible_rows: final(self).result_visible_rows,
                result_visible_cols: final(self).result_visible_cols,
                result_selected_row: final(self).result_selected_row,
                result_row_offset: final(self).result_row_offset,
                result_selected_col: final(self).result_selected_col,
                result_col_offset: final(self).result_col_offset,
                ..*old(self)
            }),
    {
        self.result_visible_rows = if visible_rows >= 1 {
            visible_rows
        } else {
            1
        };
        self.result_visible_cols = if visible_cols >= 1 {
            visible_cols
        } else {
            1
        };
        self.normalize_result_selection();
    }

    /// The column name and value of the selected cell, when the result has one there.
    pub fn current_result_cell(&self) -> (r: Option<(&str, &str)>)
        ensures
            match r {
                Some((name, value)) => self.current_result matches Some(res) && {
                    &&& self.result_selected_row < res.rows@.len()
                    &&& self.result_selected_col < res.columns@.len()
                    &&& self.result_selected_col < res.rows@[self.result_selected_row as int]@.len()
                    &&& name@ == res.columns@[self.result_selected_col as int]@
                    &&& value@ == res.rows@[self.result_selected_row as int]@[self.result_selected_col as int]@
                },
                None => match self.current_result {
                    Some(res) => {
                        ||| self.result_selected_row >= res.rows@.len()
                        ||| self.result_selected_col >= res.columns@.len()
                        ||| self.result_selected_col >= res.rows@[self.result_selected_row as int]@.len()
                    },
                    None => true,
                },
            },
    {
        let result = match &self.current_result {
            Some(r) => r,
            None => return None,
        };
        if self.result_selected_row >= result.rows.len() {
            return None;
        }
        let row = &result.rows[self.result_selected_row];
        if self.result_selected_col >= result.columns.len() {
            return None;
        }
        let column_name = &result.columns[self.result_selected_col];
        if self.result_selected_col >= row.len() {
            return None;
        }
        let value = &row[self.result_selected_col];
        Some((column_name.as_str(), value.as_str()))
    }

    // ----- the editor -----

    /// The lines of the SQL editor.
    pub fn buffer_lines(&self) -> (r: Vec<String>)
        ensures
            lines_view(r@) == editor_text(self.editor),
    {
        editor_lines(&self.editor)
    }

    /// The (row, column) of the editor's cursor.
    pub fn cursor_position(&self) -> (r: (usize, usize))
        ensures
            r == editor_position(self.editor),
    {
        editor_cursor(&self.editor)
    }

    fn new_editor(content: String) -> (r: Editor)
        ensures
            editor_text(r) == text_lines(content@),
            editor_position(r) == (0usize, 0usize),
            !editor_selecting(r),
    {
        let mut editor = if content.as_str().unicode_len() == 0 {
            empty_editor()
        } else {
            let lines = split_lines(content.as_str());
            proof {
                assert(lines_view(lines@) =~= lines@.map_values(|l: String| l@));
            }
            editor_from_lines(lines)
        };
        clear_editor_style(&mut editor);
        clear_cursor_line_style(&mut editor);
        editor
    }
}

/// The lines an editor opened on `text` holds: those of `str::lines`, or one empty line when
/// there are none.
pub open spec fn text_lines(text: Seq<char>) -> Seq<Seq<char>> {
    if text.len() == 0 || line_pieces(text).len() == 0 {
        seq![Seq::<char>::empty()]
    } else {
        line_pieces(text)
    }
}

/// `str::lines`: the text cut at each `\n` (a `\r` right before a `\n` is dropped too); a
/// final line ending does not start another line.
pub open spec fn line_pieces(s: Seq<char>) -> Seq<Seq<char>>
    decreases s.len(),
{
    if s.len() == 0 {
        Seq::empty()
    } else {
        let i = first_newline(s, 0);
        proof {
            lemma_first_newline(s, 0);
        }
        if i >= s.len() {
            seq![s]
        } else {
            seq![strip_cr(s.take(i))] + line_pieces(s.skip(i + 1))
        }
    }
}

pub open spec fn strip_cr(s: Seq<char>) -> Seq<char> {
    if s.len() > 0 && s.last() == '\r' {
        s.drop_last()
    } else {
        s
    }
}

pub open spec fn first_newline(s: Seq<char>, i: int) -> int
    decreases s.len() - i,
{
    if i < 0 || i >= s.len() {
        s.len() as int
    } else if s[i] == '\n' {
        i
    } else {
        first_newline(s, i + 1)
    }
}

pub proof fn lemma_first_newline(s: Seq<char>, i: int)
    requires
        0 <= i <= s.len(),
    ensures
        i <= first_newline(s, i) <= s.len(),
        first_newline(s, i) < s.len() ==> s[first_newline(s, i)] == '\n',
    decreases s.len() - i,
{
    if i < s.len() && s[i] != '\n' {
        lemma_first_newline(s, i + 1);
    }
}

proof fn lemma_joined_front(x: Seq<char>, rest: Seq<Seq<char>>)
    requires
        rest.len() >= 1,
    ensures
        joined(seq![x] + rest) == x + "\n"@ + joined(rest),
    decreases rest.len(),
{
    let all = seq![x] + rest;
    assert(all.len() >= 2);
    assert(all.last() == rest.last());
    if rest.len() == 1 {
        assert(all.drop_last() =~= seq![x]);
        assert(joined(seq![x]) == x);
        assert(joined(rest) == rest[0]);
        assert(joined(all) == joined(all.drop_last()) + "\n"@ + all.last());
    } else {
        assert(all.drop_last() =~= seq![x] + rest.drop_last());
        lemma_joined_front(x, rest.drop_last());
        assert(joined(all) == joined(all.drop_last()) + "\n"@ + all.last());
        assert(joined(rest) == joined(rest.drop_last()) + "\n"@ + rest.last());
        assert(joined(all) =~= x + "\n"@ + joined(rest));
    }
}

proof fn lemma_line_pieces_nonempty(s: Seq<char>)
    requires
        s.len() > 0,
    ensures
        line_pieces(s).len() > 0,
{
    lemma_first_newline(s, 0);
}

/// Saving a draft just opened in the editor writes back what the file held, when the text
/// has no carriage return and does not end with a line break (the editor keeps lines, not
/// line endings).
pub proof fn law_reopened_text_saves_unchanged(text: Seq<char>)
    requires
        !text.contains('\r'),
        text.len() == 0 || text.last() != '\n',
    ensures
        joined(text_lines(text)) == text,
    decreases text.len(),
{
    reveal_strlit("\n");
    if text.len() == 0 {
        assert(joined(seq![Seq::<char>::empty()]) == Seq::<char>::empty());
    } else {
        let i = first_newline(text, 0);
        lemma_first_newline(text, 0);
        if i < text.len() {
            let head = text.take(i);
            let rest = text.skip(i + 1);
            assert(i != text.len() - 1);
            assert(rest.len() > 0);
            assert forall|k: int| 0 <= k < rest.len() implies rest[k] != '\r' by {
                assert(rest[k] == text[i + 1 + k]);
            }
            assert(!rest.contains('\r'));
            assert(rest.last() == text.last());
            law_reopened_text_saves_unchanged(rest);
            lemma_line_pieces_nonempty(rest);
            if head.len() > 0 && head.last() == '\r' {
                assert(text[i - 1] == '\r');
            }
            assert(strip_cr(head) == head);
            assert(line_pieces(text) == seq![head] + line_pieces(rest));
            lemma_joined_front(head, line_pieces(rest));
            assert(head + "\n"@ + rest =~= text);
        }
    }
}

/// The lines of a text, as `str::lines` cuts them.
pub fn split_lines(text: &str) -> (r: Vec<String>)
    ensures
        r@.map_values(|l: String| l@) == line_pieces(text@),
{
    let chars = chars_of(text);
    let mut r: Vec<String> = Vec::new();
    let mut start: usize = 0;
    assert(text@.skip(0) =~= text@);
    assert(r@.map_values(|l: String| l@) =~= Seq::<Seq<char>>::empty());
    while start < chars.len()
        invariant
            start <= chars@.len(),
            chars@ == text@,
            line_pieces(text@) == r@.map_values(|l: String| l@) + line_pieces(text@.skip(start as int)),
        decreases chars@.len() - start,
    {
        let ghost rest = text@.skip(start as int);
        let mut end = start;
        while end < chars.len() && chars[end] != '\n'
            invariant
                start <= end <= chars@.len(),
                chars@ == text@,
                rest == text@.skip(start as int),
                first_newline(rest, 0) == first_newline(rest, (end - start) as int),
            decreases chars@.len() - end,
        {
            end += 1;
        }
        proof {
            lemma_first_newline(rest, 0);
        }
        let piece_end = if end < chars.len() && end > start && chars[end - 1] == '\r' {
            end - 1
        } else {
            end
        };
        let piece = string_from_range(&chars, start, piece_end);
        assert(rest.take((end - start) as int) =~= text@.subrange(start as int, end as int));
        proof {
            if end < chars@.len() {
                assert(piece@ =~= strip_cr(rest.take((end - start) as int)));
            } else {
                assert(rest =~= text@.subrange(start as int, end as int));
            }
        }
        let ghost before = r@;
        r.push(piece);
        assert(r@.map_values(|l: String| l@) =~= before.map_values(|l: String| l@).push(piece@));
        if end < chars.len() {
            assert(rest.skip((end - start) + 1) =~= text@.skip(end + 1));
            start = end + 1;
        } else {
            assert(text@.skip(chars@.len() as int) =~= Seq::<char>::empty());
            start = end;
        }
    }
    assert(text@.skip(start as int) =~= Seq::<char>::empty());
    r
}


impl App {
    // ----- completion -----

    fn close_completion(&mut self)
        ensures
            !final(self).completion_open,
            final(self).completion_items@.len() == 0,
            final(self).completion_selected_index == 0,
            final(self).completion_prefix@.len() == 0,
            *final(self) == (App {
                completion_open: final(self).completion_open,
                completion_items: final(self).completion_items,
                completion_selected_index: final(self).completion_selected_index,
                completion_prefix: final(self).completion_prefix,
                ..*old(self)
            }),
    {
        self.completion_open = false;
        self.completion_items.clear();
        self.completion_selected_index = 0;
        self.completion_prefix = String::new();
    }

    /// The text of the cursor's line before the cursor.
    fn editor_before_cursor(&self) -> (r: String)
        ensures
            cursor_ok(self.editor) ==> r@ == text_before_cursor(self.editor),
    {
        let (row, col) = editor_cursor(&self.editor);
        let lines = editor_lines(&self.editor);
        if row >= lines.len() {
            return String::new();
        }
        let chars = chars_of(lines[row].as_str());
        let end = if col <= chars.len() {
            col
        } else {
            chars.len()
        };
        proof {
            assert(lines_view(lines@)[row as int] == lines@[row as int]@);
        }
        string_from_range(&chars, 0, end)
    }

    /// Recomputes the completion list for the text before the cursor; it stays closed when
    /// nothing matches, or when the prefix is empty and the list was not asked for.
    fn refresh_completion(&mut self, force_open: bool)
        ensures
            final(self).state == old(self).state,
            final(self).step == old(self).step,
            final(self).editor_mode == old(self).editor_mode,
            final(self).should_quit == old(self).should_quit,
            final(self).status_message == old(self).status_message,
            final(self).completion_open ==> final(self).completion_items@.len() > 0
                && final(self).completion_selected_index < final(self).completion_items@.len(),
            !force_open && final(self).completion_open ==> final(self).completion_prefix@.len() > 0,
            final(self).editor == old(self).editor,
            final(self).metadata == old(self).metadata,
            cursor_ok(old(self).editor) ==> completion_refreshed(*old(self), *final(self), force_open),
    {
        let before_cursor = self.editor_before_cursor();
        let (prefix, context) = completion::completion_context(before_cursor.as_str());
        let items = completion::completions(prefix.as_str(), context, self.metadata.as_ref());
        let prefix_empty = prefix.as_str().unicode_len() == 0;
        if items.len() == 0 || (!force_open && prefix_empty) {
            self.close_completion();
            return ;
        }
        self.completion_prefix = prefix;
        self.completion_items = items;
        let last = self.completion_items.len() - 1;
        if self.completion_selected_index > last {
            self.completion_selected_index = last;
        }
        self.completion_open = true;
    }

    /// Replaces the typed prefix with the selected completion and closes the list.
    fn apply_selected_completion(&mut self)
        ensures
            !final(self).completion_open,
            final(self).state == old(self).state,
            final(self).step == old(self).step,
            final(self).editor_mode == old(self).editor_mode,
            final(self).should_quit == old(self).should_quit,
            final(self).status_message == old(self).status_message,
            completion_applies(*old(self)) ==> {
                let ins = old(self).completion_items@[old(self).completion_selected_index as int].insert_text@;
                &&& editor_text(final(self).editor) == replaced_before_cursor(
                    editor_text(old(self).editor),
                    editor_position(old(self).editor),
                    old(self).completion_prefix@.len() as int,
                    inserted_piece(ins),
                )
                &&& editor_position(final(self).editor) == (
                    editor_position(old(self).editor).0,
                    (editor_position(old(self).editor).1 - old(self).completion_prefix@.len()
                        + inserted_piece(ins).len()) as usize,
                )
                &&& !editor_selecting(final(self).editor)
            },
    {
        if self.completion_selected_index >= self.completion_items.len() {
            self.close_completion();
            return ;
        }
        let insert_text = self.completion_items[self.completion_selected_index].insert_text.clone();
        let prefix_len = self.completion_prefix.as_str().unicode_len();
        let ghost t0 = editor_text(self.editor);
        let ghost pos = editor_position(self.editor);
        let ghost applies = completion_applies(*self);
        proof {
            if applies {
                lemma_replaced_none(t0, pos);
            }
        }
        let mut k: usize = 0;
        while k < prefix_len
            invariant
                k <= prefix_len,
                self.state == old(self).state,
                self.step == old(self).step,
                self.editor_mode == old(self).editor_mode,
                self.should_quit == old(self).should_quit,
                self.status_message == old(self).status_message,
                applies ==> {
                    &&& t0.len() <= usize::MAX
                    &&& prefix_len <= pos.1
                    &&& pos.0 < t0.len()
                    &&& pos.1 <= t0[pos.0 as int].len()
                    &&& editor_text(self.editor) == replaced_before_cursor(t0, pos, k as int, Seq::empty())
                    &&& editor_position(self.editor) == (pos.0, (pos.1 - k) as usize)
                    &&& !editor_selecting(self.editor)
                },
            decreases prefix_len - k,
        {
            proof {
                if applies {
                    lemma_replaced_len(t0, pos, k as int);
                }
            }
            move_editor_cursor(&mut self.editor, CursorStep::Back);
            editor_delete_next_char(&mut self.editor);
            proof {
                if applies {
                    lemma_replace_one_more(t0, pos, k as int);
                }
            }
            k += 1;
        }
        editor_insert_str(&mut self.editor, insert_text.as_str());
        proof {
            if applies {
                lemma_replaced_len(t0, pos, k as int);
                lemma_insert_after_delete(t0, pos, k as int, inserted_piece(insert_text@));
            }
        }
        self.close_completion();
    }

    // ----- keyword normalisation -----

    /// The word that ends just before the delimiters at the cursor, with the number of those
    /// delimiters; none inside a string literal.
    fn previous_editor_token(&self) -> (r: Option<(String, usize)>)
        ensures
            r matches Some((token, width)) ==> token@.len() > 0 && forall|i: int|
                0 <= i < token@.len() ==> is_word_char(#[trigger] token@[i]),
            cursor_ok(self.editor) ==> match r {
                Some((token, width)) => token_spec(text_before_cursor(self.editor)) == Some(
                    (token@, width as nat),
                ),
                None => token_spec(text_before_cursor(self.editor)) is None,
            },
    {
        let (row, col) = editor_cursor(&self.editor);
        let lines = editor_lines(&self.editor);
        if row >= lines.len() {
            return None;
        }
        let line_chars = chars_of(lines[row].as_str());
        let take = if col <= line_chars.len() {
            col
        } else {
            line_chars.len()
        };
        let before_cursor = string_from_range(&line_chars, 0, take);
        proof {
            assert(lines_view(lines@)[row as int] == lines@[row as int]@);
        }
        token_before_delimiters(before_cursor.as_str())
    }

    /// Rewrites the SQL word before the cursor in upper case when it is a keyword.
    #[verifier::rlimit(40)]
    fn normalize_previous_sql_keyword(&mut self)
        ensures
            final(self).state == old(self).state,
            final(self).step == old(self).step,
            final(self).editor_mode == old(self).editor_mode,
            final(self).should_quit == old(self).should_quit,
            final(self).status_message == old(self).status_message,
            final(self).completion_open == old(self).completion_open,
            final(self).completion_items == old(self).completion_items,
            final(self).completion_selected_index == old(self).completion_selected_index,
            final(self).completion_prefix == old(self).completion_prefix,
            final(self).metadata == old(self).metadata,
            cursor_ok(old(self).editor) && !editor_selecting(old(self).editor) ==> match keyword_rewrite(
                old(self).editor,
            ) {
                Some((token, width)) => {
                    &&& editor_text(final(self).editor) == replaced_before_cursor(
                        editor_text(old(self).editor),
                        (
                            editor_position(old(self).editor).0,
                            (editor_position(old(self).editor).1 - width) as usize,
                        ),
                        token.len() as int,
                        upper(token),
                    )
                    &&& editor_position(final(self).editor) == editor_position(old(self).editor)
                    &&& !editor_selecting(final(self).editor)
                },
                None => final(self).editor == old(self).editor,
            },
    {
        let (token, delimiter_width) = match self.previous_editor_token() {
            Some(t) => t,
            None => return ,
        };
        let normalized = match completion::normalize_sql_keyword(token.as_str()) {
            Some(n) => n,
            None => return ,
        };
        if str_equal(token.as_str(), normalized) {
            return ;
        }
        let ghost t0 = editor_text(self.editor);
        let ghost pos = editor_position(self.editor);
        let ghost applies = cursor_ok(self.editor) && !editor_selecting(self.editor);
        let ghost tok = token@;
        let ghost w = delimiter_width as int;
        let ghost mid = (pos.0, (pos.1 - w) as usize);
        proof {
            if applies {
                lemma_token_place(text_before_cursor(self.editor));
                assert(keyword_rewrite(self.editor) == Some((tok, w as nat)));
                lemma_replaced_none(t0, mid);
            }
        }
        let mut k: usize = 0;
        while k < delimiter_width
            invariant
                k <= delimiter_width,
                delimiter_width == w,
                self.state == old(self).state,
                self.step == old(self).step,
                self.editor_mode == old(self).editor_mode,
                self.should_quit == old(self).should_quit,
                self.status_message == old(self).status_message,
                self.completion_open == old(self).completion_open,
                self.completion_items == old(self).completion_items,
                self.completion_selected_index == old(self).completion_selected_index,
                self.completion_prefix == old(self).completion_prefix,
                self.metadata == old(self).metadata,
                applies ==> {
                    &&& t0.len() <= usize::MAX
                    &&& pos.0 < t0.len()
                    &&& w + tok.len() <= pos.1 <= t0[pos.0 as int].len()
                    &&& tok.len() > 0
                    &&& editor_text(self.editor) == t0
                    &&& editor_position(self.editor) == (pos.0, (pos.1 - k) as usize)
                    &&& !editor_selecting(self.editor)
                },
            decreases delimiter_width - k,
        {
            move_editor_cursor(&mut self.editor, CursorStep::Back);
            k += 1;
        }
        let token_len = token.as_str().unicode_len();
        let mut k: usize = 0;
        while k < token_len
            invariant
                k <= token_len,
                token_len == tok.len(),
                delimiter_width == w,
                self.state == old(self).state,
                self.step == old(self).step,
                self.editor_mode == old(self).editor_mode,
                self.should_quit == old(self).should_quit,
                self.status_message == old(self).status_message,
                self.completion_open == old(self).completion_open,
                self.completion_items == old(self).completion_items,
                self.completion_selected_index == old(self).completion_selected_index,
                self.completion_prefix == old(self).completion_prefix,
                self.metadata == old(self).metadata,
                mid == (pos.0, (pos.1 - w) as usize),
                applies ==> {
                    &&& t0.len() <= usize::MAX
                    &&& pos.0 < t0.len()
                    &&& w + tok.len() <= pos.1 <= t0[pos.0 as int].len()
                    &&& editor_text(self.editor) == replaced_before_cursor(t0, mid, k as int, Seq::empty())
                    &&& editor_position(self.editor) == (pos.0, (pos.1 - w - k) as usize)
                    &&& !editor_selecting(self.editor)
                },
            decreases token_len - k,
        {
            proof {
                if applies {
                    lemma_replaced_len(t0, mid, k as int);
                }
            }
            move_editor_cursor(&mut self.editor, CursorStep::Back);
            editor_delete_next_char(&mut self.editor);
            proof {
                if applies {
                    lemma_replace_one_more(t0, mid, k as int);
                }
            }
            k += 1;
        }
        proof {
            if applies {
                lemma_upper_word(tok);
                assert(inserted_piece(normalized@) == normalized@);
                lemma_replaced_len(t0, mid, k as int);
                lemma_insert_after_delete(t0, mid, k as int, normalized@);
            }
        }
        editor_insert_str(&mut self.editor, normalized);
        let mut k: usize = 0;
        while k < delimiter_width
            invariant
                k <= delimiter_width,
                delimiter_width == w,
                self.state == old(self).state,
                self.step == old(self).step,
                self.editor_mode == old(self).editor_mode,
                self.should_quit == old(self).should_quit,
                self.status_message == old(self).status_message,
                self.completion_open == old(self).completion_open,
                self.completion_items == old(self).completion_items,
                self.completion_selected_index == old(self).completion_selected_index,
                self.completion_prefix == old(self).completion_prefix,
                self.metadata == old(self).metadata,
                mid == (pos.0, (pos.1 - w) as usize),
                applies ==> {
                    &&& t0.len() <= usize::MAX
                    &&& pos.0 < t0.len()
                    &&& w + tok.len() <= pos.1 <= t0[pos.0 as int].len()
                    &&& editor_text(self.editor) == replaced_before_cursor(t0, mid, tok.len() as int, upper(tok))
                    &&& editor_text(self.editor)[pos.0 as int].len() == t0[pos.0 as int].len()
                    &&& editor_text(self.editor).len() == t0.len()
                    &&& editor_position(self.editor) == (pos.0, (pos.1 - w + k) as usize)
                    &&& !editor_selecting(self.editor)
                },
            decreases delimiter_width - k,
        {
            move_editor_cursor(&mut self.editor, CursorStep::Forward);
            k += 1;
        }
    }
}

/// The line before the cursor.
pub open spec fn text_before_cursor(e: Editor) -> Seq<char> {
    editor_text(e)[editor_position(e).0 as int].take(editor_position(e).1 as int)
}

/// The keyword before the cursor at `pos` (with the number of delimiters after it) that
/// normalisation rewrites: a recognised SQL word not yet in upper case.
pub open spec fn keyword_rewrite_at(text: Seq<Seq<char>>, pos: (usize, usize)) -> Option<
    (Seq<char>, nat),
> {
    match token_spec(text[pos.0 as int].take(pos.1 as int)) {
        Some((token, width)) => if completion::sql_keywords().contains(upper(token)) && token
            != upper(token) {
            Some((token, width))
        } else {
            None
        },
        None => None,
    }
}

pub open spec fn keyword_rewrite(e: Editor) -> Option<(Seq<char>, nat)> {
    keyword_rewrite_at(editor_text(e), editor_position(e))
}

/// The text once the keyword before the cursor at `pos`, if any, is rewritten in upper case.
pub open spec fn normalized_text(text: Seq<Seq<char>>, pos: (usize, usize)) -> Seq<Seq<char>> {
    match keyword_rewrite_at(text, pos) {
        Some((token, width)) => replaced_before_cursor(
            text,
            (pos.0, (pos.1 - width) as usize),
            token.len() as int,
            upper(token),
        ),
        None => text,
    }
}

/// The text after typing the plain character `c` at `pos` in insert mode: the character is
/// inserted, and when it ends an SQL word (a delimiter), a keyword before it is upper-cased.
pub open spec fn typed_text(text: Seq<Seq<char>>, pos: (usize, usize), c: char) -> Seq<Seq<char>> {
    let t1 = inserted_at(text, pos, seq![c]);
    let p1 = (pos.0, (pos.1 + 1) as usize);
    if is_sql_delimiter(c) {
        normalized_text(t1, p1)
    } else {
        t1
    }
}

/// The characters that end an SQL word as it is typed are exactly white space (space, tab,
/// line break), the brackets `(` `)`, `,`, `;`, the comparisons `=` `<` `>` and the operators
/// `+` `-` `*` `/`. Typing one of them upper-cases a keyword just before it (so `count(`
/// becomes `COUNT(`); typing any other character inserts it and changes nothing else.
pub proof fn law_word_ending_characters(text: Seq<Seq<char>>, pos: (usize, usize), c: char)
    ensures
        (c == ' ' || c == '\t' || c == '\n' || c == '(' || c == ')' || c == ',' || c == ';' || c
            == '=' || c == '<' || c == '>' || c == '+' || c == '-' || c == '*' || c == '/') ==> {
            &&& normalizes_after(KeyCode::Char(c))
            &&& typed_text(text, pos, c) == normalized_text(
                inserted_at(text, pos, seq![c]),
                (pos.0, (pos.1 + 1) as usize),
            )
        },
        !(c == ' ' || c == '\t' || c == '\n' || c == '(' || c == ')' || c == ',' || c == ';' || c
            == '=' || c == '<' || c == '>' || c == '+' || c == '-' || c == '*' || c == '/') ==> {
            &&& !normalizes_after(KeyCode::Char(c))
            &&& typed_text(text, pos, c) == inserted_at(text, pos, seq![c])
        },
{
}

/// Typing a plain character keeps the number of lines and every other line, puts the
/// character just before the new cursor position, and leaves the rest of the line after the
/// cursor as it was; only the keyword before a delimiter may change case, in place.
pub proof fn law_typed_char_lands_before_cursor(text: Seq<Seq<char>>, pos: (usize, usize), c: char)
    requires
        pos.0 < text.len(),
        pos.1 <= text[pos.0 as int].len(),
        pos.1 < usize::MAX,
    ensures
        typed_text(text, pos, c).len() == text.len(),
        forall|i: int| 0 <= i < text.len() && i != pos.0 ==> #[trigger] typed_text(text, pos, c)[i]
            == text[i],
        typed_text(text, pos, c)[pos.0 as int].len() == text[pos.0 as int].len() + 1,
        typed_text(text, pos, c)[pos.0 as int][pos.1 as int] == c,
        typed_text(text, pos, c)[pos.0 as int].skip(pos.1 + 1) == text[pos.0 as int].skip(
            pos.1 as int,
        ),
{
    let row = pos.0 as int;
    let col = pos.1 as int;
    let line = text[row];
    let t1 = inserted_at(text, pos, seq![c]);
    let p1 = (pos.0, (pos.1 + 1) as usize);
    let l1 = line.take(col) + seq![c] + line.skip(col);
    assert(t1[row] == l1);
    assert(l1[col] == c);
    assert(l1.skip(col + 1) =~= line.skip(col));
    if is_sql_delimiter(c) {
        let s = l1.take(col + 1);
        assert(s.last() == c);
        lemma_token_place(s);
        if let Some((token, width)) = keyword_rewrite_at(t1, p1) {
            lemma_delimiter_start(s, s.len() as int);
            assert(delimiter_start(s, s.len() as int) < s.len());
            assert(width >= 1);
            lemma_upper_word(token);
            let start = col + 1 - width - token.len();
            let l2 = l1.take(start) + upper(token) + l1.skip(col + 1 - width);
            assert(typed_text(text, pos, c)[row] == l2);
            assert(l2.len() == l1.len());
            assert(l2[col] == l1[col]);
            assert(l2.skip(col + 1) =~= l1.skip(col + 1));
        }
    }
}

/// Accepting a completion leaves the cursor right after the inserted text, with the text
/// before the typed prefix in front of it and the rest of the line after it unchanged.
pub proof fn law_completion_lands_before_cursor(
    text: Seq<Seq<char>>,
    pos: (usize, usize),
    prefix_len: int,
    piece: Seq<char>,
)
    requires
        pos.0 < text.len(),
        0 <= prefix_len <= pos.1 <= text[pos.0 as int].len(),
    ensures
        ({
            let line = replaced_before_cursor(text, pos, prefix_len, piece)[pos.0 as int];
            let cursor = pos.1 - prefix_len + piece.len();
            &&& line.take(cursor) == text[pos.0 as int].take(pos.1 - prefix_len) + piece
            &&& line.skip(cursor) == text[pos.0 as int].skip(pos.1 as int)
        }),
{
    let line = text[pos.0 as int];
    let new_line = line.take(pos.1 - prefix_len) + piece + line.skip(pos.1 as int);
    let cursor = pos.1 - prefix_len + piece.len();
    assert(new_line.take(cursor) =~= line.take(pos.1 - prefix_len) + piece);
    assert(new_line.skip(cursor) =~= line.skip(pos.1 as int));
}

/// The state after opening the editor: the editor, its mode, the command line, the count, the
/// completion list, the screen and the status line are new; everything else, the drafts and
/// the selected draft among them, is as it was.
pub open spec fn editor_opened(before: App, after: App) -> App {
    App {
        state: after.state,
        editor: after.editor,
        editor_mode: after.editor_mode,
        command_buffer: after.command_buffer,
        normal_count_buffer: after.normal_count_buffer,
        completion_open: after.completion_open,
        completion_items: after.completion_items,
        completion_selected_index: after.completion_selected_index,
        completion_prefix: after.completion_prefix,
        status_message: after.status_message,
        ..before
    }
}

/// What starting a statement leaves alone: when it runs, the fields that
/// `execution_started` names; when it cannot start, the statement, the result, the screen and
/// the status line. Everything else is as it was.
pub open spec fn execution_frame(before: App, after: App) -> bool {
    if after.state == AppState::QueryRunning {
        after == (App {
            last_sql: after.last_sql,
            state: after.state,
            current_result: after.current_result,
            execution_handle: after.execution_handle,
            pending_execution: after.pending_execution,
            result_row_offset: after.result_row_offset,
            result_col_offset: after.result_col_offset,
            result_selected_row: after.result_selected_row,
            result_selected_col: after.result_selected_col,
            result_cell_detail_open: after.result_cell_detail_open,
            status_message: after.status_message,
            ..before
        })
    } else {
        after == (App {
            last_sql: after.last_sql,
            state: after.state,
            current_result: after.current_result,
            status_message: after.status_message,
            ..before
        })
    }
}

/// What a key does on the connection screen: `q` quits, `r` asks for the configuration again,
/// Enter asks for the drafts (and then opens their list), Up and Down move the selection,
/// wrapping around; nothing else changes, and other keys change nothing.
pub open spec fn init_key_effect(before: App, after: App, key: KeyPress, r: Request) -> bool {
    &&& char_key(key.code, 'q') ==> r is Done && after == (App { should_quit: true, ..before })
    &&& char_key(key.code, 'r') ==> r is LoadConfig && after == (App {
        step: Step::ReloadConfig,
        ..before
    })
    &&& key.code == KeyCode::Enter ==> r is ListDrafts && after == (App {
        step: Step::EnterList,
        ..before
    })
    &&& key.code == KeyCode::Up || key.code == KeyCode::Down ==> r is Done && after == (App {
        selected_connection_index: after.selected_connection_index,
        ..before
    }) && match before.config {
        Some(c) => if c.connections@.len() > 0 {
            after.selected_connection_index == moved_index(
                before.selected_connection_index as int,
                c.connections@.len() as int,
                if key.code == KeyCode::Up {
                    -1
                } else {
                    1
                },
            )
        } else {
            after.selected_connection_index == before.selected_connection_index
        },
        None => after.selected_connection_index == before.selected_connection_index,
    }
    &&& !(char_key(key.code, 'q') || char_key(key.code, 'r') || key.code == KeyCode::Enter
        || key.code == KeyCode::Up || key.code == KeyCode::Down) ==> r is Done && after == before
}

/// What a key does on the draft list: Esc goes back to the connections, `q` quits, `n` asks
/// for a new draft, `d` asks to delete the selected one, Enter opens it in the editor, F5 runs
/// it, Up and Down move the selection, wrapping around. Nothing else changes (in particular,
/// opening a draft keeps the list and its selection), and other keys change nothing.
pub open spec fn list_key_effect(before: App, after: App, key: KeyPress, r: Request) -> bool {
    &&& key.code == KeyCode::Esc ==> r is Done && after == (App { state: AppState::Init, ..before })
    &&& char_key(key.code, 'q') ==> r is Done && after == (App { should_quit: true, ..before })
    &&& char_key(key.code, 'n') ==> r is CreateDraft && after == (App {
        step: Step::Create,
        ..before
    })
    &&& char_key(key.code, 'd') ==> match before.draft_at() {
        Some(d) => r matches Request::DeleteDraft(path) && path == d.path && after == (App {
            step: Step::Delete(d.file_name),
            ..before
        }),
        None => r is Done && after == (App { status_message: after.status_message, ..before })
            && is_text(after.status_message, "no draft selected"@),
    }
    &&& key.code == KeyCode::Enter ==> r is Done && match before.draft_at() {
        Some(d) => after.state == AppState::QueryEdit && editor_text(after.editor) == text_lines(
            d.content@,
        ) && after.editor_mode == EditorMode::Normal && after == editor_opened(before, after),
        None => after == (App { status_message: after.status_message, ..before }) && is_text(
            after.status_message,
            "no draft selected"@,
        ),
    }
    &&& key.code == KeyCode::F(5) ==> match before.draft_at() {
        Some(d) => execution_started(before, after, d.content@, r) && execution_frame(
            before,
            after,
        ),
        None => r is Done && after == (App { status_message: after.status_message, ..before }),
    }
    &&& key.code == KeyCode::Up || key.code == KeyCode::Down ==> r is Done && after == (App {
        selected_draft_index: after.selected_draft_index,
        ..before
    }) && match before.selected_draft_index {
        Some(i) => after.selected_draft_index == if before.drafts@.len() > 0 {
            Some(
                moved_index(
                    i as int,
                    before.drafts@.len() as int,
                    if key.code == KeyCode::Up {
                        -1
                    } else {
                        1
                    },
                ) as usize,
            )
        } else {
            Some(i)
        },
        None => after.selected_draft_index is None,
    }
    &&& !(key.code == KeyCode::Esc || char_key(key.code, 'q') || char_key(key.code, 'n')
        || char_key(key.code, 'd') || key.code == KeyCode::Enter || key.code == KeyCode::F(5)
        || key.code == KeyCode::Up || key.code == KeyCode::Down) ==> r is Done && after == before
}

/// `a + b`, at most `usize::MAX`.
pub open spec fn sat_add_usize(a: int, b: int) -> int {
    if a + b <= usize::MAX {
        a + b
    } else {
        usize::MAX as int
    }
}

/// The window's offset after the selection steps back one line: it follows the selection when
/// the selection leaves the window at the top, and stays otherwise.
pub open spec fn step_back_offset(offset: int, selected: int) -> int {
    if selected > 0 && selected - 1 < offset {
        selected - 1
    } else {
        offset
    }
}

/// The window's offset after the selection steps on one line (when there is a next line): when
/// the selection leaves the window at the bottom, the window moves on one line, to at most its
/// last offset; it stays otherwise.
pub open spec fn step_on_offset(offset: int, selected: int, total: int, visible: int) -> int {
    if selected < max_selected(total) && selected + 1 >= sat_add_usize(offset, at_least_one(visible)) {
        crate::nav::min(sat_add_usize(offset, 1), max_offset(total, visible))
    } else {
        offset
    }
}

/// The selection after stepping on one line: the next line, or the same at the last one.
pub open spec fn step_on_selected(selected: int, total: int) -> int {
    if selected < max_selected(total) {
        selected + 1
    } else {
        selected
    }
}

/// The grid after a key that sets both axes' offsets and selections to these values, once
/// the selection is brought back into the result and into view.
pub open spec fn grid_set(
    before: App,
    after: App,
    row_offset: int,
    row_selected: int,
    col_offset: int,
    col_selected: int,
) -> bool {
    &&& after.result_selected_row == normalized_selected(row_selected, before.rows_total())
    &&& after.result_row_offset == normalized_offset(
        row_offset,
        row_selected,
        before.rows_total(),
        before.result_visible_rows as int,
    )
    &&& after.result_selected_col == normalized_selected(col_selected, before.cols_total())
    &&& after.result_col_offset == normalized_offset(
        col_offset,
        col_selected,
        before.cols_total(),
        before.result_visible_cols as int,
    )
}

/// The selected cell lies in the result, so the cell detail can show it.
pub open spec fn has_cell(app: App) -> bool {
    app.current_result matches Some(res) && {
        &&& app.result_selected_row < res.rows@.len()
        &&& app.result_selected_col < res.columns@.len()
        &&& app.result_selected_col < res.rows@[app.result_selected_row as int]@.len()
    }
}

/// The grid after a key that sets the row offset and selection to `offset` and `selected` and
/// leaves the columns as they were, once the selection is brought back into the result and
/// into view.
pub open spec fn grid_normalized(before: App, after: App, offset: int, selected: int) -> bool {
    &&& after.result_selected_row == normalized_selected(selected, before.rows_total())
    &&& after.result_row_offset == normalized_offset(
        offset,
        selected,
        before.rows_total(),
        before.result_visible_rows as int,
    )
    &&& after.result_selected_col == normalized_selected(
        before.result_selected_col as int,
        before.cols_total(),
    )
    &&& after.result_col_offset == normalized_offset(
        before.result_col_offset as int,
        before.result_selected_col as int,
        before.cols_total(),
        before.result_visible_cols as int,
    )
}

/// PageDown: the window moves down a page (no further than its last offset), and the
/// selection moves down as far as the window did, to at most the last row.
pub open spec fn page_down_offset(before: App) -> int {
    crate::nav::min(
        sat_add_usize(
            before.result_row_offset as int,
            at_least_one(before.result_visible_rows as int),
        ),
        max_offset(before.rows_total(), before.result_visible_rows as int),
    )
}

pub open spec fn page_down_selected(before: App) -> int {
    crate::nav::min(
        sat_add_usize(
            before.result_selected_row as int,
            sat_sub(page_down_offset(before), before.result_row_offset as int),
        ),
        max_selected(before.rows_total()),
    )
}

/// What a key does on the result screen. Only `q` sets the quit flag.
///
/// With the cell detail open, Esc or Enter closes it, `q` quits, and nothing else changes.
///
/// Otherwise every key leaves the selected cell in the result and in view: Esc goes back to the
/// draft list, `e` to the editor (when a draft is selected), `r` runs the last statement again,
/// Enter opens the cell detail exactly when the selected cell is in the result, the arrows move
/// the selected cell a line (the window following it a line when it would leave the window),
/// PageUp and PageDown move the window and the selection a page, Home goes to the first cell
/// and End to the last; the other keys only bring the selection into view.
pub open spec fn result_key_effect(before: App, after: App, key: KeyPress, r: Request) -> bool {
    let v = at_least_one(before.result_visible_rows as int);
    let rows = before.rows_total();
    let cols = before.cols_total();
    &&& after.should_quit == (before.should_quit || char_key(key.code, 'q'))
    &&& before.result_cell_detail_open ==> r is Done && after == (App {
        result_cell_detail_open: !(key.code == KeyCode::Esc || key.code == KeyCode::Enter),
        should_quit: after.should_quit,
        ..before
    })
    &&& !before.result_cell_detail_open ==> after.result_view_ok()
    &&& !before.result_cell_detail_open && key.code == KeyCode::Enter
        ==> after.result_cell_detail_open == has_cell(before)
    &&& !before.result_cell_detail_open && key.code != KeyCode::Enter
        ==> !after.result_cell_detail_open
    &&& !before.result_cell_detail_open && !char_key(key.code, 'r') ==> r is Done
        && after.current_result == before.current_result
    &&& !before.result_cell_detail_open && key.code == KeyCode::Esc ==> after.state
        == AppState::QueryList
    &&& !before.result_cell_detail_open && char_key(key.code, 'e') ==> after.state
        == if before.selected_draft_index is Some {
        AppState::QueryEdit
    } else {
        AppState::ResultView
    }
    &&& !before.result_cell_detail_open && !char_key(key.code, 'r') && !char_key(key.code, 'e')
        && key.code != KeyCode::Esc ==> after.state == AppState::ResultView
    &&& !before.result_cell_detail_open && char_key(key.code, 'r') ==> execution_started(
        before,
        after,
        before.last_sql@,
        r,
    )
    &&& !before.result_cell_detail_open && key.code == KeyCode::Home ==> after.result_selected_row
        == 0 && after.result_selected_col == 0 && after.result_row_offset == 0
        && after.result_col_offset == 0
    &&& !before.result_cell_detail_open && key.code == KeyCode::End ==> after.result_selected_row
        == max_selected(rows) && after.result_selected_col == max_selected(cols)
        && after.result_row_offset == max_offset(rows, before.result_visible_rows as int)
        && after.result_col_offset == max_offset(cols, before.result_visible_cols as int)
    &&& !before.result_cell_detail_open && key.code == KeyCode::PageUp ==> grid_normalized(
        before,
        after,
        sat_sub(before.result_row_offset as int, v),
        sat_sub(before.result_selected_row as int, v),
    )
    &&& !before.result_cell_detail_open && key.code == KeyCode::PageDown ==> grid_normalized(
        before,
        after,
        page_down_offset(before),
        page_down_selected(before),
    )
    &&& !before.result_cell_detail_open && !(char_key(key.code, 'r') || key.code == KeyCode::Up
        || key.code == KeyCode::Down || key.code == KeyCode::Left || key.code == KeyCode::Right
        || key.code == KeyCode::PageUp || key.code == KeyCode::PageDown || key.code
        == KeyCode::Home || key.code == KeyCode::End) ==> grid_normalized(
        before,
        after,
        before.result_row_offset as int,
        before.result_selected_row as int,
    )
    &&& !before.result_cell_detail_open && key.code == KeyCode::Up ==> grid_set(
        before,
        after,
        step_back_offset(before.result_row_offset as int, before.result_selected_row as int),
        sat_sub(before.result_selected_row as int, 1),
        before.result_col_offset as int,
        before.result_selected_col as int,
    )
    &&& !before.result_cell_detail_open && key.code == KeyCode::Down ==> grid_set(
        before,
        after,
        step_on_offset(
            before.result_row_offset as int,
            before.result_selected_row as int,
            rows,
            before.result_visible_rows as int,
        ),
        step_on_selected(before.result_selected_row as int, rows),
        before.result_col_offset as int,
        before.result_selected_col as int,
    )
    &&& !before.result_cell_detail_open && key.code == KeyCode::Left ==> grid_set(
        before,
        after,
        before.result_row_offset as int,
        before.result_selected_row as int,
        step_back_offset(before.result_col_offset as int, before.result_selected_col as int),
        sat_sub(before.result_selected_col as int, 1),
    )
    &&& !before.result_cell_detail_open && key.code == KeyCode::Right ==> grid_set(
        before,
        after,
        before.result_row_offset as int,
        before.result_selected_row as int,
        step_on_offset(
            before.result_col_offset as int,
            before.result_selected_col as int,
            cols,
            before.result_visible_cols as int,
        ),
        step_on_selected(before.result_selected_col as int, cols),
    )
    &&& !before.result_cell_detail_open && before.result_view_ok() ==> {
        &&& key.code == KeyCode::Up ==> after.result_selected_row == sat_sub(
            before.result_selected_row as int,
            1,
        )
        &&& key.code == KeyCode::Down ==> after.result_selected_row == crate::nav::min(
            before.result_selected_row + 1,
            max_selected(rows),
        )
        &&& key.code == KeyCode::Left ==> after.result_selected_col == sat_sub(
            before.result_selected_col as int,
            1,
        )
        &&& key.code == KeyCode::Right ==> after.result_selected_col == crate::nav::min(
            before.result_selected_col + 1,
            max_selected(cols),
        )
    }
}

/// The save a key asks for: the selected draft's file with the editor's text, and what follows
/// once it is written; nothing without a selected draft.
pub open spec fn save_asked(before: App, after: App, r: Request, then: AfterSave) -> bool {
    match before.draft_at() {
        Some(d) => r matches Request::SaveDraft(path, content) && path == d.path && content@
            == joined(editor_text(before.editor)) && after.step == Step::Save(d.file_name, then),
        None => r is Done && is_text(after.status_message, "no draft selected"@),
    }
}

/// The keys the editor screen takes in every mode: Esc, Ctrl+S and F5.
pub open spec fn editor_shortcut(key: KeyPress) -> bool {
    key.code == KeyCode::Esc || key.code == KeyCode::F(5) || (char_key(key.code, 's') && key.ctrl)
}

/// The editor screen's own keys, whatever the mode: Esc goes back to the draft list (in normal
/// mode, with the typed count, the command line and the completion list cleared); Ctrl+S saves
/// the editor's text to the draft; F5 saves it and then runs it. The text is left as it is.
pub open spec fn editor_shortcut_effect(before: App, after: App, key: KeyPress, r: Request) -> bool {
    &&& editor_text(after.editor) == editor_text(before.editor)
    &&& editor_position(after.editor) == editor_position(before.editor)
    &&& after.normal_count_buffer@.len() == 0
    &&& key.code == KeyCode::Esc ==> {
        &&& r is Done
        &&& after.state == AppState::QueryList
        &&& after.editor_mode == EditorMode::Normal
        &&& after.command_buffer@.len() == 0
        &&& !after.completion_open
        &&& is_text(after.status_message, "returned to draft list"@)
    }
    &&& key.code != KeyCode::Esc ==> {
        &&& after.state == AppState::QueryEdit
        &&& after.editor_mode == before.editor_mode
        &&& save_asked(
            before,
            after,
            r,
            if key.code == KeyCode::F(5) {
                AfterSave::Run
            } else {
                AfterSave::Stay
            },
        )
    }
}

/// Normal mode (for keys other than the editor screen's own): digits type a repeat count,
/// `i`, `a` and `o` enter insert mode, `:` command mode; the screen stays the editor. The
/// count is used up by the commands that take it and by those that change the mode.
pub open spec fn normal_mode_effect(before: App, after: App, key: KeyPress, r: Request) -> bool {
    &&& r is Done
    &&& after.state == AppState::QueryEdit
    &&& char_key(key.code, 'i') || char_key(key.code, 'a') || char_key(key.code, 'o')
        ==> after.editor_mode == EditorMode::Insert && !after.completion_open
    &&& char_key(key.code, ':') ==> after.editor_mode == EditorMode::Command
        && after.command_buffer@.len() == 0
    &&& char_key(key.code, 'i') ==> is_text(after.status_message, "insert mode"@)
    &&& char_key(key.code, 'a') ==> is_text(after.status_message, "append mode"@)
    &&& char_key(key.code, 'o') ==> is_text(after.status_message, "opened new line"@)
    &&& char_key(key.code, ':') ==> is_text(after.status_message, "command mode"@)
    &&& !(char_key(key.code, 'i') || char_key(key.code, 'a') || char_key(key.code, 'o')
        || char_key(key.code, ':')) ==> after.editor_mode == EditorMode::Normal
    &&& (char_key(key.code, 'x') || char_key(key.code, 'h') || char_key(key.code, 'j')
        || char_key(key.code, 'k') || char_key(key.code, 'l') || key.code == KeyCode::Left
        || key.code == KeyCode::Right || key.code == KeyCode::Up || key.code == KeyCode::Down
        || char_key(key.code, 'G') || char_key(key.code, '$') || key.code == KeyCode::End
        || char_key(key.code, 'i') || char_key(key.code, 'a') || char_key(key.code, 'o')
        || char_key(key.code, ':')) ==> after.normal_count_buffer@.len() == 0
    &&& key.code is Char && '0' <= key.code->Char_0 <= '9' ==> after.normal_count_buffer@
        == counted(before.normal_count_buffer@, key.code->Char_0)
}

/// The count typed so far after the digit `c`: a leading zero is no count (it goes to the line
/// head), and at most four digits are kept.
pub open spec fn counted(buffer: Seq<char>, c: char) -> Seq<char> {
    if (c == '0' && buffer.len() == 0) || buffer.len() >= 4 {
        buffer
    } else {
        buffer.push(c)
    }
}

/// Insert mode (for keys other than the editor screen's own): the key goes to the editor or
/// the completion list, and insert mode stays.
pub open spec fn insert_mode_effect(before: App, after: App, key: KeyPress, r: Request) -> bool {
    &&& after.state == before.state
    &&& after.editor_mode == EditorMode::Insert
    &&& r is Done
}

/// Running the typed command: `q` or `q!` goes back to the draft list; `w` saves, `wq` and `x`
/// save and go back, `run` saves and runs; an empty command only leaves command mode; anything
/// else is reported as unknown. The command line is then empty and normal mode is back.
pub open spec fn command_effect(before: App, after: App, r: Request) -> bool {
    let command = lower(trim(before.command_buffer@));
    &&& after.command_buffer@.len() == 0
    &&& after.editor_mode == EditorMode::Normal
    &&& (command == "q"@ || command == "q!"@) ==> after.state == AppState::QueryList && r is Done
        && is_text(after.status_message, "returned to draft list"@)
    &&& (command == "w"@ || command == "wq"@ || command == "x"@ || command == "run"@)
        ==> after.state == AppState::QueryEdit && save_asked(
        before,
        after,
        r,
        if command == "w"@ {
            AfterSave::Stay
        } else if command == "run"@ {
            AfterSave::Run
        } else {
            AfterSave::ReturnToList
        },
    )
    &&& command.len() == 0 ==> after.state == AppState::QueryEdit && r is Done && is_text(
        after.status_message,
        "normal mode"@,
    )
    &&& !(command == "q"@ || command == "q!"@ || command == "w"@ || command == "wq"@ || command
        == "x"@ || command == "run"@ || command.len() == 0) ==> after.state == AppState::QueryEdit
        && r is Done && is_text(after.status_message, "unknown command: "@ + command)
}

/// Command mode (for keys other than the editor screen's own): Enter runs the command,
/// Backspace removes the last typed character, and a character (without Ctrl) is typed on the
/// command line.
pub open spec fn command_mode_effect(before: App, after: App, key: KeyPress, r: Request) -> bool {
    &&& key.code == KeyCode::Enter ==> command_effect(before, after, r)
    &&& key.code == KeyCode::Backspace ==> after.command_buffer@ == if before.command_buffer@.len()
        > 0 {
        before.command_buffer@.drop_last()
    } else {
        before.command_buffer@
    }
    &&& key.code is Char && !key.ctrl ==> after.command_buffer@ == before.command_buffer@.push(
        key.code->Char_0,
    )
    &&& key.code is Char && key.ctrl ==> after.command_buffer@ == before.command_buffer@
    &&& key.code != KeyCode::Enter ==> r is Done && after.state == before.state
        && after.editor_mode == EditorMode::Command
}

/// The editor screen, by mode.
pub open spec fn edit_mode_effect(before: App, after: App, key: KeyPress, r: Request) -> bool {
    if editor_shortcut(key) {
        editor_shortcut_effect(before, after, key, r)
    } else {
        match before.editor_mode {
            EditorMode::Normal => normal_mode_effect(before, after, key, r),
            EditorMode::Insert => insert_mode_effect(before, after, key, r),
            EditorMode::Command => command_mode_effect(before, after, key, r),
        }
    }
}

/// What a key does to the editor in insert mode. A plain character is typed at the cursor
/// (and a keyword before a delimiter is upper-cased); Enter with the completion list closed
/// upper-cases a keyword before the cursor and breaks the line there; Tab or Enter with the
/// list open puts the selected completion in place of the typed prefix and closes the list;
/// Tab with the list closed (after printable ASCII) indents to the next multiple of four and
/// upper-cases a keyword before it; Backspace and Delete delete the character before and after
/// the cursor, joining lines at a line's edge.
pub open spec fn insert_edit_effect(before: App, after: App, key: KeyPress) -> bool {
    let text = editor_text(before.editor);
    let pos = editor_position(before.editor);
    &&& types_char(before, key) ==> {
        &&& editor_text(after.editor) == typed_text(text, pos, key.code->Char_0)
        &&& editor_position(after.editor) == (pos.0, (pos.1 + 1) as usize)
        &&& completion_refreshed_at(
            before.completion_selected_index,
            after,
            typed_text(text, pos, key.code->Char_0),
            (pos.0, (pos.1 + 1) as usize),
            before.metadata,
            false,
        )
    }
    &&& deletes_back_key(key) && cursor_ok(before.editor) && !editor_selecting(before.editor) ==> {
        &&& editor_text(after.editor) == deleted_before(text, pos)
        &&& editor_position(after.editor) == position_before(text, pos)
        &&& completion_refreshed_at(
            before.completion_selected_index,
            after,
            deleted_before(text, pos),
            position_before(text, pos),
            before.metadata,
            false,
        )
    }
    &&& !before.completion_open && key.code == KeyCode::Tab && tabs(key.input) && cursor_ok(
        before.editor,
    ) && !editor_selecting(before.editor) && plain_ascii(text[pos.0 as int].take(pos.1 as int))
        ==> {
        let spaced = inserted_at(text, pos, tab_spaces(pos.1 as int));
        let moved = (pos.0, (pos.1 + tab_spaces(pos.1 as int).len()) as usize);
        &&& editor_text(after.editor) == normalized_text(spaced, moved)
        &&& editor_position(after.editor) == moved
        &&& completion_refreshed_at(
            before.completion_selected_index,
            after,
            normalized_text(spaced, moved),
            moved,
            before.metadata,
            false,
        )
    }
    &&& deletes_forward_key(key) && cursor_ok(before.editor) && !editor_selecting(before.editor)
        ==> {
        &&& editor_text(after.editor) == deleted_next(text, pos)
        &&& editor_position(after.editor) == pos
        &&& completion_refreshed_at(
            before.completion_selected_index,
            after,
            deleted_next(text, pos),
            pos,
            before.metadata,
            false,
        )
    }
    &&& key.code == KeyCode::Char(' ') && key.ctrl && cursor_ok(before.editor) ==> {
        &&& after.editor == before.editor
        &&& completion_refreshed(before, after, true)
    }
    &&& before.completion_open && key.code == KeyCode::Up ==> {
        &&& after.editor == before.editor
        &&& after.completion_open
        &&& after.completion_selected_index == sat_sub(before.completion_selected_index as int, 1)
    }
    &&& before.completion_open && key.code == KeyCode::Down ==> {
        &&& after.editor == before.editor
        &&& after.completion_open
        &&& after.completion_selected_index == crate::nav::min(
            if before.completion_selected_index < usize::MAX {
                before.completion_selected_index + 1
            } else {
                usize::MAX as int
            },
            sat_sub(before.completion_items@.len() as int, 1),
        )
    }
    &&& !before.completion_open && key.code == KeyCode::Enter && breaks_line(key.input)
        && cursor_ok(before.editor) && !editor_selecting(before.editor) ==> {
        &&& editor_text(after.editor) == split_at(normalized_text(text, pos), pos)
        &&& editor_position(after.editor) == ((pos.0 + 1) as usize, 0usize)
        &&& text.len() < usize::MAX ==> !after.completion_open
    }
    &&& before.completion_open && (key.code == KeyCode::Tab || key.code == KeyCode::Enter)
        && completion_applies(before) ==> {
        let piece = inserted_piece(
            before.completion_items@[before.completion_selected_index as int].insert_text@,
        );
        &&& !after.completion_open
        &&& editor_text(after.editor) == replaced_before_cursor(
            text,
            pos,
            before.completion_prefix@.len() as int,
            piece,
        )
        &&& editor_position(after.editor) == (
            pos.0,
            (pos.1 - before.completion_prefix@.len() + piece.len()) as usize,
        )
    }
}

/// What a key does to the editor in normal mode, with the count typed before it: `x` deletes
/// that many characters at the cursor, `G` goes to the line of that number (the last line
/// without a count), `j` or Down and `k` or Up move that many lines down or up.
pub open spec fn normal_edit_effect(before: App, after: App, key: KeyPress) -> bool {
    let text = editor_text(before.editor);
    let pos = editor_position(before.editor);
    let n = count_of(before.normal_count_buffer@) as int;
    &&& char_key(key.code, 'x') && cursor_ok(before.editor) && !editor_selecting(before.editor)
        ==> {
        &&& editor_text(after.editor) == repeated_delete(text, pos, n as nat)
        &&& editor_position(after.editor) == pos
    }
    &&& char_key(key.code, 'G') && cursor_ok(before.editor) ==> {
        &&& editor_text(after.editor) == text
        &&& editor_position(after.editor).0 == goto_row(before.normal_count_buffer@, text.len() as int)
    }
    &&& (char_key(key.code, 'j') || key.code == KeyCode::Down) && cursor_ok(before.editor) ==> {
        &&& editor_text(after.editor) == text
        &&& editor_position(after.editor).0 == moved_row(pos.0 as int, text.len() as int, n)
        &&& editor_position(after.editor) == repeated_moves(CursorStep::Down, text, pos, n as nat)
    }
    &&& (char_key(key.code, 'k') || key.code == KeyCode::Up) && cursor_ok(before.editor) ==> {
        &&& editor_text(after.editor) == text
        &&& editor_position(after.editor).0 == moved_row(pos.0 as int, text.len() as int, -n)
        &&& editor_position(after.editor) == repeated_moves(CursorStep::Up, text, pos, n as nat)
    }
    &&& (char_key(key.code, 'h') || key.code == KeyCode::Left) && cursor_ok(before.editor) ==> {
        &&& editor_text(after.editor) == text
        &&& editor_position(after.editor) == repeated_moves(CursorStep::Back, text, pos, n as nat)
    }
    &&& (char_key(key.code, 'l') || key.code == KeyCode::Right) && cursor_ok(before.editor) ==> {
        &&& editor_text(after.editor) == text
        &&& editor_position(after.editor) == repeated_moves(CursorStep::Forward, text, pos, n as nat)
    }
    &&& (key.code == KeyCode::Home || (char_key(key.code, '0')
        && before.normal_count_buffer@.len() == 0)) && cursor_ok(before.editor) ==> {
        &&& editor_text(after.editor) == text
        &&& editor_position(after.editor) == (pos.0, 0usize)
    }
    &&& (char_key(key.code, '$') || key.code == KeyCode::End) && cursor_ok(before.editor) ==> {
        &&& editor_text(after.editor) == text
        &&& editor_position(after.editor) == (pos.0, text[pos.0 as int].len() as usize)
    }
    &&& char_key(key.code, 'a') && cursor_ok(before.editor) ==> {
        &&& editor_text(after.editor) == text
        &&& editor_position(after.editor) == match next_position(CursorStep::Forward, pos, text) {
            Some(q) => q,
            None => pos,
        }
    }
    &&& char_key(key.code, 'o') && cursor_ok(before.editor) && !editor_selecting(before.editor)
        ==> {
        &&& editor_text(after.editor) == split_at(
            text,
            (pos.0, text[pos.0 as int].len() as usize),
        )
        &&& editor_position(after.editor) == ((pos.0 + 1) as usize, 0usize)
    }
}

/// Backspace (or Ctrl+H), in both forms of the key press.
pub open spec fn deletes_back_key(key: KeyPress) -> bool {
    &&& key.code == KeyCode::Backspace || (char_key(key.code, 'h') && key.ctrl)
    &&& deletes_back(key.input)
}

/// Delete (or Ctrl+D), in both forms of the key press.
pub open spec fn deletes_forward_key(key: KeyPress) -> bool {
    &&& key.code == KeyCode::Other || (char_key(key.code, 'd') && key.ctrl)
    &&& deletes_forward(key.input)
}

/// The premise of the typing law: a plain character key (Ctrl and Alt up) whose code and
/// editor input agree, with the cursor in the text and no selection under way.
pub open spec fn types_char(app: App, key: KeyPress) -> bool {
    &&& key.code is Char
    &&& !key.ctrl
    &&& typed_char(key.input) == Some(key.code->Char_0)
    &&& cursor_ok(app.editor)
    &&& !editor_selecting(app.editor)
}

/// Where the token lies in the text it was found in.
proof fn lemma_token_place(s: Seq<char>)
    ensures
        token_spec(s) matches Some((token, width)) ==> {
            &&& token.len() > 0
            &&& width + token.len() <= s.len()
            &&& token == s.subrange(s.len() - width - token.len(), s.len() - width)
        },
{
    if !inside_single_quote(s) {
        let end = delimiter_start(s, s.len() as int);
        lemma_delimiter_start(s, s.len() as int);
        crate::text::lemma_word_start_bounds(s, end);
    }
}

/// The upper-case spelling of a word has its length and no line break or carriage return.
proof fn lemma_upper_word(token: Seq<char>)
    ensures
        upper(token).len() == token.len(),
        (forall|i: int| 0 <= i < token.len() ==> is_word_char(#[trigger] token[i])) ==> !upper(
            token,
        ).contains('\n') && (upper(token).len() == 0 || upper(token).last() != '\r'),
{
    if forall|i: int| 0 <= i < token.len() ==> is_word_char(#[trigger] token[i]) {
        assert forall|i: int| 0 <= i < token.len() implies upper(token)[i] != '\n' && upper(
            token,
        )[i] != '\r' by {
            assert(is_word_char(token[i]));
        }
    }
}

/// The row reached from `row` by moving `delta` lines down (up when negative), within the
/// `lines` lines of the text.
pub open spec fn moved_row(row: int, lines: int, delta: int) -> int {
    if row + delta < 0 {
        0
    } else if row + delta > lines - 1 {
        lines - 1
    } else {
        row + delta
    }
}

/// The row that `G` goes to: the last line alone, line `N` (counted from 1, at most the last)
/// with a count `N` typed before it.
pub open spec fn goto_row(buffer: Seq<char>, lines: int) -> int {
    if buffer.len() == 0 {
        lines - 1
    } else {
        moved_row(0, lines, count_of(buffer) - 1)
    }
}

/// The text after deleting `n` times the character after the cursor at `pos`.
pub open spec fn repeated_delete(text: Seq<Seq<char>>, pos: (usize, usize), n: nat) -> Seq<
    Seq<char>,
>
    decreases n,
{
    if n == 0 {
        text
    } else {
        deleted_next(repeated_delete(text, pos, (n - 1) as nat), pos)
    }
}

proof fn lemma_delete_keeps_cursor(text: Seq<Seq<char>>, pos: (usize, usize))
    requires
        pos.0 < text.len(),
        pos.1 <= text[pos.0 as int].len(),
    ensures
        pos.0 < deleted_next(text, pos).len(),
        pos.1 <= deleted_next(text, pos)[pos.0 as int].len(),
{
}

/// The completion list after a refresh on `text` with the cursor at `pos`: closed and emptied
/// when nothing is offered for the prefix typed before the cursor, or when that prefix is empty
/// and the list was not asked for; otherwise open on what is offered, with the selection
/// (`index` before the refresh) kept within it.
pub open spec fn completion_refreshed_at(
    index: usize,
    after: App,
    text: Seq<Seq<char>>,
    pos: (usize, usize),
    metadata: Option<DatabaseMetadata>,
    force_open: bool,
) -> bool {
    let (prefix, context) = completion::context_of(text[pos.0 as int].take(pos.1 as int));
    let items = completion::completion_list(prefix, context, metadata);
    if items.len() == 0 || (!force_open && prefix.len() == 0) {
        &&& !after.completion_open
        &&& after.completion_items@.len() == 0
        &&& after.completion_selected_index == 0
        &&& after.completion_prefix@.len() == 0
    } else {
        &&& after.completion_open
        &&& after.completion_prefix@ == prefix
        &&& completion::items_view(after.completion_items@) == items
        &&& after.completion_selected_index == crate::nav::min(index as int, items.len() - 1)
    }
}

pub open spec fn completion_refreshed(before: App, after: App, force_open: bool) -> bool {
    completion_refreshed_at(
        before.completion_selected_index,
        after,
        editor_text(before.editor),
        editor_position(before.editor),
        before.metadata,
        force_open,
    )
}

/// The text with the `len` characters before the cursor replaced by `piece`.
pub open spec fn replaced_before_cursor(
    text: Seq<Seq<char>>,
    pos: (usize, usize),
    len: int,
    piece: Seq<char>,
) -> Seq<Seq<char>> {
    let row = pos.0 as int;
    let col = pos.1 as int;
    text.update(row, text[row].take(col - len) + piece + text[row].skip(col))
}

proof fn lemma_replaced_len(text: Seq<Seq<char>>, pos: (usize, usize), k: int)
    requires
        pos.0 < text.len(),
        0 <= k <= pos.1 <= text[pos.0 as int].len(),
    ensures
        replaced_before_cursor(text, pos, k, Seq::empty()).len() == text.len(),
        replaced_before_cursor(text, pos, k, Seq::empty())[pos.0 as int].len() == text[pos.0 as int].len() - k,
{
}

proof fn lemma_replaced_none(text: Seq<Seq<char>>, pos: (usize, usize))
    requires
        pos.0 < text.len(),
        pos.1 <= text[pos.0 as int].len(),
    ensures
        replaced_before_cursor(text, pos, 0, Seq::empty()) == text,
{
    let line = text[pos.0 as int];
    assert(line.take(pos.1 as int) + Seq::<char>::empty() + line.skip(pos.1 as int) =~= line);
    assert(replaced_before_cursor(text, pos, 0, Seq::empty()) =~= text);
}

/// Deleting the character before the window of deleted characters widens it by one.
proof fn lemma_replace_one_more(text: Seq<Seq<char>>, pos: (usize, usize), k: int)
    requires
        pos.0 < text.len(),
        0 <= k < pos.1 <= text[pos.0 as int].len(),
    ensures
        replaced_before_cursor(text, pos, k + 1, Seq::empty()) == deleted_next(
            replaced_before_cursor(text, pos, k, Seq::empty()),
            (pos.0, (pos.1 - k - 1) as usize),
        ),
{
    let row = pos.0 as int;
    let col = pos.1 as int;
    let line = text[row];
    let cur = line.take(col - k) + Seq::<char>::empty() + line.skip(col);
    assert(line.take(col - k - 1) + Seq::<char>::empty() + line.skip(col) =~= cur.remove(col - k - 1));
    assert(replaced_before_cursor(text, pos, k + 1, Seq::empty()) =~= deleted_next(
        replaced_before_cursor(text, pos, k, Seq::empty()),
        (pos.0, (pos.1 - k - 1) as usize),
    ));
}

/// Inserting at the start of the window of deleted characters fills it.
proof fn lemma_insert_after_delete(text: Seq<Seq<char>>, pos: (usize, usize), k: int, piece: Seq<char>)
    requires
        pos.0 < text.len(),
        0 <= k <= pos.1 <= text[pos.0 as int].len(),
    ensures
        inserted_at(
            replaced_before_cursor(text, pos, k, Seq::empty()),
            (pos.0, (pos.1 - k) as usize),
            piece,
        ) == replaced_before_cursor(text, pos, k, piece),
{
    let row = pos.0 as int;
    let col = pos.1 as int;
    let line = text[row];
    let mid = line.take(col - k) + Seq::<char>::empty() + line.skip(col);
    assert(mid.take(col - k) =~= line.take(col - k));
    assert(mid.skip(col - k) =~= line.skip(col));
    assert(inserted_at(
        replaced_before_cursor(text, pos, k, Seq::empty()),
        (pos.0, (pos.1 - k) as usize),
        piece,
    ) =~= replaced_before_cursor(text, pos, k, piece));
}

/// Accepting a completion is stated when an item is selected, no selection is under way in
/// the editor, the cursor lies in the text with the typed prefix before it on its line, and
/// the item's text holds no line break.
pub open spec fn completion_applies(app: App) -> bool {
    &&& app.completion_selected_index < app.completion_items@.len()
    &&& cursor_ok(app.editor)
    &&& !editor_selecting(app.editor)
    &&& app.completion_prefix@.len() <= editor_position(app.editor).1
    &&& !app.completion_items@[app.completion_selected_index as int].insert_text@.contains('\n')
}

/// The token that `token_before_delimiters` finds in the text before the cursor.
pub open spec fn token_spec(s: Seq<char>) -> Option<(Seq<char>, nat)> {
    if inside_single_quote(s) {
        None
    } else {
        let end = delimiter_start(s, s.len() as int);
        let start = crate::text::word_start(s, end);
        if end == 0 || start == end {
            None
        } else {
            Some((s.subrange(start, end), (s.len() - end) as nat))
        }
    }
}

/// Start of the run of delimiters that ends at `i`.
pub open spec fn delimiter_start(s: Seq<char>, i: int) -> int
    decreases i,
{
    if i <= 0 || i > s.len() {
        i
    } else if is_sql_delimiter(s[i - 1]) {
        delimiter_start(s, i - 1)
    } else {
        i
    }
}

pub proof fn lemma_delimiter_start(s: Seq<char>, i: int)
    requires
        0 <= i <= s.len(),
    ensures
        0 <= delimiter_start(s, i) <= i,
    decreases i,
{
    if i > 0 && is_sql_delimiter(s[i - 1]) {
        lemma_delimiter_start(s, i - 1);
    }
}

/// The SQL word that ends just before the trailing delimiters of `before_cursor`, with the
/// number of those delimiters; `None` inside a quoted string or when there is no such word.
pub fn token_before_delimiters(before_cursor: &str) -> (r: Option<(String, usize)>)
    ensures
        match r {
            Some((token, width)) => token_spec(before_cursor@) == Some((token@, width as nat)),
            None => token_spec(before_cursor@) is None,
        },
        r matches Some((token, width)) ==> token@.len() > 0 && forall|i: int|
            0 <= i < token@.len() ==> is_word_char(#[trigger] token@[i]),
{
    if is_inside_single_quote(before_cursor) {
        return None;
    }
    let chars = chars_of(before_cursor);
    let mut end = chars.len();
    while end > 0 && is_sql_delimiter_exec(chars[end - 1])
        invariant
            end <= chars@.len(),
            chars@ == before_cursor@,
            delimiter_start(chars@, chars@.len() as int) == delimiter_start(chars@, end as int),
        decreases end,
    {
        end -= 1;
    }
    let delimiter_width = chars.len() - end;
    if end == 0 {
        return None;
    }
    proof {
        crate::text::lemma_word_start_bounds(chars@, end as int);
    }
    let start = crate::text::word_start_exec(&chars, end);
    if start == end {
        return None;
    }
    let token = string_from_range(&chars, start, end);
    Some((token, delimiter_width))
}


/// The repeat count typed before a normal-mode command: the number when it is positive, else 1,
/// and at most 9999.
pub open spec fn count_of(buffer: Seq<char>) -> nat {
    match parse_usize(buffer) {
        Some(n) => if n == 0 {
            1
        } else if n > 9999 {
            9999
        } else {
            n
        },
        None => 1,
    }
}

impl App {
    // ----- normal-mode counts -----

    fn handle_normal_count_digit(&mut self, value: char)
        ensures
            final(self).state == old(self).state,
            final(self).step == old(self).step,
            final(self).editor_mode == old(self).editor_mode,
            final(self).should_quit == old(self).should_quit,
            final(self).status_message == old(self).status_message,
            (value == '0' && old(self).normal_count_buffer@.len() == 0)
                || old(self).normal_count_buffer@.len() >= 4 ==> final(self).normal_count_buffer
                == old(self).normal_count_buffer,
            !(value == '0' && old(self).normal_count_buffer@.len() == 0)
                && old(self).normal_count_buffer@.len() < 4 ==> final(self).normal_count_buffer@
                == old(self).normal_count_buffer@.push(value),
            editor_text(final(self).editor) == editor_text(old(self).editor),
            value == '0' && old(self).normal_count_buffer@.len() == 0 && cursor_ok(old(self).editor)
                ==> editor_position(final(self).editor) == (editor_position(old(self).editor).0, 0usize),
            !(value == '0' && old(self).normal_count_buffer@.len() == 0) ==> final(self).editor
                == old(self).editor,
    {
        let len = self.normal_count_buffer.as_str().unicode_len();
        if value == '0' && len == 0 {
            move_editor_cursor(&mut self.editor, CursorStep::Head);
            return ;
        }
        if len < 4 {
            push_char(&mut self.normal_count_buffer, value);
        }
    }

    fn normal_count(&self) -> (r: usize)
        ensures
            r == count_of(self.normal_count_buffer@),
            1 <= r <= 9999,
    {
        match parse_usize_exec(self.normal_count_buffer.as_str()) {
            Some(count) => if count == 0 {
                1
            } else if count > 9999 {
                9999
            } else {
                count
            },
            None => 1,
        }
    }

    fn take_normal_count(&mut self) -> (r: usize)
        ensures
            r == count_of(old(self).normal_count_buffer@),
            1 <= r <= 9999,
            final(self).normal_count_buffer@.len() == 0,
            final(self).editor == old(self).editor,
            final(self).state == old(self).state,
            final(self).step == old(self).step,
            final(self).editor_mode == old(self).editor_mode,
            final(self).should_quit == old(self).should_quit,
            final(self).status_message == old(self).status_message,
    {
        let count = self.normal_count();
        self.normal_count_buffer = String::new();
        count
    }

    fn repeat_cursor_move(&mut self, step: CursorStep)
        ensures
            final(self).normal_count_buffer@.len() == 0,
            final(self).state == old(self).state,
            final(self).step == old(self).step,
            final(self).editor_mode == old(self).editor_mode,
            final(self).should_quit == old(self).should_quit,
            final(self).status_message == old(self).status_message,
            editor_text(final(self).editor) == editor_text(old(self).editor),
            editor_selecting(final(self).editor) == editor_selecting(old(self).editor),
            cursor_ok(old(self).editor) ==> editor_position(final(self).editor) == repeated_moves(
                step,
                editor_text(old(self).editor),
                editor_position(old(self).editor),
                count_of(old(self).normal_count_buffer@),
            ),
            cursor_ok(old(self).editor) && (step == CursorStep::Down || step == CursorStep::Up)
                ==> editor_position(final(self).editor).0 == moved_row(
                editor_position(old(self).editor).0 as int,
                editor_text(old(self).editor).len() as int,
                if step == CursorStep::Down {
                    count_of(old(self).normal_count_buffer@) as int
                } else {
                    -(count_of(old(self).normal_count_buffer@) as int)
                },
            ),
    {
        let count = self.take_normal_count();
        let ghost t0 = editor_text(self.editor);
        let ghost r0 = editor_position(self.editor).0 as int;
        let ghost vertical = cursor_ok(self.editor) && (step == CursorStep::Down || step == CursorStep::Up);
        let ghost ok = cursor_ok(self.editor);
        let ghost p0 = editor_position(self.editor);
        let mut k: usize = 0;
        while k < count
            invariant
                k <= count,
                self.normal_count_buffer@.len() == 0,
                self.state == old(self).state,
                self.step == old(self).step,
                self.editor_mode == old(self).editor_mode,
                self.should_quit == old(self).should_quit,
                self.status_message == old(self).status_message,
                editor_text(self.editor) == t0,
                editor_selecting(self.editor) == editor_selecting(old(self).editor),
                ok ==> cursor_ok(self.editor),
                ok ==> editor_position(self.editor) == repeated_moves(step, t0, p0, k as nat),
                vertical ==> ok,
                vertical ==> t0.len() <= usize::MAX,
                vertical ==> 0 <= r0 < t0.len(),
                vertical ==> (step == CursorStep::Down || step == CursorStep::Up),
                vertical ==> editor_position(self.editor).0 == moved_row(
                    r0,
                    t0.len() as int,
                    if step == CursorStep::Down {
                        k as int
                    } else {
                        -(k as int)
                    },
                ),
            decreases count - k,
        {
            move_editor_cursor(&mut self.editor, step);
            k += 1;
        }
    }

    fn handle_goto_line_or_bottom(&mut self)
        ensures
            final(self).normal_count_buffer@.len() == 0,
            final(self).state == old(self).state,
            final(self).step == old(self).step,
            final(self).editor_mode == old(self).editor_mode,
            final(self).should_quit == old(self).should_quit,
            final(self).status_message == old(self).status_message,
            editor_text(final(self).editor) == editor_text(old(self).editor),
            cursor_ok(old(self).editor) ==> editor_position(final(self).editor).0 == goto_row(
                old(self).normal_count_buffer@,
                editor_text(old(self).editor).len() as int,
            ),
    {
        if self.normal_count_buffer.as_str().unicode_len() == 0 {
            move_editor_cursor(&mut self.editor, CursorStep::Bottom);
            return ;
        }
        let target_line = self.take_normal_count() - 1;
        let ghost t0 = editor_text(self.editor);
        let ghost ok = cursor_ok(self.editor);
        move_editor_cursor(&mut self.editor, CursorStep::Top);
        let mut k: usize = 0;
        while k < target_line
            invariant
                k <= target_line,
                self.normal_count_buffer@.len() == 0,
                self.state == old(self).state,
                self.step == old(self).step,
                self.editor_mode == old(self).editor_mode,
                self.should_quit == old(self).should_quit,
                self.status_message == old(self).status_message,
                editor_text(self.editor) == t0,
                ok ==> cursor_ok(self.editor),
                ok ==> editor_position(self.editor).0 == moved_row(0, t0.len() as int, k as int),
            decreases target_line - k,
        {
            move_editor_cursor(&mut self.editor, CursorStep::Down);
            k += 1;
        }
    }

    fn delete_counted_chars(&mut self)
        ensures
            final(self).normal_count_buffer@.len() == 0,
            final(self).state == old(self).state,
            final(self).step == old(self).step,
            final(self).editor_mode == old(self).editor_mode,
            final(self).should_quit == old(self).should_quit,
            final(self).status_message == old(self).status_message,
            cursor_ok(old(self).editor) && !editor_selecting(old(self).editor) ==> {
                &&& editor_text(final(self).editor) == repeated_delete(
                    editor_text(old(self).editor),
                    editor_position(old(self).editor),
                    count_of(old(self).normal_count_buffer@),
                )
                &&& editor_position(final(self).editor) == editor_position(old(self).editor)
            },
    {
        let count = self.take_normal_count();
        let ghost t0 = editor_text(self.editor);
        let ghost pos = editor_position(self.editor);
        let ghost ok = cursor_ok(self.editor) && !editor_selecting(self.editor);
        let mut k: usize = 0;
        while k < count
            invariant
                k <= count,
                self.normal_count_buffer@.len() == 0,
                self.state == old(self).state,
                self.step == old(self).step,
                self.editor_mode == old(self).editor_mode,
                self.should_quit == old(self).should_quit,
                self.status_message == old(self).status_message,
                ok ==> {
                    &&& editor_text(self.editor) == repeated_delete(t0, pos, k as nat)
                    &&& editor_position(self.editor) == pos
                    &&& cursor_ok(self.editor)
                    &&& !editor_selecting(self.editor)
                },
            decreases count - k,
        {
            editor_delete_next_char(&mut self.editor);
            proof {
                if ok {
                    lemma_delete_keeps_cursor(repeated_delete(t0, pos, k as nat), pos);
                }
            }
            k += 1;
        }
    }

    // ----- lists -----

    fn move_connection_selection(&mut self, delta: isize)
        ensures
            match old(self).config {
                Some(c) => if c.connections@.len() > 0 {
                    final(self).selected_connection_index == moved_index(
                        old(self).selected_connection_index as int,
                        c.connections@.len() as int,
                        delta as int,
                    )
                } else {
                    final(self).selected_connection_index == old(self).selected_connection_index
                },
                None => final(self).selected_connection_index
                    == old(self).selected_connection_index,
            },
            *final(self) == (App {
                selected_connection_index: final(self).selected_connection_index,
                ..*old(self)
            }),
    {
        let len = match &self.config {
            Some(config) => config.connections.len(),
            None => return ,
        };
        if len == 0 {
            return ;
        }
        self.selected_connection_index = move_index(self.selected_connection_index, len, delta);
    }

    fn move_draft_selection(&mut self, delta: isize)
        ensures
            match old(self).selected_draft_index {
                Some(i) => if old(self).drafts@.len() > 0 {
                    final(self).selected_draft_index == Some(
                        moved_index(i as int, old(self).drafts@.len() as int, delta as int) as usize,
                    )
                } else {
                    final(self).selected_draft_index == old(self).selected_draft_index
                },
                None => final(self).selected_draft_index == old(self).selected_draft_index,
            },
            *final(self) == (App {
                selected_draft_index: final(self).selected_draft_index,
                ..*old(self)
            }),
    {
        let index = match self.selected_draft_index {
            Some(i) => i,
            None => return ,
        };
        if self.drafts.len() == 0 {
            return ;
        }
        self.selected_draft_index = Some(move_index(index, self.drafts.len(), delta));
    }

    fn open_selected_draft(&mut self)
        ensures
            old(self).draft_at() is Some ==> {
                &&& final(self).state == AppState::QueryEdit
                &&& editor_text(final(self).editor) == text_lines(
                    old(self).draft_at()->0.content@,
                )
                &&& final(self).editor_mode == EditorMode::Normal
                &&& final(self).command_buffer@.len() == 0
                &&& final(self).normal_count_buffer@.len() == 0
                &&& !final(self).completion_open
                &&& is_text(
                    final(self).status_message,
                    "editing "@ + old(self).draft_at()->0.file_name@,
                )
            },
            old(self).draft_at() is None ==> {
                &&& *final(self) == (App { status_message: final(self).status_message, ..*old(self) })
                &&& is_text(final(self).status_message, "no draft selected"@)
            },
            old(self).draft_at() is Some ==> *final(self) == editor_opened(*old(self), *final(self)),
    {
        let (content, file_name) = match self.current_draft() {
            Some(draft) => (draft.content.clone(), draft.file_name.clone()),
            None => {
                self.set_status("no draft selected");
                return ;
            },
        };
        self.editor = Self::new_editor(content);
        self.editor_mode = EditorMode::Normal;
        self.command_buffer = String::new();
        self.normal_count_buffer = String::new();
        self.close_completion();
        self.state = AppState::QueryEdit;
        self.status_message = Some(concat2("editing ", file_name.as_str()));
    }

    // ----- requests that need the caller -----

    /// Asks to save the editor text to the selected draft; `after` says what follows a
    /// successful save.
    fn save_current_editor(&mut self, after: AfterSave) -> (r: Request)
        ensures
            match old(self).draft_at() {
                Some(d) => r matches Request::SaveDraft(path, content) && path == d.path
                    && content@ == joined(editor_text(old(self).editor))
                    && final(self).step == Step::Save(d.file_name, after),
                None => r is Done && is_text(final(self).status_message, "no draft selected"@),
            },
            old(self).draft_at() is Some ==> *final(self) == (App { step: final(self).step, ..*old(self) }),
            old(self).draft_at() is None ==> *final(self) == (App {
                status_message: final(self).status_message,
                ..*old(self)
            }),
    {
        let (path, file_name) = match self.current_draft() {
            Some(draft) => (draft.path.clone(), draft.file_name.clone()),
            None => {
                self.set_status("no draft selected");
                return Request::Done;
            },
        };
        let lines = editor_lines(&self.editor);
        let content = join_lines(&lines);
        assert(lines@.map_values(|l: String| l@) =~= lines_view(lines@));
        self.step = Step::Save(file_name, after);
        Request::SaveDraft(path, content)
    }

    fn delete_selected_draft(&mut self) -> (r: Request)
        ensures
            match old(self).draft_at() {
                Some(d) => r matches Request::DeleteDraft(path) && path == d.path
                    && final(self).step == Step::Delete(d.file_name),
                None => r is Done && is_text(final(self).status_message, "no draft selected"@),
            },
            old(self).draft_at() is Some ==> *final(self) == (App { step: final(self).step, ..*old(self) }),
            old(self).draft_at() is None ==> *final(self) == (App {
                status_message: final(self).status_message,
                ..*old(self)
            }),
    {
        let (path, file_name) = match self.current_draft() {
            Some(draft) => (draft.path.clone(), draft.file_name.clone()),
            None => {
                self.set_status("no draft selected");
                return Request::Done;
            },
        };
        self.step = Step::Delete(file_name);
        Request::DeleteDraft(path)
    }

    /// Starts running `sql` on the selected connection. Blank SQL, or no connection, shows an
    /// error result instead.
    fn start_execution(&mut self, sql: String) -> (r: Request)
        ensures
            execution_started(*old(self), *final(self), sql@, r),
            execution_frame(*old(self), *final(self)),
            final(self).step == old(self).step,
            final(self).should_quit == old(self).should_quit,
            final(self).result_cell_detail_open ==> old(self).result_cell_detail_open,
            final(self).result_view_ok() || final(self).state == AppState::ResultView,
    {
        self.last_sql = sql.clone();
        let sql_chars = chars_of(sql.as_str());
        let trimmed = trim_chars(&sql_chars);
        proof {
            lemma_trim_empty_iff_blank(sql@);
        }
        if trimmed.len() == 0 {
            self.current_result = Some(ExecutionResult::error_from("SQL is empty", 0));
            self.state = AppState::ResultView;
            self.set_status("cannot execute empty SQL");
            return Request::Done;
        }
        let connection = match self.current_connection() {
            Some(c) => c.duplicate(),
            None => {
                self.current_result = Some(ExecutionResult::error_from("No connection selected", 0));
                self.state = AppState::ResultView;
                self.set_status("cannot execute without connection");
                return Request::Done;
            },
        };
        let (sender, handle) = execution_channel();
        let connection_name = connection.name.clone();
        let sql_for_worker = sql.clone();
        self.pending_execution = Some(
            PendingExecution { started_at: now(), connection_name, sql },
        );
        self.execution_handle = Some(handle);
        self.state = AppState::QueryRunning;
        self.current_result = None;
        self.result_row_offset = 0;
        self.result_col_offset = 0;
        self.result_selected_row = 0;
        self.result_selected_col = 0;
        self.result_cell_detail_open = false;
        self.set_status("executing SQL");
        Request::RunQuery(ExecutionJob { connection, sql: sql_for_worker, sender })
    }

    fn start_execution_from_selected_draft(&mut self) -> (r: Request)
        ensures
            r is Done || r is RunQuery,
            final(self).step == old(self).step,
            final(self).should_quit == old(self).should_quit,
            old(self).draft_at() is None ==> r is Done && *final(self) == (App {
                status_message: final(self).status_message,
                ..*old(self)
            }) && is_text(final(self).status_message, "no draft selected"@),
            old(self).draft_at() is Some ==> execution_frame(*old(self), *final(self)),
            old(self).draft_at() is Some ==> execution_started(
                *old(self),
                *final(self),
                old(self).draft_at()->0.content@,
                r,
            ),
    {
        let content = match self.current_draft() {
            Some(draft) => draft.content.clone(),
            None => {
                self.set_status("no draft selected");
                return Request::Done;
            },
        };
        self.start_execution(content)
    }

    fn start_execution_from_editor(&mut self) -> (r: Request)
        ensures
            r is Done || r is RunQuery,
            final(self).step == old(self).step,
            final(self).should_quit == old(self).should_quit,
            execution_started(*old(self), *final(self), joined(editor_text(old(self).editor)), r),
            execution_frame(*old(self), *final(self)),
            final(self).result_view_ok() || final(self).state == AppState::ResultView,
    {
        let lines = editor_lines(&self.editor);
        let sql = join_lines(&lines);
        assert(lines@.map_values(|l: String| l@) =~= lines_view(lines@));
        self.start_execution(sql)
    }

    fn start_metadata_load(&mut self) -> (r: Request)
        ensures
            final(self).state == old(self).state,
            final(self).step == old(self).step,
            final(self).should_quit == old(self).should_quit,
            old(self).metadata_loading || old(self).connection_at() is None ==> r is Done
                && final(self).metadata_loading == old(self).metadata_loading,
            !old(self).metadata_loading && old(self).connection_at() is Some ==> {
                &&& r matches Request::LoadMetadata(job) && job.connection@
                    == old(self).connection_at()->0@
                &&& final(self).metadata_loading
                &&& final(self).metadata_handle is Some
                &&& final(self).metadata_error is None
                &&& is_text(final(self).status_message, "loading database metadata"@)
            },
    {
        if self.metadata_loading {
            return Request::Done;
        }
        let connection = match self.current_connection() {
            Some(c) => c.duplicate(),
            None => return Request::Done,
        };
        let (sender, handle) = metadata_channel();
        self.metadata_loading = true;
        self.metadata_error = None;
        self.metadata_handle = Some(handle);
        self.set_status("loading database metadata");
        Request::LoadMetadata(MetadataJob { connection, sender })
    }

    // ----- background work -----

    /// Takes what the metadata worker sent, or that nothing came yet, or that it is gone.
    pub fn accept_metadata(&mut self, received: Received<Result<DatabaseMetadata, String>>)
        ensures
            metadata_accepted(*old(self), *final(self), received),
    {
        match received {
            Received::Value(Ok(metadata)) => {
                let table_count = metadata.tables.len();
                self.metadata = Some(metadata);
                self.metadata_loading = false;
                self.metadata_error = None;
                self.metadata_handle = None;
                self.status_message = Some(
                    text_with_number("metadata loaded: ", table_count as u128, " tables"),
                );
            },
            Received::Value(Err(error)) => {
                let message = concat2("metadata load failed: ", error.as_str());
                self.metadata = None;
                self.metadata_loading = false;
                self.metadata_error = Some(error);
                self.metadata_handle = None;
                self.status_message = Some(message);
            },
            Received::Empty => {},
            Received::Disconnected => {
                self.metadata_loading = false;
                self.metadata_error = Some(owned("metadata worker disconnected"));
                self.metadata_handle = None;
                self.set_status("metadata worker disconnected");
            },
        }
    }

    /// Takes what the statement's worker sent, or that nothing came yet, or that it is gone
    /// (`elapsed` is the time since the statement started, in milliseconds).
    pub fn accept_execution(&mut self, received: Received<ExecutionResult>, elapsed: u128)
        ensures
            execution_accepted(*old(self), *final(self), received, elapsed),
    {
        match received {
            Received::Value(result) => {
                let summary = match result.kind {
                    ResultKind::Query => text_with_number(
                        "query returned ",
                        result.rows.len() as u128,
                        " rows",
                    ),
                    ResultKind::Command => text_with_number(
                        "statement affected ",
                        match result.affected_rows {
                            Some(n) => n as u128,
                            None => 0,
                        },
                        " rows",
                    ),
                    ResultKind::Error => owned("query failed"),
                };
                self.current_result = Some(result);
                self.execution_handle = None;
                self.pending_execution = None;
                self.last_error = None;
                self.result_row_offset = 0;
                self.result_col_offset = 0;
                self.result_selected_row = 0;
                self.result_selected_col = 0;
                self.result_cell_detail_open = false;
                self.status_message = Some(summary);
                self.state = AppState::ResultView;
            },
            Received::Empty => {},
            Received::Disconnected => {
                self.current_result = Some(
                    ExecutionResult::error_from("query worker disconnected unexpectedly", elapsed),
                );
                self.execution_handle = None;
                self.pending_execution = None;
                self.set_status("query worker disconnected");
                self.state = AppState::ResultView;
            },
        }
    }

    fn poll_metadata(&mut self)
        ensures
            final(self).state == old(self).state,
            final(self).step == old(self).step,
            final(self).should_quit == old(self).should_quit,
            final(self).current_result == old(self).current_result,
            final(self).execution_handle == old(self).execution_handle,
            final(self).pending_execution == old(self).pending_execution,
            final(self).result_row_offset == old(self).result_row_offset,
            final(self).result_col_offset == old(self).result_col_offset,
            final(self).result_selected_row == old(self).result_selected_row,
            final(self).result_selected_col == old(self).result_selected_col,
            final(self).result_visible_rows == old(self).result_visible_rows,
            final(self).result_visible_cols == old(self).result_visible_cols,
            metadata_polled(*old(self), *final(self)),
    {
        let received = match &self.metadata_handle {
            Some(handle) => poll(&handle.receiver),
            None => return ,
        };
        let ghost taken = received;
        self.accept_metadata(received);
        assert(metadata_accepted(*old(self), *self, taken));
    }

    /// Collects the results of background work: metadata at any time, and the statement's
    /// result while one is running.
    pub fn on_tick(&mut self)
        ensures
            allowed_transition(old(self).state, final(self).state),
            final(self).step == old(self).step,
            final(self).should_quit == old(self).should_quit,
            old(self).state != AppState::QueryRunning ==> final(self).state == old(self).state
                && final(self).current_result == old(self).current_result,
            old(self).state == AppState::QueryRunning ==> final(self).state
                == AppState::QueryRunning || final(self).state == AppState::ResultView,
            final(self).state == AppState::ResultView && old(self).state == AppState::QueryRunning
                ==> final(self).execution_handle is None && final(self).pending_execution is None
                && final(self).current_result is Some,
            tick_collected(*old(self), *final(self)),
    {
        self.poll_metadata();
        let ghost polled = *self;
        if self.state != AppState::QueryRunning {
            assert(metadata_polled(*old(self), polled) && execution_polled(polled, *self));
            return ;
        }
        let received = match &self.execution_handle {
            Some(handle) => poll(&handle.receiver),
            None => {
                assert(metadata_polled(*old(self), polled) && execution_polled(polled, *self));
                return ;
            },
        };
        let ghost taken = received;
        let elapsed = match received {
            Received::Disconnected => match &self.pending_execution {
                Some(pending) => elapsed_ms(&pending.started_at),
                None => 0,
            },
            _ => 0,
        };
        self.accept_execution(received, elapsed);
        assert(execution_accepted(polled, *self, taken, elapsed));
        assert(metadata_polled(*old(self), polled) && execution_polled(polled, *self));
    }
}


/// What taking one outcome of the metadata worker does: loaded metadata is kept and counted
/// in the status line, a failure is kept as the metadata error, an empty channel changes
/// nothing, and a vanished worker ends the loading with an error.
pub open spec fn metadata_accepted(
    before: App,
    after: App,
    received: Received<Result<DatabaseMetadata, String>>,
) -> bool {
    match received {
        Received::Value(Ok(md)) => after == (App {
            metadata: Some(md),
            metadata_loading: false,
            metadata_error: None,
            metadata_handle: None,
            status_message: after.status_message,
            ..before
        }) && is_text(after.status_message, "metadata loaded: "@ + decimal(md.tables@.len()) + " tables"@),
        Received::Value(Err(e)) => after == (App {
            metadata: None,
            metadata_loading: false,
            metadata_error: Some(e),
            metadata_handle: None,
            status_message: after.status_message,
            ..before
        }) && is_text(after.status_message, "metadata load failed: "@ + e@),
        Received::Empty => after == before,
        Received::Disconnected => after == (App {
            metadata_loading: false,
            metadata_error: after.metadata_error,
            metadata_handle: None,
            status_message: after.status_message,
            ..before
        }) && is_text(after.metadata_error, "metadata worker disconnected"@) && is_text(
            after.status_message,
            "metadata worker disconnected"@,
        ),
    }
}

/// What taking one outcome of the statement's worker does (`elapsed` is the time since the
/// statement started, in milliseconds): a result is shown on the result screen with its
/// summary, an empty channel changes nothing, and a vanished worker shows an error result.
pub open spec fn execution_accepted(
    before: App,
    after: App,
    received: Received<ExecutionResult>,
    elapsed: u128,
) -> bool {
    match received {
        Received::Value(res) => after == (App {
            current_result: Some(res),
            execution_handle: None,
            pending_execution: None,
            last_error: None,
            result_row_offset: 0,
            result_col_offset: 0,
            result_selected_row: 0,
            result_selected_col: 0,
            result_cell_detail_open: false,
            status_message: after.status_message,
            state: AppState::ResultView,
            ..before
        }) && is_text(after.status_message, run_summary(res)),
        Received::Empty => after == before,
        Received::Disconnected => after == (App {
            current_result: after.current_result,
            execution_handle: None,
            pending_execution: None,
            status_message: after.status_message,
            state: AppState::ResultView,
            ..before
        }) && (after.current_result matches Some(r) && error_result(
            r,
            "query worker disconnected unexpectedly"@,
            elapsed,
        ))
            && is_text(after.status_message, "query worker disconnected"@),
    }
}

/// Polling the metadata worker: with no worker nothing changes; with one, the state is what
/// taking one of its possible outcomes gives.
pub open spec fn metadata_polled(before: App, after: App) -> bool {
    if before.metadata_handle is Some {
        exists|r: Received<Result<DatabaseMetadata, String>>| #[trigger]
            metadata_accepted(before, after, r)
    } else {
        after == before
    }
}

/// Polling the statement's worker: only while a statement runs and its worker is there does
/// anything change, and then the state is what taking one of its possible outcomes gives.
pub open spec fn execution_polled(before: App, after: App) -> bool {
    if before.state == AppState::QueryRunning && before.execution_handle is Some {
        exists|r: Received<ExecutionResult>, elapsed: u128| #[trigger]
            execution_accepted(before, after, r, elapsed)
    } else {
        after == before
    }
}

/// One tick: the metadata worker is polled, then the statement's worker.
pub open spec fn tick_collected(before: App, after: App) -> bool {
    exists|mid: App| #[trigger] metadata_polled(before, mid) && execution_polled(mid, after)
}

/// An error result: the message and the time, and nothing else (no columns, no rows, no
/// affected count, not truncated).
pub open spec fn error_result(res: ExecutionResult, message: Seq<char>, elapsed: u128) -> bool {
    &&& res.kind == ResultKind::Error
    &&& res.elapsed_ms == elapsed
    &&& res.columns@.len() == 0
    &&& res.rows@.len() == 0
    &&& res.affected_rows is None
    &&& is_text(res.error_message, message)
    &&& !res.truncated
}

/// The result screen shows why a statement could not start: it was blank, or no connection was
/// selected.
pub open spec fn start_refused(app: App) -> bool {
    app.current_result matches Some(res) && (error_result(res, "SQL is empty"@, 0) || error_result(
        res,
        "No connection selected"@,
        0,
    ))
}

/// The status line once a statement's result has come in.
pub open spec fn run_summary(res: ExecutionResult) -> Seq<char> {
    match res.kind {
        ResultKind::Query => "query returned "@ + decimal(res.rows@.len()) + " rows"@,
        ResultKind::Command => "statement affected "@ + decimal(
            match res.affected_rows {
                Some(n) => n as nat,
                None => 0,
            },
        ) + " rows"@,
        ResultKind::Error => "query failed"@,
    }
}

/// What starting a statement does: blank SQL, or no connection, shows an error result on the
/// result screen; otherwise the statement is handed to a worker with the selected connection
/// and the running screen is shown.
pub open spec fn execution_started(before: App, after: App, sql: Seq<char>, r: Request) -> bool {
    &&& r is Done || r is RunQuery
    &&& after.last_sql@ == sql
    &&& is_blank(sql) ==> {
        &&& after.state == AppState::ResultView
        &&& r is Done
        &&& after.current_result matches Some(res) && error_result(res, "SQL is empty"@, 0)
        &&& is_text(after.status_message, "cannot execute empty SQL"@)
    }
    &&& !is_blank(sql) && before.connection_at() is None ==> {
        &&& after.state == AppState::ResultView
        &&& r is Done
        &&& after.current_result matches Some(res) && error_result(
            res,
            "No connection selected"@,
            0,
        )
        &&& is_text(after.status_message, "cannot execute without connection"@)
    }
    &&& !is_blank(sql) && before.connection_at() is Some ==> {
        &&& after.state == AppState::QueryRunning
        &&& r matches Request::RunQuery(job) && job.sql@ == sql && job.connection@
            == before.connection_at()->0@
        &&& after.current_result is None
        &&& after.execution_handle is Some
        &&& after.pending_execution matches Some(p) && p.sql@ == sql && p.connection_name@
            == before.connection_at()->0.name@
        &&& after.result_row_offset == 0 && after.result_col_offset == 0
        &&& after.result_selected_row == 0 && after.result_selected_col == 0
        &&& !after.result_cell_detail_open
        &&& after.result_view_ok()
        &&& is_text(after.status_message, "executing SQL"@)
    }
}

/// The screen changes the workbench makes: the main flow Init → QueryList → QueryEdit →
/// QueryRunning → ResultView, back from ResultView to QueryList or QueryEdit, and the shortcuts
/// QueryList → QueryRunning, QueryList → Init and QueryEdit → QueryList. A statement that cannot
/// start (blank SQL, no connection) goes straight to ResultView, and ResultView can run again.
pub open spec fn allowed_transition(from: AppState, to: AppState) -> bool {
    from == to || match (from, to) {
        (AppState::Init, AppState::QueryList) => true,
        (AppState::QueryList, AppState::Init) => true,
        (AppState::QueryList, AppState::QueryEdit) => true,
        (AppState::QueryList, AppState::QueryRunning) => true,
        (AppState::QueryList, AppState::ResultView) => true,
        (AppState::QueryEdit, AppState::QueryList) => true,
        (AppState::QueryEdit, AppState::QueryRunning) => true,
        (AppState::QueryEdit, AppState::ResultView) => true,
        (AppState::QueryRunning, AppState::ResultView) => true,
        (AppState::ResultView, AppState::QueryList) => true,
        (AppState::ResultView, AppState::QueryEdit) => true,
        (AppState::ResultView, AppState::QueryRunning) => true,
        _ => false,
    }
}

/// Requests whose outcome the caller must hand back through `resume`.
pub open spec fn awaits_outcome(r: Request) -> bool {
    match r {
        Request::LoadConfig | Request::ListDrafts | Request::CreateDraft => true,
        Request::DeleteDraft(_) | Request::SaveDraft(_, _) => true,
        _ => false,
    }
}

/// The screen a pending step was started from.
pub open spec fn step_screen_ok(step: Step, state: AppState) -> bool {
    match step {
        Step::Idle => true,
        Step::Startup | Step::StartupDrafts | Step::ReloadConfig | Step::EnterList => state
            == AppState::Init,
        Step::Create | Step::CreateDrafts(_) | Step::Delete(_) | Step::DeleteDrafts(_) => state
            == AppState::QueryList,
        Step::Save(_, _) | Step::SaveDrafts(_, _) => state == AppState::QueryEdit,
    }
}

pub open spec fn char_key(k: KeyCode, c: char) -> bool {
    k == KeyCode::Char(c)
}

impl App {
    fn handle_init_key(&mut self, key: KeyPress) -> (r: Request)
        requires
            old(self).state == AppState::Init,
        ensures
            final(self).state == AppState::Init,
            init_key_effect(*old(self), *final(self), key, r),
            awaits_outcome(r) ==> step_screen_ok(final(self).step, final(self).state),
            !awaits_outcome(r) ==> final(self).step == old(self).step,
    {
        match key.code {
            KeyCode::Char('q') => {
                self.should_quit = true;
                Request::Done
            },
            KeyCode::Char('r') => {
                self.step = Step::ReloadConfig;
                Request::LoadConfig
            },
            KeyCode::Up => {
                self.move_connection_selection(-1);
                Request::Done
            },
            KeyCode::Down => {
                self.move_connection_selection(1);
                Request::Done
            },
            KeyCode::Enter => {
                self.step = Step::EnterList;
                Request::ListDrafts
            },
            _ => Request::Done,
        }
    }

    fn handle_query_list_key(&mut self, key: KeyPress) -> (r: Request)
        requires
            old(self).state == AppState::QueryList,
        ensures
            allowed_transition(old(self).state, final(self).state),
            final(self).state == AppState::ResultView ==> start_refused(*final(self)),
            list_key_effect(*old(self), *final(self), key, r),
            awaits_outcome(r) ==> step_screen_ok(final(self).step, final(self).state),
            !awaits_outcome(r) ==> final(self).step == old(self).step,
    {
        match key.code {
            KeyCode::Esc => {
                self.state = AppState::Init;
                Request::Done
            },
            KeyCode::Up => {
                self.move_draft_selection(-1);
                Request::Done
            },
            KeyCode::Down => {
                self.move_draft_selection(1);
                Request::Done
            },
            KeyCode::Enter => {
                self.open_selected_draft();
                Request::Done
            },
            KeyCode::Char('n') => {
                self.step = Step::Create;
                Request::CreateDraft
            },
            KeyCode::Char('d') => self.delete_selected_draft(),
            KeyCode::F(5) => self.start_execution_from_selected_draft(),
            KeyCode::Char('q') => {
                self.should_quit = true;
                Request::Done
            },
            _ => Request::Done,
        }
    }

    fn handle_query_edit_normal_key(&mut self, key: KeyPress) -> (r: Request)
        requires
            old(self).state == AppState::QueryEdit,
            old(self).editor_mode == EditorMode::Normal,
            !editor_shortcut(key),
        ensures
            normal_mode_effect(*old(self), *final(self), key, r),
            final(self).step == old(self).step,
            normal_edit_effect(*old(self), *final(self), key),
    {
        match key.code {
            KeyCode::Char(value) if '0' <= value && value <= '9' => {
                self.handle_normal_count_digit(value);
            },
            KeyCode::Char('i') => {
                self.normal_count_buffer = String::new();
                self.editor_mode = EditorMode::Insert;
                self.close_completion();
                self.set_status("insert mode");
            },
            KeyCode::Char('a') => {
                self.normal_count_buffer = String::new();
                move_editor_cursor(&mut self.editor, CursorStep::Forward);
                self.editor_mode = EditorMode::Insert;
                self.close_completion();
                self.set_status("append mode");
            },
            KeyCode::Char('o') => {
                self.normal_count_buffer = String::new();
                move_editor_cursor(&mut self.editor, CursorStep::End);
                editor_insert_newline(&mut self.editor);
                self.editor_mode = EditorMode::Insert;
                self.close_completion();
                self.set_status("opened new line");
            },
            KeyCode::Char(':') => {
                self.normal_count_buffer = String::new();
                self.command_buffer = String::new();
                self.close_completion();
                self.editor_mode = EditorMode::Command;
                self.set_status("command mode");
            },
            KeyCode::Char('h') | KeyCode::Left => self.repeat_cursor_move(CursorStep::Back),
            KeyCode::Char('j') | KeyCode::Down => self.repeat_cursor_move(CursorStep::Down),
            KeyCode::Char('k') | KeyCode::Up => self.repeat_cursor_move(CursorStep::Up),
            KeyCode::Char('l') | KeyCode::Right => self.repeat_cursor_move(CursorStep::Forward),
            KeyCode::Home => move_editor_cursor(&mut self.editor, CursorStep::Head),
            KeyCode::Char('$') | KeyCode::End => {
                self.normal_count_buffer = String::new();
                move_editor_cursor(&mut self.editor, CursorStep::End);
            },
            KeyCode::Char('G') => self.handle_goto_line_or_bottom(),
            KeyCode::Char('x') => self.delete_counted_chars(),
            _ => {},
        }
        Request::Done
    }

    fn handle_query_edit_insert_key(&mut self, key: KeyPress) -> (r: Request)
        requires
            old(self).state == AppState::QueryEdit,
            old(self).editor_mode == EditorMode::Insert,
            !editor_shortcut(key),
        ensures
            insert_mode_effect(*old(self), *final(self), key, r),
            final(self).step == old(self).step,
            insert_edit_effect(*old(self), *final(self), key),
    {
        if self.completion_open {
            match key.code {
                KeyCode::Up => {
                    if self.completion_selected_index > 0 {
                        self.completion_selected_index = self.completion_selected_index - 1;
                    }
                    return Request::Done;
                },
                KeyCode::Down => {
                    let last = if self.completion_items.len() > 0 {
                        self.completion_items.len() - 1
                    } else {
                        0
                    };
                    let next = if self.completion_selected_index < usize::MAX {
                        self.completion_selected_index + 1
                    } else {
                        usize::MAX
                    };
                    self.completion_selected_index = if next < last {
                        next
                    } else {
                        last
                    };
                    return Request::Done;
                },
                KeyCode::Tab | KeyCode::Enter => {
                    self.apply_selected_completion();
                    return Request::Done;
                },
                _ => {},
            }
        }
        if key.code == KeyCode::Char(' ') && key.ctrl {
            self.refresh_completion(true);
            return Request::Done;
        }
        if key.code == KeyCode::Enter {
            self.normalize_previous_sql_keyword();
            editor_input(&mut self.editor, key.input);
            self.refresh_completion(false);
            return Request::Done;
        }
        let should_normalize = should_normalize_previous_keyword(key.code);
        editor_input(&mut self.editor, key.input);
        if should_normalize {
            self.normalize_previous_sql_keyword();
        }
        self.refresh_completion(false);
        Request::Done
    }

    /// Runs the `:` command typed in command mode.
    fn execute_editor_command(&mut self) -> (r: Request)
        requires
            old(self).state == AppState::QueryEdit,
        ensures
            command_effect(*old(self), *final(self), r),
            allowed_transition(old(self).state, final(self).state),
            awaits_outcome(r) ==> step_screen_ok(final(self).step, final(self).state),
            !awaits_outcome(r) ==> final(self).step == old(self).step,
    {
        let buffer_chars = chars_of(self.command_buffer.as_str());
        let trimmed_chars = trim_chars(&buffer_chars);
        let trimmed = crate::text::string_from_chars(&trimmed_chars);
        let command = to_ascii_lower(trimmed.as_str());
        self.command_buffer = String::new();
        let c = command.as_str();
        proof {
            reveal_strlit("w");
            reveal_strlit("q");
            reveal_strlit("q!");
            reveal_strlit("wq");
            reveal_strlit("x");
            reveal_strlit("run");
            assert("w"@.len() == 1 && "q"@.len() == 1 && "x"@.len() == 1);
            assert("q!"@.len() == 2 && "wq"@.len() == 2 && "run"@.len() == 3);
            assert("w"@[0] == 'w' && "q"@[0] == 'q' && "x"@[0] == 'x');
            assert("q!"@[0] == 'q' && "wq"@[0] == 'w');
        }
        if str_equal(c, "w") {
            self.editor_mode = EditorMode::Normal;
            self.save_current_editor(AfterSave::Stay)
        } else if str_equal(c, "q") || str_equal(c, "q!") {
            self.editor_mode = EditorMode::Normal;
            self.state = AppState::QueryList;
            self.set_status("returned to draft list");
            Request::Done
        } else if str_equal(c, "wq") || str_equal(c, "x") {
            self.editor_mode = EditorMode::Normal;
            self.save_current_editor(AfterSave::ReturnToList)
        } else if str_equal(c, "run") {
            self.editor_mode = EditorMode::Normal;
            self.save_current_editor(AfterSave::Run)
        } else if c.unicode_len() == 0 {
            self.editor_mode = EditorMode::Normal;
            self.set_status("normal mode");
            Request::Done
        } else {
            self.editor_mode = EditorMode::Normal;
            self.status_message = Some(concat2("unknown command: ", c));
            Request::Done
        }
    }

    fn handle_query_edit_command_key(&mut self, key: KeyPress) -> (r: Request)
        requires
            old(self).state == AppState::QueryEdit,
            old(self).editor_mode == EditorMode::Command,
            !editor_shortcut(key),
        ensures
            allowed_transition(old(self).state, final(self).state),
            command_mode_effect(*old(self), *final(self), key, r),
            awaits_outcome(r) ==> step_screen_ok(final(self).step, final(self).state),
            !awaits_outcome(r) ==> final(self).step == old(self).step,
    {
        match key.code {
            KeyCode::Enter => self.execute_editor_command(),
            KeyCode::Backspace => {
                pop_char(&mut self.command_buffer);
                Request::Done
            },
            KeyCode::Char(value) => {
                if !key.ctrl {
                    push_char(&mut self.command_buffer, value);
                }
                Request::Done
            },
            _ => Request::Done,
        }
    }

    fn handle_query_edit_key(&mut self, key: KeyPress) -> (r: Request)
        requires
            old(self).state == AppState::QueryEdit,
        ensures
            allowed_transition(old(self).state, final(self).state),
            awaits_outcome(r) ==> step_screen_ok(final(self).step, final(self).state),
            !awaits_outcome(r) ==> final(self).step == old(self).step,
            old(self).editor_mode == EditorMode::Insert ==> insert_edit_effect(*old(self), *final(self), key),
            edit_mode_effect(*old(self), *final(self), key, r),
            old(self).editor_mode == EditorMode::Normal ==> normal_edit_effect(*old(self), *final(self), key),
    {
        if key.code == KeyCode::Esc {
            self.leave_editor();
            return Request::Done;
        }
        if key.code == KeyCode::F(5) || (key.code == KeyCode::Char('s') && key.ctrl) {
            self.normal_count_buffer = String::new();
            let then = if key.code == KeyCode::F(5) {
                AfterSave::Run
            } else {
                AfterSave::Stay
            };
            return self.save_current_editor(then);
        }
        match self.editor_mode {
            EditorMode::Normal => self.handle_query_edit_normal_key(key),
            EditorMode::Insert => self.handle_query_edit_insert_key(key),
            EditorMode::Command => self.handle_query_edit_command_key(key),
        }
    }

    /// Goes back from the editor to the draft list, in normal mode with nothing typed.
    fn leave_editor(&mut self)
        ensures
            final(self).state == AppState::QueryList,
            final(self).editor_mode == EditorMode::Normal,
            final(self).normal_count_buffer@.len() == 0,
            final(self).command_buffer@.len() == 0,
            !final(self).completion_open,
            is_text(final(self).status_message, "returned to draft list"@),
            final(self).editor == old(self).editor,
            final(self).step == old(self).step,
            final(self).should_quit == old(self).should_quit,
    {
        self.normal_count_buffer = String::new();
        self.command_buffer = String::new();
        self.close_completion();
        self.editor_mode = EditorMode::Normal;
        self.state = AppState::QueryList;
        self.set_status("returned to draft list");
    }
}


impl App {
    // ----- the result screen -----

    fn max_row_offset(&self) -> (r: usize)
        ensures
            r == max_offset(self.rows_total(), self.result_visible_rows as int),
    {
        let (rows, _) = self.result_counts();
        let v = if self.result_visible_rows >= 1 {
            self.result_visible_rows
        } else {
            1
        };
        if rows > v {
            rows - v
        } else {
            0
        }
    }

    fn max_col_offset(&self) -> (r: usize)
        ensures
            r == max_offset(self.cols_total(), self.result_visible_cols as int),
    {
        let (_, cols) = self.result_counts();
        let v = if self.result_visible_cols >= 1 {
            self.result_visible_cols
        } else {
            1
        };
        if cols > v {
            cols - v
        } else {
            0
        }
    }

    fn max_selected_row(&self) -> (r: usize)
        ensures
            r == max_selected(self.rows_total()),
    {
        let (rows, _) = self.result_counts();
        if rows > 1 {
            rows - 1
        } else {
            0
        }
    }

    fn max_selected_col(&self) -> (r: usize)
        ensures
            r == max_selected(self.cols_total()),
    {
        let (_, cols) = self.result_counts();
        if cols > 1 {
            cols - 1
        } else {
            0
        }
    }

    /// `row_offset + delta`, at most the last offset that fills the window.
    fn next_row_offset(&self, delta: usize) -> (r: usize)
        ensures
            r == crate::nav::min(
                if self.result_row_offset + delta <= usize::MAX {
                    self.result_row_offset + delta
                } else {
                    usize::MAX as int
                },
                max_offset(self.rows_total(), self.result_visible_rows as int),
            ),
    {
        let sum = if self.result_row_offset <= usize::MAX - delta {
            self.result_row_offset + delta
        } else {
            usize::MAX
        };
        let m = self.max_row_offset();
        if sum <= m {
            sum
        } else {
            m
        }
    }

    fn next_col_offset(&self, delta: usize) -> (r: usize)
        ensures
            r == crate::nav::min(
                if self.result_col_offset + delta <= usize::MAX {
                    self.result_col_offset + delta
                } else {
                    usize::MAX as int
                },
                max_offset(self.cols_total(), self.result_visible_cols as int),
            ),
    {
        let sum = if self.result_col_offset <= usize::MAX - delta {
            self.result_col_offset + delta
        } else {
            usize::MAX
        };
        let m = self.max_col_offset();
        if sum <= m {
            sum
        } else {
            m
        }
    }

    fn move_result_selection_up(&mut self)
        ensures
            final(self).result_selected_row == sat_sub(old(self).result_selected_row as int, 1),
            final(self).result_row_offset == step_back_offset(
                old(self).result_row_offset as int,
                old(self).result_selected_row as int,
            ),
            *final(self) == (App {
                result_selected_row: final(self).result_selected_row,
                result_row_offset: final(self).result_row_offset,
                ..*old(self)
            }),
    {
        if self.result_selected_row == 0 {
            return ;
        }
        self.result_selected_row = self.result_selected_row - 1;
        if self.result_selected_row < self.result_row_offset {
            self.result_row_offset = self.result_selected_row;
        }
    }

    fn move_result_selection_down(&mut self)
        ensures
            final(self).result_selected_row == if old(self).result_selected_row < max_selected(
                old(self).rows_total(),
            ) {
                old(self).result_selected_row + 1
            } else {
                old(self).result_selected_row as int
            },
            final(self).result_row_offset == step_on_offset(
                old(self).result_row_offset as int,
                old(self).result_selected_row as int,
                old(self).rows_total(),
                old(self).result_visible_rows as int,
            ),
            *final(self) == (App {
                result_selected_row: final(self).result_selected_row,
                result_row_offset: final(self).result_row_offset,
                ..*old(self)
            }),
    {
        let max_selected = self.max_selected_row();
        if self.result_selected_row >= max_selected {
            return ;
        }
        self.result_selected_row = self.result_selected_row + 1;
        let v = if self.result_visible_rows >= 1 {
            self.result_visible_rows
        } else {
            1
        };
        let window_end = if self.result_row_offset <= usize::MAX - v {
            self.result_row_offset + v
        } else {
            usize::MAX
        };
        if self.result_selected_row >= window_end {
            self.result_row_offset = self.next_row_offset(1);
        }
    }

    fn move_result_selection_left(&mut self)
        ensures
            final(self).result_selected_col == sat_sub(old(self).result_selected_col as int, 1),
            final(self).result_col_offset == step_back_offset(
                old(self).result_col_offset as int,
                old(self).result_selected_col as int,
            ),
            *final(self) == (App {
                result_selected_col: final(self).result_selected_col,
                result_col_offset: final(self).result_col_offset,
                ..*old(self)
            }),
    {
        if self.result_selected_col == 0 {
            return ;
        }
        self.result_selected_col = self.result_selected_col - 1;
        if self.result_selected_col < self.result_col_offset {
            self.result_col_offset = self.result_selected_col;
        }
    }

    fn move_result_selection_right(&mut self)
        ensures
            final(self).result_selected_col == if old(self).result_selected_col < max_selected(
                old(self).cols_total(),
            ) {
                old(self).result_selected_col + 1
            } else {
                old(self).result_selected_col as int
            },
            final(self).result_col_offset == step_on_offset(
                old(self).result_col_offset as int,
                old(self).result_selected_col as int,
                old(self).cols_total(),
                old(self).result_visible_cols as int,
            ),
            *final(self) == (App {
                result_selected_col: final(self).result_selected_col,
                result_col_offset: final(self).result_col_offset,
                ..*old(self)
            }),
    {
        let max_selected = self.max_selected_col();
        if self.result_selected_col >= max_selected {
            return ;
        }
        self.result_selected_col = self.result_selected_col + 1;
        let v = if self.result_visible_cols >= 1 {
            self.result_visible_cols
        } else {
            1
        };
        let window_end = if self.result_col_offset <= usize::MAX - v {
            self.result_col_offset + v
        } else {
            usize::MAX
        };
        if self.result_selected_col >= window_end {
            self.result_col_offset = self.next_col_offset(1);
        }
    }

    #[verifier::rlimit(40)]
    fn handle_result_view_key(&mut self, key: KeyPress) -> (r: Request)
        requires
            old(self).state == AppState::ResultView,
        ensures
            allowed_transition(old(self).state, final(self).state),
            !awaits_outcome(r),
            final(self).step == old(self).step,
            result_key_effect(*old(self), *final(self), key, r),
    {
        if self.result_cell_detail_open {
            match key.code {
                KeyCode::Esc | KeyCode::Enter => {
                    self.result_cell_detail_open = false;
                },
                KeyCode::Char('q') => self.should_quit = true,
                _ => {},
            }
            return Request::Done;
        }
        let mut request = Request::Done;
        let v = if self.result_visible_rows >= 1 {
            self.result_visible_rows
        } else {
            1
        };
        match key.code {
            KeyCode::Esc => self.state = AppState::QueryList,
            KeyCode::Enter => {
                if self.current_result_cell().is_some() {
                    self.result_cell_detail_open = true;
                }
            },
            KeyCode::Char('e') => {
                if self.selected_draft_index.is_some() {
                    self.editor_mode = EditorMode::Normal;
                    self.command_buffer = String::new();
                    self.state = AppState::QueryEdit;
                }
            },
            KeyCode::Char('r') => {
                let sql = self.last_sql.clone();
                request = self.start_execution(sql);
            },
            KeyCode::Up => self.move_result_selection_up(),
            KeyCode::Down => self.move_result_selection_down(),
            KeyCode::Left => self.move_result_selection_left(),
            KeyCode::Right => self.move_result_selection_right(),
            KeyCode::PageUp => {
                self.result_row_offset = if self.result_row_offset > v {
                    self.result_row_offset - v
                } else {
                    0
                };
                self.result_selected_row = if self.result_selected_row > v {
                    self.result_selected_row - v
                } else {
                    0
                };
            },
            KeyCode::PageDown => {
                let next_offset = self.next_row_offset(v);
                let shift = if next_offset > self.result_row_offset {
                    next_offset - self.result_row_offset
                } else {
                    0
                };
                self.result_row_offset = next_offset;
                let moved = if self.result_selected_row <= usize::MAX - shift {
                    self.result_selected_row + shift
                } else {
                    usize::MAX
                };
                let max_selected = self.max_selected_row();
                self.result_selected_row = if moved <= max_selected {
                    moved
                } else {
                    max_selected
                };
            },
            KeyCode::Home => {
                self.result_row_offset = 0;
                self.result_col_offset = 0;
                self.result_selected_row = 0;
                self.result_selected_col = 0;
            },
            KeyCode::End => {
                self.result_row_offset = self.max_row_offset();
                self.result_col_offset = self.max_col_offset();
                self.result_selected_row = self.max_selected_row();
                self.result_selected_col = self.max_selected_col();
            },
            KeyCode::Char('q') => self.should_quit = true,
            _ => {},
        }
        self.normalize_result_selection();
        request
    }

    // ----- dispatch -----

    /// Handles one key press on the current screen. A returned request other than `Done` is
    /// for the caller to perform; those that produce an outcome are answered through `resume`.
    pub fn handle_key_event(&mut self, key: KeyPress) -> (r: Request)
        ensures
            allowed_transition(old(self).state, final(self).state),
            awaits_outcome(r) ==> step_screen_ok(final(self).step, final(self).state),
            !awaits_outcome(r) ==> final(self).step == old(self).step,
            char_key(key.code, 'q') && (old(self).state == AppState::Init || old(self).state
                == AppState::QueryList || old(self).state == AppState::QueryRunning || old(self).state == AppState::ResultView) ==> final(self).should_quit,
            old(self).state == AppState::ResultView && !old(self).result_cell_detail_open ==> final(self).result_view_ok(),
            old(self).state == AppState::QueryRunning ==> r is Done && *final(self) == (App {
                should_quit: old(self).should_quit || char_key(key.code, 'q'),
                ..*old(self)
            }),
            old(self).state == AppState::QueryList && final(self).state == AppState::ResultView
                ==> start_refused(*final(self)),
            old(self).state == AppState::QueryEdit ==> final(self).state == AppState::QueryEdit
                || final(self).state == AppState::QueryList,
            old(self).state == AppState::Init ==> init_key_effect(*old(self), *final(self), key, r),
            old(self).state == AppState::QueryList ==> list_key_effect(
                *old(self),
                *final(self),
                key,
                r,
            ),
            old(self).state == AppState::ResultView ==> result_key_effect(
                *old(self),
                *final(self),
                key,
                r,
            ),
            old(self).state == AppState::QueryEdit ==> edit_mode_effect(
                *old(self),
                *final(self),
                key,
                r,
            ),
            old(self).state == AppState::QueryEdit && old(self).editor_mode == EditorMode::Insert
                ==> insert_edit_effect(*old(self), *final(self), key),
            old(self).state == AppState::QueryEdit && old(self).editor_mode == EditorMode::Normal
                ==> normal_edit_effect(*old(self), *final(self), key),
            old(self).state == AppState::QueryList && key.code == KeyCode::Enter
                && old(self).draft_at() is Some ==> final(self).state == AppState::QueryEdit
                && editor_text(final(self).editor) == text_lines(
                old(self).draft_at()->0.content@,
            ),
    {
        match self.state {
            AppState::Init => self.handle_init_key(key),
            AppState::QueryList => self.handle_query_list_key(key),
            AppState::QueryEdit => self.handle_query_edit_key(key),
            AppState::QueryRunning => {
                if key.code == KeyCode::Char('q') {
                    self.should_quit = true;
                }
                Request::Done
            },
            AppState::ResultView => self.handle_result_view_key(key),
        }
    }

    /// The editor commands offered for what has been typed in command mode.
    pub fn command_hints(&self) -> (r: Vec<&'static str>)
        ensures
            r@.map_values(|s: &str| s@) == completion::hint_list(
                completion::command_list(),
                lower(self.command_buffer@),
            ),
    {
        completion::command_hints(self.command_buffer.as_str())
    }
}


/// Whether an outcome answers the step the workbench is waiting on.
pub open spec fn answers(step: Step, outcome: Outcome) -> bool {
    match (step, outcome) {
        (Step::Startup, Outcome::ConfigLoaded(_)) => true,
        (Step::ReloadConfig, Outcome::ConfigLoaded(_)) => true,
        (Step::StartupDrafts, Outcome::DraftsListed(_)) => true,
        (Step::EnterList, Outcome::DraftsListed(_)) => true,
        (Step::CreateDrafts(_), Outcome::DraftsListed(_)) => true,
        (Step::DeleteDrafts(_), Outcome::DraftsListed(_)) => true,
        (Step::SaveDrafts(_, _), Outcome::DraftsListed(_)) => true,
        (Step::Create, Outcome::DraftCreated(_)) => true,
        (Step::Delete(_), Outcome::DraftDeleted(_)) => true,
        (Step::Save(_, _), Outcome::DraftSaved(_)) => true,
        _ => false,
    }
}

impl App {
    /// Selects the draft named `file_name`, or the first entry when it is not listed.
    fn select_draft_named(&mut self, file_name: &str)
        ensures
            final(self).selected_draft_index == match draft_position(old(self).drafts@, file_name@, 0) {
                Some(i) => Some(i as usize),
                None => Some(0usize),
            },
            *final(self) == (App {
                selected_draft_index: final(self).selected_draft_index,
                ..*old(self)
            }),
    {
        self.selected_draft_index = match find_draft(&self.drafts, file_name) {
            Some(i) => Some(i),
            None => Some(0),
        };
    }

    /// Goes on with the step the workbench was waiting on, given the caller's outcome. An
    /// outcome that does not answer the pending step is dropped.
    pub fn resume(&mut self, outcome: Outcome) -> (r: Request)
        ensures
            step_screen_ok(old(self).step, old(self).state) ==> allowed_transition(
                old(self).state,
                final(self).state,
            ),
            step_screen_ok(old(self).step, old(self).state) && awaits_outcome(r) ==> step_screen_ok(
                final(self).step,
                final(self).state,
            ),
            awaits_outcome(r) ==> !(final(self).step is Idle),
            !awaits_outcome(r) ==> final(self).step is Idle,
            !answers(old(self).step, outcome) ==> r is Done && final(self).state == old(self).state,
            old(self).step is Startup ==> match outcome {
                Outcome::ConfigLoaded(loaded) => r is ListDrafts && final(self).step is StartupDrafts
                    && config_reloaded(*old(self), *final(self), loaded),
                _ => true,
            },
            old(self).step is ReloadConfig ==> match outcome {
                Outcome::ConfigLoaded(loaded) => r is Done && config_reloaded(
                    *old(self),
                    *final(self),
                    loaded,
                ),
                _ => true,
            },
            old(self).step is StartupDrafts ==> match outcome {
                Outcome::DraftsListed(listed) => r is Done && drafts_taken(
                    *old(self),
                    *final(self),
                    listed,
                ) && final(self).last_error == match listed {
                    Ok(_) => if old(self).config is None {
                        old(self).last_error
                    } else {
                        None
                    },
                    Err(e) => Some(e),
                },
                _ => true,
            },
            old(self).state != AppState::ResultView && final(self).state == AppState::ResultView
                ==> start_refused(*final(self)),
            old(self).step is EnterList && outcome is DraftsListed ==> final(self).state
                == AppState::QueryList && is_text(
                final(self).status_message,
                "entered draft list"@,
            ),
            old(self).step is Create ==> match outcome {
                Outcome::DraftCreated(Ok(d)) => r is ListDrafts && final(self).step
                    == Step::CreateDrafts(d.file_name),
                Outcome::DraftCreated(Err(e)) => r is Done && final(self).last_error == Some(e)
                    && is_text(final(self).status_message, "failed to create draft"@),
                _ => true,
            },
            old(self).step is CreateDrafts ==> match outcome {
                Outcome::DraftsListed(listed) => {
                    &&& listed matches Ok(list) ==> final(self).drafts@ == list@
                    &&& final(self).selected_draft_index == Some(
                        match draft_position(final(self).drafts@, old(self).step->CreateDrafts_0@, 0) {
                            Some(i) => i as usize,
                            None => 0usize,
                        },
                    )
                    &&& editor_text(final(self).editor) == seq![Seq::<char>::empty()]
                },
                _ => true,
            },
            old(self).step is CreateDrafts && outcome is DraftsListed ==> final(self).state
                == AppState::QueryEdit && final(self).editor_mode == EditorMode::Normal
                && final(self).last_error is None && final(self).selected_draft_index is Some
                && is_text(
                final(self).status_message,
                "created "@ + old(self).step->CreateDrafts_0@,
            ),
            old(self).step is Delete ==> match outcome {
                Outcome::DraftDeleted(Ok(())) => r is ListDrafts && final(self).step
                    == Step::DeleteDrafts(old(self).step->Delete_0),
                Outcome::DraftDeleted(Err(e)) => r is Done && final(self).last_error == Some(e)
                    && is_text(final(self).status_message, "failed to delete draft"@),
                _ => true,
            },
            old(self).step is DeleteDrafts && outcome is DraftsListed ==> final(self).last_error
                is None && is_text(
                final(self).status_message,
                "deleted "@ + old(self).step->DeleteDrafts_0@,
            ),
            old(self).step is Save ==> match outcome {
                Outcome::DraftSaved(Ok(())) => r is ListDrafts && final(self).step
                    == Step::SaveDrafts(old(self).step->Save_0, old(self).step->Save_1),
                Outcome::DraftSaved(Err(e)) => r is Done && final(self).last_error == Some(e)
                    && final(self).state == old(self).state && is_text(
                    final(self).status_message,
                    "failed to save draft"@,
                ),
                _ => true,
            },
            old(self).step is SaveDrafts && outcome is DraftsListed ==> {
                let after = old(self).step->SaveDrafts_1;
                &&& after == AfterSave::Stay ==> r is Done && final(self).state == old(self).state
                    && final(self).last_error is None && is_text(
                    final(self).status_message,
                    "saved "@ + old(self).step->SaveDrafts_0@,
                )
                &&& after == AfterSave::ReturnToList ==> r is Done && final(self).state
                    == AppState::QueryList && is_text(
                    final(self).status_message,
                    "saved and returned to draft list"@,
                )
                &&& after == AfterSave::Run ==> execution_started(
                    *old(self),
                    *final(self),
                    joined(editor_text(old(self).editor)),
                    r,
                )
            },
    {
        let mut step = Step::Idle;
        std::mem::swap(&mut step, &mut self.step);
        match step {
            Step::Startup => match outcome {
                Outcome::ConfigLoaded(loaded) => {
                    self.reload_config(loaded);
                    self.step = Step::StartupDrafts;
                    Request::ListDrafts
                },
                _ => Request::Done,
            },
            Step::ReloadConfig => match outcome {
                Outcome::ConfigLoaded(loaded) => {
                    self.reload_config(loaded);
                    Request::Done
                },
                _ => Request::Done,
            },
            Step::StartupDrafts => match outcome {
                Outcome::DraftsListed(listed) => {
                    let config_failed = self.config.is_none();
                    let config_error = match &self.last_error {
                        Some(e) => Some(e.clone()),
                        None => None,
                    };
                    let listed_ok = match &listed {
                        Ok(_) => true,
                        Err(_) => false,
                    };
                    self.reload_drafts(listed);
                    if config_failed && listed_ok {
                        self.last_error = config_error;
                    }
                    Request::Done
                },
                _ => Request::Done,
            },
            Step::EnterList => match outcome {
                Outcome::DraftsListed(listed) => {
                    self.reload_drafts(listed);
                    let request = self.start_metadata_load();
                    self.state = AppState::QueryList;
                    self.set_status("entered draft list");
                    request
                },
                _ => Request::Done,
            },
            Step::Create => match outcome {
                Outcome::DraftCreated(Ok(created)) => {
                    self.step = Step::CreateDrafts(created.file_name);
                    Request::ListDrafts
                },
                Outcome::DraftCreated(Err(error)) => {
                    self.last_error = Some(error);
                    self.set_status("failed to create draft");
                    Request::Done
                },
                _ => Request::Done,
            },
            Step::CreateDrafts(file_name) => match outcome {
                Outcome::DraftsListed(listed) => {
                    self.reload_drafts(listed);
                    self.select_draft_named(file_name.as_str());
                    self.editor = Self::new_editor(String::new());
                    self.editor_mode = EditorMode::Normal;
                    self.command_buffer = String::new();
                    self.normal_count_buffer = String::new();
                    self.close_completion();
                    self.state = AppState::QueryEdit;
                    self.last_error = None;
                    self.status_message = Some(concat2("created ", file_name.as_str()));
                    Request::Done
                },
                _ => Request::Done,
            },
            Step::Delete(file_name) => match outcome {
                Outcome::DraftDeleted(Ok(())) => {
                    self.step = Step::DeleteDrafts(file_name);
                    Request::ListDrafts
                },
                Outcome::DraftDeleted(Err(error)) => {
                    self.last_error = Some(error);
                    self.set_status("failed to delete draft");
                    Request::Done
                },
                _ => Request::Done,
            },
            Step::DeleteDrafts(file_name) => match outcome {
                Outcome::DraftsListed(listed) => {
                    self.reload_drafts(listed);
                    self.last_error = None;
                    self.status_message = Some(concat2("deleted ", file_name.as_str()));
                    Request::Done
                },
                _ => Request::Done,
            },
            Step::Save(file_name, after) => match outcome {
                Outcome::DraftSaved(Ok(())) => {
                    self.step = Step::SaveDrafts(file_name, after);
                    Request::ListDrafts
                },
                Outcome::DraftSaved(Err(error)) => {
                    self.last_error = Some(error);
                    self.set_status("failed to save draft");
                    Request::Done
                },
                _ => Request::Done,
            },
            Step::SaveDrafts(file_name, after) => match outcome {
                Outcome::DraftsListed(listed) => {
                    self.reload_drafts(listed);
                    self.select_draft_named(file_name.as_str());
                    self.last_error = None;
                    self.status_message = Some(concat2("saved ", file_name.as_str()));
                    match after {
                        AfterSave::Stay => Request::Done,
                        AfterSave::Run => self.start_execution_from_editor(),
                        AfterSave::ReturnToList => {
                            self.state = AppState::QueryList;
                            self.set_status("saved and returned to draft list");
                            Request::Done
                        },
                    }
                },
                _ => Request::Done,
            },
            Step::Idle => Request::Done,
        }
    }
}

} // verus!
