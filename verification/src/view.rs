//! The text the screens show: screen names, masked passwords, shortened values, the header
//! and status lines of the result grid, and the arithmetic of its column widths.

use vstd::prelude::*;

use crate::model::{
    AppState, ConnectionProfile, DraftEntry, ExecutionResult, PendingExecution, ResultKind,
};
use crate::nav::{at_least_one, min, sat_sub};
use crate::text::{
    chars_of, concat2, decimal, decimal_string, owned, push_char, string_from_chars,
    string_from_range, trim, trim_chars,
};

verus! {

/// The name shown for the selected connection, or `NO-LINK` when there is none.
pub fn connection_label<'a>(connection: Option<&'a ConnectionProfile>) -> (r: &'a str)
    ensures
        r@ == match connection {
            Some(c) => c.name@,
            None => "NO-LINK"@,
        },
{
    match connection {
        Some(c) => c.name.as_str(),
        None => "NO-LINK",
    }
}

/// The connection named in the result screen's status line, or `<none>` when there is none.
pub fn result_connection_label<'a>(connection: Option<&'a ConnectionProfile>) -> (r: &'a str)
    ensures
        r@ == match connection {
            Some(c) => c.name@,
            None => "<none>"@,
        },
{
    match connection {
        Some(c) => c.name.as_str(),
        None => "<none>",
    }
}

/// The connection and statement shown while a statement runs, or placeholders when none is
/// pending.
pub fn running_labels<'a>(pending: Option<&'a PendingExecution>) -> (r: (&'a str, &'a str))
    ensures
        r.0@ == match pending {
            Some(p) => p.connection_name@,
            None => "No connection"@,
        },
        r.1@ == match pending {
            Some(p) => p.sql@,
            None => "No SQL queued"@,
        },
{
    match pending {
        Some(p) => (p.connection_name.as_str(), p.sql.as_str()),
        None => ("No connection", "No SQL queued"),
    }
}

/// The status bar's text: the status message, else the last error, else `Ready`.
pub fn status_text<'a>(status: Option<&'a str>, error: Option<&'a str>) -> (r: &'a str)
    ensures
        r@ == match status {
            Some(s) => s@,
            None => match error {
                Some(e) => e@,
                None => "Ready"@,
            },
        },
{
    match status {
        Some(s) => s,
        None => match error {
            Some(e) => e,
            None => "Ready",
        },
    }
}

/// The file name shown for the draft being edited, or `<unsaved>` when there is none.
pub fn draft_label<'a>(draft: Option<&'a DraftEntry>) -> (r: &'a str)
    ensures
        r@ == match draft {
            Some(d) => d.file_name@,
            None => "<unsaved>"@,
        },
{
    match draft {
        Some(d) => d.file_name.as_str(),
        None => "<unsaved>",
    }
}

/// What the result screen shows before any statement has run.
pub fn no_result_text() -> (r: &'static str)
    ensures
        r@ == "No result"@,
{
    "No result"
}

/// The message shown for an error result, or `Unknown error` when it carries none.
pub fn error_detail(message: Option<&str>) -> (r: String)
    ensures
        r@ == match message {
            Some(m) => m@,
            None => "Unknown error"@,
        },
{
    match message {
        Some(m) => owned(m),
        None => owned("Unknown error"),
    }
}

/// The header row of the result grid: `#` over the row numbers, then the column names.
pub fn grid_headings(headers: &Vec<String>) -> (r: Vec<String>)
    ensures
        r@.len() == headers@.len() + 1,
        r@[0]@ == "#"@,
        forall|i: int| 0 <= i < headers@.len() ==> #[trigger] r@[i + 1]@ == headers@[i]@,
{
    let mut r: Vec<String> = Vec::new();
    r.push(owned("#"));
    let mut i: usize = 0;
    while i < headers.len()
        invariant
            i <= headers@.len(),
            r@.len() == i + 1,
            r@[0]@ == "#"@,
            forall|k: int| 0 <= k < i ==> #[trigger] r@[k + 1]@ == headers@[k]@,
        decreases headers@.len() - i,
    {
        r.push(headers[i].clone());
        i += 1;
    }
    r
}

/// The line under the result grid: a warning when the result was cut to its first rows.
pub open spec fn grid_footer_text(truncated: bool) -> Seq<char> {
    if truncated {
        "WARN result truncated to first 200 rows | ENTER cell detail"@
    } else {
        "ENTER cell detail"@
    }
}

pub fn grid_footer(truncated: bool) -> (r: &'static str)
    ensures
        r@ == grid_footer_text(truncated),
{
    if truncated {
        "WARN result truncated to first 200 rows | ENTER cell detail"
    } else {
        "ENTER cell detail"
    }
}

/// What the draft list previews: the selected draft's text, or a placeholder when no draft is
/// selected or its text is empty.
pub open spec fn preview_text(content: Option<Seq<char>>) -> Seq<char> {
    match content {
        Some(c) => if c.len() > 0 {
            c
        } else {
            "Draft preview will appear here."@
        },
        None => "Draft preview will appear here."@,
    }
}

pub fn draft_preview(content: Option<&str>) -> (r: String)
    ensures
        r@ == preview_text(
            match content {
                Some(c) => Some(c@),
                None => None,
            },
        ),
{
    match content {
        Some(c) => if c.unicode_len() > 0 {
            owned(c)
        } else {
            owned("Draft preview will appear here.")
        },
        None => owned("Draft preview will appear here."),
    }
}

pub open spec fn state_name_text(state: AppState) -> Seq<char> {
    match state {
        AppState::Init => "INIT"@,
        AppState::QueryList => "QUERY LIST"@,
        AppState::QueryEdit => "QUERY EDIT"@,
        AppState::QueryRunning => "QUERY RUNNING"@,
        AppState::ResultView => "RESULT VIEW"@,
    }
}

pub open spec fn state_phrase_text(state: AppState) -> Seq<char> {
    match state {
        AppState::Init => "BOOT SEQUENCE"@,
        AppState::QueryList => "QUERY BUFFER"@,
        AppState::QueryEdit => "COMMAND COMPOSER"@,
        AppState::QueryRunning => "EXECUTION CORE ACTIVE"@,
        AppState::ResultView => "DATA MATRIX"@,
    }
}

/// The screen's name in the title bar.
pub fn state_name(state: &AppState) -> (r: &'static str)
    ensures
        r@ == state_name_text(*state),
{
    match state {
        AppState::Init => "INIT",
        AppState::QueryList => "QUERY LIST",
        AppState::QueryEdit => "QUERY EDIT",
        AppState::QueryRunning => "QUERY RUNNING",
        AppState::ResultView => "RESULT VIEW",
    }
}

/// The phrase shown beside the screen's name.
pub fn state_phrase(state: &AppState) -> (r: &'static str)
    ensures
        r@ == state_phrase_text(*state),
{
    match state {
        AppState::Init => "BOOT SEQUENCE",
        AppState::QueryList => "QUERY BUFFER",
        AppState::QueryEdit => "COMMAND COMPOSER",
        AppState::QueryRunning => "EXECUTION CORE ACTIVE",
        AppState::ResultView => "DATA MATRIX",
    }
}

pub open spec fn masked(password: Seq<char>) -> Seq<char> {
    if password.len() == 0 {
        "<empty>"@
    } else {
        Seq::new(min(password.len() as int, 12) as nat, |i: int| '*')
    }
}

/// A password as shown: `<empty>` when there is none, else one `*` per character, at most 12.
pub fn mask_password(password: &str) -> (r: String)
    ensures
        r@ == masked(password@),
{
    let n = password.unicode_len();
    if n == 0 {
        return owned("<empty>");
    }
    let stars = if n < 12 {
        n
    } else {
        12
    };
    let mut r = String::new();
    let mut k: usize = 0;
    while k < stars
        invariant
            k <= stars,
            r@ == Seq::new(k as nat, |i: int| '*'),
        decreases stars - k,
    {
        push_char(&mut r, '*');
        assert(r@ =~= Seq::new((k + 1) as nat, |i: int| '*'));
        k += 1;
    }
    assert(r@ =~= masked(password@));
    r
}

/// `value` when it has at most `max_len` characters, else its first `max_len - 3` characters
/// (none when `max_len < 3`) followed by `...`.
pub open spec fn shortened(value: Seq<char>, max_len: int) -> Seq<char> {
    if value.len() <= max_len {
        value
    } else {
        value.take(sat_sub(max_len, 3)) + "..."@
    }
}

/// A value cut to fit `max_len` characters, with `...` marking the cut.
pub fn shorten(value: &str, max_len: usize) -> (r: String)
    ensures
        r@ == shortened(value@, max_len as int),
{
    let chars = chars_of(value);
    if chars.len() <= max_len {
        return owned(value);
    }
    let keep = if max_len > 3 {
        max_len - 3
    } else {
        0
    };
    let head = string_from_range(&chars, 0, keep);
    let r = concat2(head.as_str(), "...");
    assert(chars@.subrange(0, keep as int) =~= value@.take(keep as int));
    r
}

/// A cell value cut to fit its column (the same rule as `shorten`).
pub fn truncate_cell(value: &str, max_len: usize) -> (r: String)
    ensures
        r@ == shortened(value@, max_len as int),
{
    shorten(value, max_len)
}

/// The 1-based number of the first visible line, or 0 when there are none.
pub fn visible_range_start(total: usize, offset: usize) -> (r: usize)
    requires
        total == 0 || offset < usize::MAX,
    ensures
        r == if total == 0 {
            0
        } else {
            offset + 1
        },
{
    if total == 0 {
        0
    } else {
        offset + 1
    }
}

/// The 1-based number of the last visible line, or 0 when there are none.
pub fn visible_range_end(total: usize, offset: usize, page_size: usize) -> (r: usize)
    requires
        offset + page_size <= usize::MAX,
    ensures
        r == if total == 0 {
            0
        } else {
            min(offset + page_size, total as int)
        },
{
    if total == 0 {
        0
    } else if offset + page_size <= total {
        offset + page_size
    } else {
        total
    }
}

/// How many result columns fit in an area `width` cells wide, starting at column `offset`:
/// one per 14 cells after a 10-cell margin (at least one), and no more than remain.
pub open spec fn column_capacity(total: int, offset: int, width: int) -> int {
    let remaining = sat_sub(total, offset);
    if remaining == 0 {
        0
    } else {
        min(remaining, at_least_one(sat_sub(width, 10) / 14))
    }
}

pub fn visible_column_capacity(total_columns: usize, col_offset: usize, width: u16) -> (r: usize)
    ensures
        r == column_capacity(total_columns as int, col_offset as int, width as int),
{
    let remaining = if total_columns > col_offset {
        total_columns - col_offset
    } else {
        0
    };
    if remaining == 0 {
        return 0;
    }
    let usable: usize = if width > 10 {
        (width - 10) as usize
    } else {
        0
    };
    let estimated = if usable / 14 >= 1 {
        usable / 14
    } else {
        1
    };
    if remaining <= estimated {
        remaining
    } else {
        estimated
    }
}

/// The number of characters a cell of a column `width` cells wide may show: one less than the
/// width, at least 4.
pub fn width_to_cell_len(width: u16) -> (r: usize)
    ensures
        r == if width as int - 1 >= 4 {
            width as int - 1
        } else {
            4
        },
{
    let w = if width > 0 {
        (width - 1) as usize
    } else {
        0
    };
    if w >= 4 {
        w
    } else {
        4
    }
}

/// The width of a data column: its widest visible text (header or cell), kept within 8..=32,
/// and no more than an even share of the table width (but at least 8).
pub open spec fn data_column_width(
    header_len: int,
    max_cell_len: int,
    table_width: int,
    visible_count: int,
) -> int {
    let widest = if header_len >= max_cell_len {
        header_len
    } else {
        max_cell_len
    };
    let target = if widest < 8 {
        8
    } else if widest > 32 {
        32
    } else {
        widest
    };
    let available = sat_sub(table_width, visible_count + 7);
    let share = available / visible_count;
    let fair = if share >= 8 {
        share
    } else {
        8
    };
    min(target, fair)
}

pub fn column_width(header_len: usize, max_cell_len: usize, table_width: u16, visible_count: usize) -> (r: u16)
    requires
        0 < visible_count <= 65528,
    ensures
        r == data_column_width(
            header_len as int,
            max_cell_len as int,
            table_width as int,
            visible_count as int,
        ),
{
    let widest = if header_len >= max_cell_len {
        header_len
    } else {
        max_cell_len
    };
    let target: usize = if widest < 8 {
        8
    } else if widest > 32 {
        32
    } else {
        widest
    };
    let reserved: u16 = (visible_count as u16) + 7;
    let available: usize = if table_width > reserved {
        (table_width - reserved) as usize
    } else {
        0
    };
    let share = available / visible_count;
    let fair = if share >= 8 {
        share
    } else {
        8
    };
    let w = if target <= fair {
        target
    } else {
        fair
    };
    w as u16
}

/// The widest cell of column `col` among the rows in the window `offset..offset + visible`.
pub open spec fn widest_cell(rows: Seq<Vec<String>>, col: int, from: int, to: int) -> int
    decreases to - from,
{
    if from >= to || from >= rows.len() {
        0
    } else {
        let rest = widest_cell(rows, col, from + 1, to);
        let here = if 0 <= col < rows[from]@.len() {
            rows[from]@[col]@.len() as int
        } else {
            0
        };
        if here >= rest {
            here
        } else {
            rest
        }
    }
}

pub fn max_visible_cell_len(rows: &Vec<Vec<String>>, col: usize, offset: usize, visible: usize) -> (r: usize)
    ensures
        r == widest_cell(
            rows@,
            col as int,
            offset as int,
            if offset + at_least_one(visible as int) <= usize::MAX {
                offset + at_least_one(visible as int)
            } else {
                usize::MAX as int
            },
        ),
{
    let v = if visible >= 1 {
        visible
    } else {
        1
    };
    let end = if offset <= usize::MAX - v {
        offset + v
    } else {
        usize::MAX
    };
    let stop = if end <= rows.len() {
        end
    } else {
        rows.len()
    };
    if offset >= stop {
        proof {
            lemma_widest_cell_past_end(rows@, col as int, offset as int, end as int);
        }
        return 0;
    }
    let mut widest: usize = 0;
    let mut i = stop;
    proof {
        lemma_widest_cell_past_end(rows@, col as int, stop as int, end as int);
    }
    while i > offset
        invariant
            offset <= i <= stop,
            stop <= rows@.len(),
            stop <= end,
            widest as int == widest_cell(rows@, col as int, i as int, end as int),
        decreases i - offset,
    {
        i -= 1;
        let row = &rows[i];
        let here = if col < row.len() {
            row[col].as_str().unicode_len()
        } else {
            0
        };
        if here >= widest {
            widest = here;
        }
    }
    widest
}

proof fn lemma_widest_cell_past_end(rows: Seq<Vec<String>>, col: int, from: int, to: int)
    requires
        from >= rows.len() || from >= to,
    ensures
        widest_cell(rows, col, from, to) == 0,
{
}

/// The right-aligned row number of the grid (`{:>4}`).
pub open spec fn row_label(n: nat) -> Seq<char> {
    let d = decimal(n);
    if d.len() >= 4 {
        d
    } else {
        Seq::new((4 - d.len()) as nat, |i: int| ' ') + d
    }
}

pub fn row_number_label(n: usize) -> (r: String)
    ensures
        r@ == row_label(n as nat),
{
    let d = decimal_string(n as u128);
    let len = d.as_str().unicode_len();
    if len >= 4 {
        return d;
    }
    let mut r = String::new();
    let mut k: usize = 0;
    while k < 4 - len
        invariant
            len < 4,
            k <= 4 - len,
            r@ == Seq::new(k as nat, |i: int| ' '),
        decreases 4 - len - k,
    {
        push_char(&mut r, ' ');
        assert(r@ =~= Seq::new((k + 1) as nat, |i: int| ' '));
        k += 1;
    }
    let dc = chars_of(d.as_str());
    crate::text::push_chars(&mut r, &dc);
    r
}

pub open spec fn header_text(kind: ResultKind, elapsed: nat, rows: nat, cols: nat) -> Seq<char> {
    match kind {
        ResultKind::Query => "RESULT MATRIX | "@ + decimal(elapsed) + " ms | "@ + decimal(rows)
            + " rows | "@ + decimal(cols) + " cols"@,
        ResultKind::Command => "COMMAND RESULT | "@ + decimal(elapsed) + " ms"@,
        ResultKind::Error => "ERROR | "@ + decimal(elapsed) + " ms"@,
    }
}

/// The title of the result panel.
pub fn result_header(result: &ExecutionResult) -> (r: String)
    ensures
        r@ == header_text(
            result.kind,
            result.elapsed_ms as nat,
            result.rows@.len(),
            result.columns@.len(),
        ),
{
    let elapsed = decimal_string(result.elapsed_ms);
    match result.kind {
        ResultKind::Query => {
            let a = concat2("RESULT MATRIX | ", elapsed.as_str());
            let b = concat2(a.as_str(), " ms | ");
            let rows = decimal_string(result.rows.len() as u128);
            let c = concat2(b.as_str(), rows.as_str());
            let d = concat2(c.as_str(), " rows | ");
            let cols = decimal_string(result.columns.len() as u128);
            let e = concat2(d.as_str(), cols.as_str());
            let r = concat2(e.as_str(), " cols");
            assert(r@ =~= header_text(
                result.kind,
                result.elapsed_ms as nat,
                result.rows@.len(),
                result.columns@.len(),
            ));
            r
        },
        ResultKind::Command => {
            let a = concat2("COMMAND RESULT | ", elapsed.as_str());
            let r = concat2(a.as_str(), " ms");
            assert(r@ =~= header_text(
                result.kind,
                result.elapsed_ms as nat,
                result.rows@.len(),
                result.columns@.len(),
            ));
            r
        },
        ResultKind::Error => {
            let a = concat2("ERROR | ", elapsed.as_str());
            let r = concat2(a.as_str(), " ms");
            assert(r@ =~= header_text(
                result.kind,
                result.elapsed_ms as nat,
                result.rows@.len(),
                result.columns@.len(),
            ));
            r
        },
    }
}

/// The key help of the footer for each screen.
pub open spec fn help_text(state: AppState, detail_open: bool) -> Seq<char> {
    match state {
        AppState::Init => "Up/Down Move  Enter Open  r Reload Config  q Quit"@,
        AppState::QueryList => "Up/Down Move  Enter Edit  n New  d Delete  F5 Run  Esc Back"@,
        AppState::QueryEdit => "Ctrl+S Save  F5 Save+Run  Esc Back"@,
        AppState::QueryRunning => "q Quit"@,
        AppState::ResultView => if detail_open {
            "Enter/Esc Close Detail  q Quit"@
        } else {
            "Enter Cell Detail  Esc Back  e Edit  r Rerun  Arrows Move  PgUp/PgDn Page  Home/End Edge"@
        },
    }
}

pub fn footer_help(state: &AppState, detail_open: bool) -> (r: &'static str)
    ensures
        r@ == help_text(*state, detail_open),
{
    match state {
        AppState::Init => "Up/Down Move  Enter Open  r Reload Config  q Quit",
        AppState::QueryList => "Up/Down Move  Enter Edit  n New  d Delete  F5 Run  Esc Back",
        AppState::QueryEdit => "Ctrl+S Save  F5 Save+Run  Esc Back",
        AppState::QueryRunning => "q Quit",
        AppState::ResultView => if detail_open {
            "Enter/Esc Close Detail  q Quit"
        } else {
            "Enter Cell Detail  Esc Back  e Edit  r Rerun  Arrows Move  PgUp/PgDn Page  Home/End Edge"
        },
    }
}


/// `a.saturating_add(1)` for a line number shown to the user.
pub open spec fn one_based(a: int) -> int {
    if a < usize::MAX {
        a + 1
    } else {
        usize::MAX as int
    }
}

pub open spec fn range_start(total: int, offset: int) -> int {
    if total == 0 {
        0
    } else {
        offset + 1
    }
}

pub open spec fn range_end(total: int, offset: int, page: int) -> int {
    if total == 0 {
        0
    } else {
        min(offset + page, total)
    }
}

/// The line under the result title for a query: connection, selected cell, visible rows and
/// columns, and whether the rows were cut at 200.
pub open spec fn query_meta_text(
    connection: Seq<char>,
    selected_row: int,
    selected_col: int,
    row_offset: int,
    col_offset: int,
    visible_rows: int,
    column_count: int,
    rows: int,
    cols: int,
    truncated: bool,
) -> Seq<char> {
    "connection "@ + connection + " | cell r"@ + decimal(one_based(selected_row) as nat) + " c"@
        + decimal(one_based(selected_col) as nat) + " | visible rows "@ + decimal(
        range_start(rows, row_offset) as nat,
    ) + "-"@ + decimal(range_end(rows, row_offset, visible_rows) as nat) + " / "@ + decimal(
        rows as nat,
    ) + " | visible cols "@ + decimal(range_start(cols, col_offset) as nat) + "-"@ + decimal(
        range_end(cols, col_offset, column_count) as nat,
    ) + " / "@ + decimal(cols as nat) + if truncated {
        " | truncated to 200 rows"@
    } else {
        ""@
    }
}

fn push_str(r: &mut String, t: &str)
    ensures
        final(r)@ == old(r)@ + t@,
{
    let c = chars_of(t);
    crate::text::push_chars(r, &c);
}

fn push_number(r: &mut String, n: usize)
    ensures
        final(r)@ == old(r)@ + decimal(n as nat),
{
    let d = decimal_string(n as u128);
    push_str(r, d.as_str());
}

/// The status line of a query result. `connection` is the selected connection's name
/// (`<none>` when there is none); `area_width` is the width of the grid.
pub fn query_meta(
    result: &ExecutionResult,
    connection: &str,
    selected_row: usize,
    selected_col: usize,
    row_offset: usize,
    col_offset: usize,
    visible_rows: usize,
    area_width: u16,
) -> (r: String)
    requires
        row_offset + at_least_one(visible_rows as int) <= usize::MAX,
        col_offset + result.columns@.len() <= usize::MAX,
    ensures
        r@ == query_meta_text(
            connection@,
            selected_row as int,
            selected_col as int,
            row_offset as int,
            col_offset as int,
            at_least_one(visible_rows as int),
            column_capacity(result.columns@.len() as int, col_offset as int, area_width as int),
            result.rows@.len() as int,
            result.columns@.len() as int,
            result.truncated,
        ),
{
    let rows = result.rows.len();
    let cols = result.columns.len();
    let column_count = visible_column_capacity(cols, col_offset, area_width);
    let v = if visible_rows >= 1 {
        visible_rows
    } else {
        1
    };
    let sr = if selected_row < usize::MAX {
        selected_row + 1
    } else {
        usize::MAX
    };
    let sc = if selected_col < usize::MAX {
        selected_col + 1
    } else {
        usize::MAX
    };
    let mut r = String::new();
    push_str(&mut r, "connection ");
    push_str(&mut r, connection);
    push_str(&mut r, " | cell r");
    push_number(&mut r, sr);
    push_str(&mut r, " c");
    push_number(&mut r, sc);
    push_str(&mut r, " | visible rows ");
    push_number(&mut r, visible_range_start(rows, row_offset));
    push_str(&mut r, "-");
    push_number(&mut r, visible_range_end(rows, row_offset, v));
    push_str(&mut r, " / ");
    push_number(&mut r, rows);
    push_str(&mut r, " | visible cols ");
    push_number(&mut r, visible_range_start(cols, col_offset));
    push_str(&mut r, "-");
    push_number(&mut r, visible_range_end(cols, col_offset, column_count));
    push_str(&mut r, " / ");
    push_number(&mut r, cols);
    if result.truncated {
        push_str(&mut r, " | truncated to 200 rows");
    } else {
        push_str(&mut r, "");
    }
    assert(r@ =~= query_meta_text(
        connection@,
        selected_row as int,
        selected_col as int,
        row_offset as int,
        col_offset as int,
        at_least_one(visible_rows as int),
        column_capacity(result.columns@.len() as int, col_offset as int, area_width as int),
        result.rows@.len() as int,
        result.columns@.len() as int,
        result.truncated,
    ));
    r
}

pub open spec fn other_meta_text(kind: ResultKind, affected: Option<u64>) -> Seq<char> {
    match kind {
        ResultKind::Command => "affected rows: "@ + decimal(
            match affected {
                Some(n) => n as nat,
                None => 0,
            },
        ),
        _ => "review database error details below"@,
    }
}

/// The status line of a command or error result.
pub fn other_meta(result: &ExecutionResult) -> (r: String)
    ensures
        r@ == other_meta_text(result.kind, result.affected_rows),
{
    match result.kind {
        ResultKind::Command => {
            let n = match result.affected_rows {
                Some(n) => n,
                None => 0,
            };
            let d = decimal_string(n as u128);
            concat2("affected rows: ", d.as_str())
        },
        _ => owned("review database error details below"),
    }
}

/// The editor status line's position (`row:col`, 1-based) and size texts.
pub open spec fn position_text(row: int, col: int) -> Seq<char> {
    decimal((row + 1) as nat) + ":"@ + decimal((col + 1) as nat)
}

pub fn cursor_position_text(row: usize, col: usize) -> (r: String)
    requires
        row < usize::MAX,
        col < usize::MAX,
    ensures
        r@ == position_text(row as int, col as int),
{
    let mut r = String::new();
    push_number(&mut r, row + 1);
    push_str(&mut r, ":");
    push_number(&mut r, col + 1);
    r
}

pub open spec fn char_total(lines: Seq<String>) -> int
    decreases lines.len(),
{
    if lines.len() == 0 {
        0
    } else {
        char_total(lines.drop_last()) + lines.last()@.len()
    }
}

pub open spec fn size_text(line_count: int, char_count: int) -> Seq<char> {
    decimal(line_count as nat) + " lines / "@ + decimal(char_count as nat) + " chars"@
}

/// `N lines / M chars` for the editor text, when the character count fits in a `usize`.
pub fn buffer_size_text(lines: &Vec<String>) -> (r: Option<String>)
    ensures
        char_total(lines@) <= usize::MAX ==> (r matches Some(s) && s@ == size_text(
            lines@.len() as int,
            char_total(lines@),
        )),
        char_total(lines@) > usize::MAX ==> r is None,
{
    let mut total: usize = 0;
    let mut i: usize = 0;
    while i < lines.len()
        invariant
            i <= lines@.len(),
            total as int == char_total(lines@.take(i as int)),
        decreases lines@.len() - i,
    {
        assert(lines@.take(i + 1).drop_last() =~= lines@.take(i as int));
        let n = lines[i].as_str().unicode_len();
        if total > usize::MAX - n {
            proof {
                lemma_char_total_prefix(lines@, (i + 1) as int);
            }
            return None;
        }
        total = total + n;
        i += 1;
    }
    assert(lines@.take(lines@.len() as int) =~= lines@);
    let mut r = String::new();
    push_number(&mut r, lines.len());
    push_str(&mut r, " lines / ");
    push_number(&mut r, total);
    push_str(&mut r, " chars");
    Some(r)
}

proof fn lemma_char_total_prefix(lines: Seq<String>, k: int)
    requires
        0 <= k <= lines.len(),
    ensures
        char_total(lines.take(k)) <= char_total(lines),
    decreases lines.len() - k,
{
    if k < lines.len() {
        lemma_char_total_prefix(lines, k + 1);
        assert(lines.take(k + 1).drop_last() =~= lines.take(k));
    } else {
        assert(lines.take(k) =~= lines);
    }
}


// ---------------------------------------------------------------------------
// Panel texts
// ---------------------------------------------------------------------------

/// An entry of the connection or draft list: `>> ` before the selected one, three spaces
/// before the others.
pub open spec fn list_entry_text(selected: bool, name: Seq<char>) -> Seq<char> {
    (if selected {
        ">> "@
    } else {
        "   "@
    }) + name
}

pub fn list_entry(selected: bool, name: &str) -> (r: String)
    ensures
        r@ == list_entry_text(selected, name@),
{
    if selected {
        concat2(">> ", name)
    } else {
        concat2("   ", name)
    }
}

/// The lines of the connection detail panel; the password is masked.
pub open spec fn detail_lines(p: ConnectionProfile) -> Seq<Seq<char>> {
    seq![
        "kind     : "@ + p.kind@,
        "host     : "@ + p.host@,
        "port     : "@ + decimal(p.port as nat),
        "username : "@ + p.username@,
        "database : "@ + p.database@,
        "password : "@ + masked(p.password@),
    ]
}

pub fn connection_detail_lines(p: &ConnectionProfile) -> (r: Vec<String>)
    ensures
        r@.map_values(|s: String| s@) == detail_lines(*p),
{
    let port = decimal_string(p.port as u128);
    let password = mask_password(p.password.as_str());
    let r = vec![
        concat2("kind     : ", p.kind.as_str()),
        concat2("host     : ", p.host.as_str()),
        concat2("port     : ", port.as_str()),
        concat2("username : ", p.username.as_str()),
        concat2("database : ", p.database.as_str()),
        concat2("password : ", password.as_str()),
    ];
    assert(r@.map_values(|s: String| s@) =~= detail_lines(*p));
    r
}

/// The title of the editor panel: `COMMAND INPUT [file]` for a draft, else `COMMAND INPUT`.
pub open spec fn editor_title_text(draft: Option<Seq<char>>) -> Seq<char> {
    match draft {
        Some(name) => "COMMAND INPUT ["@ + name + "]"@,
        None => "COMMAND INPUT"@,
    }
}

pub fn editor_title(draft: Option<&str>) -> (r: String)
    ensures
        r@ == editor_title_text(
            match draft {
                Some(d) => Some(d@),
                None => None,
            },
        ),
{
    match draft {
        Some(name) => {
            let a = concat2("COMMAND INPUT [", name);
            concat2(a.as_str(), "]")
        },
        None => owned("COMMAND INPUT"),
    }
}

/// The statement shown while it runs: trimmed, and cut to three times the panel width.
pub open spec fn running_preview_text(sql: Seq<char>, width: int) -> Seq<char> {
    shortened(trim(sql), if 3 * width > u16::MAX {
        u16::MAX as int
    } else {
        3 * width
    })
}

pub fn running_preview(sql: &str, width: u16) -> (r: String)
    ensures
        r@ == running_preview_text(sql@, width as int),
{
    let chars = chars_of(sql);
    let trimmed = trim_chars(&chars);
    let t = string_from_chars(&trimmed);
    let limit: usize = if width <= 21845 {
        (width as usize) * 3
    } else {
        65535
    };
    shorten(t.as_str(), limit)
}

/// The lines of the command result panel.
pub open spec fn command_detail_text(affected: Option<u64>, elapsed: nat) -> Seq<Seq<char>> {
    seq![
        "affected_rows = "@ + decimal(
            match affected {
                Some(n) => n as nat,
                None => 0,
            },
        ),
        "elapsed_ms    = "@ + decimal(elapsed),
    ]
}

pub fn command_detail_lines(result: &ExecutionResult) -> (r: Vec<String>)
    ensures
        r@.map_values(|s: String| s@) == command_detail_text(
            result.affected_rows,
            result.elapsed_ms as nat,
        ),
{
    let n: u64 = match result.affected_rows {
        Some(n) => n,
        None => 0,
    };
    let a = decimal_string(n as u128);
    let e = decimal_string(result.elapsed_ms);
    let r = vec![concat2("affected_rows = ", a.as_str()), concat2("elapsed_ms    = ", e.as_str())];
    assert(r@.map_values(|s: String| s@) =~= command_detail_text(
        result.affected_rows,
        result.elapsed_ms as nat,
    ));
    r
}

/// The heading lines of the cell detail popup: the column, then the 1-based row and column.
pub open spec fn cell_heading_text(column: Seq<char>, row: int, col: int) -> (Seq<char>, Seq<char>) {
    (
        "COLUMN: "@ + column,
        "ROW: "@ + decimal(one_based(row) as nat) + "  COL: "@ + decimal(one_based(col) as nat),
    )
}

pub fn cell_heading(column: &str, row: usize, col: usize) -> (r: (String, String))
    ensures
        (r.0@, r.1@) == cell_heading_text(column@, row as int, col as int),
{
    let first = concat2("COLUMN: ", column);
    let r1 = if row < usize::MAX {
        row + 1
    } else {
        usize::MAX
    };
    let c1 = if col < usize::MAX {
        col + 1
    } else {
        usize::MAX
    };
    let mut second = String::new();
    push_str(&mut second, "ROW: ");
    push_number(&mut second, r1);
    push_str(&mut second, "  COL: ");
    push_number(&mut second, c1);
    (first, second)
}

} // verus!
