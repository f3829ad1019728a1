//! What the result grid shows: the window of columns and rows that fits, the width of each
//! column, the text of each cell, and which row and cell are selected.

use vstd::prelude::*;

use crate::model::ExecutionResult;
use crate::nav::{at_least_one, axis_ok, min, sat_sub};
use crate::view::{
    column_capacity, column_width, data_column_width, max_visible_cell_len, row_label,
    row_number_label, shortened, truncate_cell, visible_column_capacity, widest_cell,
    width_to_cell_len,
};
use crate::text::owned;

verus! {

/// One row of the grid as drawn.
pub struct GridRow {
    /// The right-aligned 1-based row number.
    pub label: String,
    /// The row's visible cells, each cut to its column's width.
    pub cells: Vec<String>,
    /// Whether this is the selected row.
    pub selected: bool,
    /// The position among `cells` of the selected cell, on the selected row.
    pub highlight: Option<usize>,
}

/// The visible part of a query result.
pub struct GridView {
    pub headers: Vec<String>,
    pub widths: Vec<u16>,
    pub rows: Vec<GridRow>,
}

/// What the grid panel shows.
pub enum GridContent {
    /// The result has no columns.
    NoColumns,
    /// The column offset lies past the last column.
    NoVisibleColumns,
    Grid(GridView),
}

/// The end of the row window that starts at `offset` and is `visible` rows high (at least
/// one), kept within `usize`.
pub open spec fn window_end(offset: int, visible: int) -> int {
    if offset + at_least_one(visible) <= usize::MAX {
        offset + at_least_one(visible)
    } else {
        usize::MAX as int
    }
}

/// Number of rows in the window.
pub open spec fn window_rows(total: int, offset: int, visible: int) -> int {
    min(sat_sub(total, offset), at_least_one(visible))
}

/// The character budget of a cell in a column `width` cells wide.
pub open spec fn cell_len(width: int) -> int {
    if width - 1 >= 4 {
        width - 1
    } else {
        4
    }
}

/// Width of visible column `j`.
pub open spec fn grid_width(
    result: ExecutionResult,
    row_offset: int,
    col_offset: int,
    visible_rows: int,
    width: int,
    j: int,
) -> int {
    let n = column_capacity(result.columns@.len() as int, col_offset, width);
    data_column_width(
        result.columns@[col_offset + j]@.len() as int,
        widest_cell(
            result.rows@,
            col_offset + j,
            row_offset,
            window_end(row_offset, visible_rows),
        ),
        width,
        n,
    )
}

/// The cells of source row `src` shown in the grid, given the column widths.
pub open spec fn row_cells_ok(
    cells: Seq<String>,
    src: Seq<String>,
    col_offset: int,
    n: int,
    widths: Seq<u16>,
) -> bool {
    &&& cells.len() == min(sat_sub(src.len() as int, col_offset), n)
    &&& forall|j: int|
        0 <= j < cells.len() ==> (#[trigger] cells[j])@ == shortened(
            src[col_offset + j]@,
            cell_len(widths[j] as int),
        )
}

/// Row `k` of the window, as the grid shows it.
pub open spec fn grid_row_ok(
    row: GridRow,
    result: ExecutionResult,
    k: int,
    row_offset: int,
    col_offset: int,
    n: int,
    widths: Seq<u16>,
    selected_row: int,
    selected_col: int,
) -> bool {
    let src = result.rows@[row_offset + k]@;
    let hi = sat_sub(selected_col, col_offset);
    &&& row.label@ == row_label((row_offset + k + 1) as nat)
    &&& row_cells_ok(row.cells@, src, col_offset, n, widths)
    &&& row.selected == (row_offset + k == selected_row)
    &&& row.highlight == if row.selected && hi < row.cells@.len() {
        Some(hi as usize)
    } else {
        None::<usize>
    }
}

/// The grid of a query result for a panel whose inside is `width` cells wide: the columns from
/// `col_offset` that fit, the rows from `row_offset` that fit in `visible_rows` (at least one).
pub open spec fn grid_ok(
    view: GridView,
    result: ExecutionResult,
    row_offset: int,
    col_offset: int,
    visible_rows: int,
    selected_row: int,
    selected_col: int,
    width: int,
) -> bool {
    let n = column_capacity(result.columns@.len() as int, col_offset, width);
    &&& view.headers@.len() == n
    &&& view.widths@.len() == n
    &&& forall|j: int|
        0 <= j < n ==> (#[trigger] view.headers@[j])@ == result.columns@[col_offset + j]@
    &&& forall|j: int|
        0 <= j < n ==> #[trigger] view.widths@[j] as int == grid_width(
            result,
            row_offset,
            col_offset,
            visible_rows,
            width,
            j,
        )
    &&& view.rows@.len() == window_rows(result.rows@.len() as int, row_offset, visible_rows)
    &&& forall|k: int|
        0 <= k < view.rows@.len() ==> grid_row_ok(
            #[trigger] view.rows@[k],
            result,
            k,
            row_offset,
            col_offset,
            n,
            view.widths@,
            selected_row,
            selected_col,
        )
}

proof fn lemma_capacity_small(total: int, offset: int, width: int)
    requires
        0 <= width <= u16::MAX,
    ensures
        column_capacity(total, offset, width) <= 4682,
{
    assert(sat_sub(width, 10) / 14 <= 4681);
}

fn row_of(
    src: &Vec<String>,
    col_offset: usize,
    n: usize,
    widths: &Vec<u16>,
    label_number: usize,
    selected: bool,
    selected_col: usize,
) -> (r: GridRow)
    requires
        widths@.len() == n,
    ensures
        r.label@ == row_label(label_number as nat),
        row_cells_ok(r.cells@, src@, col_offset as int, n as int, widths@),
        r.selected == selected,
        r.highlight == if selected && sat_sub(selected_col as int, col_offset as int)
            < r.cells@.len() {
            Some(sat_sub(selected_col as int, col_offset as int) as usize)
        } else {
            None::<usize>
        },
{
    let count = if src.len() > col_offset {
        let left = src.len() - col_offset;
        if left < n {
            left
        } else {
            n
        }
    } else {
        0
    };
    let mut cells: Vec<String> = Vec::new();
    let mut j: usize = 0;
    while j < count
        invariant
            j <= count,
            count == min(sat_sub(src@.len() as int, col_offset as int), n as int),
            count == 0 || col_offset + count <= src@.len(),
            src@.len() <= usize::MAX,
            widths@.len() == n,
            cells@.len() == j,
            forall|i: int|
                0 <= i < j ==> (#[trigger] cells@[i])@ == shortened(
                    src@[col_offset + i]@,
                    cell_len(widths@[i] as int),
                ),
        decreases count - j,
    {
        let w = width_to_cell_len(widths[j]);
        let text = truncate_cell(src[col_offset + j].as_str(), w);
        cells.push(text);
        j += 1;
    }
    let hi = if selected_col > col_offset {
        selected_col - col_offset
    } else {
        0
    };
    let highlight = if selected && hi < cells.len() {
        Some(hi)
    } else {
        None
    };
    GridRow { label: row_number_label(label_number), cells, selected, highlight }
}

/// The grid of a query result for a panel whose inside is `width` cells wide. The window
/// starts at `row_offset` and `col_offset`; `visible_rows` rows fit (at least one is shown).
pub fn result_grid(
    result: &ExecutionResult,
    row_offset: usize,
    col_offset: usize,
    visible_rows: usize,
    selected_row: usize,
    selected_col: usize,
    width: u16,
) -> (r: GridContent)
    ensures
        result.columns@.len() == 0 ==> r is NoColumns,
        result.columns@.len() > 0 && column_capacity(
            result.columns@.len() as int,
            col_offset as int,
            width as int,
        ) == 0 ==> r is NoVisibleColumns,
        result.columns@.len() > 0 && column_capacity(
            result.columns@.len() as int,
            col_offset as int,
            width as int,
        ) > 0 ==> (r matches GridContent::Grid(view) && grid_ok(
            view,
            *result,
            row_offset as int,
            col_offset as int,
            visible_rows as int,
            selected_row as int,
            selected_col as int,
            width as int,
        )),
{
    if result.columns.len() == 0 {
        return GridContent::NoColumns;
    }
    let n = visible_column_capacity(result.columns.len(), col_offset, width);
    if n == 0 {
        return GridContent::NoVisibleColumns;
    }
    proof {
        lemma_capacity_small(result.columns@.len() as int, col_offset as int, width as int);
    }
    let mut headers: Vec<String> = Vec::new();
    let mut widths: Vec<u16> = Vec::new();
    let mut j: usize = 0;
    while j < n
        invariant
            j <= n,
            n == column_capacity(result.columns@.len() as int, col_offset as int, width as int),
            0 < n <= 4682,
            col_offset + n <= result.columns@.len(),
            result.columns@.len() <= usize::MAX,
            headers@.len() == j,
            widths@.len() == j,
            forall|i: int|
                0 <= i < j ==> (#[trigger] headers@[i])@ == result.columns@[col_offset + i]@,
            forall|i: int|
                0 <= i < j ==> #[trigger] widths@[i] as int == grid_width(
                    *result,
                    row_offset as int,
                    col_offset as int,
                    visible_rows as int,
                    width as int,
                    i,
                ),
        decreases n - j,
    {
        let name = &result.columns[col_offset + j];
        let widest = max_visible_cell_len(&result.rows, col_offset + j, row_offset, visible_rows);
        let name_len = name.as_str().unicode_len();
        let w = column_width(name_len, widest, width, n);
        headers.push(owned(name.as_str()));
        widths.push(w);
        j += 1;
    }
    let total = result.rows.len();
    let v = if visible_rows >= 1 {
        visible_rows
    } else {
        1
    };
    let count = if total > row_offset {
        let left = total - row_offset;
        if left < v {
            left
        } else {
            v
        }
    } else {
        0
    };
    let mut rows: Vec<GridRow> = Vec::new();
    let mut k: usize = 0;
    while k < count
        invariant
            k <= count,
            count == window_rows(total as int, row_offset as int, visible_rows as int),
            total == result.rows@.len(),
            n == column_capacity(result.columns@.len() as int, col_offset as int, width as int),
            widths@.len() == n,
            rows@.len() == k,
            forall|i: int|
                0 <= i < k ==> grid_row_ok(
                    #[trigger] rows@[i],
                    *result,
                    i,
                    row_offset as int,
                    col_offset as int,
                    n as int,
                    widths@,
                    selected_row as int,
                    selected_col as int,
                ),
        decreases count - k,
    {
        let index = row_offset + k;
        let row = row_of(
            &result.rows[index],
            col_offset,
            n,
            &widths,
            index + 1,
            index == selected_row,
            selected_col,
        );
        rows.push(row);
        k += 1;
    }
    GridContent::Grid(GridView { headers, widths, rows })
}

/// When the selection is in order (in the result and in the window of `visible_rows` rows
/// from `row_offset`), the grid shows the selected row, marked as selected.
pub proof fn law_selected_row_is_shown(
    view: GridView,
    result: ExecutionResult,
    row_offset: int,
    col_offset: int,
    visible_rows: int,
    selected_row: int,
    selected_col: int,
    width: int,
)
    requires
        grid_ok(
            view,
            result,
            row_offset,
            col_offset,
            visible_rows,
            selected_row,
            selected_col,
            width,
        ),
        axis_ok(row_offset, selected_row, result.rows@.len() as int, visible_rows),
        result.rows@.len() > 0,
    ensures
        0 <= selected_row - row_offset < view.rows@.len(),
        view.rows@[selected_row - row_offset].selected,
        forall|k: int| 0 <= k < view.rows@.len() && k != selected_row - row_offset ==> !(
        #[trigger] view.rows@[k]).selected,
{
    let k = selected_row - row_offset;
    assert(grid_row_ok(
        view.rows@[k],
        result,
        k,
        row_offset,
        col_offset,
        column_capacity(result.columns@.len() as int, col_offset, width),
        view.widths@,
        selected_row,
        selected_col,
    ));
    assert forall|j: int| 0 <= j < view.rows@.len() && j != k implies !(
    #[trigger] view.rows@[j]).selected by {
        assert(grid_row_ok(
            view.rows@[j],
            result,
            j,
            row_offset,
            col_offset,
            column_capacity(result.columns@.len() as int, col_offset, width),
            view.widths@,
            selected_row,
            selected_col,
        ));
    }
}

} // verus!
