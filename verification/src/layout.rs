//! Screen geometry: the bands a screen is split into, the inside of a bordered panel, and
//! how many rows and columns of a result fit in the grid.

use vstd::prelude::*;

use ratatui::layout::{Constraint, Layout, Rect};

use crate::nav::{at_least_one, sat_sub};
use crate::view::{column_capacity, visible_column_capacity};

verus! {

/// A rectangle of terminal cells: its left column, top row, width and height.
#[derive(Debug, Clone, Copy, PartialEq, Eq, Structural)]
pub struct Area {
    pub x: u16,
    pub y: u16,
    pub width: u16,
    pub height: u16,
}

/// How a layout sizes one band: exactly `n` cells, or at least `n` cells.
#[derive(Debug, Clone, Copy, PartialEq, Eq, Structural)]
pub enum Band {
    Length(u16),
    Min(u16),
}

/// The rows the `Length` bands ask for.
pub open spec fn lengths_total(bands: Seq<Band>) -> int
    decreases bands.len(),
{
    if bands.len() == 0 {
        0
    } else {
        lengths_total(bands.drop_last()) + match bands.last() {
            Band::Length(n) => n as int,
            Band::Min(_) => 0int,
        }
    }
}

/// The rows all bands ask for at least.
pub open spec fn bands_total(bands: Seq<Band>) -> int
    decreases bands.len(),
{
    if bands.len() == 0 {
        0
    } else {
        bands_total(bands.drop_last()) + match bands.last() {
            Band::Length(n) => n as int,
            Band::Min(n) => n as int,
        }
    }
}

/// How many `Min` bands there are.
pub open spec fn min_bands(bands: Seq<Band>) -> int
    decreases bands.len(),
{
    if bands.len() == 0 {
        0
    } else {
        min_bands(bands.drop_last()) + match bands.last() {
            Band::Length(_) => 0int,
            Band::Min(_) => 1int,
        }
    }
}

/// The bands fit in `area`: one of them is a `Min` band (asking for at most `i16::MAX` rows),
/// the rows they ask for fit in the area's height, and the area ends on the screen.
pub open spec fn bands_fit(area: Area, bands: Seq<Band>) -> bool {
    &&& min_bands(bands) == 1
    &&& forall|i: int| 0 <= i < bands.len() ==> (#[trigger] bands[i] matches Band::Min(n) ==> n
        <= i16::MAX)
    &&& bands_total(bands) <= area.height
    &&& area.y + area.height <= u16::MAX
}

/// The rows a band gets when the bands fit: a `Length` band its length, the `Min` band what
/// the `Length` bands leave (`spare`).
pub open spec fn band_rows(band: Band, spare: int) -> int {
    match band {
        Band::Length(n) => n as int,
        Band::Min(_) => spare,
    }
}

/// The rows of the bands before the `i`-th.
pub open spec fn rows_before(bands: Seq<Band>, i: int, spare: int) -> int
    decreases i,
{
    if i <= 0 {
        0
    } else {
        rows_before(bands, i - 1, spare) + band_rows(bands[i - 1], spare)
    }
}

/// `ratatui::layout::Layout::split` on a vertical layout whose constraints are `bands`
/// (`Band::Length(n)` as `Constraint::Length(n)`, `Band::Min(n)` as `Constraint::Min(n)`).
/// The contract claims that the result is one area per band, each as wide as `area` and
/// starting at its left column (the crate's source builds each vertical segment with the
/// area's `x` and `width`, the layout having no margin). When the bands fit (one `Min` band,
/// the rows asked for at most the area's height), the constraint solver's optimum is unique:
/// every `Length` band gets its length exactly (strong), the `Min` band grows to take what is
/// left (`FILL_GROW` outweighs the trailing spacer's `GROW`), the spacers are empty, and the
/// bands follow one another from the area's top row. When they do not fit, the split is
/// not stated: the solver's tables are hash maps with a per-process seed, and the optimum is
/// then not unique.
#[verifier::external_body]
fn split_vertically(area: Area, bands: &Vec<Band>) -> (r: Vec<Area>)
    ensures
        r@.len() == bands@.len(),
        forall|i: int| #![trigger r@[i]] 0 <= i < r@.len() ==> r@[i].x == area.x && r@[i].width == area.width,
        bands_fit(area, bands@) ==> forall|i: int| #![trigger r@[i]] 0 <= i < r@.len() ==> {
            let spare = area.height - lengths_total(bands@);
            &&& r@[i].height == band_rows(bands@[i], spare)
            &&& r@[i].y == area.y + rows_before(bands@, i, spare)
        },
{
    let rect = Rect { x: area.x, y: area.y, width: area.width, height: area.height };
    let constraints = bands.iter().map(|b| match *b {
        Band::Length(n) => Constraint::Length(n),
        Band::Min(n) => Constraint::Min(n),
    });
    let parts = Layout::vertical(constraints).split(rect);
    parts.iter().map(|p| Area { x: p.x, y: p.y, width: p.width, height: p.height }).collect()
}

/// `a.saturating_add(b)` on `u16`.
pub open spec fn sat_add16(a: int, b: int) -> int {
    if a + b > u16::MAX {
        u16::MAX as int
    } else {
        a + b
    }
}

/// The inside of a panel drawn with a border on every side (and its title on the top border):
/// one cell in from each edge, never past the area's right or bottom edge.
pub open spec fn bordered_inner(a: Area) -> Area {
    let right = sat_add16(a.x as int, a.width as int);
    let bottom = sat_add16(a.y as int, a.height as int);
    let x = if sat_add16(a.x as int, 1) < right {
        sat_add16(a.x as int, 1)
    } else {
        right
    };
    let y = if sat_add16(a.y as int, 1) < bottom {
        sat_add16(a.y as int, 1)
    } else {
        bottom
    };
    Area {
        x: x as u16,
        y: y as u16,
        width: sat_sub(a.width as int, 2) as u16,
        height: sat_sub(a.height as int, 2) as u16,
    }
}

/// `Block::bordered().inner(area)` for a block with every border and a top title.
pub fn inner_area(a: Area) -> (r: Area)
    ensures
        r == bordered_inner(a),
{
    let right = a.x.saturating_add(a.width);
    let bottom = a.y.saturating_add(a.height);
    let x1 = a.x.saturating_add(1);
    let y1 = a.y.saturating_add(1);
    Area {
        x: if x1 < right {
            x1
        } else {
            right
        },
        y: if y1 < bottom {
            y1
        } else {
            bottom
        },
        width: a.width.saturating_sub(2),
        height: a.height.saturating_sub(2),
    }
}

/// The bands of the whole screen: title bar, body, footer.
pub open spec fn screen_bands() -> Seq<Band> {
    seq![Band::Length(3), Band::Min(1), Band::Length(3)]
}

/// The bands of the result screen's body: status line, grid.
pub open spec fn result_bands() -> Seq<Band> {
    seq![Band::Length(3), Band::Min(1)]
}

fn screen_band_list() -> (r: Vec<Band>)
    ensures
        r@ == screen_bands(),
{
    let r = vec![Band::Length(3), Band::Min(1), Band::Length(3)];
    assert(r@ =~= screen_bands());
    r
}

fn result_band_list() -> (r: Vec<Band>)
    ensures
        r@ == result_bands(),
{
    let r = vec![Band::Length(3), Band::Min(1)];
    assert(r@ =~= result_bands());
    r
}

/// Result rows that fit in a grid panel `height` rows high: the border takes two rows, the
/// header row and the footer line two more.
pub open spec fn grid_rows(height: u16) -> int {
    sat_sub(sat_sub(height as int, 2), 2)
}

/// Result columns that fit in a grid panel `width` cells wide, inside its border (at least
/// one).
pub open spec fn grid_columns(width: u16) -> int {
    at_least_one(column_capacity(usize::MAX as int, 0, sat_sub(width as int, 2)))
}

/// The rows and columns that fit in the result grid drawn on `panel`.
pub fn grid_viewport(panel: Area) -> (r: (usize, usize))
    ensures
        r.0 as int == grid_rows(panel.height),
        r.1 as int == grid_columns(panel.width),
{
    let inner = inner_area(panel);
    let rows: usize = if inner.height > 2 {
        (inner.height - 2) as usize
    } else {
        0
    };
    let cols = visible_column_capacity(usize::MAX, 0, inner.width);
    let cols = if cols >= 1 {
        cols
    } else {
        1
    };
    (rows, cols)
}

/// How many rows and columns of a result fit on a screen of size `area`: the screen is split
/// into title bar, body and footer (3, at least 1, 3 rows), the body into status line and grid
/// panel (3, at least 1), and the grid panel is measured by `grid_viewport`. The panel is as
/// wide as the screen; on a screen of at least ten rows it is nine rows shorter than the
/// screen. On a shorter screen its height is the layout solver's choice.
pub fn result_viewport(area: Area) -> (r: (usize, usize))
    ensures
        r.1 as int == grid_columns(area.width),
        area.height >= 10 && area.y + area.height <= u16::MAX ==> r.0 as int == grid_rows(
            (area.height - 9) as u16,
        ),
        exists|h: u16| #[trigger] grid_rows(h) == r.0 as int,
{
    let screen_list = screen_band_list();
    proof {
        reveal_with_fuel(lengths_total, 4);
        reveal_with_fuel(bands_total, 4);
        reveal_with_fuel(min_bands, 4);
        reveal_with_fuel(rows_before, 3);
        assert(screen_list@.len() == 3);
        assert(screen_list@.drop_last() =~= seq![Band::Length(3), Band::Min(1)]);
        assert(screen_list@.drop_last().drop_last() =~= seq![Band::Length(3)]);
        assert(screen_list@.drop_last().drop_last().drop_last() =~= Seq::<Band>::empty());
    }
    let screen = split_vertically(area, &screen_list);
    let body = screen[1];
    assert(screen@[1].width == area.width);
    let result_list = result_band_list();
    proof {
        assert(result_list@.len() == 2);
        assert(result_list@.drop_last() =~= seq![Band::Length(3)]);
        assert(result_list@.drop_last().drop_last() =~= Seq::<Band>::empty());
    }
    let parts = split_vertically(body, &result_list);
    let panel = parts[1];
    assert(parts@[1].width == body.width);
    proof {
        if area.height >= 10 && area.y + area.height <= u16::MAX {
            assert(bands_fit(area, screen_list@));
            assert(body.height == area.height - 6);
            assert(body.y == area.y + 3);
            assert(bands_fit(body, result_list@));
            assert(panel.height == area.height - 9);
        }
    }
    let r = grid_viewport(panel);
    assert(grid_rows(panel.height) == r.0 as int);
    r
}

} // verus!
