//! Navigation arithmetic of the result grid and of the selection lists: offsets, the selected
//! cell, and wrap-around list movement.

use vstd::prelude::*;

verus! {

/// `a.saturating_sub(b)`.
pub open spec fn sat_sub(a: int, b: int) -> int {
    if a > b {
        a - b
    } else {
        0
    }
}

/// `v.max(1)`.
pub open spec fn at_least_one(v: int) -> int {
    if v >= 1 {
        v
    } else {
        1
    }
}

pub open spec fn min(a: int, b: int) -> int {
    if a <= b {
        a
    } else {
        b
    }
}

/// `v` clamped into `lo..=hi` (with `lo <= hi`).
pub open spec fn clamp(v: int, lo: int, hi: int) -> int {
    if v < lo {
        lo
    } else if v > hi {
        hi
    } else {
        v
    }
}

/// The last offset that still fills the window.
pub open spec fn max_offset(total: int, visible: int) -> int {
    sat_sub(total, at_least_one(visible))
}

/// The last selectable line.
pub open spec fn max_selected(total: int) -> int {
    sat_sub(total, 1)
}

/// The selection is a line of the result (or 0 when it is empty), the offset does not run past
/// the end, and the selected line is inside the window.
pub open spec fn axis_ok(offset: int, selected: int, total: int, visible: int) -> bool {
    &&& 0 <= selected <= max_selected(total)
    &&& 0 <= offset <= max_offset(total, visible)
    &&& offset <= selected < offset + at_least_one(visible)
}

/// What `normalize` makes of an axis: the selection is clamped to the last line, and the offset
/// (clamped to its maximum) is moved just enough to show the selected line.
pub open spec fn normalized_selected(selected: int, total: int) -> int {
    min(selected, max_selected(total))
}

pub open spec fn normalized_offset(offset: int, selected: int, total: int, visible: int) -> int {
    let s = normalized_selected(selected, total);
    clamp(min(offset, max_offset(total, visible)), s - (at_least_one(visible) - 1), s)
}

/// The offset and selection of one axis after normalisation.
pub fn normalize_axis(offset: usize, selected: usize, total: usize, visible: usize) -> (r: (
    usize,
    usize,
))
    ensures
        r.1 == normalized_selected(selected as int, total as int),
        r.0 == normalized_offset(offset as int, selected as int, total as int, visible as int),
        axis_ok(r.0 as int, r.1 as int, total as int, visible as int),
{
    let v = if visible >= 1 {
        visible
    } else {
        1
    };
    let max_sel = if total >= 1 {
        total - 1
    } else {
        0
    };
    let max_off = if total >= v {
        total - v
    } else {
        0
    };
    let mut sel = if selected <= max_sel {
        selected
    } else {
        max_sel
    };
    let mut off = if offset <= max_off {
        offset
    } else {
        max_off
    };
    if sel < off {
        off = sel;
    }
    let window_end: usize = if off <= usize::MAX - v {
        off + v
    } else {
        usize::MAX
    };
    if sel >= window_end {
        let back = sel - (v - 1);
        off = if back <= max_off {
            back
        } else {
            max_off
        };
    }
    (off, sel)
}

/// After normalisation an axis is in order: the selection is the old one, cut down to the last
/// line; the offset does not run past the last full window; and the selected line is inside
/// the window.
pub proof fn law_normalized_axis_in_view(offset: int, selected: int, total: int, visible: int)
    requires
        0 <= offset,
        0 <= selected,
        0 <= total,
    ensures
        normalized_selected(selected, total) == min(selected, sat_sub(total, 1)),
        axis_ok(
            normalized_offset(offset, selected, total, visible),
            normalized_selected(selected, total),
            total,
            visible,
        ),
{
}

/// Normalisation leaves an axis that is already in order unchanged.
pub proof fn lemma_normalize_stable(offset: int, selected: int, total: int, visible: int)
    requires
        axis_ok(offset, selected, total, visible),
    ensures
        normalized_selected(selected, total) == selected,
        normalized_offset(offset, selected, total, visible) == offset,
{
}

/// Normalising twice is normalising once.
pub proof fn law_normalize_idempotent(offset: int, selected: int, total: int, visible: int)
    requires
        0 <= offset,
        0 <= selected,
        0 <= total,
    ensures
        normalized_selected(normalized_selected(selected, total), total) == normalized_selected(
            selected,
            total,
        ),
        normalized_offset(
            normalized_offset(offset, selected, total, visible),
            normalized_selected(selected, total),
            total,
            visible,
        ) == normalized_offset(offset, selected, total, visible),
{
    let s = normalized_selected(selected, total);
    let o = normalized_offset(offset, selected, total, visible);
    assert(axis_ok(o, s, total, visible));
    lemma_normalize_stable(o, s, total, visible);
}

/// `current` moved by `delta` among `len` entries, wrapping at both ends.
pub open spec fn moved_index(current: int, len: int, delta: int) -> int {
    if len == 0 {
        0
    } else if current + delta < 0 {
        len - 1
    } else {
        (current + delta) % len
    }
}

/// Moves a list selection by `delta`: below the first entry it wraps to the last one, past the
/// last it wraps around by the remainder. An empty list selects 0.
pub fn move_index(current: usize, len: usize, delta: isize) -> (r: usize)
    ensures
        r == moved_index(current as int, len as int, delta as int),
        len > 0 ==> r < len,
{
    if len == 0 {
        return 0;
    }
    let next: i128 = current as i128 + delta as i128;
    if next < 0 {
        len - 1
    } else {
        ((next as u128) % (len as u128)) as usize
    }
}

/// Moving down and then up returns to the same entry.
pub proof fn law_move_down_then_up(current: int, len: int)
    requires
        0 <= current < len,
    ensures
        moved_index(moved_index(current, len, 1), len, -1) == current,
{
    if current + 1 < len {
        assert((current + 1) % len == current + 1) by (nonlinear_arith)
            requires
                0 <= current + 1 < len,
        ;
        assert((current + 1 - 1) % len == current) by (nonlinear_arith)
            requires
                0 <= current < len,
        ;
    } else {
        assert((current + 1) % len == 0) by (nonlinear_arith)
            requires
                current + 1 == len,
                len > 0,
        ;
    }
}

/// Moving up and then down returns to the same entry.
pub proof fn law_move_up_then_down(current: int, len: int)
    requires
        0 <= current < len,
    ensures
        moved_index(moved_index(current, len, -1), len, 1) == current,
{
    if current == 0 {
        assert((len - 1 + 1) % len == 0) by (nonlinear_arith)
            requires
                len > 0,
        ;
    } else {
        assert((current - 1) % len == current - 1) by (nonlinear_arith)
            requires
                0 <= current - 1 < len,
        ;
        assert((current - 1 + 1) % len == current) by (nonlinear_arith)
            requires
                0 <= current < len,
        ;
    }
}

} // verus!
