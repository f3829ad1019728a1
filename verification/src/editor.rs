//! The multi-line SQL editor is a `tui_textarea::TextArea`; these are the calls the workbench
//! makes on it, each with what the crate's source shows of it.

use ratatui::style::Style;
use tui_textarea::{CursorMove, Input, TextArea};
use vstd::prelude::*;

verus! {

/// The editor's text buffer. Verus refuses a declaration of `TextArea` itself (its generic
/// `From` impl stops the trait checker), so the buffer is held here, opaque to proofs, and
/// described through `editor_text`, `editor_position` and `editor_selecting`. The field is
/// private: only the wrappers below touch it.
#[verifier::external_body]
pub struct Editor {
    area: TextArea<'static>,
}

/// A copy of the editor's widget for a front end to style and draw. Changing it leaves the
/// editor as it was.
#[verifier::external_body]
pub struct EditorView {
    pub area: TextArea<'static>,
}

impl Editor {
    /// Trusted: `TextArea::clone`, handed out for drawing; nothing is stated of the copy.
    #[verifier::external_body]
    pub fn view_for_drawing(&self) -> EditorView {
        EditorView { area: self.area.clone() }
    }
}

#[verifier::external_type_specification]
pub struct ExInput(Input);

#[verifier::external_type_specification]
pub struct ExKey(tui_textarea::Key);

/// The lines of text an editor holds.
pub uninterp spec fn editor_text(e: Editor) -> Seq<Seq<char>>;

/// The (row, column) of an editor's cursor, counted in characters.
pub uninterp spec fn editor_position(e: Editor) -> (usize, usize);

/// Whether a text selection is under way in an editor (the crate's `selection_start` is set).
pub uninterp spec fn editor_selecting(e: Editor) -> bool;

/// The cursor lies on a line of the text, at most at its end.
pub open spec fn cursor_ok(e: Editor) -> bool {
    &&& editor_text(e).len() <= usize::MAX
    &&& editor_position(e).0 < editor_text(e).len()
    &&& editor_position(e).1 <= editor_text(e)[editor_position(e).0 as int].len()
}

/// A column kept within a line.
pub open spec fn fit_col(col: int, line: Seq<char>) -> int {
    if col <= line.len() {
        col
    } else {
        line.len() as int
    }
}

/// Where a cursor movement takes the cursor at `pos`, or `None` when it stays (the crate's
/// `CursorMove::next_cursor` for these movements).
pub open spec fn next_position(step: CursorStep, pos: (usize, usize), text: Seq<Seq<char>>) -> Option<
    (usize, usize),
> {
    let row = pos.0 as int;
    let col = pos.1 as int;
    let len = text[row].len() as int;
    match step {
        CursorStep::Forward => if col >= len {
            if row + 1 < text.len() {
                Some(((row + 1) as usize, 0usize))
            } else {
                None
            }
        } else {
            Some((row as usize, (col + 1) as usize))
        },
        CursorStep::Back => if col == 0 {
            if row == 0 {
                None
            } else {
                Some(((row - 1) as usize, text[row - 1].len() as usize))
            }
        } else {
            Some((row as usize, (col - 1) as usize))
        },
        CursorStep::Up => if row == 0 {
            None
        } else {
            Some(((row - 1) as usize, fit_col(col, text[row - 1]) as usize))
        },
        CursorStep::Down => if row + 1 < text.len() {
            Some(((row + 1) as usize, fit_col(col, text[row + 1]) as usize))
        } else {
            None
        },
        CursorStep::Head => Some((row as usize, 0usize)),
        CursorStep::End => Some((row as usize, len as usize)),
        CursorStep::Top => Some((0usize, fit_col(col, text[0]) as usize)),
        CursorStep::Bottom => Some(((text.len() - 1) as usize, fit_col(col, text[text.len() - 1]) as usize)),
    }
}

/// Where `n` repetitions of a cursor movement take the cursor at `pos`.
pub open spec fn repeated_moves(step: CursorStep, text: Seq<Seq<char>>, pos: (usize, usize), n: nat) -> (
    usize,
    usize,
)
    decreases n,
{
    if n == 0 {
        pos
    } else {
        let p = repeated_moves(step, text, pos, (n - 1) as nat);
        match next_position(step, p, text) {
            Some(q) => q,
            None => p,
        }
    }
}

/// The text after deleting the character after `pos`, or the line break at the end of its
/// line; unchanged at the very end.
pub open spec fn deleted_next(text: Seq<Seq<char>>, pos: (usize, usize)) -> Seq<Seq<char>> {
    let row = pos.0 as int;
    let col = pos.1 as int;
    let line = text[row];
    if col < line.len() {
        text.update(row, line.remove(col))
    } else if row + 1 < text.len() {
        text.update(row, line + text[row + 1]).remove(row + 1)
    } else {
        text
    }
}

/// A string as `insert_str` takes one line of it: without a final `\r`.
pub open spec fn inserted_piece(s: Seq<char>) -> Seq<char> {
    if s.len() > 0 && s.last() == '\r' {
        s.drop_last()
    } else {
        s
    }
}

/// The text after inserting `piece` (no line break in it) at `pos`.
pub open spec fn inserted_at(text: Seq<Seq<char>>, pos: (usize, usize), piece: Seq<char>) -> Seq<
    Seq<char>,
> {
    let row = pos.0 as int;
    let col = pos.1 as int;
    text.update(row, text[row].take(col) + piece + text[row].skip(col))
}

/// The cursor movements the workbench asks of the editor.
#[derive(Debug, Clone, Copy, PartialEq, Eq, Structural)]
pub enum CursorStep {
    Forward,
    Back,
    Up,
    Down,
    Head,
    End,
    Top,
    Bottom,
}

pub open spec fn lines_view(lines: Seq<String>) -> Seq<Seq<char>> {
    lines.map_values(|l: String| l@)
}

/// Trusted: `TextArea::default()`, which the crate builds from one empty line with the cursor
/// at (0, 0).
#[verifier::external_body]
pub(crate) fn empty_editor() -> (r: Editor)
    ensures
        editor_text(r) == seq![Seq::<char>::empty()],
        editor_position(r) == (0usize, 0usize),
        !editor_selecting(r),
{
    Editor { area: TextArea::default() }
}

/// Trusted: `TextArea::new(lines)` (what `TextArea::from` calls), which keeps the given lines (one empty line when there are
/// none) and puts the cursor at (0, 0).
#[verifier::external_body]
pub(crate) fn editor_from_lines(lines: Vec<String>) -> (r: Editor)
    ensures
        editor_text(r) == (if lines@.len() == 0 {
            seq![Seq::<char>::empty()]
        } else {
            lines_view(lines@)
        }),
        editor_position(r) == (0usize, 0usize),
        !editor_selecting(r),
{
    Editor { area: TextArea::new(lines) }
}

/// Trusted: `TextArea::set_style(Style::default())`, which only replaces the style field.
#[verifier::external_body]
pub(crate) fn clear_editor_style(e: &mut Editor)
    ensures
        editor_text(*final(e)) == editor_text(*old(e)),
        editor_position(*final(e)) == editor_position(*old(e)),
        editor_selecting(*final(e)) == editor_selecting(*old(e)),
{
    e.area.set_style(Style::default());
}

/// Trusted: `TextArea::set_cursor_line_style(Style::default())`, which only replaces the
/// cursor-line style field.
#[verifier::external_body]
pub(crate) fn clear_cursor_line_style(e: &mut Editor)
    ensures
        editor_text(*final(e)) == editor_text(*old(e)),
        editor_position(*final(e)) == editor_position(*old(e)),
        editor_selecting(*final(e)) == editor_selecting(*old(e)),
{
    e.area.set_cursor_line_style(Style::default());
}

/// Trusted: `TextArea::lines`, the lines the editor holds (copied out).
#[verifier::external_body]
pub(crate) fn editor_lines(e: &Editor) -> (r: Vec<String>)
    ensures
        lines_view(r@) == editor_text(*e),
{
    e.area.lines().to_vec()
}

/// Trusted: `TextArea::cursor`, the cursor's (row, column).
#[verifier::external_body]
pub(crate) fn editor_cursor(e: &Editor) -> (r: (usize, usize))
    ensures
        r == editor_position(*e),
{
    e.area.cursor()
}

/// Trusted: `TextArea::move_cursor`. The crate's source moves the cursor to where
/// `CursorMove::next_cursor` says (it stays when there is nowhere to go), keeps or cancels the
/// selection as it was, and leaves the text as it was.
#[verifier::external_body]
pub(crate) fn move_editor_cursor(e: &mut Editor, step: CursorStep)
    ensures
        editor_text(*final(e)) == editor_text(*old(e)),
        editor_selecting(*final(e)) == editor_selecting(*old(e)),
        cursor_ok(*old(e)) ==> editor_position(*final(e)) == match next_position(
            step,
            editor_position(*old(e)),
            editor_text(*old(e)),
        ) {
            Some(p) => p,
            None => editor_position(*old(e)),
        },
{
    let m = match step {
        CursorStep::Forward => CursorMove::Forward,
        CursorStep::Back => CursorMove::Back,
        CursorStep::Up => CursorMove::Up,
        CursorStep::Down => CursorMove::Down,
        CursorStep::Head => CursorMove::Head,
        CursorStep::End => CursorMove::End,
        CursorStep::Top => CursorMove::Top,
        CursorStep::Bottom => CursorMove::Bottom,
    };
    e.area.move_cursor(m);
}

/// Trusted: `TextArea::insert_str`. With no selection under way and a string without `\n`,
/// the crate's source inserts the string (less a final `\r`) at the cursor and moves the
/// cursor past it. With a selection, or line breaks in the string, the effect is not stated.
#[verifier::external_body]
pub(crate) fn editor_insert_str(e: &mut Editor, s: &str)
    ensures
        cursor_ok(*old(e)) && !editor_selecting(*old(e)) && !s@.contains('\n') ==> {
            &&& editor_text(*final(e)) == inserted_at(
                editor_text(*old(e)),
                editor_position(*old(e)),
                inserted_piece(s@),
            )
            &&& editor_position(*final(e)) == (
                editor_position(*old(e)).0,
                (editor_position(*old(e)).1 + inserted_piece(s@).len()) as usize,
            )
            &&& !editor_selecting(*final(e))
        },
{
    e.area.insert_str(s);
}

/// Trusted: `TextArea::delete_next_char`. With no selection under way, the crate's source
/// deletes the character after the cursor, or joins the next line at a line end, and leaves
/// the cursor where it was. With a selection the selection is deleted instead, which is not
/// stated.
#[verifier::external_body]
pub(crate) fn editor_delete_next_char(e: &mut Editor)
    ensures
        cursor_ok(*old(e)) && !editor_selecting(*old(e)) ==> {
            &&& editor_text(*final(e)) == deleted_next(
                editor_text(*old(e)),
                editor_position(*old(e)),
            )
            &&& editor_position(*final(e)) == editor_position(*old(e))
            &&& !editor_selecting(*final(e))
        },
{
    e.area.delete_next_char();
}

/// Trusted: `TextArea::insert_newline`. With no selection under way, the crate's source splits
/// the cursor's line at the cursor and puts the cursor at the head of the new line.
#[verifier::external_body]
pub(crate) fn editor_insert_newline(e: &mut Editor)
    ensures
        cursor_ok(*old(e)) && !editor_selecting(*old(e)) ==> {
            &&& editor_text(*final(e)) == split_at(editor_text(*old(e)), editor_position(*old(e)))
            &&& editor_position(*final(e)) == ((editor_position(*old(e)).0 + 1) as usize, 0usize)
            &&& !editor_selecting(*final(e))
        },
{
    e.area.insert_newline();
}

/// A plain character key: Ctrl and Alt up, and not a line break.
pub open spec fn typed_char(input: Input) -> Option<char> {
    match input.key {
        tui_textarea::Key::Char(c) => if !input.ctrl && !input.alt && c != '\n' && c != '\r' {
            Some(c)
        } else {
            None
        },
        _ => None,
    }
}

/// A key that `TextArea::input` takes as a line break: Enter, `\n` or `\r` (Ctrl and Alt
/// up), or Ctrl+M (Alt up).
pub open spec fn breaks_line(input: Input) -> bool {
    match input.key {
        tui_textarea::Key::Enter => true,
        tui_textarea::Key::Char(c) => !input.alt && ((!input.ctrl && (c == '\n' || c == '\r')) || (
        input.ctrl && c == 'm')),
        _ => false,
    }
}

/// A key that `TextArea::input` takes as deleting the character before the cursor: Backspace
/// or Ctrl+H (Alt up; Backspace with Ctrl up too).
pub open spec fn deletes_back(input: Input) -> bool {
    match input.key {
        tui_textarea::Key::Backspace => !input.ctrl && !input.alt,
        tui_textarea::Key::Char(c) => c == 'h' && input.ctrl && !input.alt,
        _ => false,
    }
}

/// A key that `TextArea::input` takes as deleting the character after the cursor: Delete or
/// Ctrl+D (Alt up; Delete with Ctrl up too).
pub open spec fn deletes_forward(input: Input) -> bool {
    match input.key {
        tui_textarea::Key::Delete => !input.ctrl && !input.alt,
        tui_textarea::Key::Char(c) => c == 'd' && input.ctrl && !input.alt,
        _ => false,
    }
}

/// Tab (Ctrl and Alt up).
pub open spec fn tabs(input: Input) -> bool {
    match input.key {
        tui_textarea::Key::Tab => !input.ctrl && !input.alt,
        _ => false,
    }
}

/// Printable ASCII characters only, each one cell wide on screen.
pub open spec fn plain_ascii(s: Seq<char>) -> bool {
    forall|i: int| 0 <= i < s.len() ==> ' ' <= #[trigger] s[i] && s[i] <= '~'
}

/// The spaces Tab inserts at column `col` of a line of one-cell characters: up to the next
/// multiple of four.
pub open spec fn tab_spaces(col: int) -> Seq<char> {
    Seq::new((4 - col % 4) as nat, |i: int| ' ')
}

/// The text after deleting the character before the cursor at `pos`: at the head of a line,
/// the line is joined to the one above; at the head of the text nothing changes.
pub open spec fn deleted_before(text: Seq<Seq<char>>, pos: (usize, usize)) -> Seq<Seq<char>> {
    let row = pos.0 as int;
    let col = pos.1 as int;
    if col > 0 {
        text.update(row, text[row].remove(col - 1))
    } else if row > 0 {
        text.update(row - 1, text[row - 1] + text[row]).remove(row)
    } else {
        text
    }
}

/// Where the cursor goes when the character before it is deleted: one back, or to the end of
/// the line above at the head of a line.
pub open spec fn position_before(text: Seq<Seq<char>>, pos: (usize, usize)) -> (usize, usize) {
    if pos.1 > 0 {
        (pos.0, (pos.1 - 1) as usize)
    } else if pos.0 > 0 {
        ((pos.0 - 1) as usize, text[pos.0 - 1].len() as usize)
    } else {
        pos
    }
}

/// The text after splitting the cursor's line at `pos`.
pub open spec fn split_at(text: Seq<Seq<char>>, pos: (usize, usize)) -> Seq<Seq<char>> {
    let row = pos.0 as int;
    let col = pos.1 as int;
    text.update(row, text[row].take(col)).insert(row + 1, text[row].skip(col))
}

/// Trusted: `TextArea::input`, the crate's default key bindings. With no selection under way,
/// the crate's source inserts a plain character (Ctrl and Alt up, not `\n` or `\r`) at the
/// cursor and moves the cursor past it, splits the line at the cursor for a line break key,
/// deletes the character before the cursor for Backspace (`delete_char`) and the one after it
/// for Delete (`delete_next_char`). For Tab (`insert_tab`, with the crate's default tab
/// length of four and soft tabs, which no function here changes) it inserts spaces up to the
/// next multiple of four display cells; this is stated where the line before the cursor is
/// printable ASCII, whose characters are one cell wide. What other keys do (moving,
/// selecting, undo and so on), and Tab after wider characters, is not stated here.
#[verifier::external_body]
pub(crate) fn editor_input(e: &mut Editor, input: Input)
    ensures
        cursor_ok(*old(e)) && !editor_selecting(*old(e)) ==> match typed_char(input) {
            Some(c) => {
                &&& editor_text(*final(e)) == inserted_at(
                    editor_text(*old(e)),
                    editor_position(*old(e)),
                    seq![c],
                )
                &&& editor_position(*final(e)) == (
                    editor_position(*old(e)).0,
                    (editor_position(*old(e)).1 + 1) as usize,
                )
                &&& !editor_selecting(*final(e))
            },
            None => true,
        },
        cursor_ok(*old(e)) && !editor_selecting(*old(e)) && breaks_line(input) ==> {
            &&& editor_text(*final(e)) == split_at(editor_text(*old(e)), editor_position(*old(e)))
            &&& editor_position(*final(e)) == ((editor_position(*old(e)).0 + 1) as usize, 0usize)
            &&& !editor_selecting(*final(e))
        },
        cursor_ok(*old(e)) && !editor_selecting(*old(e)) && deletes_back(input) ==> {
            &&& editor_text(*final(e)) == deleted_before(
                editor_text(*old(e)),
                editor_position(*old(e)),
            )
            &&& editor_position(*final(e)) == position_before(
                editor_text(*old(e)),
                editor_position(*old(e)),
            )
            &&& !editor_selecting(*final(e))
        },
        cursor_ok(*old(e)) && !editor_selecting(*old(e)) && tabs(input) && plain_ascii(
            editor_text(*old(e))[editor_position(*old(e)).0 as int].take(
                editor_position(*old(e)).1 as int,
            ),
        ) ==> {
            &&& editor_text(*final(e)) == inserted_at(
                editor_text(*old(e)),
                editor_position(*old(e)),
                tab_spaces(editor_position(*old(e)).1 as int),
            )
            &&& editor_position(*final(e)) == (
                editor_position(*old(e)).0,
                (editor_position(*old(e)).1 + tab_spaces(editor_position(*old(e)).1 as int).len())
                    as usize,
            )
            &&& !editor_selecting(*final(e))
        },
        cursor_ok(*old(e)) && !editor_selecting(*old(e)) && deletes_forward(input) ==> {
            &&& editor_text(*final(e)) == deleted_next(
                editor_text(*old(e)),
                editor_position(*old(e)),
            )
            &&& editor_position(*final(e)) == editor_position(*old(e))
            &&& !editor_selecting(*final(e))
        },
{
    e.area.input(input);
}

} // verus!
