//! Cursor movement and scrolling decisions of the editor.

use crate::document::{rows_after_delete, rows_after_insert, same_file, Document};
use crate::position::Position;
use crate::row::RowView;
use vstd::prelude::*;

verus! {

/// A cursor movement asked for by a key.
#[derive(Debug, Clone, Copy, PartialEq, Eq, Structural)]
pub enum Movement {
    Up,
    Down,
    Left,
    Right,
    PageUp,
    PageDown,
    Home,
    End,
}

/// The length of row `y`, or 0 past the last row.
pub open spec fn width_at(rows: Seq<RowView>, y: int) -> int {
    if 0 <= y < rows.len() {
        rows[y].len as int
    } else {
        0
    }
}

/// Where a movement takes the cursor, before it is clipped to its row.
pub open spec fn step_cursor(rows: Seq<RowView>, p: Position, m: Movement, height: int) -> (int, int) {
    let x = p.x as int;
    let y = p.y as int;
    let h = rows.len() as int;
    match m {
        Movement::Up => (x, if y > 0 { y - 1 } else { 0 }),
        Movement::Down => (x, if y < h { y + 1 } else { y }),
        Movement::Left => if x > 0 {
            (x - 1, y)
        } else if y > 0 {
            (width_at(rows, y - 1), y - 1)
        } else {
            (x, y)
        },
        Movement::Right => if x < width_at(rows, y) {
            (x + 1, y)
        } else if y < h {
            (0, y + 1)
        } else {
            (x, y)
        },
        Movement::PageUp => (x, if y > height { y - height } else { 0 }),
        Movement::PageDown => (x, if y + height < h { y + height } else { h }),
        Movement::Home => (0, y),
        Movement::End => (width_at(rows, y), y),
    }
}

/// Where a movement takes the cursor: the step, with the column clipped to
/// the length of the row it lands on.
pub open spec fn moved(rows: Seq<RowView>, p: Position, m: Movement, height: int) -> (int, int) {
    let (x, y) = step_cursor(rows, p, m, height);
    let w = width_at(rows, y);
    (if x > w { w } else { x }, y)
}

/// `a + b`, or `usize::MAX` when that does not fit.
pub open spec fn saturating_add(a: int, b: int) -> int {
    if a + b > usize::MAX {
        usize::MAX as int
    } else {
        a + b
    }
}

/// The offset along one axis that keeps `p` inside a window of `size`
/// cells starting at `off`.
pub open spec fn scrolled(p: int, off: int, size: int) -> int {
    if p < off {
        p
    } else if p >= saturating_add(off, size) {
        saturating_add(if p > size { p - size } else { 0 }, 1)
    } else {
        off
    }
}

/// The length of row `y` of `document`, or 0 past its last row.
fn row_width(document: &Document, y: usize) -> (r: usize)
    ensures
        r == width_at(document@.rows, y as int),
{
    match document.row(y) {
        Some(row) => row.len(),
        None => 0,
    }
}

/// Moves the cursor one step of `movement` in `document`, on a screen of
/// `terminal_height` rows, keeping it within the text.
pub fn move_cursor(
    document: &Document,
    position: &Position,
    movement: Movement,
    terminal_height: usize,
) -> (r: Position)
    ensures
        (r.x as int, r.y as int) == moved(document@.rows, *position, movement, terminal_height as int),
{
    let mut x = position.x;
    let mut y = position.y;
    let height = document.len();
    let width = row_width(document, y);
    match movement {
        Movement::Up => {
            y = y.saturating_sub(1);
        },
        Movement::Down => {
            if y < height {
                y = y + 1;
            }
        },
        Movement::Left => {
            if x > 0 {
                x -= 1;
            } else if y > 0 {
                y -= 1;
                x = row_width(document, y);
            }
        },
        Movement::Right => {
            if x < width {
                x += 1;
            } else if y < height {
                y += 1;
                x = 0;
            }
        },
        Movement::PageUp => {
            y = if y > terminal_height {
                y - terminal_height
            } else {
                0
            };
        },
        Movement::PageDown => {
            y = if y.saturating_add(terminal_height) < height {
                y + terminal_height
            } else {
                height
            };
        },
        Movement::Home => {
            x = 0;
        },
        Movement::End => {
            x = width;
        },
    }
    let width = row_width(document, y);
    if x > width {
        x = width;
    }
    Position { x, y }
}

/// The scroll offset that keeps `position` on a screen of `width` columns
/// and `height` rows, moving `offset` as little as needed.
pub fn scroll(position: &Position, offset: &Position, width: usize, height: usize) -> (r: Position)
    ensures
        r.x == scrolled(position.x as int, offset.x as int, width as int),
        r.y == scrolled(position.y as int, offset.y as int, height as int),
{
    Position { x: scroll_axis(position.x, offset.x, width), y: scroll_axis(position.y, offset.y, height) }
}

/// The offset along one axis; see `scrolled`.
fn scroll_axis(p: usize, off: usize, size: usize) -> (r: usize)
    ensures
        r == scrolled(p as int, off as int, size as int),
{
    if p < off {
        p
    } else if p >= off.saturating_add(size) {
        p.saturating_sub(size).saturating_add(1)
    } else {
        off
    }
}

/// A key that edits the text.
#[derive(Debug, Clone, Copy, PartialEq, Eq, Structural)]
pub enum Edit {
    /// Types a character at the cursor.
    Char(char),
    /// Deletes at the cursor.
    Delete,
    /// Deletes before the cursor.
    Backspace,
}

/// Applies an editing key at `position` and returns where the cursor goes:
/// a typed character is inserted and the cursor moves right; Delete deletes
/// at the cursor; Backspace, unless the cursor is at the very start, moves
/// the cursor left and deletes there.
pub fn edit(document: &mut Document, position: &Position, key: Edit, terminal_height: usize) -> (r:
    Position)
    requires
        old(document).wf(),
    ensures
        final(document).wf(),
        same_file(final(document)@, old(document)@),
        match key {
            Edit::Char(c) => {
                &&& position.y <= old(document)@.rows.len() ==> final(document)@.rows
                    == rows_after_insert(old(document)@.rows, *position, c, old(document)@.filetype.opts)
                &&& position.y > old(document)@.rows.len() ==> final(document)@ == old(document)@
                &&& (r.x as int, r.y as int) == moved(final(document)@.rows, *position, Movement::Right, terminal_height as int)
            },
            Edit::Delete => {
                &&& r == *position
                &&& position.y < old(document)@.rows.len() ==> final(document)@.rows
                    == rows_after_delete(old(document)@.rows, *position, old(document)@.filetype.opts)
                &&& position.y >= old(document)@.rows.len() ==> final(document)@ == old(document)@
            },
            Edit::Backspace => if position.x > 0 || position.y > 0 {
                let (x, y) = moved(old(document)@.rows, *position, Movement::Left, terminal_height as int);
                &&& r.x == x && r.y == y
                &&& r.y < old(document)@.rows.len() ==> final(document)@.rows
                    == rows_after_delete(old(document)@.rows, r, old(document)@.filetype.opts)
                &&& r.y >= old(document)@.rows.len() ==> final(document)@ == old(document)@
            } else {
                r == *position && final(document)@ == old(document)@
            },
        },
{
    match key {
        Edit::Char(c) => {
            document.insert(position, c);
            move_cursor(document, position, Movement::Right, terminal_height)
        },
        Edit::Delete => {
            document.delete(position);
            *position
        },
        Edit::Backspace => {
            if position.x > 0 || position.y > 0 {
                let back = move_cursor(document, position, Movement::Left, terminal_height);
                document.delete(&back);
                back
            } else {
                *position
            }
        },
    }
}

} // verus!
