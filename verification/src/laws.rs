//! Properties of the console's transition table, stated and proved once over
//! the abstract state, for every input the transitions admit.

use vstd::prelude::*;
use crate::vga::{
    blank_cell, cell_index, inv, spec_backspace, spec_clear, spec_scroll, spec_write_byte,
    spec_write_printable, spec_write_spaces, tab_spaces, Character, ScreenView, BUFFER_HEIGHT,
    BUFFER_WIDTH, GRID_CELLS, TAB_WIDTH,
};

verus! {

/// Writing any printable byte with the column short of the width sets the
/// cell at the cursor to that byte in the active color, advances the column
/// by exactly one, and changes nothing else.
pub proof fn lemma_printable_write(s: ScreenView, byte: u8)
    requires
        inv(s),
        s.row < BUFFER_HEIGHT,
        s.col < BUFFER_WIDTH,
        byte != 8 && byte != 9 && byte != 10 && byte != 13,
    ensures
        spec_write_byte(s, byte).cells == s.cells.update(
            cell_index(s.row, s.col),
            (Character { char_code: byte, color: s.color }),
        ),
        spec_write_byte(s, byte).col == s.col + 1,
        spec_write_byte(s, byte).row == s.row,
        spec_write_byte(s, byte).color == s.color,
{
}

/// Writing a printable byte at the last column leaves the column at the width
/// transiently; the next printable byte forces a new line first, so it lands
/// at column 0 of the next line (of the same line after a scroll, when the
/// cursor was already on the last row) and leaves the column at 1. Apart from
/// the two written cells, content changes only by the scroll's shift.
pub proof fn lemma_wrap_on_second_write(s: ScreenView, b1: u8, b2: u8)
    requires
        inv(s),
        s.row < BUFFER_HEIGHT,
        s.col == BUFFER_WIDTH - 1,
        b1 != 8 && b1 != 9 && b1 != 10 && b1 != 13,
        b2 != 8 && b2 != 9 && b2 != 10 && b2 != 13,
    ensures
        spec_write_byte(s, b1).col == BUFFER_WIDTH,
        spec_write_byte(s, b1).row == s.row,
        spec_write_byte(spec_write_byte(s, b1), b2).col == 1,
        s.row < BUFFER_HEIGHT - 1 ==> spec_write_byte(spec_write_byte(s, b1), b2).row == s.row
            + 1,
        s.row < BUFFER_HEIGHT - 1 ==> spec_write_byte(spec_write_byte(s, b1), b2).cells
            == spec_write_byte(s, b1).cells.update(
            cell_index(s.row + 1, 0),
            (Character { char_code: b2, color: s.color }),
        ),
        s.row == BUFFER_HEIGHT - 1 ==> spec_write_byte(spec_write_byte(s, b1), b2).row == s.row,
        s.row == BUFFER_HEIGHT - 1 ==> spec_write_byte(spec_write_byte(s, b1), b2).cells
            == spec_scroll(spec_write_byte(s, b1)).cells.update(
            cell_index(s.row, 0),
            (Character { char_code: b2, color: s.color }),
        ),
{
}

/// Clearing the screen twice in a row yields the same state as clearing it
/// once: all cells blank, and the cursor at the origin.
pub proof fn lemma_clear_idempotent(s: ScreenView)
    ensures
        spec_clear(spec_clear(s)) == spec_clear(s),
{
    assert(spec_clear(spec_clear(s)) =~= spec_clear(s));
}

/// Writing `n` spaces from a column that leaves them room on the line fills
/// the `n` cells after the cursor with spaces in the active color, advances
/// the column by `n`, and changes nothing else.
pub proof fn lemma_spaces_no_wrap(s: ScreenView, n: nat)
    requires
        inv(s),
        s.row < BUFFER_HEIGHT,
        s.col + n <= BUFFER_WIDTH,
    ensures
        spec_write_spaces(s, n).col == s.col + n,
        spec_write_spaces(s, n).row == s.row,
        spec_write_spaces(s, n).color == s.color,
        spec_write_spaces(s, n).cells.len() == s.cells.len(),
        forall|j: int|
            0 <= j < s.cells.len() ==> spec_write_spaces(s, n).cells[j] == if cell_index(
                s.row,
                s.col,
            ) <= j < cell_index(s.row, s.col + n) {
                blank_cell(s.color)
            } else {
                s.cells[j]
            },
    decreases n,
{
    if n > 0 {
        lemma_spaces_no_wrap(s, (n - 1) as nat);
        assert(spec_write_spaces(s, n) == spec_write_printable(
            spec_write_spaces(s, (n - 1) as nat),
            32,
        ));
    }
}

/// A tab written with the column short of the width advances the column to
/// the next multiple of the tab width — a full tab width when the column is
/// already at a multiple — filling the crossed cells with spaces in the
/// active color; it never passes the width, since every multiple of the tab
/// width up to a column short of the width stays within it.
pub proof fn lemma_tab(s: ScreenView)
    requires
        inv(s),
        s.row < BUFFER_HEIGHT,
        s.col < BUFFER_WIDTH,
    ensures
        spec_write_byte(s, 9).col == (s.col / (TAB_WIDTH as int) + 1) * (TAB_WIDTH as int),
        s.col < spec_write_byte(s, 9).col <= s.col + TAB_WIDTH,
        spec_write_byte(s, 9).col <= BUFFER_WIDTH,
        spec_write_byte(s, 9).col % (TAB_WIDTH as int) == 0,
        spec_write_byte(s, 9).row == s.row,
        spec_write_byte(s, 9).color == s.color,
        forall|j: int|
            0 <= j < s.cells.len() ==> spec_write_byte(s, 9).cells[j] == if cell_index(
                s.row,
                s.col,
            ) <= j < cell_index(s.row, spec_write_byte(s, 9).col) {
                blank_cell(s.color)
            } else {
                s.cells[j]
            },
{
    let q = s.col / (TAB_WIDTH as int);
    let r = s.col % (TAB_WIDTH as int);
    vstd::arithmetic::div_mod::lemma_fundamental_div_mod(s.col, TAB_WIDTH as int);
    assert(s.col == 4 * q + r);
    lemma_spaces_no_wrap(s, tab_spaces(s.col) as nat);
}

/// The three cases of a destructive backspace: a no-op at the origin; at
/// column 0 of a later row, the cell at the cursor is blanked and the cursor
/// moves to the last column of the previous row; elsewhere, the cell at the
/// cursor is blanked and the column moves back by one. The color never
/// changes.
pub proof fn lemma_backspace(s: ScreenView)
    requires
        inv(s),
        s.row < BUFFER_HEIGHT,
        s.col < BUFFER_WIDTH,
    ensures
        s.col == 0 && s.row == 0 ==> spec_write_byte(s, 8) == s,
        s.col == 0 && s.row > 0 ==> spec_write_byte(s, 8) == (ScreenView {
            col: BUFFER_WIDTH - 1,
            row: s.row - 1,
            cells: s.cells.update(cell_index(s.row, 0), blank_cell(s.color)),
            ..s
        }),
        s.col > 0 ==> spec_write_byte(s, 8) == (ScreenView {
            col: s.col - 1,
            cells: s.cells.update(cell_index(s.row, s.col), blank_cell(s.color)),
            ..s
        }),
        spec_write_byte(s, 8).color == s.color,
{
    assert(spec_write_byte(s, 8) == spec_backspace(s));
}

/// After a scroll, every row other than the last holds what the row below it
/// held, the last row is entirely blank cells in the color active at scroll
/// time, and the cursor and the color are unchanged.
pub proof fn lemma_scroll(s: ScreenView)
    requires
        inv(s),
    ensures
        forall|r: int, c: int|
            0 <= r < BUFFER_HEIGHT - 1 && 0 <= c < BUFFER_WIDTH ==> spec_scroll(s).cells[cell_index(
                r,
                c,
            )] == s.cells[cell_index(r + 1, c)],
        forall|j: int|
            cell_index(BUFFER_HEIGHT - 1, 0) <= j < GRID_CELLS ==> spec_scroll(s).cells[j]
                == blank_cell(s.color),
        spec_scroll(s).cells.len() == GRID_CELLS,
        spec_scroll(s).col == s.col,
        spec_scroll(s).row == s.row,
        spec_scroll(s).color == s.color,
{
}

} // verus!
