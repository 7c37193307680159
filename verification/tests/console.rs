use vga_console::vga::{Color, HalfColor, Writer, BUFFER_HEIGHT, BUFFER_WIDTH};

/// Every cell of the grid, as (character code, color byte), row by row.
fn snapshot(w: &Writer) -> Vec<(u8, u8)> {
    let mut cells = Vec::new();
    for row in 0..BUFFER_HEIGHT {
        for col in 0..BUFFER_WIDTH {
            cells.push(w.cell_at(row, col));
        }
    }
    cells
}

#[test]
fn fresh_writer_state() {
    let w = Writer::new();
    assert_eq!(w.cursor_col(), 0);
    assert_eq!(w.cursor_row(), 0);
    assert_eq!(w.color_byte(), 15);
    for cell in snapshot(&w) {
        assert_eq!(cell, (b' ', 15));
    }
}

#[test]
fn color_new_encodes_nibbles() {
    assert_eq!(Color::new(HalfColor::White, HalfColor::Black).byte(), 15);
    assert_eq!(Color::new(HalfColor::Black, HalfColor::White).byte(), 240);
    assert_eq!(Color::new(HalfColor::Red, HalfColor::Blue).byte(), 16 + 4);
    assert_eq!(Color::new(HalfColor::Yellow, HalfColor::Pink).byte(), 13 * 16 + 14);
}

#[test]
fn printable_write_sets_cell_and_advances() {
    let mut w = Writer::new();
    w.write_byte(b'X');
    assert_eq!(w.cell_at(0, 0), (b'X', 15));
    assert_eq!(w.cursor_col(), 1);
    assert_eq!(w.cursor_row(), 0);
}

#[test]
fn wrap_at_line_end() {
    let mut w = Writer::new();
    w.set_cursor(BUFFER_WIDTH - 1, 0);
    w.write_byte(b'A');
    // The column rests at the width transiently, until the next printable
    // write forces the wrap.
    assert_eq!(w.cursor_col(), BUFFER_WIDTH);
    assert_eq!(w.cursor_row(), 0);
    w.write_byte(b'B');
    assert_eq!(w.cursor_col(), 1);
    assert_eq!(w.cursor_row(), 1);
    assert_eq!(w.cell_at(0, BUFFER_WIDTH - 1), (b'A', 15));
    assert_eq!(w.cell_at(1, 0), (b'B', 15));
}

#[test]
fn wrap_scrolls_at_last_row() {
    let mut w = Writer::new();
    w.set_cursor(0, 1);
    w.write_byte(b'Q');
    w.set_cursor(BUFFER_WIDTH - 1, BUFFER_HEIGHT - 1);
    w.write_byte(b'A');
    w.write_byte(b'B');
    // The second write wrapped, which scrolled: the row stays the last one.
    assert_eq!(w.cursor_row(), BUFFER_HEIGHT - 1);
    assert_eq!(w.cursor_col(), 1);
    // Row 1 moved up to row 0, and 'A' moved from the last row to the one
    // above it.
    assert_eq!(w.cell_at(0, 0), (b'Q', 15));
    assert_eq!(w.cell_at(BUFFER_HEIGHT - 2, BUFFER_WIDTH - 1), (b'A', 15));
    assert_eq!(w.cell_at(BUFFER_HEIGHT - 1, 0), (b'B', 15));
    for col in 1..BUFFER_WIDTH {
        assert_eq!(w.cell_at(BUFFER_HEIGHT - 1, col), (b' ', 15));
    }
}

#[test]
fn clear_screen_idempotent() {
    let mut w = Writer::new();
    w.write_str("some text\nand more");
    w.set_color(Color::new(HalfColor::Green, HalfColor::Red));
    w.clear_screen();
    let once = (w.cursor_col(), w.cursor_row(), w.color_byte(), snapshot(&w));
    w.clear_screen();
    let twice = (w.cursor_col(), w.cursor_row(), w.color_byte(), snapshot(&w));
    assert_eq!(once, twice);
    assert_eq!(w.cursor_col(), 0);
    assert_eq!(w.cursor_row(), 0);
    for cell in snapshot(&w) {
        assert_eq!(cell, (b' ', 4 * 16 + 2));
    }
}

#[test]
fn tab_from_column_five() {
    let mut w = Writer::new();
    w.set_cursor(5, 0);
    w.write_byte(b'\t');
    assert_eq!(w.cursor_col(), 8);
    assert_eq!(w.cursor_row(), 0);
    for col in 5..8 {
        assert_eq!(w.cell_at(0, col), (b' ', 15));
    }
}

#[test]
fn tab_at_multiple_advances_full_width() {
    let mut w = Writer::new();
    w.write_byte(b'\t');
    assert_eq!(w.cursor_col(), 4);
    assert_eq!(w.cursor_row(), 0);
}

#[test]
fn tab_near_line_end_stops_at_width() {
    let mut w = Writer::new();
    w.set_cursor(78, 0);
    w.write_byte(b'\t');
    assert_eq!(w.cursor_col(), BUFFER_WIDTH);
    assert_eq!(w.cursor_row(), 0);
}

#[test]
fn tab_at_width_wraps_like_spaces() {
    let mut w = Writer::new();
    w.set_cursor(BUFFER_WIDTH, 0);
    w.write_byte(b'\t');
    assert_eq!(w.cursor_row(), 1);
    assert_eq!(w.cursor_col(), 4);
    for col in 0..4 {
        assert_eq!(w.cell_at(1, col), (b' ', 15));
    }
}

#[test]
fn backspace_at_origin_is_noop() {
    let mut w = Writer::new();
    w.write_byte(0x08);
    assert_eq!(w.cursor_col(), 0);
    assert_eq!(w.cursor_row(), 0);
    for cell in snapshot(&w) {
        assert_eq!(cell, (b' ', 15));
    }
}

#[test]
fn backspace_at_column_zero_moves_up() {
    let mut w = Writer::new();
    w.set_color(Color::new(HalfColor::Blue, HalfColor::Black));
    w.set_cursor(0, 3);
    w.write_byte(0x08);
    assert_eq!(w.cursor_row(), 2);
    assert_eq!(w.cursor_col(), BUFFER_WIDTH - 1);
    // The cell at the old position was blanked in the active color; the
    // previous row is untouched.
    assert_eq!(w.cell_at(3, 0), (b' ', 1));
    assert_eq!(w.cell_at(2, BUFFER_WIDTH - 1), (b' ', 15));
}

#[test]
fn backspace_blanks_cell_at_cursor() {
    let mut w = Writer::new();
    w.set_cursor(4, 2);
    w.write_byte(b'U');
    w.write_byte(b'V');
    w.set_cursor(5, 2);
    w.write_byte(0x08);
    // The cell at the cursor itself is blanked; the one before it stays.
    assert_eq!(w.cell_at(2, 5), (b' ', 15));
    assert_eq!(w.cell_at(2, 4), (b'U', 15));
    assert_eq!(w.cursor_col(), 4);
    assert_eq!(w.cursor_row(), 2);
}

#[test]
fn backspace_does_not_erase_previous_cell() {
    let mut w = Writer::new();
    w.write_str("A\x08");
    // The backspace blanks the (already blank) cell the cursor stands on and
    // moves back; the 'A' it moved onto is kept.
    assert_eq!(w.cell_at(0, 0), (b'A', 15));
    assert_eq!(w.cursor_col(), 0);
    assert_eq!(w.cursor_row(), 0);
}

#[test]
fn scroll_shifts_rows_up_and_blanks_last() {
    let mut w = Writer::new();
    for row in 0..BUFFER_HEIGHT {
        w.set_cursor(0, row);
        w.write_byte(b'A' + row as u8);
    }
    w.set_cursor(0, BUFFER_HEIGHT - 1);
    w.write_byte(b'\n');
    assert_eq!(w.cursor_col(), 0);
    assert_eq!(w.cursor_row(), BUFFER_HEIGHT - 1);
    for row in 0..BUFFER_HEIGHT - 1 {
        assert_eq!(w.cell_at(row, 0), (b'A' + row as u8 + 1, 15));
    }
    for col in 0..BUFFER_WIDTH {
        assert_eq!(w.cell_at(BUFFER_HEIGHT - 1, col), (b' ', 15));
    }
}

#[test]
fn set_cursor_clamps_to_one_past_the_end() {
    let mut w = Writer::new();
    w.set_cursor(100, 200);
    assert_eq!(w.cursor_col(), BUFFER_WIDTH);
    assert_eq!(w.cursor_row(), BUFFER_HEIGHT);
    w.set_cursor(BUFFER_WIDTH, BUFFER_HEIGHT);
    assert_eq!(w.cursor_col(), BUFFER_WIDTH);
    assert_eq!(w.cursor_row(), BUFFER_HEIGHT);
    w.set_cursor(3, 7);
    assert_eq!(w.cursor_col(), 3);
    assert_eq!(w.cursor_row(), 7);
}

#[test]
fn carriage_return_resets_column() {
    let mut w = Writer::new();
    w.write_str("AB\rC");
    assert_eq!(w.cell_at(0, 0), (b'C', 15));
    assert_eq!(w.cell_at(0, 1), (b'B', 15));
    assert_eq!(w.cursor_col(), 1);
    assert_eq!(w.cursor_row(), 0);
}

#[test]
fn set_color_affects_new_cells_only() {
    let mut w = Writer::new();
    w.write_byte(b'A');
    w.set_color(Color::new(HalfColor::Yellow, HalfColor::Blue));
    assert_eq!(w.color_byte(), 16 + 14);
    w.write_byte(b'B');
    assert_eq!(w.cell_at(0, 0), (b'A', 15));
    assert_eq!(w.cell_at(0, 1), (b'B', 16 + 14));
}

#[test]
fn end_to_end_scenario() {
    let mut w = Writer::new();
    w.write_str("AB\tC\n");
    assert_eq!(w.cell_at(0, 0), (b'A', 15));
    assert_eq!(w.cell_at(0, 1), (b'B', 15));
    assert_eq!(w.cell_at(0, 2), (b' ', 15));
    assert_eq!(w.cell_at(0, 3), (b' ', 15));
    assert_eq!(w.cell_at(0, 4), (b'C', 15));
    assert_eq!(w.cursor_row(), 1);
    assert_eq!(w.cursor_col(), 0);
}

#[test]
fn write_bytes_matches_write_str() {
    let mut a = Writer::new();
    let mut b = Writer::new();
    a.write_str("one\ttwo\r\nthree");
    b.write_bytes("one\ttwo\r\nthree".as_bytes());
    assert_eq!(a.cursor_col(), b.cursor_col());
    assert_eq!(a.cursor_row(), b.cursor_row());
    assert_eq!(snapshot(&a), snapshot(&b));
}

#[test]
fn write_str_writes_each_utf8_byte() {
    let mut w = Writer::new();
    w.write_str("é");
    // A two-byte character occupies two cells, one per byte; the console
    // renders single-byte codes only.
    assert_eq!(w.cell_at(0, 0), (0xC3, 15));
    assert_eq!(w.cell_at(0, 1), (0xA9, 15));
    assert_eq!(w.cursor_col(), 2);
}

#[test]
fn write_str_wraps_across_lines() {
    let mut w = Writer::new();
    let mut long = String::new();
    for _ in 0..BUFFER_WIDTH + 2 {
        long.push('y');
    }
    w.write_str(&long);
    assert_eq!(w.cursor_row(), 1);
    assert_eq!(w.cursor_col(), 2);
    assert_eq!(w.cell_at(0, BUFFER_WIDTH - 1), (b'y', 15));
    assert_eq!(w.cell_at(1, 1), (b'y', 15));
    assert_eq!(w.cell_at(1, 2), (b' ', 15));
}

#[test]
fn bytes_ok_finds_backspace_at_width() {
    let w = Writer::new();
    assert!(w.bytes_ok("plain text\nwith control\tbytes\x08".as_bytes()));
    let mut full_line = vec![b'a'; BUFFER_WIDTH];
    full_line.push(0x08);
    assert!(!w.bytes_ok(&full_line));
}

#[test]
fn write_str_checked_rejects_and_leaves_state() {
    let mut w = Writer::new();
    let mut bad = String::new();
    for _ in 0..BUFFER_WIDTH {
        bad.push('x');
    }
    bad.push('\u{8}');
    assert!(!w.write_str_checked(&bad));
    assert_eq!(w.cursor_col(), 0);
    assert_eq!(w.cursor_row(), 0);
    for cell in snapshot(&w) {
        assert_eq!(cell, (b' ', 15));
    }
    assert!(w.write_str_checked("hi"));
    assert_eq!(w.cell_at(0, 0), (b'h', 15));
    assert_eq!(w.cell_at(0, 1), (b'i', 15));
    assert_eq!(w.cursor_col(), 2);
}
