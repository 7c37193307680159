//! A text-mode console: a fixed 25x80 grid of character/color cells, a cursor,
//! and a byte-level write state machine with line wrap, scrolling, tab
//! expansion, carriage return, and destructive backspace.

use vstd::prelude::*;
use vstd::string::StringSliceAdditionalSpecFns;

verus! {

/// The buffer width, in columns.
pub const BUFFER_WIDTH: usize = 80;

/// The buffer height, in rows.
pub const BUFFER_HEIGHT: usize = 25;

/// The tab width.
pub const TAB_WIDTH: usize = 4;

/// The number of cells in the whole grid.
pub const GRID_CELLS: usize = BUFFER_WIDTH * BUFFER_HEIGHT;

/// The `HalfColor` type.
///
/// Represents a 4-bit color intensity, usable as foreground or background.
#[derive(Copy, Clone)]
pub enum HalfColor {
    Black,
    Blue,
    Green,
    Cyan,
    Red,
    Magenta,
    Brown,
    LightGray,
    DarkGray,
    LightBlue,
    LightGreen,
    LightCyan,
    LightRed,
    Pink,
    Yellow,
    White,
}

impl HalfColor {
    /// The 4-bit value of this intensity.
    pub open spec fn spec_code(self) -> u8 {
        match self {
            HalfColor::Black => 0,
            HalfColor::Blue => 1,
            HalfColor::Green => 2,
            HalfColor::Cyan => 3,
            HalfColor::Red => 4,
            HalfColor::Magenta => 5,
            HalfColor::Brown => 6,
            HalfColor::LightGray => 7,
            HalfColor::DarkGray => 8,
            HalfColor::LightBlue => 9,
            HalfColor::LightGreen => 10,
            HalfColor::LightCyan => 11,
            HalfColor::LightRed => 12,
            HalfColor::Pink => 13,
            HalfColor::Yellow => 14,
            HalfColor::White => 15,
        }
    }

    /// Returns the 4-bit value of this intensity.
    pub fn code(self) -> (r: u8)
        ensures
            r == self.spec_code(),
    {
        match self {
            HalfColor::Black => 0,
            HalfColor::Blue => 1,
            HalfColor::Green => 2,
            HalfColor::Cyan => 3,
            HalfColor::Red => 4,
            HalfColor::Magenta => 5,
            HalfColor::Brown => 6,
            HalfColor::LightGray => 7,
            HalfColor::DarkGray => 8,
            HalfColor::LightBlue => 9,
            HalfColor::LightGreen => 10,
            HalfColor::LightCyan => 11,
            HalfColor::LightRed => 12,
            HalfColor::Pink => 13,
            HalfColor::Yellow => 14,
            HalfColor::White => 15,
        }
    }
}

/// The `Color` type: one attribute byte, high nibble background, low nibble
/// foreground.
#[derive(Copy, Clone)]
pub struct Color(u8);

impl Color {
    /// The attribute byte of this color.
    pub closed spec fn spec_byte(self) -> u8 {
        self.0
    }

    /// Constructs a new `Color` from a foreground and a background intensity.
    pub fn new(foreground: HalfColor, background: HalfColor) -> (r: Color)
        ensures
            r.spec_byte() == background.spec_code() * 16 + foreground.spec_code(),
    {
        let f = foreground.code();
        let b = background.code();
        proof {
            assert(b << 4 | f == b * 16 + f) by (bit_vector)
                requires
                    b <= 15 && f <= 15,
            ;
        }
        Color(b << 4 | f)
    }

    /// Returns the attribute byte of this color.
    pub fn byte(self) -> (r: u8)
        ensures
            r == self.spec_byte(),
    {
        self.0
    }
}

/// The `Character` type.
///
/// Represents one cell of the grid: a character code and a color attribute.
#[derive(Copy, Clone)]
pub struct Character {
    /// The ASCII character code.
    pub char_code: u8,
    /// The color byte.
    pub color: Color,
}

/// A blank cell: a space in the given color.
pub open spec fn blank_cell(color: Color) -> Character {
    Character { char_code: 32, color }
}

/// The index of the cell at `(row, col)` in the grid, stored row by row.
pub open spec fn cell_index(row: int, col: int) -> int {
    row * BUFFER_WIDTH + col
}

/// The abstract state of a console: cursor position, active color, and the
/// contents of the grid, row by row.
#[verifier::ext_equal]
pub struct ScreenView {
    /// The cursor column.
    pub col: int,
    /// The cursor row.
    pub row: int,
    /// The active color.
    pub color: Color,
    /// The grid contents, row by row.
    pub cells: Seq<Character>,
}

/// The console invariant: the grid has its fixed size, and the cursor lies
/// within the grid, allowing the one-past-the-end positions that a wrap or
/// `set_cursor` can leave it at.
pub open spec fn inv(s: ScreenView) -> bool {
    &&& s.cells.len() == GRID_CELLS
    &&& 0 <= s.col <= BUFFER_WIDTH
    &&& 0 <= s.row <= BUFFER_HEIGHT
}

/// The state after a scroll: every row other than the last takes the contents
/// of the row below it, and the last row becomes all blank cells in the
/// state's active color. The cursor and the color are unchanged.
pub open spec fn spec_scroll(s: ScreenView) -> ScreenView {
    ScreenView {
        cells: Seq::new(
            GRID_CELLS as nat,
            |i: int|
                if i < cell_index(BUFFER_HEIGHT - 1, 0) {
                    s.cells[i + BUFFER_WIDTH]
                } else {
                    blank_cell(s.color)
                },
        ),
        ..s
    }
}

/// The state after a new-line transition: the column returns to 0, and the
/// row advances, or the grid scrolls if the cursor is already past the
/// second-to-last row.
pub open spec fn spec_new_line(s: ScreenView) -> ScreenView {
    if s.row < BUFFER_HEIGHT - 1 {
        ScreenView { col: 0, row: s.row + 1, ..s }
    } else {
        ScreenView { col: 0, ..spec_scroll(s) }
    }
}

/// The state after writing one printable byte: a forced new line first if the
/// column has reached the width, then the byte in the active color at the
/// cursor, and the column advanced by one.
pub open spec fn spec_write_printable(s: ScreenView, byte: u8) -> ScreenView {
    let t = if s.col >= BUFFER_WIDTH {
        spec_new_line(s)
    } else {
        s
    };
    ScreenView {
        col: t.col + 1,
        cells: t.cells.update(cell_index(t.row, t.col), (Character { char_code: byte, color: t.color })),
        ..t
    }
}

/// The state after writing `n` spaces through the printable-byte path.
pub open spec fn spec_write_spaces(s: ScreenView, n: nat) -> ScreenView
    decreases n,
{
    if n == 0 {
        s
    } else {
        spec_write_printable(spec_write_spaces(s, (n - 1) as nat), 32)
    }
}

/// The number of spaces a tab writes at the given column: enough to advance
/// to the next multiple of the tab width.
pub open spec fn tab_spaces(col: int) -> int {
    TAB_WIDTH - (col % (TAB_WIDTH as int))
}

/// The state after a destructive backspace: a no-op at the origin; otherwise
/// the cell at the cursor is blanked, and the cursor moves back by one
/// column, or to the last column of the previous row if it was at column 0.
pub open spec fn spec_backspace(s: ScreenView) -> ScreenView {
    if s.col == 0 && s.row == 0 {
        s
    } else if s.col == 0 {
        ScreenView {
            col: BUFFER_WIDTH - 1,
            row: s.row - 1,
            cells: s.cells.update(cell_index(s.row, s.col), blank_cell(s.color)),
            ..s
        }
    } else {
        ScreenView {
            col: s.col - 1,
            cells: s.cells.update(cell_index(s.row, s.col), blank_cell(s.color)),
            ..s
        }
    }
}

/// The state after writing one byte: the complete transition table of the
/// console, dispatching on newline, carriage return, tab, backspace, and the
/// printable bytes.
pub open spec fn spec_write_byte(s: ScreenView, byte: u8) -> ScreenView {
    if byte == 10 {
        spec_new_line(s)
    } else if byte == 13 {
        ScreenView { col: 0, ..s }
    } else if byte == 9 {
        spec_write_spaces(s, tab_spaces(s.col) as nat)
    } else if byte == 8 {
        spec_backspace(s)
    } else {
        spec_write_printable(s, byte)
    }
}

/// Whether one byte can be written at the given state without reaching
/// outside the grid: a backspace must not find the column at the width, the
/// one transient position a printable write leaves right before a wrap.
pub open spec fn spec_byte_ok(s: ScreenView, byte: u8) -> bool {
    byte == 8 ==> s.col < BUFFER_WIDTH
}

/// The state after writing a sequence of bytes in order.
pub open spec fn spec_write_bytes(s: ScreenView, bytes: Seq<u8>) -> ScreenView
    decreases bytes.len(),
{
    if bytes.len() == 0 {
        s
    } else {
        spec_write_byte(spec_write_bytes(s, bytes.drop_last()), bytes.last())
    }
}

/// Whether a sequence of bytes can be written in order from the given state
/// with every single write admissible.
pub open spec fn spec_bytes_ok(s: ScreenView, bytes: Seq<u8>) -> bool
    decreases bytes.len(),
{
    bytes.len() == 0 || (spec_bytes_ok(s, bytes.drop_last()) && spec_byte_ok(
        spec_write_bytes(s, bytes.drop_last()),
        bytes.last(),
    ))
}

/// An admissible byte sequence stays admissible when cut down to a prefix.
pub proof fn lemma_bytes_ok_take(s: ScreenView, bytes: Seq<u8>, i: int)
    requires
        spec_bytes_ok(s, bytes),
        0 <= i <= bytes.len(),
    ensures
        spec_bytes_ok(s, bytes.take(i)),
    decreases bytes.len() - i,
{
    if i == bytes.len() {
        assert(bytes.take(i) =~= bytes);
    } else {
        lemma_bytes_ok_take(s, bytes, i + 1);
        assert(bytes.take(i + 1).drop_last() =~= bytes.take(i));
    }
}

/// The state after a clear: cursor at the origin and every cell blank in the
/// state's active color.
pub open spec fn spec_clear(s: ScreenView) -> ScreenView {
    ScreenView {
        col: 0,
        row: 0,
        color: s.color,
        cells: Seq::new(GRID_CELLS as nat, |i: int| blank_cell(s.color)),
    }
}

/// The `Writer` type: a console bound to its grid.
pub struct Writer {
    /// The column.
    col: usize,
    /// The row.
    row: usize,
    /// The color.
    color: Color,
    /// The grid cells, row by row.
    grid: Vec<Character>,
}

impl View for Writer {
    type V = ScreenView;

    closed spec fn view(&self) -> ScreenView {
        ScreenView { col: self.col as int, row: self.row as int, color: self.color, cells: self.grid@ }
    }
}

impl Writer {
    /// Constructs a fresh `Writer`: cursor at the origin, white on black, and
    /// an all-blank grid.
    pub fn new() -> (w: Writer)
        ensures
            inv(w@),
            w@.col == 0,
            w@.row == 0,
            w@.color.spec_byte() == 15,
            w@.cells == Seq::new(GRID_CELLS as nat, |i: int| blank_cell(w@.color)),
    {
        let color = Color::new(HalfColor::White, HalfColor::Black);
        let mut grid: Vec<Character> = Vec::new();
        let mut i: usize = 0;
        while i < GRID_CELLS
            invariant
                i <= GRID_CELLS,
                grid@.len() == i,
                forall|j: int| 0 <= j < i ==> grid@[j] == blank_cell(color),
            decreases GRID_CELLS - i,
        {
            grid.push(Character { char_code: 32, color });
            i += 1;
        }
        let w = Writer { col: 0, row: 0, color, grid };
        proof {
            assert(w@.cells =~= Seq::new(GRID_CELLS as nat, |i: int| blank_cell(w@.color)));
        }
        w
    }

    /// Returns the cursor column.
    pub fn cursor_col(&self) -> (r: usize)
        ensures
            r == self@.col,
    {
        self.col
    }

    /// Returns the cursor row.
    pub fn cursor_row(&self) -> (r: usize)
        ensures
            r == self@.row,
    {
        self.row
    }

    /// Returns the attribute byte of the active color.
    pub fn color_byte(&self) -> (r: u8)
        ensures
            r == self@.color.spec_byte(),
    {
        self.color.byte()
    }

    /// Returns the character code and color byte of the cell at `(row, col)`.
    pub fn cell_at(&self, row: usize, col: usize) -> (r: (u8, u8))
        requires
            inv(self@),
            row < BUFFER_HEIGHT,
            col < BUFFER_WIDTH,
        ensures
            r.0 == self@.cells[cell_index(row as int, col as int)].char_code,
            r.1 == self@.cells[cell_index(row as int, col as int)].color.spec_byte(),
    {
        let c = self.grid[row * BUFFER_WIDTH + col];
        (c.char_code, c.color.byte())
    }

    /// Scrolls up by one line and blanks the last line.
    #[verifier::loop_isolation(false)]
    fn scroll(&mut self)
        requires
            inv(old(self)@),
        ensures
            final(self)@ == spec_scroll(old(self)@),
            inv(final(self)@),
    {
        let mut i: usize = 0;
        while i < GRID_CELLS - BUFFER_WIDTH
            invariant
                i <= GRID_CELLS - BUFFER_WIDTH,
                self@.col == old(self)@.col,
                self@.row == old(self)@.row,
                self@.color == old(self)@.color,
                self@.cells.len() == GRID_CELLS,
                forall|j: int| 0 <= j < i ==> self@.cells[j] == old(self)@.cells[j + BUFFER_WIDTH],
                forall|j: int| i <= j < GRID_CELLS ==> self@.cells[j] == old(self)@.cells[j],
            decreases GRID_CELLS - BUFFER_WIDTH - i,
        {
            let c = self.grid[i + BUFFER_WIDTH];
            self.grid.set(i, c);
            i += 1;
        }
        let blank = Character { char_code: 32, color: self.color };
        let mut j: usize = GRID_CELLS - BUFFER_WIDTH;
        while j < GRID_CELLS
            invariant
                GRID_CELLS - BUFFER_WIDTH <= j <= GRID_CELLS,
                self@.col == old(self)@.col,
                self@.row == old(self)@.row,
                self@.color == old(self)@.color,
                self@.cells.len() == GRID_CELLS,
                forall|k: int|
                    0 <= k < GRID_CELLS - BUFFER_WIDTH ==> self@.cells[k] == old(self)@.cells[k
                        + BUFFER_WIDTH],
                forall|k: int|
                    GRID_CELLS - BUFFER_WIDTH <= k < j ==> self@.cells[k] == blank_cell(
                        old(self)@.color,
                    ),
            decreases GRID_CELLS - j,
        {
            self.grid.set(j, blank);
            j += 1;
        }
        proof {
            assert(self@ =~= spec_scroll(old(self)@));
        }
    }

    /// Starts a new line: the column returns to 0, and the row advances, or
    /// the grid scrolls if the cursor is already past the second-to-last row.
    fn new_line(&mut self)
        requires
            inv(old(self)@),
        ensures
            final(self)@ == spec_new_line(old(self)@),
            inv(final(self)@),
    {
        self.col = 0;
        if self.row < BUFFER_HEIGHT - 1 {
            self.row = self.row + 1;
        } else {
            self.scroll();
            proof {
                assert(self@ =~= spec_new_line(old(self)@));
            }
        }
    }

    /// Writes one byte through the printable path: a forced new line first if
    /// the column has reached the width, then the byte at the cursor in the
    /// active color.
    fn put_printable(&mut self, byte: u8)
        requires
            inv(old(self)@),
            old(self)@.row < BUFFER_HEIGHT,
        ensures
            final(self)@ == spec_write_printable(old(self)@, byte),
            inv(final(self)@),
            final(self)@.row < BUFFER_HEIGHT,
            final(self)@.color == old(self)@.color,
    {
        if self.col >= BUFFER_WIDTH {
            self.new_line();
        }
        let i: usize = self.row * BUFFER_WIDTH + self.col;
        let cell = Character { char_code: byte, color: self.color };
        self.grid.set(i, cell);
        self.col = self.col + 1;
    }

    /// Writes a byte: a newline starts a new line, a carriage return resets
    /// the column, a tab writes spaces up to the next multiple of the tab
    /// width, a backspace blanks backwards, and any other byte is written at
    /// the cursor in the active color, wrapping first if the line is full.
    ///
    /// The excluded starting positions are exactly those at which the
    /// original grid accesses would fall outside the grid: they are reachable
    /// only through `set_cursor`'s one-past-the-end ceiling.
    #[verifier::loop_isolation(false)]
    pub fn write_byte(&mut self, byte: u8)
        requires
            inv(old(self)@),
            old(self)@.row < BUFFER_HEIGHT,
            byte == 8 ==> old(self)@.col < BUFFER_WIDTH,
        ensures
            final(self)@ == spec_write_byte(old(self)@, byte),
            inv(final(self)@),
            final(self)@.row < BUFFER_HEIGHT,
            final(self)@.color == old(self)@.color,
    {
        if byte == 10 {
            self.new_line();
        } else if byte == 13 {
            self.col = 0;
        } else if byte == 9 {
            let n: usize = TAB_WIDTH - self.col % TAB_WIDTH;
            let mut i: usize = 0;
            while i < n
                invariant
                    i <= n,
                    self@ == spec_write_spaces(old(self)@, i as nat),
                    inv(self@),
                    self@.row < BUFFER_HEIGHT,
                    self@.color == old(self)@.color,
                decreases n - i,
            {
                self.put_printable(32);
                i += 1;
            }
        } else if byte == 8 {
            let blank = Character { char_code: 32, color: self.color };
            if self.col == 0 && self.row == 0 {
            } else if self.col == 0 {
                let i: usize = self.row * BUFFER_WIDTH;
                self.grid.set(i, blank);
                self.row = self.row - 1;
                self.col = BUFFER_WIDTH - 1;
            } else {
                let i: usize = self.row * BUFFER_WIDTH + self.col;
                self.grid.set(i, blank);
                self.col = self.col - 1;
            }
        } else {
            self.put_printable(byte);
        }
    }

    /// Writes every byte of the given sequence in order.
    #[verifier::loop_isolation(false)]
    pub fn write_bytes(&mut self, bytes: &[u8])
        requires
            inv(old(self)@),
            old(self)@.row < BUFFER_HEIGHT,
            spec_bytes_ok(old(self)@, bytes@),
        ensures
            final(self)@ == spec_write_bytes(old(self)@, bytes@),
            inv(final(self)@),
            final(self)@.row < BUFFER_HEIGHT,
            final(self)@.color == old(self)@.color,
    {
        let n: usize = bytes.len();
        let mut i: usize = 0;
        while i < n
            invariant
                i <= n,
                self@ == spec_write_bytes(old(self)@, bytes@.take(i as int)),
                inv(self@),
                self@.row < BUFFER_HEIGHT,
                self@.color == old(self)@.color,
            decreases n - i,
        {
            proof {
                lemma_bytes_ok_take(old(self)@, bytes@, i + 1);
                assert(bytes@.take(i + 1).drop_last() =~= bytes@.take(i as int));
            }
            self.write_byte(bytes[i]);
            i += 1;
        }
        proof {
            assert(bytes@.take(n as int) =~= bytes@);
        }
    }

    /// Writes every byte of the given string in order. Callers rule out a
    /// backspace arriving while the column stands at the width (see
    /// `write_byte`); `write_str_checked` decides that at run time instead.
    pub fn write_str(&mut self, string: &str)
        requires
            inv(old(self)@),
            old(self)@.row < BUFFER_HEIGHT,
            spec_bytes_ok(old(self)@, string.spec_bytes()),
        ensures
            final(self)@ == spec_write_bytes(old(self)@, string.spec_bytes()),
            inv(final(self)@),
            final(self)@.row < BUFFER_HEIGHT,
            final(self)@.color == old(self)@.color,
    {
        self.write_bytes(string.as_bytes());
    }

    /// Decides whether the given bytes can all be written from the current
    /// state: it walks the cursor through the transition table without
    /// touching the grid, and reports the one inadmissible situation, a
    /// backspace arriving while the column stands at the width.
    #[verifier::loop_isolation(false)]
    pub fn bytes_ok(&self, bytes: &[u8]) -> (ok: bool)
        requires
            inv(self@),
            self@.row < BUFFER_HEIGHT,
        ensures
            ok == spec_bytes_ok(self@, bytes@),
    {
        let n: usize = bytes.len();
        let mut col: usize = self.col;
        let mut row: usize = self.row;
        let mut i: usize = 0;
        while i < n
            invariant
                i <= n,
                col == spec_write_bytes(self@, bytes@.take(i as int)).col,
                row == spec_write_bytes(self@, bytes@.take(i as int)).row,
                col <= BUFFER_WIDTH,
                row < BUFFER_HEIGHT,
                spec_bytes_ok(self@, bytes@.take(i as int)),
            decreases n - i,
        {
            let byte = bytes[i];
            proof {
                assert(bytes@.take(i + 1).drop_last() =~= bytes@.take(i as int));
            }
            if byte == 10 {
                col = 0;
                if row < BUFFER_HEIGHT - 1 {
                    row = row + 1;
                }
            } else if byte == 13 {
                col = 0;
            } else if byte == 9 {
                let ghost t = spec_write_bytes(self@, bytes@.take(i as int));
                let m: usize = TAB_WIDTH - col % TAB_WIDTH;
                let mut k: usize = 0;
                while k < m
                    invariant
                        k <= m,
                        col == spec_write_spaces(t, k as nat).col,
                        row == spec_write_spaces(t, k as nat).row,
                        col <= BUFFER_WIDTH,
                        row < BUFFER_HEIGHT,
                    decreases m - k,
                {
                    if col >= BUFFER_WIDTH {
                        col = 0;
                        if row < BUFFER_HEIGHT - 1 {
                            row = row + 1;
                        }
                    }
                    col = col + 1;
                    k += 1;
                }
            } else if byte == 8 {
                if col >= BUFFER_WIDTH {
                    proof {
                        if spec_bytes_ok(self@, bytes@) {
                            lemma_bytes_ok_take(self@, bytes@, i + 1);
                        }
                    }
                    return false;
                }
                if col == 0 && row == 0 {
                } else if col == 0 {
                    row = row - 1;
                    col = BUFFER_WIDTH - 1;
                } else {
                    col = col - 1;
                }
            } else {
                if col >= BUFFER_WIDTH {
                    col = 0;
                    if row < BUFFER_HEIGHT - 1 {
                        row = row + 1;
                    }
                }
                col = col + 1;
            }
            i += 1;
        }
        proof {
            assert(bytes@.take(n as int) =~= bytes@);
        }
        true
    }

    /// Writes every byte of the given string in order, if the whole string
    /// can be written from the current state; otherwise leaves the console
    /// unchanged and reports failure.
    pub fn write_str_checked(&mut self, string: &str) -> (ok: bool)
        requires
            inv(old(self)@),
            old(self)@.row < BUFFER_HEIGHT,
        ensures
            ok == spec_bytes_ok(old(self)@, string.spec_bytes()),
            ok ==> final(self)@ == spec_write_bytes(old(self)@, string.spec_bytes()),
            !ok ==> final(self)@ == old(self)@,
            inv(final(self)@),
            final(self)@.row < BUFFER_HEIGHT,
            final(self)@.color == old(self)@.color,
    {
        let bytes: &[u8] = string.as_bytes();
        if self.bytes_ok(bytes) {
            self.write_str(string);
            true
        } else {
            false
        }
    }

    /// Clears the screen: the cursor returns to the origin, and every cell
    /// becomes a blank in the current color.
    #[verifier::loop_isolation(false)]
    pub fn clear_screen(&mut self)
        requires
            inv(old(self)@),
        ensures
            final(self)@ == spec_clear(old(self)@),
            inv(final(self)@),
            final(self)@.row < BUFFER_HEIGHT,
    {
        self.col = 0;
        self.row = 0;
        let blank = Character { char_code: 32, color: self.color };
        let mut i: usize = 0;
        while i < GRID_CELLS
            invariant
                i <= GRID_CELLS,
                self@.col == 0,
                self@.row == 0,
                self@.color == old(self)@.color,
                self@.cells.len() == GRID_CELLS,
                forall|j: int| 0 <= j < i ==> self@.cells[j] == blank_cell(old(self)@.color),
            decreases GRID_CELLS - i,
        {
            self.grid.set(i, blank);
            i += 1;
        }
        proof {
            assert(self@ =~= spec_clear(old(self)@));
        }
    }

    /// Sets the foreground and background color for subsequent writes;
    /// existing cells are unaffected.
    pub fn set_color(&mut self, color: Color)
        ensures
            final(self)@ == (ScreenView { color, ..old(self)@ }),
    {
        self.color = color;
    }

    /// Sets the cursor to the specified position, clamping each coordinate to
    /// the corresponding dimension (one past the last valid index).
    pub fn set_cursor(&mut self, x: usize, y: usize)
        ensures
            final(self)@.col == if x > BUFFER_WIDTH { BUFFER_WIDTH as int } else { x as int },
            final(self)@.row == if y > BUFFER_HEIGHT { BUFFER_HEIGHT as int } else { y as int },
            final(self)@.color == old(self)@.color,
            final(self)@.cells == old(self)@.cells,
            inv(old(self)@) ==> inv(final(self)@),
    {
        self.col = if x > BUFFER_WIDTH { BUFFER_WIDTH } else { x };
        self.row = if y > BUFFER_HEIGHT { BUFFER_HEIGHT } else { y };
    }
}

} // verus!
