use vstd::prelude::*;
use vstd::string::StringSliceAdditionalSpecFns;

use crate::color::default_color_code;
use crate::color::Color;
use crate::color::ColorCode;
use crate::model::blank_cell;
use crate::model::blank_grid;
use crate::model::blank_row;
use crate::model::grid_dims;
use crate::model::lemma_ws_spec_snoc;
use crate::model::normalize_byte;
use crate::model::scrolled;
use crate::model::wb_spec;
use crate::model::ws_spec;
use crate::screen::Buffer;
use crate::screen::ScreenChar;
use crate::ASCII_PRINTABLE_MAX;
use crate::ASCII_PRINTABLE_MIN;
use crate::BLANK_CHAR;
use crate::BUFFER_HEIGHT;
use crate::BUFFER_WIDTH;
use crate::NEWLINE;

verus! {

/// The console writer: line-buffered output onto the device buffer, with the
/// cursor always on the bottom row and scrolling on overflow.
pub struct Writer {
    column_cursor: usize,
    color_code: ColorCode,
    buffer: Buffer,
}

impl Writer {
    /// The cursor stays within the row and the buffer has the grid's shape.
    pub closed spec fn wf(&self) -> bool {
        &&& self.buffer.wf()
        &&& self.column_cursor <= BUFFER_WIDTH
    }

    /// The visible grid.
    pub closed spec fn grid(&self) -> Seq<Seq<ScreenChar>> {
        self.buffer.grid()
    }

    /// The cursor column, in `[0, BUFFER_WIDTH]`.
    pub closed spec fn spec_cursor(&self) -> int {
        self.column_cursor as int
    }

    /// The active attribute, applied to subsequently written characters.
    pub closed spec fn spec_color(&self) -> ColorCode {
        self.color_code
    }

    /// The grid always has the fixed height, and rows the fixed width.
    pub proof fn lemma_grid_dims(&self)
        ensures
            grid_dims(self.grid()),
    {
    }

    /// Creates a writer over a blank grid, cursor at column 0, white on black.
    pub fn new() -> (w: Writer)
        ensures
            w.wf(),
            w.spec_cursor() == 0,
            w.spec_color() == default_color_code(),
            w.grid() == blank_grid(default_color_code()),
    {
        let color_code = ColorCode::new(Color::White, Color::Black);
        Writer { column_cursor: 0, color_code, buffer: Buffer::new(color_code) }
    }

    /// Fills one row with blank cells in the active attribute.
    fn clear_row(&mut self, row: usize)
        requires
            old(self).wf(),
            row < BUFFER_HEIGHT,
        ensures
            final(self).wf(),
            final(self).grid() == old(self).grid().update(
                row as int,
                blank_row(old(self).spec_color()),
            ),
            final(self).spec_cursor() == old(self).spec_cursor(),
            final(self).spec_color() == old(self).spec_color(),
    {
        let ghost g0 = self.grid();
        let ghost attr0 = self.color_code;
        let ghost cursor0 = self.column_cursor;
        let blank_char = ScreenChar { ascii_char: BLANK_CHAR, color_code: self.color_code };
        let mut col: usize = 0;
        while col < BUFFER_WIDTH
            invariant
                self.wf(),
                col <= BUFFER_WIDTH,
                row < BUFFER_HEIGHT,
                self.color_code == attr0,
                self.column_cursor == cursor0,
                grid_dims(g0),
                blank_char == blank_cell(attr0),
                forall|c: int| 0 <= c < col ==> self.grid()[row as int][c] == blank_cell(attr0),
                forall|c: int|
                    col <= c < BUFFER_WIDTH ==> self.grid()[row as int][c] == g0[row as int][c],
                forall|r: int| 0 <= r < BUFFER_HEIGHT && r != row ==> self.grid()[r] == g0[r],
            decreases BUFFER_WIDTH - col,
        {
            let ghost gprev = self.grid();
            self.buffer.write_cell(row, col, blank_char);
            proof {
                assert(self.grid() == gprev.update(
                    row as int,
                    gprev[row as int].update(col as int, blank_char),
                ));
                assert(self.grid()[row as int] == gprev[row as int].update(
                    col as int,
                    blank_char,
                ));
                assert forall|c: int| 0 <= c < col + 1 implies self.grid()[row as int][c]
                    == blank_cell(attr0) by {
                    if c < col {
                        assert(gprev[row as int][c] == blank_cell(attr0));
                    }
                }
            }
            col += 1;
        }
        proof {
            assert(self.grid()[row as int] =~= blank_row(attr0));
            assert(self.grid() =~= g0.update(row as int, blank_row(attr0)));
        }
    }

    /// Scrolls: every row moves up one place, the top row is discarded, the
    /// bottom row is cleared in the active attribute, the cursor returns home.
    fn new_line(&mut self)
        requires
            old(self).wf(),
        ensures
            final(self).wf(),
            final(self).grid() == scrolled(old(self).grid(), old(self).spec_color()),
            final(self).spec_cursor() == 0,
            final(self).spec_color() == old(self).spec_color(),
    {
        let ghost g0 = self.grid();
        let ghost attr0 = self.color_code;
        let ghost cursor0 = self.column_cursor;
        let mut row: usize = 1;
        while row < BUFFER_HEIGHT
            invariant
                self.wf(),
                1 <= row <= BUFFER_HEIGHT,
                self.color_code == attr0,
                self.column_cursor == cursor0,
                grid_dims(g0),
                forall|r: int| 0 <= r < row - 1 ==> self.grid()[r] == g0[r + 1],
                forall|r: int| row - 1 <= r < BUFFER_HEIGHT ==> self.grid()[r] == g0[r],
            decreases BUFFER_HEIGHT - row,
        {
            let ghost dest: int = row - 1;
            let mut col: usize = 0;
            while col < BUFFER_WIDTH
                invariant
                    self.wf(),
                    1 <= row < BUFFER_HEIGHT,
                    dest == row - 1,
                    col <= BUFFER_WIDTH,
                    self.color_code == attr0,
                    self.column_cursor == cursor0,
                    grid_dims(g0),
                    forall|r: int| 0 <= r < row - 1 ==> self.grid()[r] == g0[r + 1],
                    forall|c: int| 0 <= c < col ==> self.grid()[dest][c] == g0[row as int][c],
                    forall|c: int| col <= c < BUFFER_WIDTH ==> self.grid()[dest][c] == g0[dest][c],
                    forall|r: int| row <= r < BUFFER_HEIGHT ==> self.grid()[r] == g0[r],
                decreases BUFFER_WIDTH - col,
            {
                let ghost gprev = self.grid();
                let charctr = self.buffer.read_cell(row, col);
                self.buffer.write_cell(row - 1, col, charctr);
                proof {
                    assert(self.grid() == gprev.update(
                        dest,
                        gprev[dest].update(col as int, charctr),
                    ));
                    assert(charctr == g0[row as int][col as int]);
                    assert forall|r: int| 0 <= r < row - 1 implies self.grid()[r] == g0[r + 1] by {
                        assert(self.grid()[r] == gprev[r]);
                    }
                    assert forall|c: int| 0 <= c < col + 1 implies self.grid()[dest][c] == g0[row as int][c] by {
                        if c < col {
                            assert(self.grid()[dest][c] == gprev[dest][c]);
                        }
                    }
                    assert forall|c: int|
                        col + 1 <= c < BUFFER_WIDTH implies self.grid()[dest][c] == g0[dest][c] by {
                        assert(self.grid()[dest][c] == gprev[dest][c]);
                    }
                    assert forall|r: int| row <= r < BUFFER_HEIGHT implies self.grid()[r]
                        == g0[r] by {
                        assert(self.grid()[r] == gprev[r]);
                    }
                }
                col += 1;
            }
            proof {
                assert(self.grid()[row - 1] =~= g0[row as int]);
            }
            row += 1;
        }
        self.clear_row(BUFFER_HEIGHT - 1);
        self.column_cursor = 0;
        proof {
            assert(self.grid() =~= scrolled(g0, attr0));
        }
    }

    /// Emits one byte: a newline scrolls; any other byte is placed at the
    /// cursor on the bottom row, scrolling first if the row is already full.
    pub fn write_byte(&mut self, byte: u8)
        requires
            old(self).wf(),
        ensures
            final(self).wf(),
            final(self).spec_color() == old(self).spec_color(),
            final(self).grid() == wb_spec(
                old(self).grid(),
                old(self).spec_cursor(),
                old(self).spec_color(),
                byte,
            ).0,
            final(self).spec_cursor() == wb_spec(
                old(self).grid(),
                old(self).spec_cursor(),
                old(self).spec_color(),
                byte,
            ).1,
    {
        if byte == NEWLINE {
            self.new_line();
        } else {
            if self.column_cursor >= BUFFER_WIDTH {
                self.new_line();
            }
            let row = BUFFER_HEIGHT - 1;
            let col = self.column_cursor;
            let color_code = self.color_code;
            self.buffer.write_cell(row, col, ScreenChar { ascii_char: byte, color_code });
            self.column_cursor = self.column_cursor + 1;
        }
    }

    /// Emits a byte sequence, replacing every byte that is neither printable
    /// nor a newline with `0x7e` before writing it.
    pub fn write_bytes(&mut self, bytes: &[u8])
        requires
            old(self).wf(),
        ensures
            final(self).wf(),
            final(self).spec_color() == old(self).spec_color(),
            final(self).grid() == ws_spec(
                old(self).grid(),
                old(self).spec_cursor(),
                old(self).spec_color(),
                bytes@,
            ).0,
            final(self).spec_cursor() == ws_spec(
                old(self).grid(),
                old(self).spec_cursor(),
                old(self).spec_color(),
                bytes@,
            ).1,
    {
        let ghost g0 = self.grid();
        let ghost cursor0 = self.spec_cursor();
        let ghost attr0 = self.color_code;
        let mut i: usize = 0;
        while i < bytes.len()
            invariant
                self.wf(),
                i <= bytes@.len(),
                self.color_code == attr0,
                self.grid() == ws_spec(g0, cursor0, attr0, bytes@.take(i as int)).0,
                self.spec_cursor() == ws_spec(g0, cursor0, attr0, bytes@.take(i as int)).1,
            decreases bytes@.len() - i,
        {
            let byte = bytes[i];
            let emitted = if (ASCII_PRINTABLE_MIN <= byte && byte <= ASCII_PRINTABLE_MAX) || byte
                == NEWLINE {
                byte
            } else {
                ASCII_PRINTABLE_MAX
            };
            proof {
                lemma_ws_spec_snoc(g0, cursor0, attr0, bytes@.take(i as int), bytes@[i as int]);
                assert(bytes@.take(i as int).push(bytes@[i as int]) =~= bytes@.take(i + 1));
                assert(emitted == normalize_byte(bytes@[i as int]));
            }
            self.write_byte(emitted);
            i += 1;
        }
        proof {
            assert(bytes@.take(bytes@.len() as int) =~= bytes@);
        }
    }

    /// Emits a string's bytes, with the same substitution as `write_bytes`.
    pub fn write_string(&mut self, string: &str)
        requires
            old(self).wf(),
        ensures
            final(self).wf(),
            final(self).spec_color() == old(self).spec_color(),
            final(self).grid() == ws_spec(
                old(self).grid(),
                old(self).spec_cursor(),
                old(self).spec_color(),
                string.spec_bytes(),
            ).0,
            final(self).spec_cursor() == ws_spec(
                old(self).grid(),
                old(self).spec_cursor(),
                old(self).spec_color(),
                string.spec_bytes(),
            ).1,
    {
        self.write_bytes(string.as_bytes());
    }

    /// Replaces the active attribute; already written cells keep theirs.
    pub fn set_cursor_color(&mut self, color: ColorCode)
        ensures
            final(self).spec_color() == color,
            final(self).grid() == old(self).grid(),
            final(self).spec_cursor() == old(self).spec_cursor(),
            final(self).wf() == old(self).wf(),
    {
        self.color_code = color;
    }

    /// The formatted-output entry point's core: every such write starts from
    /// the default attribute, so one caller's color cannot leak into the next.
    pub fn print_str(&mut self, string: &str)
        requires
            old(self).wf(),
        ensures
            final(self).wf(),
            final(self).spec_color() == default_color_code(),
            final(self).grid() == ws_spec(
                old(self).grid(),
                old(self).spec_cursor(),
                default_color_code(),
                string.spec_bytes(),
            ).0,
            final(self).spec_cursor() == ws_spec(
                old(self).grid(),
                old(self).spec_cursor(),
                default_color_code(),
                string.spec_bytes(),
            ).1,
    {
        self.set_cursor_color(ColorCode::new(Color::White, Color::Black));
        self.write_string(string);
    }

    /// Reads back the cell at the given position.
    pub fn read_cell(&self, row: usize, col: usize) -> (cell: ScreenChar)
        requires
            self.wf(),
            row < BUFFER_HEIGHT,
            col < BUFFER_WIDTH,
        ensures
            cell == self.grid()[row as int][col as int],
    {
        self.buffer.read_cell(row, col)
    }

    /// The current cursor column.
    pub fn cursor(&self) -> (col: usize)
        ensures
            col as int == self.spec_cursor(),
    {
        self.column_cursor
    }

    /// The current active attribute.
    pub fn color(&self) -> (color: ColorCode)
        ensures
            color == self.spec_color(),
    {
        self.color_code
    }
}

} // verus!
