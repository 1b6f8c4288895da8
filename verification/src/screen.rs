use vstd::prelude::*;

use crate::color::ColorCode;
use crate::model::blank_cell;
use crate::model::blank_grid;
use crate::BUFFER_HEIGHT;
use crate::BUFFER_WIDTH;
use volatile::Volatile;

verus! {

/// One displayable unit of the grid: an ASCII code point plus its attribute.
#[derive(Clone, Copy, PartialEq, Eq, Structural, Debug)]
pub struct ScreenChar {
    pub ascii_char: u8,
    pub color_code: ColorCode,
}

impl ScreenChar {
    /// Replaces this cell with `replacement`.
    pub fn write(&mut self, replacement: ScreenChar)
        ensures
            *final(self) == replacement,
    {
        *self = replacement;
    }

    /// Returns a copy of this cell.
    pub fn read(&self) -> (cell: ScreenChar)
        ensures
            cell == *self,
    {
        *self
    }
}

#[verifier::external_type_specification]
#[verifier::external_body]
#[verifier::reject_recursive_types(T)]
pub struct ExVolatile<T: Copy>(Volatile<T>);

/// The cell stored inside one volatile wrapper.
pub uninterp spec fn vol_contents(v: Volatile<ScreenChar>) -> ScreenChar;

/// Relies on volatile::Volatile::new: wraps the given value and stores it.
#[verifier::external_body]
fn vol_new(cell: ScreenChar) -> (v: Volatile<ScreenChar>)
    ensures
        vol_contents(v) == cell,
{
    Volatile::new(cell)
}

/// Relies on volatile::Volatile::read: a volatile load that returns a copy of
/// the stored value and has no other effect.
#[verifier::external_body]
fn vol_read(v: &Volatile<ScreenChar>) -> (cell: ScreenChar)
    ensures
        cell == vol_contents(*v),
{
    v.read()
}

/// Relies on volatile::Volatile::write: a volatile store that replaces the
/// stored value with the given one.
#[verifier::external_body]
fn vol_write(v: &mut Volatile<ScreenChar>, cell: ScreenChar)
    ensures
        vol_contents(*final(v)) == cell,
{
    v.write(cell)
}

/// The device buffer view: the fixed grid of volatile cells, stored row-major,
/// every access one volatile memory transaction.
pub struct Buffer {
    cells: Vec<Volatile<ScreenChar>>,
}

impl Buffer {
    /// The buffer holds exactly one volatile cell per grid position.
    pub closed spec fn wf(&self) -> bool {
        self.cells@.len() == BUFFER_HEIGHT * BUFFER_WIDTH
    }

    /// The cell stored at one grid position.
    pub closed spec fn cell_at(&self, row: int, col: int) -> ScreenChar {
        vol_contents(self.cells@[row * (BUFFER_WIDTH as int) + col])
    }

    /// The grid as a sequence of rows of cells.
    pub open spec fn grid(&self) -> Seq<Seq<ScreenChar>> {
        Seq::new(
            BUFFER_HEIGHT as nat,
            |row: int| Seq::new(BUFFER_WIDTH as nat, |col: int| self.cell_at(row, col)),
        )
    }

    /// Creates a buffer whose cells are all blank in the given attribute.
    pub fn new(attr: ColorCode) -> (buffer: Buffer)
        ensures
            buffer.wf(),
            buffer.grid() == blank_grid(attr),
    {
        let blank = ScreenChar { ascii_char: crate::BLANK_CHAR, color_code: attr };
        let mut cells: Vec<Volatile<ScreenChar>> = Vec::new();
        let count: usize = BUFFER_HEIGHT * BUFFER_WIDTH;
        let mut i: usize = 0;
        while i < count
            invariant
                count == BUFFER_HEIGHT * BUFFER_WIDTH,
                i <= count,
                cells@.len() == i,
                blank == blank_cell(attr),
                forall|j: int| 0 <= j < i ==> vol_contents(cells@[j]) == blank_cell(attr),
            decreases count - i,
        {
            cells.push(vol_new(blank));
            i += 1;
        }
        let buffer = Buffer { cells };
        proof {
            assert forall|row: int, col: int|
                0 <= row < BUFFER_HEIGHT && 0 <= col < BUFFER_WIDTH implies buffer.grid()[row][col]
                == blank_grid(attr)[row][col] by {
                assert(0 <= row * (BUFFER_WIDTH as int) + col < BUFFER_HEIGHT * BUFFER_WIDTH);
            }
            assert(buffer.grid() =~~= blank_grid(attr));
        }
        buffer
    }

    /// Reads the cell at the given position.
    pub fn read_cell(&self, row: usize, col: usize) -> (cell: ScreenChar)
        requires
            self.wf(),
            row < BUFFER_HEIGHT,
            col < BUFFER_WIDTH,
        ensures
            cell == self.grid()[row as int][col as int],
    {
        vol_read(&self.cells[row * BUFFER_WIDTH + col])
    }

    /// Stores the given cell at the given position; no other cell changes.
    pub fn write_cell(&mut self, row: usize, col: usize, cell: ScreenChar)
        requires
            old(self).wf(),
            row < BUFFER_HEIGHT,
            col < BUFFER_WIDTH,
        ensures
            final(self).wf(),
            final(self).grid() == old(self).grid().update(
                row as int,
                old(self).grid()[row as int].update(col as int, cell),
            ),
    {
        let index: usize = row * BUFFER_WIDTH + col;
        vol_write(&mut self.cells[index], cell);
        proof {
            let expected = old(self).grid().update(
                row as int,
                old(self).grid()[row as int].update(col as int, cell),
            );
            assert forall|r: int, c: int|
                0 <= r < BUFFER_HEIGHT && 0 <= c < BUFFER_WIDTH implies self.grid()[r][c]
                == expected[r][c] by {
                if r == row as int && c == col as int {
                } else {
                    assert(r * (BUFFER_WIDTH as int) + c != row as int * (BUFFER_WIDTH as int)
                        + col as int);
                }
            }
            assert(self.grid() =~~= expected);
        }
    }
}

} // verus!
