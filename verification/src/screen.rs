//! One display cell and the grid of cells behind the writer.
//!
//! A cell is an ASCII byte plus a color attribute byte, in that order — the
//! encoding the text-mode device reads. The grid stores every cell inside a
//! `volatile::Volatile` wrapper, so each read and write of a cell is a forced
//! access that the compiler may not reorder, cache or eliminate; that is what
//! memory-mapped device storage requires. To the proofs the wrapped value is
//! opaque, so the contents of a wrapper are given the name [`vol_val`], and
//! the three accesses the grid performs are trusted wrappers whose contracts
//! say what the `volatile` crate documents.

use vstd::prelude::*;

use crate::color::ColorCode;
use crate::BUFFER_HEIGHT;
use crate::BUFFER_WIDTH;
use volatile::Volatile;

verus! {

/// One addressable character position: an ASCII byte and the color attribute
/// it is displayed with. The character byte comes first, the attribute byte
/// second, matching the device's two-byte cell encoding.
#[derive(Debug, Clone, Copy, PartialEq, Eq, Structural)]
pub struct ScreenChar {
    pub ascii_character: u8,
    pub color_code: ColorCode,
}

#[verifier::external_type_specification]
#[verifier::external_body]
#[verifier::reject_recursive_types(T)]
pub struct ExVolatile<T: Copy>(Volatile<T>);

/// The cell a volatile wrapper holds: the value the next forced read returns.
pub uninterp spec fn vol_val(v: Volatile<ScreenChar>) -> ScreenChar;

/// Relies on volatile::Volatile::new: wraps the given value.
#[verifier::external_body]
fn vol_new(value: ScreenChar) -> (v: Volatile<ScreenChar>)
    ensures
        vol_val(v) == value,
{
    Volatile::new(value)
}

/// Relies on volatile::Volatile::read: a forced load returning a copy of the
/// contained value.
#[verifier::external_body]
fn vol_read(cell: &Volatile<ScreenChar>) -> (value: ScreenChar)
    ensures
        value == vol_val(*cell),
{
    cell.read()
}

/// Relies on volatile::Volatile::write: a forced store of the given value
/// into the contained value.
#[verifier::external_body]
fn vol_write(cell: &mut Volatile<ScreenChar>, value: ScreenChar)
    ensures
        vol_val(*final(cell)) == value,
{
    cell.write(value)
}

/// The display grid: `BUFFER_HEIGHT * BUFFER_WIDTH` cells in row-major order,
/// each behind a volatile wrapper. Its view is the sequence of cell values,
/// the cell at `(row, col)` standing at index `row * BUFFER_WIDTH + col`.
pub struct Buffer {
    cells: Vec<Volatile<ScreenChar>>,
}

impl View for Buffer {
    type V = Seq<ScreenChar>;

    closed spec fn view(&self) -> Seq<ScreenChar> {
        Seq::new(self.cells@.len(), |i: int| vol_val(self.cells@[i]))
    }
}

impl Buffer {
    /// A grid is well formed when it holds exactly one cell per screen
    /// position.
    pub open spec fn wf(&self) -> bool {
        self@.len() == BUFFER_HEIGHT * BUFFER_WIDTH
    }

    /// Builds a grid with every cell holding `fill`.
    pub fn new(fill: ScreenChar) -> (buffer: Buffer)
        ensures
            buffer.wf(),
            buffer@ == Seq::new((BUFFER_HEIGHT * BUFFER_WIDTH) as nat, |i: int| fill),
    {
        let mut cells: Vec<Volatile<ScreenChar>> = Vec::new();
        let total = BUFFER_HEIGHT * BUFFER_WIDTH;
        let mut i: usize = 0;
        while i < total
            invariant
                i <= total,
                total == BUFFER_HEIGHT * BUFFER_WIDTH,
                cells@.len() == i,
                forall|j: int| 0 <= j < i ==> vol_val(#[trigger] cells@[j]) == fill,
            decreases total - i,
        {
            cells.push(vol_new(fill));
            i = i + 1;
        }
        let buffer = Buffer { cells };
        proof {
            assert(buffer@ =~= Seq::new((BUFFER_HEIGHT * BUFFER_WIDTH) as nat, |i: int| fill));
        }
        buffer
    }

    /// Reads the cell at `(row, col)` through a forced load.
    pub fn read_char(&self, row: usize, col: usize) -> (value: ScreenChar)
        requires
            self.wf(),
            row < BUFFER_HEIGHT,
            col < BUFFER_WIDTH,
        ensures
            value == self@[row * BUFFER_WIDTH + col],
    {
        let idx = row * BUFFER_WIDTH + col;
        vol_read(&self.cells[idx])
    }

    /// Writes `value` into the cell at `(row, col)` through a forced store;
    /// every other cell keeps its contents.
    pub fn write_char(&mut self, row: usize, col: usize, value: ScreenChar)
        requires
            old(self).wf(),
            row < BUFFER_HEIGHT,
            col < BUFFER_WIDTH,
        ensures
            final(self).wf(),
            final(self)@ == old(self)@.update(row * BUFFER_WIDTH + col, value),
    {
        let idx = row * BUFFER_WIDTH + col;
        vol_write(&mut self.cells[idx], value);
        proof {
            assert(self@ =~= old(self)@.update(row * BUFFER_WIDTH + col, value));
        }
    }
}

} // verus!
