//! The text buffer: a fixed 80x25 grid of volatile screen cells in row-major
//! order. It exposes indexed volatile read and write access to one cell at a
//! time; geometry is fixed, so callers must stay inside the grid.

use vstd::prelude::*;
use crate::cell::ScreenChar;
use crate::cell::cell_view;
use crate::cell::cell_new;
use crate::cell::cell_read;
use crate::cell::cell_write;
use crate::BUFFER_HEIGHT;
use crate::BUFFER_WIDTH;

verus! {

/// The character grid of the display: `BUFFER_HEIGHT` rows of `BUFFER_WIDTH`
/// volatile cells each, row-major, row 0 at the top of the screen.
pub struct Buffer {
    pub chars: Vec<Vec<volatile::Volatile<ScreenChar>>>,
}

/// The grid in which every cell holds `fill`.
pub open spec fn filled_grid(fill: ScreenChar) -> Seq<Seq<ScreenChar>> {
    Seq::new(
        BUFFER_HEIGHT as nat,
        |r: int| Seq::new(BUFFER_WIDTH as nat, |c: int| fill),
    )
}

impl View for Buffer {
    type V = Seq<Seq<ScreenChar>>;

    /// The grid of screen-cell records the buffer currently shows.
    open spec fn view(&self) -> Seq<Seq<ScreenChar>> {
        Seq::new(
            self.chars@.len(),
            |r: int| Seq::new((self.chars@[r])@.len(), |c: int| cell_view(self.chars@[r]@[c])),
        )
    }
}

impl Buffer {
    /// The buffer has exactly the fixed screen geometry.
    pub open spec fn wf(self) -> bool {
        &&& self.chars@.len() == BUFFER_HEIGHT
        &&& forall|r: int|
            0 <= r < self.chars@.len() ==> (#[trigger] self.chars@[r])@.len() == BUFFER_WIDTH
    }

    /// Builds a buffer with every cell holding `fill`.
    pub fn new(fill: ScreenChar) -> (b: Buffer)
        ensures
            b.wf(),
            b@ == filled_grid(fill),
    {
        let mut rows: Vec<Vec<volatile::Volatile<ScreenChar>>> = Vec::new();
        let mut r: usize = 0;
        while r < BUFFER_HEIGHT
            invariant
                r <= BUFFER_HEIGHT,
                rows@.len() == r,
                forall|i: int|
                    0 <= i < r as int ==> (#[trigger] rows@[i])@.len() == BUFFER_WIDTH,
                forall|i: int, j: int|
                    0 <= i < r as int && 0 <= j < BUFFER_WIDTH as int
                        ==> cell_view(#[trigger] rows@[i]@[j]) == fill,
            decreases BUFFER_HEIGHT - r,
        {
            let mut row: Vec<volatile::Volatile<ScreenChar>> = Vec::new();
            let mut c: usize = 0;
            while c < BUFFER_WIDTH
                invariant
                    c <= BUFFER_WIDTH,
                    row@.len() == c,
                    forall|j: int| 0 <= j < c as int ==> cell_view(#[trigger] row@[j]) == fill,
                decreases BUFFER_WIDTH - c,
            {
                row.push(cell_new(fill));
                c = c + 1;
            }
            rows.push(row);
            r = r + 1;
        }
        let b = Buffer { chars: rows };
        proof {
            assert forall|i: int| 0 <= i < b@.len() implies b@[i] == filled_grid(fill)[i] by {
                assert(b@[i] =~= filled_grid(fill)[i]);
            }
            assert(b@ =~= filled_grid(fill));
        }
        b
    }

    /// Volatile read of the cell at `(row, col)`.
    pub fn read_cell(&self, row: usize, col: usize) -> (sc: ScreenChar)
        requires
            self.wf(),
            row < BUFFER_HEIGHT,
            col < BUFFER_WIDTH,
        ensures
            sc == self@[row as int][col as int],
    {
        cell_read(&self.chars[row][col])
    }

    /// Volatile write of `sc` into the cell at `(row, col)`; every other cell
    /// keeps its contents.
    pub fn write_cell(&mut self, row: usize, col: usize, sc: ScreenChar)
        requires
            old(self).wf(),
            row < BUFFER_HEIGHT,
            col < BUFFER_WIDTH,
        ensures
            final(self).wf(),
            final(self)@ == old(self)@.update(
                row as int,
                old(self)@[row as int].update(col as int, sc),
            ),
    {
        cell_write(&mut self.chars[row][col], sc);
        proof {
            let g0 = old(self)@;
            let g1 = self@;
            let target = g0.update(row as int, g0[row as int].update(col as int, sc));
            assert forall|i: int| 0 <= i < g1.len() implies g1[i] == target[i] by {
                assert(g1[i] =~= target[i]);
            }
            assert(g1 =~= target);
        }
    }
}

} // verus!
