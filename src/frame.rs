//! The fixed-size grid of glyphs that entities paint into.
use vstd::prelude::*;
use crate::{NUM_COLS, NUM_ROWS};

verus! {

/// Number of cells of a frame.
pub const FRAME_CELLS: usize = NUM_COLS * NUM_ROWS;

/// The glyph of an empty cell.
pub const BLANK: char = ' ';

/// Position of cell `(x, y)` in a frame's cells: columns one after another.
pub open spec fn cell_index(x: int, y: int) -> int {
    x * NUM_ROWS + y
}

/// `cells` with the glyph `g` at `(x, y)`.
pub open spec fn put(cells: Seq<char>, x: int, y: int, g: char) -> Seq<char> {
    cells.update(cell_index(x, y), g)
}

/// Whether `(x, y)` lies on the playing field.
pub open spec fn on_field(x: int, y: int) -> bool {
    0 <= x < NUM_COLS && 0 <= y < NUM_ROWS
}

/// A grid of `NUM_COLS` by `NUM_ROWS` glyphs, stored column by column.
#[derive(Clone, Debug)]
pub struct Frame {
    pub cells: Vec<char>,
}

impl Frame {
    /// The frame holds one glyph per cell.
    pub open spec fn wf(&self) -> bool {
        self.cells@.len() == FRAME_CELLS
    }

    /// The glyph at `(x, y)`.
    pub fn get(&self, x: usize, y: usize) -> (g: char)
        requires
            self.wf(),
            on_field(x as int, y as int),
        ensures
            g == self.cells@[cell_index(x as int, y as int)],
    {
        self.cells[x * NUM_ROWS + y]
    }

    /// Writes the glyph `g` at `(x, y)`.
    pub fn set(&mut self, x: usize, y: usize, g: char)
        requires
            old(self).wf(),
            on_field(x as int, y as int),
        ensures
            final(self).wf(),
            final(self).cells@ == put(old(self).cells@, x as int, y as int, g),
    {
        self.cells.set(x * NUM_ROWS + y, g);
    }
}

/// The cells of an empty frame.
pub open spec fn blank_cells() -> Seq<char> {
    Seq::new(FRAME_CELLS as nat, |i: int| BLANK)
}

/// A frame whose every cell is blank.
pub fn new_frame() -> (f: Frame)
    ensures
        f.wf(),
        f.cells@ == blank_cells(),
{
    let mut cells: Vec<char> = Vec::new();
    let mut i: usize = 0;
    while i < FRAME_CELLS
        invariant
            i <= FRAME_CELLS,
            cells@.len() == i,
            forall|j: int| 0 <= j < i ==> cells@[j] == BLANK,
        decreases FRAME_CELLS - i,
    {
        cells.push(BLANK);
        i = i + 1;
    }
    assert(cells@ =~= blank_cells());
    Frame { cells }
}

/// Something that paints itself into a frame.
pub trait Drawable {
    /// Whether every cell that `draw` writes lies on the field.
    spec fn fits(&self) -> bool;

    /// The cells after this entity has painted itself over `cells`.
    spec fn painted(&self, cells: Seq<char>) -> Seq<char>;

    /// Paints this entity over the frame.
    fn draw(&self, frame: &mut Frame)
        requires
            self.fits(),
            old(frame).wf(),
        ensures
            final(frame).wf(),
            final(frame).cells@ == self.painted(old(frame).cells@),
    ;
}

} // verus!
