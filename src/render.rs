//! Which cells of the screen a new frame has to rewrite.
use vstd::prelude::*;
use crate::frame::{Frame, FRAME_CELLS};
use crate::NUM_ROWS;

verus! {

/// One glyph to write at one cell of the screen.
#[derive(Clone, Copy, Debug, PartialEq, Eq)]
pub struct CellWrite {
    pub x: usize,
    pub y: usize,
    pub glyph: char,
}

/// Whether cell `i` has to be written: always on a full redraw, else when it changed.
pub open spec fn must_write(prev: Seq<char>, curr: Seq<char>, force: bool, i: int) -> bool {
    force || prev[i] != curr[i]
}

/// The write that puts cell `i` of `curr` on screen.
pub open spec fn write_of(curr: Seq<char>, i: int) -> CellWrite {
    CellWrite { x: (i / NUM_ROWS as int) as usize, y: (i % NUM_ROWS as int) as usize, glyph: curr[i] }
}

/// The writes for the cells below `n`, in the order of the cells.
pub open spec fn writes_below(prev: Seq<char>, curr: Seq<char>, force: bool, n: int) -> Seq<CellWrite>
    decreases n,
{
    if n <= 0 {
        Seq::empty()
    } else if must_write(prev, curr, force, n - 1) {
        writes_below(prev, curr, force, n - 1).push(write_of(curr, n - 1))
    } else {
        writes_below(prev, curr, force, n - 1)
    }
}

/// The cells below `n` that have to be written.
pub open spec fn cells_to_write(prev: Seq<char>, curr: Seq<char>, force: bool, n: int) -> Set<int> {
    Set::new(|i: int| 0 <= i < n && must_write(prev, curr, force, i))
}

/// The writes that bring a screen showing `last` to `curr`: every cell when
/// `force`, else only the cells whose glyph differs.
pub fn frame_diff(last: &Frame, curr: &Frame, force: bool) -> (w: Vec<CellWrite>)
    requires
        last.wf(),
        curr.wf(),
    ensures
        w@ == writes_below(last.cells@, curr.cells@, force, FRAME_CELLS as int),
{
    let mut w: Vec<CellWrite> = Vec::new();
    let mut i: usize = 0;
    while i < FRAME_CELLS
        invariant
            last.wf(),
            curr.wf(),
            i <= FRAME_CELLS,
            w@ == writes_below(last.cells@, curr.cells@, force, i as int),
        decreases FRAME_CELLS - i,
    {
        if force || last.cells[i] != curr.cells[i] {
            w.push(CellWrite { x: i / NUM_ROWS, y: i % NUM_ROWS, glyph: curr.cells[i] });
        }
        i = i + 1;
    }
    w
}

/// The writes below `n` are as many as the cells below `n` to be written.
proof fn lemma_writes_count(prev: Seq<char>, curr: Seq<char>, force: bool, n: int)
    requires
        0 <= n,
    ensures
        cells_to_write(prev, curr, force, n).finite(),
        writes_below(prev, curr, force, n).len() == cells_to_write(prev, curr, force, n).len(),
    decreases n,
{
    if n == 0 {
        assert(cells_to_write(prev, curr, force, 0) =~= Set::empty());
    } else {
        lemma_writes_count(prev, curr, force, n - 1);
        let below = cells_to_write(prev, curr, force, n - 1);
        assert(!below.contains(n - 1));
        if must_write(prev, curr, force, n - 1) {
            assert(cells_to_write(prev, curr, force, n) =~= below.insert(n - 1));
        } else {
            assert(cells_to_write(prev, curr, force, n) =~= below);
        }
    }
}

/// On a full redraw every cell below `n` is written.
proof fn lemma_full_redraw(prev: Seq<char>, curr: Seq<char>, n: int)
    requires
        0 <= n,
    ensures
        writes_below(prev, curr, true, n).len() == n,
    decreases n,
{
    if n > 0 {
        lemma_full_redraw(prev, curr, n - 1);
    }
}

/// The diff of two frames writes exactly as many cells as differ between
/// them (every cell on a full redraw), each write putting a cell of the
/// current frame on screen, in cell order.
pub proof fn lemma_diff_size(prev: Seq<char>, curr: Seq<char>, force: bool)
    requires
        prev.len() == FRAME_CELLS,
        curr.len() == FRAME_CELLS,
    ensures
        cells_to_write(prev, curr, force, FRAME_CELLS as int).finite(),
        writes_below(prev, curr, force, FRAME_CELLS as int).len() == cells_to_write(
            prev,
            curr,
            force,
            FRAME_CELLS as int,
        ).len(),
        !force ==> cells_to_write(prev, curr, force, FRAME_CELLS as int) == Set::new(
            |i: int| 0 <= i < FRAME_CELLS && prev[i] != curr[i],
        ),
        force ==> writes_below(prev, curr, force, FRAME_CELLS as int).len() == FRAME_CELLS,
{
    lemma_writes_count(prev, curr, force, FRAME_CELLS as int);
    if force {
        lemma_full_redraw(prev, curr, FRAME_CELLS as int);
    } else {
        assert(cells_to_write(prev, curr, force, FRAME_CELLS as int) =~= Set::new(
            |i: int| 0 <= i < FRAME_CELLS && prev[i] != curr[i],
        ));
    }
}

} // verus!
