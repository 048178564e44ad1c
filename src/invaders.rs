//! The swarm of invaders: one shared movement clock, one direction.
use vstd::prelude::*;
use crate::frame::{on_field, put, Drawable, Frame, FRAME_CELLS};
use crate::timer::{Timer, MAX_TIMER_MILLIS, NANOS_PER_MILLI};
use crate::{NUM_COLS, NUM_ROWS};

verus! {

/// The swarm never steps faster than once per this many milliseconds.
pub const MIN_MOVE_MILLIS: u64 = 250;

/// Milliseconds taken off the step period for each invader killed.
pub const SPEEDUP_MILLIS: u64 = 25;

/// One enemy of the swarm.
#[derive(Clone, Copy, Debug, PartialEq, Eq)]
pub struct Invader {
    pub x: usize,
    pub y: usize,
}

/// The step period, in milliseconds, of a swarm that started with `initial`
/// invaders on a period of `base` and has `remaining` left: `SPEEDUP_MILLIS`
/// less for each invader killed, but never under the floor
/// `min(base, MIN_MOVE_MILLIS)`.
pub open spec fn move_millis(base: int, initial: int, remaining: int) -> int {
    let floor = if base < MIN_MOVE_MILLIS { base } else { MIN_MOVE_MILLIS as int };
    let sped = base - SPEEDUP_MILLIS * (initial - remaining);
    if sped > floor { sped } else { floor }
}

/// Whether the swarm starts with an invader at `(x, y)`: even cells strictly
/// inside `width` columns and `height` rows, with a border of two columns on
/// the left and one row at the top.
pub open spec fn starts_at(width: int, height: int, x: int, y: int) -> bool {
    &&& on_field(x, y)
    &&& 1 < x < width
    &&& 0 < y < height
    &&& x % 2 == 0
    &&& y % 2 == 0
}

/// Whether some invader of `army` stands at `(x, y)`.
pub open spec fn occupied(army: Seq<Invader>, x: int, y: int) -> bool {
    exists|i: int| 0 <= i < army.len() && army[i].x == x && army[i].y == y
}

/// The first index of `army` at `(x, y)`, when `occupied(army, x, y)`.
pub open spec fn first_at(army: Seq<Invader>, x: int, y: int) -> int {
    choose|i: int|
        0 <= i < army.len() && army[i].x == x && army[i].y == y && forall|j: int|
            0 <= j < i ==> !(army[j].x == x && army[j].y == y)
}

/// An occupied cell has a first invader on it.
pub proof fn lemma_first_at(army: Seq<Invader>, x: int, y: int)
    requires
        occupied(army, x, y),
    ensures
        0 <= first_at(army, x, y) < army.len(),
        army[first_at(army, x, y)].x == x && army[first_at(army, x, y)].y == y,
        forall|j: int| 0 <= j < first_at(army, x, y) ==> !(army[j].x == x && army[j].y == y),
    decreases army.len(),
{
    let rest = army.drop_last();
    if occupied(rest, x, y) {
        lemma_first_at(rest, x, y);
        let i = first_at(rest, x, y);
        assert(army[i] == rest[i]);
        assert(forall|j: int| 0 <= j < i ==> army[j] == rest[j]);
    } else {
        let i = army.len() - 1;
        assert forall|j: int| 0 <= j < i implies !(army[j].x == x && army[j].y == y) by {
            assert(army[j] == rest[j]);
        }
    }
}

/// `army` without the invader at `(x, y)`, if there is one.
pub open spec fn without(army: Seq<Invader>, x: int, y: int) -> Seq<Invader> {
    if occupied(army, x, y) {
        army.remove(first_at(army, x, y))
    } else {
        army
    }
}

/// Whether the next step of a swarm moving right (or left) would take an
/// invader off the field.
pub open spec fn at_edge(army: Seq<Invader>, rightward: bool) -> bool {
    if rightward {
        exists|i: int| 0 <= i < army.len() && army[i].x == NUM_COLS - 1
    } else {
        exists|i: int| 0 <= i < army.len() && army[i].x == 0
    }
}

/// Every invader one row further down.
pub open spec fn lowered(army: Seq<Invader>) -> Seq<Invader> {
    Seq::new(army.len(), |i: int| Invader { x: army[i].x, y: (army[i].y + 1) as usize })
}

/// Every invader one column further right (or left).
pub open spec fn marched(army: Seq<Invader>, rightward: bool) -> Seq<Invader> {
    Seq::new(
        army.len(),
        |i: int|
            Invader {
                x: if rightward { (army[i].x + 1) as usize } else { (army[i].x - 1) as usize },
                y: army[i].y,
            },
    )
}

/// Whether some invader of `army` stands on the player's row or below.
pub open spec fn bottom_reached(army: Seq<Invader>) -> bool {
    exists|i: int| 0 <= i < army.len() && army[i].y >= NUM_ROWS - 1
}

/// No two invaders share a cell.
pub open spec fn distinct(army: Seq<Invader>) -> bool {
    forall|i: int, j: int| 0 <= i < army.len() && 0 <= j < army.len() && i != j ==> army[i] != army[j]
}

/// The glyph of every invader: `x` in the first half of a step period, `+` after.
pub open spec fn swarm_glyph(t: Timer) -> char {
    if 2 * t.elapsed < t.duration { 'x' } else { '+' }
}

/// `cells` with each invader of `army` painted as `g`.
pub open spec fn paint_army(army: Seq<Invader>, g: char, cells: Seq<char>) -> Seq<char>
    decreases army.len(),
{
    if army.len() == 0 {
        cells
    } else {
        let a = army.last();
        put(paint_army(army.drop_last(), g, cells), a.x as int, a.y as int, g)
    }
}

/// The step period for a swarm of `remaining` out of `initial` invaders.
pub fn move_duration_millis(base: u64, initial: usize, remaining: usize) -> (ms: u64)
    requires
        remaining <= initial <= FRAME_CELLS,
    ensures
        ms == move_millis(base as int, initial as int, remaining as int),
        ms <= base,
{
    let speedup: u64 = ((initial - remaining) as u64) * SPEEDUP_MILLIS;
    let floor: u64 = if base < MIN_MOVE_MILLIS { base } else { MIN_MOVE_MILLIS };
    if base > speedup && base - speedup > floor {
        base - speedup
    } else {
        floor
    }
}

/// The swarm: its invaders, a shared step clock and the direction of travel.
#[derive(Debug)]
pub struct Invaders {
    pub army: Vec<Invader>,
    pub move_timer: Timer,
    pub rightward: bool,
    pub base_millis: u64,
    pub initial_count: usize,
}

impl Invaders {
    /// Every invader is on the field, no two share a cell, and the swarm only shrinks.
    pub open spec fn wf(&self) -> bool {
        &&& self.army@.len() <= self.initial_count <= FRAME_CELLS
        &&& self.base_millis <= MAX_TIMER_MILLIS
        &&& forall|i: int|
            0 <= i < self.army@.len() ==> on_field(self.army@[i].x as int, self.army@[i].y as int)
        &&& distinct(self.army@)
    }

    /// Some invader stands on the player's row or below.
    pub open spec fn at_bottom(&self) -> bool {
        bottom_reached(self.army@)
    }

    /// The step clock after it has advanced by `delta`: re-armed with the
    /// period for the invaders left if it fired.
    pub open spec fn stepped_timer(&self, delta: u64) -> Timer {
        if self.move_timer.advanced(delta).ready {
            Timer::armed(
                move_millis(self.base_millis as int, self.initial_count as int, self.army@.len() as int)
                    * NANOS_PER_MILLI,
            )
        } else {
            self.move_timer.advanced(delta)
        }
    }

    /// The direction after the step clock has advanced by `delta`: reversed
    /// when the swarm stepped at an edge.
    pub open spec fn stepped_rightward(&self, delta: u64) -> bool {
        if self.move_timer.advanced(delta).ready && at_edge(self.army@, self.rightward) {
            !self.rightward
        } else {
            self.rightward
        }
    }

    /// The invaders after the step clock has advanced by `delta`.
    pub open spec fn stepped_army(&self, delta: u64) -> Seq<Invader> {
        if !self.move_timer.advanced(delta).ready {
            self.army@
        } else if at_edge(self.army@, self.rightward) {
            lowered(self.army@)
        } else {
            marched(self.army@, self.rightward)
        }
    }

    /// A swarm filling the starting cells of a `width` by `height` grid,
    /// moving right, on a step period of `base_millis`.
    pub fn new(base_millis: u64, width: usize, height: usize) -> (s: Invaders)
        requires
            base_millis <= MAX_TIMER_MILLIS,
        ensures
            s.wf(),
            s.rightward,
            s.base_millis == base_millis,
            s.initial_count == s.army@.len(),
            s.move_timer == Timer::armed(base_millis * NANOS_PER_MILLI),
            forall|i: int|
                0 <= i < s.army@.len() ==> starts_at(
                    width as int,
                    height as int,
                    s.army@[i].x as int,
                    s.army@[i].y as int,
                ),
            forall|x: int, y: int|
                starts_at(width as int, height as int, x, y) ==> occupied(s.army@, x, y),
    {
        let mut army: Vec<Invader> = Vec::new();
        let mut x: usize = 0;
        while x < NUM_COLS
            invariant
                x <= NUM_COLS,
                army@.len() <= x * NUM_ROWS,
                distinct(army@),
                forall|i: int|
                    0 <= i < army@.len() ==> army@[i].x < x && starts_at(
                        width as int,
                        height as int,
                        army@[i].x as int,
                        army@[i].y as int,
                    ),
                forall|cx: int, cy: int|
                    cx < x && starts_at(width as int, height as int, cx, cy) ==> occupied(
                        army@,
                        cx,
                        cy,
                    ),
            decreases NUM_COLS - x,
        {
            let mut y: usize = 0;
            while y < NUM_ROWS
                invariant
                    x < NUM_COLS,
                    y <= NUM_ROWS,
                    army@.len() <= x * NUM_ROWS + y,
                    distinct(army@),
                    forall|i: int|
                        0 <= i < army@.len() ==> (army@[i].x < x || (army@[i].x == x
                            && army@[i].y < y)) && starts_at(
                            width as int,
                            height as int,
                            army@[i].x as int,
                            army@[i].y as int,
                        ),
                    forall|cx: int, cy: int|
                        (cx < x || (cx == x && cy < y)) && starts_at(
                            width as int,
                            height as int,
                            cx,
                            cy,
                        ) ==> occupied(army@, cx, cy),
                decreases NUM_ROWS - y,
            {
                if x > 1 && x < width && y > 0 && y < height && x % 2 == 0 && y % 2 == 0 {
                    let ghost before = army@;
                    army.push(Invader { x, y });
                    assert forall|cx: int, cy: int|
                        (cx < x || (cx == x && cy < y + 1)) && starts_at(
                            width as int,
                            height as int,
                            cx,
                            cy,
                        ) implies occupied(army@, cx, cy) by {
                        if cx == x && cy == y {
                            assert(army@[before.len() as int] == Invader { x, y });
                        } else {
                            let i = choose|i: int|
                                0 <= i < before.len() && before[i].x == cx && before[i].y == cy;
                            assert(army@[i] == before[i]);
                        }
                    }
                }
                y = y + 1;
            }
            x = x + 1;
        }
        let initial_count = army.len();
        Invaders {
            army,
            move_timer: Timer::from_millis(base_millis),
            rightward: true,
            base_millis,
            initial_count,
        }
    }

    /// Advances the step clock by `delta` nanoseconds. When it fires the whole
    /// swarm steps once: one column sideways, or, if that would leave the
    /// field, one row down with the direction reversed; the clock is then
    /// re-armed with the period for the invaders left. Returns whether a step
    /// happened.
    pub fn update(&mut self, delta: u64) -> (r: bool)
        requires
            old(self).wf(),
            !old(self).at_bottom(),
        ensures
            final(self).wf(),
            r == old(self).move_timer.advanced(delta).ready,
            final(self).army@ == old(self).stepped_army(delta),
            final(self).move_timer == old(self).stepped_timer(delta),
            final(self).rightward == old(self).stepped_rightward(delta),
            final(self).base_millis == old(self).base_millis,
            final(self).initial_count == old(self).initial_count,
            !r ==> final(self).army@ == old(self).army@ && final(self).rightward
                == old(self).rightward && final(self).move_timer == old(
                self,
            ).move_timer.advanced(delta),
            r ==> final(self).move_timer == Timer::armed(
                move_millis(
                    old(self).base_millis as int,
                    old(self).initial_count as int,
                    old(self).army@.len() as int,
                ) * NANOS_PER_MILLI,
            ),
            r && at_edge(old(self).army@, old(self).rightward) ==> final(self).army@ == lowered(
                old(self).army@,
            ) && final(self).rightward == !old(self).rightward,
            r && !at_edge(old(self).army@, old(self).rightward) ==> final(self).army@ == marched(
                old(self).army@,
                old(self).rightward,
            ) && final(self).rightward == old(self).rightward,
    {
        self.move_timer.update(delta);
        if !self.move_timer.ready {
            return false;
        }
        let ms = move_duration_millis(self.base_millis, self.initial_count, self.army.len());
        self.move_timer = Timer::from_millis(ms);
        let ghost start = self.army@;
        let ghost timer = self.move_timer;
        let mut edge = false;
        let mut i: usize = 0;
        while i < self.army.len()
            invariant
                self.army@ == start,
                start == old(self).army@,
                self.initial_count == old(self).initial_count,
                self.base_millis == old(self).base_millis,
                self.rightward == old(self).rightward,
                self.move_timer == timer,
                i <= start.len(),
                edge == exists|j: int|
                    0 <= j < i && start[j].x == (if self.rightward {
                        NUM_COLS - 1
                    } else {
                        0
                    }),
            decreases start.len() - i,
        {
            let a = self.army[i];
            if (self.rightward && a.x == NUM_COLS - 1) || (!self.rightward && a.x == 0) {
                edge = true;
            }
            i = i + 1;
        }
        let mut i: usize = 0;
        while i < self.army.len()
            invariant
                i <= start.len(),
                self.army@.len() == start.len(),
                self.initial_count == old(self).initial_count,
                self.base_millis == old(self).base_millis,
                self.rightward == old(self).rightward,
                self.move_timer == timer,
                start == old(self).army@,
                old(self).wf(),
                forall|k: int| 0 <= k < start.len() ==> start[k].y < NUM_ROWS - 1,
                edge == at_edge(start, self.rightward),
                forall|k: int|
                    i <= k < start.len() ==> self.army@[k] == start[k],
                forall|k: int|
                    0 <= k < i ==> self.army@[k] == (if edge {
                        lowered(start)[k]
                    } else {
                        marched(start, self.rightward)[k]
                    }),
            decreases start.len() - i,
        {
            let mut a = self.army[i];
            assert(a == start[i as int]);
            assert(a.y < NUM_ROWS - 1);
            assert(!edge && !self.rightward ==> start[i as int].x != 0);
            assert(!edge && self.rightward ==> start[i as int].x != NUM_COLS - 1);
            if edge {
                a.y = a.y + 1;
            } else if self.rightward {
                a.x = a.x + 1;
            } else {
                a.x = a.x - 1;
            }
            self.army.set(i, a);
            i = i + 1;
        }
        assert forall|p: int, q: int|
            0 <= p < self.army@.len() && 0 <= q < self.army@.len() && p != q implies
            self.army@[p] != self.army@[q] by {
            assert(start[p] != start[q]);
        }
        if edge {
            assert(self.army@ =~= lowered(start));
            self.rightward = !self.rightward;
        } else {
            assert(self.army@ =~= marched(start, self.rightward));
        }
        true
    }

    /// Removes the invader standing exactly at `(x, y)`, if any; returns
    /// whether there was one.
    pub fn kill_invader_at(&mut self, x: usize, y: usize) -> (r: bool)
        requires
            old(self).wf(),
        ensures
            final(self).wf(),
            r == occupied(old(self).army@, x as int, y as int),
            final(self).army@ == without(old(self).army@, x as int, y as int),
            final(self).move_timer == old(self).move_timer,
            final(self).rightward == old(self).rightward,
            final(self).base_millis == old(self).base_millis,
            final(self).initial_count == old(self).initial_count,
    {
        let mut i: usize = 0;
        while i < self.army.len()
            invariant
                *self == *old(self),
                self.wf(),
                i <= self.army@.len(),
                forall|j: int| 0 <= j < i ==> !(self.army@[j].x == x && self.army@[j].y == y),
            decreases self.army@.len() - i,
        {
            if self.army[i].x == x && self.army[i].y == y {
                let ghost before = self.army@;
                assert(occupied(before, x as int, y as int));
                let ghost k = first_at(before, x as int, y as int);
                assert(k == i as int) by {
                    if k < i {
                        assert(!(before[k].x == x && before[k].y == y));
                    } else if k > i {
                        assert(!(before[i as int].x == x && before[i as int].y == y));
                    }
                }
                self.army.remove(i);
                assert forall|p: int, q: int|
                    0 <= p < self.army@.len() && 0 <= q < self.army@.len() && p != q implies
                    self.army@[p] != self.army@[q] by {
                    let pp = if p < i { p } else { p + 1 };
                    let qq = if q < i { q } else { q + 1 };
                    assert(before[pp] != before[qq]);
                }
                return true;
            }
            i = i + 1;
        }
        false
    }

    /// Whether every invader has been killed.
    pub fn all_killed(&self) -> (r: bool)
        ensures
            r == (self.army@.len() == 0),
    {
        self.army.len() == 0
    }

    /// Whether some invader has reached the player's row.
    pub fn reached_bottom(&self) -> (r: bool)
        ensures
            r == self.at_bottom(),
    {
        let mut i: usize = 0;
        while i < self.army.len()
            invariant
                i <= self.army@.len(),
                forall|j: int| 0 <= j < i ==> self.army@[j].y < NUM_ROWS - 1,
            decreases self.army@.len() - i,
        {
            if self.army[i].y >= NUM_ROWS - 1 {
                return true;
            }
            i = i + 1;
        }
        false
    }
}

/// The step period only shortens as invaders die: with fewer left it is
/// strictly shorter, unless it already sits at its floor.
pub proof fn lemma_speeds_up(base: int, initial: int, fewer: int, more: int)
    requires
        0 <= fewer < more <= initial,
        base >= 0,
    ensures
        move_millis(base, initial, fewer) <= move_millis(base, initial, more),
        move_millis(base, initial, fewer) < move_millis(base, initial, more) || move_millis(
            base,
            initial,
            fewer,
        ) == (if base < MIN_MOVE_MILLIS { base } else { MIN_MOVE_MILLIS as int }),
{
}

/// Killing at a cell removes the one invader there and no other; a second
/// kill at the same cell finds nothing and changes nothing.
pub proof fn lemma_kill_exact(s: Invaders, x: int, y: int)
    requires
        s.wf(),
    ensures
        occupied(s.army@, x, y) ==> without(s.army@, x, y).len() == s.army@.len() - 1,
        !occupied(without(s.army@, x, y), x, y),
        !occupied(s.army@, x, y) ==> without(s.army@, x, y) == s.army@,
        forall|a: Invader|
            !(a.x == x && a.y == y) ==> (s.army@.contains(a) <==> without(s.army@, x, y).contains(
                a,
            )),
{
    let army = s.army@;
    if occupied(army, x, y) {
        let k = first_at(army, x, y);
        let w = army.remove(k);
        assert(0 <= k < army.len());
        if occupied(w, x, y) {
            let j = choose|j: int| 0 <= j < w.len() && w[j].x == x && w[j].y == y;
            let jj = if j < k { j } else { j + 1 };
            assert(army[jj] == w[j]);
            assert(army[jj] == army[k]);
        }
        assert forall|a: Invader| !(a.x == x && a.y == y) implies (army.contains(a)
            <==> w.contains(a)) by {
            if army.contains(a) {
                let i = choose|i: int| 0 <= i < army.len() && army[i] == a;
                assert(i != k);
                let ii = if i < k { i } else { i - 1 };
                assert(w[ii] == a);
            }
            if w.contains(a) {
                let i = choose|i: int| 0 <= i < w.len() && w[i] == a;
                let ii = if i < k { i } else { i + 1 };
                assert(army[ii] == a);
            }
        }
    }
}

impl Drawable for Invaders {
    open spec fn fits(&self) -> bool {
        self.wf()
    }

    open spec fn painted(&self, cells: Seq<char>) -> Seq<char> {
        paint_army(self.army@, swarm_glyph(self.move_timer), cells)
    }

    fn draw(&self, frame: &mut Frame) {
        let t = self.move_timer;
        let g = if t.elapsed < t.duration && t.duration - t.elapsed > t.elapsed {
            'x'
        } else {
            '+'
        };
        let ghost start = frame.cells@;
        let mut i: usize = 0;
        while i < self.army.len()
            invariant
                self.wf(),
                frame.wf(),
                i <= self.army@.len(),
                g == swarm_glyph(self.move_timer),
                frame.cells@ == paint_army(self.army@.take(i as int), g, start),
            decreases self.army@.len() - i,
        {
            let a = self.army[i];
            frame.set(a.x, a.y, g);
            assert(self.army@.take(i + 1).drop_last() =~= self.army@.take(i as int));
            i = i + 1;
        }
        assert(self.army@.take(i as int) =~= self.army@);
    }
}

} // verus!
