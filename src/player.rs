//! The player's ship and the projectiles it has in flight.
use vstd::prelude::*;
use crate::frame::{on_field, put, Drawable, Frame};
use crate::invaders::{first_at, lemma_first_at, lemma_speeds_up, move_millis, occupied, without, Invader, Invaders};
use crate::piercer::Piercer;
use crate::shot::{Shot, SHOT_STEP_MILLIS};
use crate::timer::{Timer, NANOS_PER_MILLI};
use crate::{NUM_COLS, NUM_ROWS};

verus! {

/// At most this many shots fly at once.
pub const MAX_SHOTS: usize = 3;

/// At most this many piercers fly at once.
pub const MAX_PIERCERS: usize = 1;

/// The shots left after each has advanced by `delta` and the dead are dropped.
pub open spec fn surviving_shots(shots: Seq<Shot>, delta: u64) -> Seq<Shot>
    decreases shots.len(),
{
    if shots.len() == 0 {
        shots
    } else {
        let rest = surviving_shots(shots.drop_last(), delta);
        let s = shots.last().stepped(delta);
        if s.is_dead() { rest } else { rest.push(s) }
    }
}

/// The piercers left after each has advanced by `delta` and the dead are dropped.
pub open spec fn surviving_piercers(piercers: Seq<Piercer>, delta: u64) -> Seq<Piercer>
    decreases piercers.len(),
{
    if piercers.len() == 0 {
        piercers
    } else {
        let rest = surviving_piercers(piercers.drop_last(), delta);
        let p = piercers.last().stepped(delta);
        if p.is_dead() { rest } else { rest.push(p) }
    }
}

/// Shots checked in order against `army`: a flying shot on an invader's cell
/// kills it and explodes. Gives the shots, the invaders left, and whether
/// anything was hit.
pub open spec fn hit_pass(shots: Seq<Shot>, army: Seq<Invader>) -> (Seq<Shot>, Seq<Invader>, bool)
    decreases shots.len(),
{
    if shots.len() == 0 {
        (shots, army, false)
    } else {
        let (s0, a0, h0) = hit_pass(shots.drop_last(), army);
        let s = shots.last();
        if !s.exploding && occupied(a0, s.x as int, s.y as int) {
            (s0.push(s.blown()), without(a0, s.x as int, s.y as int), true)
        } else {
            (s0.push(s), a0, h0)
        }
    }
}

/// Piercers checked in order against `army`: each kills the invader on its
/// cell, if any, and flies on. Gives the invaders left and whether anything
/// was hit.
pub open spec fn pierce_pass(piercers: Seq<Piercer>, army: Seq<Invader>) -> (Seq<Invader>, bool)
    decreases piercers.len(),
{
    if piercers.len() == 0 {
        (army, false)
    } else {
        let (a0, h0) = pierce_pass(piercers.drop_last(), army);
        let p = piercers.last();
        if occupied(a0, p.x as int, p.y as int) {
            (without(a0, p.x as int, p.y as int), true)
        } else {
            (a0, h0)
        }
    }
}

/// `cells` with every shot painted over it, in order.
pub open spec fn paint_shots(shots: Seq<Shot>, cells: Seq<char>) -> Seq<char>
    decreases shots.len(),
{
    if shots.len() == 0 {
        cells
    } else {
        shots.last().painted(paint_shots(shots.drop_last(), cells))
    }
}

/// `cells` with every piercer painted over it, in order.
pub open spec fn paint_piercers(piercers: Seq<Piercer>, cells: Seq<char>) -> Seq<char>
    decreases piercers.len(),
{
    if piercers.len() == 0 {
        cells
    } else {
        piercers.last().painted(paint_piercers(piercers.drop_last(), cells))
    }
}

/// Every shot is in flight, its step clock freshly armed, on row `m` or above.
pub open spec fn flying_within(shots: Seq<Shot>, m: int) -> bool {
    forall|i: int|
        0 <= i < shots.len() ==> !shots[i].exploding && shots[i].timer == Timer::armed(
            SHOT_STEP_MILLIS * NANOS_PER_MILLI,
        ) && shots[i].y <= m
}

/// The shots after the player's `update` with each of `deltas` in turn.
pub open spec fn shots_after(shots: Seq<Shot>, deltas: Seq<u64>) -> Seq<Shot>
    decreases deltas.len(),
{
    if deltas.len() == 0 {
        shots
    } else {
        surviving_shots(shots_after(shots, deltas.drop_last()), deltas.last())
    }
}

/// One full step period moves every flying shot up one row; those that reach
/// the top row are dropped.
proof fn lemma_one_period(shots: Seq<Shot>, delta: u64, m: int)
    requires
        m >= 0,
        flying_within(shots, m),
        delta >= SHOT_STEP_MILLIS * NANOS_PER_MILLI,
    ensures
        flying_within(surviving_shots(shots, delta), m - 1),
    decreases shots.len(),
{
    if shots.len() > 0 {
        let rest = shots.drop_last();
        assert forall|i: int| 0 <= i < rest.len() implies !rest[i].exploding && rest[i].timer
            == Timer::armed(SHOT_STEP_MILLIS * NANOS_PER_MILLI) && rest[i].y <= m by {
            assert(rest[i] == shots[i]);
        }
        lemma_one_period(rest, delta, m);
        assert(shots.last() == shots[shots.len() - 1]);
    }
}

/// Shots in flight no higher than row `m`, handed more than `m` updates of at
/// least a full step period each, with no hit in between, are all gone.
pub proof fn lemma_shots_fly_off(shots: Seq<Shot>, deltas: Seq<u64>, m: int)
    requires
        m >= 0,
        flying_within(shots, m),
        deltas.len() > m,
        forall|i: int| 0 <= i < deltas.len() ==> deltas[i] >= SHOT_STEP_MILLIS * NANOS_PER_MILLI,
    ensures
        shots_after(shots, deltas).len() == 0,
{
    lemma_flying_after(shots, deltas, m);
    let r = shots_after(shots, deltas);
    if r.len() > 0 {
        assert(r[0].y <= m - deltas.len());
    }
}

/// After `n` full step periods, the shots left fly no higher than row `m - n`.
proof fn lemma_flying_after(shots: Seq<Shot>, deltas: Seq<u64>, m: int)
    requires
        m >= 0,
        flying_within(shots, m),
        forall|i: int| 0 <= i < deltas.len() ==> deltas[i] >= SHOT_STEP_MILLIS * NANOS_PER_MILLI,
    ensures
        flying_within(shots_after(shots, deltas), m - deltas.len()),
    decreases deltas.len(),
{
    if deltas.len() > 0 {
        let rest = deltas.drop_last();
        assert forall|i: int| 0 <= i < rest.len() implies rest[i] >= SHOT_STEP_MILLIS
            * NANOS_PER_MILLI by {
            assert(rest[i] == deltas[i]);
        }
        lemma_flying_after(shots, rest, m);
        let before = shots_after(shots, rest);
        let k = m - rest.len();
        if k >= 0 {
            lemma_one_period(before, deltas.last(), k);
        } else {
            assert(before.len() == 0) by {
                if before.len() > 0 {
                    assert(before[0].y <= k);
                }
            }
        }
        assert(deltas.last() == deltas[deltas.len() - 1]);
    }
}

/// No shot in flight stands on a cell that `army` occupies.
pub open spec fn no_live_shot_on(shots: Seq<Shot>, army: Seq<Invader>) -> bool {
    forall|i: int|
        0 <= i < shots.len() && !shots[i].exploding ==> !occupied(
            army,
            shots[i].x as int,
            shots[i].y as int,
        )
}

/// Removing an invader frees a cell and occupies none.
proof fn lemma_without_shrinks(a: Seq<Invader>, x: int, y: int, p: int, q: int)
    requires
        occupied(without(a, x, y), p, q),
    ensures
        occupied(a, p, q),
{
    if occupied(a, x, y) {
        lemma_first_at(a, x, y);
        let k = first_at(a, x, y);
        let w = a.remove(k);
        let j = choose|j: int| 0 <= j < w.len() && w[j].x == p && w[j].y == q;
        let jj = if j < k { j } else { j + 1 };
        assert(a[jj] == w[j]);
    }
}

/// After a pass of the shots, no shot still in flight stands on an invader.
proof fn lemma_hit_pass_clears(shots: Seq<Shot>, army: Seq<Invader>)
    ensures
        hit_pass(shots, army).0.len() == shots.len(),
        no_live_shot_on(hit_pass(shots, army).0, hit_pass(shots, army).1),
    decreases shots.len(),
{
    if shots.len() > 0 {
        lemma_hit_pass_clears(shots.drop_last(), army);
        let (s0, a0, h0) = hit_pass(shots.drop_last(), army);
        let s = shots.last();
        let (s1, a1, h1) = hit_pass(shots, army);
        assert forall|i: int| 0 <= i < s1.len() && !s1[i].exploding implies !occupied(
            a1,
            s1[i].x as int,
            s1[i].y as int,
        ) by {
            if i < s0.len() {
                assert(s1[i] == s0[i]);
                if occupied(a1, s1[i].x as int, s1[i].y as int) && a1 != a0 {
                    lemma_without_shrinks(a0, s.x as int, s.y as int, s1[i].x as int, s1[i].y as int);
                }
            }
        }
    }
}

/// A pass in which no shot in flight stands on an invader changes nothing.
proof fn lemma_hit_pass_idle(shots: Seq<Shot>, army: Seq<Invader>)
    requires
        no_live_shot_on(shots, army),
    ensures
        hit_pass(shots, army) == (shots, army, false),
    decreases shots.len(),
{
    if shots.len() > 0 {
        let rest = shots.drop_last();
        assert forall|i: int| 0 <= i < rest.len() && !rest[i].exploding implies !occupied(
            army,
            rest[i].x as int,
            rest[i].y as int,
        ) by {
            assert(rest[i] == shots[i]);
        }
        lemma_hit_pass_idle(rest, army);
        assert(shots.last() == shots[shots.len() - 1]);
        assert(rest.push(shots.last()) =~= shots);
    }
}

/// Hits are only ever scored once: checking the shots again right after a
/// pass, with nothing moved in between, hits nothing and changes nothing.
pub proof fn lemma_second_pass_idle(shots: Seq<Shot>, army: Seq<Invader>)
    ensures
        hit_pass(hit_pass(shots, army).0, hit_pass(shots, army).1) == (
            hit_pass(shots, army).0,
            hit_pass(shots, army).1,
            false,
        ),
{
    lemma_hit_pass_clears(shots, army);
    lemma_hit_pass_idle(hit_pass(shots, army).0, hit_pass(shots, army).1);
}

/// A pass of the shots never adds invaders, and one that hits removes some;
/// so a hit never slows the swarm: its step period for the invaders left is
/// at most the one before.
pub proof fn lemma_hit_speeds_swarm(shots: Seq<Shot>, army: Seq<Invader>, base: int, initial: int)
    requires
        army.len() <= initial,
        base >= 0,
    ensures
        hit_pass(shots, army).1.len() <= army.len(),
        hit_pass(shots, army).2 ==> hit_pass(shots, army).1.len() < army.len(),
        hit_pass(shots, army).2 ==> move_millis(base, initial, hit_pass(shots, army).1.len() as int)
            <= move_millis(base, initial, army.len() as int),
    decreases shots.len(),
{
    if shots.len() > 0 {
        lemma_hit_speeds_swarm(shots.drop_last(), army, base, initial);
        let (s0, a0, h0) = hit_pass(shots.drop_last(), army);
        let s = shots.last();
        if !s.exploding && occupied(a0, s.x as int, s.y as int) {
            lemma_first_at(a0, s.x as int, s.y as int);
        }
        if hit_pass(shots, army).2 {
            lemma_speeds_up(base, initial, hit_pass(shots, army).1.len() as int, army.len() as int);
        }
    }
}

/// The player's ship, on the bottom row, with its shots and piercers.
#[derive(Debug)]
pub struct Player {
    pub x: usize,
    pub y: usize,
    pub shots: Vec<Shot>,
    pub piercers: Vec<Piercer>,
}

impl Player {
    /// The ship is on the bottom row, within the field, and so is every
    /// projectile; no more than the allowed number of each is in flight.
    pub open spec fn wf(&self) -> bool {
        &&& self.x < NUM_COLS
        &&& self.y == NUM_ROWS - 1
        &&& self.shots@.len() <= MAX_SHOTS
        &&& self.piercers@.len() <= MAX_PIERCERS
        &&& forall|i: int|
            0 <= i < self.shots@.len() ==> on_field(
                self.shots@[i].x as int,
                self.shots@[i].y as int,
            )
        &&& forall|i: int|
            0 <= i < self.piercers@.len() ==> on_field(
                self.piercers@[i].x as int,
                self.piercers@[i].y as int,
            )
    }

    /// A ship in the middle of the bottom row, with nothing in flight.
    pub fn new() -> (p: Player)
        ensures
            p.wf(),
            p.x == NUM_COLS / 2,
            p.y == NUM_ROWS - 1,
            p.shots@.len() == 0,
            p.piercers@.len() == 0,
    {
        Player { x: NUM_COLS / 2, y: NUM_ROWS - 1, shots: Vec::new(), piercers: Vec::new() }
    }

    /// One column left, unless already at the left edge.
    pub fn move_left(&mut self)
        requires
            old(self).wf(),
        ensures
            final(self).wf(),
            final(self).x == if old(self).x > 0 { old(self).x - 1 } else { old(self).x as int },
            final(self).y == old(self).y,
            final(self).shots@ == old(self).shots@,
            final(self).piercers@ == old(self).piercers@,
    {
        if self.x > 0 {
            self.x -= 1;
        }
    }

    /// One column right, unless already at the right edge.
    pub fn move_right(&mut self)
        requires
            old(self).wf(),
        ensures
            final(self).wf(),
            final(self).x == if old(self).x < NUM_COLS - 1 {
                old(self).x + 1
            } else {
                old(self).x as int
            },
            final(self).y == old(self).y,
            final(self).shots@ == old(self).shots@,
            final(self).piercers@ == old(self).piercers@,
    {
        if self.x < NUM_COLS - 1 {
            self.x += 1;
        }
    }

    /// Fires a shot from the row above the ship, unless `MAX_SHOTS` are
    /// already in flight; returns whether it fired.
    pub fn shoot(&mut self) -> (r: bool)
        requires
            old(self).wf(),
        ensures
            final(self).wf(),
            r == (old(self).shots@.len() < MAX_SHOTS),
            final(self).shots@ == if r {
                old(self).shots@.push(Shot::spawned(old(self).x, (old(self).y - 1) as usize))
            } else {
                old(self).shots@
            },
            final(self).x == old(self).x,
            final(self).y == old(self).y,
            final(self).piercers@ == old(self).piercers@,
    {
        if self.shots.len() < MAX_SHOTS {
            self.shots.push(Shot::new(self.x, self.y - 1));
            true
        } else {
            false
        }
    }

    /// Fires a piercer from the row above the ship, unless one is already in
    /// flight; returns whether it fired.
    pub fn pierce(&mut self) -> (r: bool)
        requires
            old(self).wf(),
        ensures
            final(self).wf(),
            r == (old(self).piercers@.len() < MAX_PIERCERS),
            final(self).piercers@ == if r {
                old(self).piercers@.push(Piercer::spawned(old(self).x, (old(self).y - 1) as usize))
            } else {
                old(self).piercers@
            },
            final(self).x == old(self).x,
            final(self).y == old(self).y,
            final(self).shots@ == old(self).shots@,
    {
        if self.piercers.len() < MAX_PIERCERS {
            self.piercers.push(Piercer::new(self.x, self.y - 1));
            true
        } else {
            false
        }
    }

    /// Advances every shot and piercer by `delta` nanoseconds, then drops
    /// those that are dead.
    pub fn update(&mut self, delta: u64)
        requires
            old(self).wf(),
        ensures
            final(self).wf(),
            final(self).x == old(self).x,
            final(self).y == old(self).y,
            final(self).shots@ == surviving_shots(old(self).shots@, delta),
            final(self).piercers@ == surviving_piercers(old(self).piercers@, delta),
    {
        let mut kept: Vec<Shot> = Vec::new();
        let mut i: usize = 0;
        while i < self.shots.len()
            invariant
                *self == *old(self),
                self.wf(),
                i <= self.shots@.len(),
                kept@.len() <= i,
                kept@ == surviving_shots(self.shots@.take(i as int), delta),
                forall|k: int|
                    0 <= k < kept@.len() ==> on_field(kept@[k].x as int, kept@[k].y as int),
            decreases self.shots@.len() - i,
        {
            let mut s = self.shots[i];
            s.update(delta);
            assert(self.shots@.take(i + 1).drop_last() =~= self.shots@.take(i as int));
            if !s.dead() {
                kept.push(s);
            }
            i = i + 1;
        }
        assert(self.shots@.take(i as int) =~= self.shots@);
        let mut alive: Vec<Piercer> = Vec::new();
        let mut i: usize = 0;
        while i < self.piercers.len()
            invariant
                *self == *old(self),
                self.wf(),
                i <= self.piercers@.len(),
                alive@.len() <= i,
                alive@ == surviving_piercers(self.piercers@.take(i as int), delta),
                forall|k: int|
                    0 <= k < alive@.len() ==> on_field(alive@[k].x as int, alive@[k].y as int),
            decreases self.piercers@.len() - i,
        {
            let mut p = self.piercers[i];
            p.update(delta);
            assert(self.piercers@.take(i + 1).drop_last() =~= self.piercers@.take(i as int));
            if !p.dead() {
                alive.push(p);
            }
            i = i + 1;
        }
        assert(self.piercers@.take(i as int) =~= self.piercers@);
        self.shots = kept;
        self.piercers = alive;
    }

    /// Each flying shot kills the invader on its cell, if any, and explodes;
    /// returns whether anything was hit.
    pub fn detect_hits(&mut self, invaders: &mut Invaders) -> (r: bool)
        requires
            old(self).wf(),
            old(invaders).wf(),
        ensures
            final(self).wf(),
            final(invaders).wf(),
            final(self).x == old(self).x,
            final(self).y == old(self).y,
            final(self).piercers@ == old(self).piercers@,
            (final(self).shots@, final(invaders).army@, r) == hit_pass(
                old(self).shots@,
                old(invaders).army@,
            ),
            final(invaders).move_timer == old(invaders).move_timer,
            final(invaders).rightward == old(invaders).rightward,
            final(invaders).base_millis == old(invaders).base_millis,
            final(invaders).initial_count == old(invaders).initial_count,
    {
        let ghost shots0 = self.shots@;
        let ghost army0 = invaders.army@;
        let mut hit_something = false;
        let mut i: usize = 0;
        while i < self.shots.len()
            invariant
                self.wf(),
                invaders.wf(),
                self.x == old(self).x,
                self.y == old(self).y,
                self.piercers@ == old(self).piercers@,
                shots0 == old(self).shots@,
                army0 == old(invaders).army@,
                i <= shots0.len(),
                self.shots@.len() == shots0.len(),
                forall|k: int| i <= k < shots0.len() ==> self.shots@[k] == shots0[k],
                (self.shots@.take(i as int), invaders.army@, hit_something) == hit_pass(
                    shots0.take(i as int),
                    army0,
                ),
                invaders.move_timer == old(invaders).move_timer,
                invaders.rightward == old(invaders).rightward,
                invaders.base_millis == old(invaders).base_millis,
                invaders.initial_count == old(invaders).initial_count,
            decreases shots0.len() - i,
        {
            let mut s = self.shots[i];
            assert(shots0.take(i + 1).drop_last() =~= shots0.take(i as int));
            assert(shots0.take(i + 1).last() == s);
            let ghost before = self.shots@;
            if !s.exploding {
                if invaders.kill_invader_at(s.x, s.y) {
                    hit_something = true;
                    s.explode();
                    self.shots.set(i, s);
                }
            }
            assert(self.shots@.take(i + 1) =~= self.shots@.take(i as int).push(s));
            assert(self.shots@.take(i as int) =~= before.take(i as int));
            i = i + 1;
        }
        assert(self.shots@.take(i as int) =~= self.shots@);
        assert(shots0.take(i as int) =~= shots0);
        hit_something
    }

    /// Each piercer kills the invader on its cell, if any, and flies on;
    /// returns whether anything was hit.
    pub fn detect_pierce(&mut self, invaders: &mut Invaders) -> (r: bool)
        requires
            old(self).wf(),
            old(invaders).wf(),
        ensures
            final(self).wf(),
            final(invaders).wf(),
            *final(self) == *old(self),
            (final(invaders).army@, r) == pierce_pass(old(self).piercers@, old(invaders).army@),
            final(invaders).move_timer == old(invaders).move_timer,
            final(invaders).rightward == old(invaders).rightward,
            final(invaders).base_millis == old(invaders).base_millis,
            final(invaders).initial_count == old(invaders).initial_count,
    {
        let ghost army0 = invaders.army@;
        let mut pierce_something = false;
        let mut i: usize = 0;
        while i < self.piercers.len()
            invariant
                *self == *old(self),
                self.wf(),
                invaders.wf(),
                army0 == old(invaders).army@,
                i <= self.piercers@.len(),
                (invaders.army@, pierce_something) == pierce_pass(
                    self.piercers@.take(i as int),
                    army0,
                ),
                invaders.move_timer == old(invaders).move_timer,
                invaders.rightward == old(invaders).rightward,
                invaders.base_millis == old(invaders).base_millis,
                invaders.initial_count == old(invaders).initial_count,
            decreases self.piercers@.len() - i,
        {
            let p = self.piercers[i];
            assert(self.piercers@.take(i + 1).drop_last() =~= self.piercers@.take(i as int));
            if invaders.kill_invader_at(p.x, p.y) {
                pierce_something = true;
            }
            i = i + 1;
        }
        assert(self.piercers@.take(i as int) =~= self.piercers@);
        pierce_something
    }
}

impl Drawable for Player {
    open spec fn fits(&self) -> bool {
        self.wf()
    }

    open spec fn painted(&self, cells: Seq<char>) -> Seq<char> {
        paint_piercers(
            self.piercers@,
            paint_shots(self.shots@, put(cells, self.x as int, self.y as int, 'A')),
        )
    }

    fn draw(&self, frame: &mut Frame) {
        frame.set(self.x, self.y, 'A');
        let ghost start = frame.cells@;
        let mut i: usize = 0;
        while i < self.shots.len()
            invariant
                self.wf(),
                frame.wf(),
                i <= self.shots@.len(),
                frame.cells@ == paint_shots(self.shots@.take(i as int), start),
            decreases self.shots@.len() - i,
        {
            self.shots[i].draw(frame);
            assert(self.shots@.take(i + 1).drop_last() =~= self.shots@.take(i as int));
            i = i + 1;
        }
        assert(self.shots@.take(i as int) =~= self.shots@);
        let ghost middle = frame.cells@;
        let mut i: usize = 0;
        while i < self.piercers.len()
            invariant
                self.wf(),
                frame.wf(),
                i <= self.piercers@.len(),
                frame.cells@ == paint_piercers(self.piercers@.take(i as int), middle),
            decreases self.piercers@.len() - i,
        {
            self.piercers[i].draw(frame);
            assert(self.piercers@.take(i + 1).drop_last() =~= self.piercers@.take(i as int));
            i = i + 1;
        }
        assert(self.piercers@.take(i as int) =~= self.piercers@);
    }
}

} // verus!
