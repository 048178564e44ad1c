//! The round-and-menu state machine that drives the simulation.
use vstd::prelude::*;
use crate::frame::{blank_cells, new_frame, Drawable, Frame};
use crate::invaders::{bottom_reached, occupied, starts_at, Invaders};
use crate::piercer::Piercer;
use crate::shot::Shot;
use crate::timer::{Timer, NANOS_PER_MILLI};
use crate::player::{hit_pass, pierce_pass, surviving_piercers, surviving_shots, Player};
use crate::NUM_COLS;

verus! {

/// The swarm's step period at the start of a round, in milliseconds.
pub const BASE_MOVE_MILLIS: u64 = 2000;

/// The swarm's starting grid is this many rows high.
pub const SWARM_HEIGHT: usize = 9;

/// A key press, as the input source reports it.
#[derive(Clone, Copy, Debug, PartialEq, Eq, Structural)]
pub enum Key {
    Left,
    Right,
    Shoot,
    Pierce,
    Confirm,
    Quit,
}

/// A sound to trigger.
#[derive(Clone, Copy, Debug, PartialEq, Eq, Structural)]
pub enum Sound {
    Explode,
    Lose,
    Move,
    Startup,
    Pew,
    Win,
}

/// Where the game stands.
#[derive(Clone, Copy, Debug, PartialEq, Eq, Structural)]
pub enum Mode {
    Playing,
    Menu,
    Exit,
}

/// The sounds of one tick of play, in order: the swarm's step, a shot's hit,
/// a piercer's hit, then a win (no invader left) or a loss (swarm at the bottom).
pub open spec fn round_sounds(moved: bool, hit: bool, pierced: bool, cleared: bool, bottom: bool) -> Seq<Sound> {
    (if moved { seq![Sound::Move] } else { seq![] })
        + (if hit { seq![Sound::Explode] } else { seq![] })
        + (if pierced { seq![Sound::Explode] } else { seq![] })
        + (if cleared { seq![Sound::Win] } else if bottom { seq![Sound::Lose] } else { seq![] })
}

/// A player at the start of a round: mid bottom row, nothing in flight.
pub open spec fn fresh_player(p: Player) -> bool {
    &&& p.wf()
    &&& p.x == NUM_COLS / 2
    &&& p.shots@.len() == 0
    &&& p.piercers@.len() == 0
}

/// A swarm at the start of a round: the starting cells of a grid two columns
/// narrower than the field and `SWARM_HEIGHT` rows high, moving right on the
/// base step period.
pub open spec fn fresh_swarm(s: Invaders) -> bool {
    &&& s.wf()
    &&& !s.at_bottom()
    &&& s.rightward
    &&& s.base_millis == BASE_MOVE_MILLIS
    &&& s.initial_count == s.army@.len()
    &&& s.move_timer == Timer::armed(BASE_MOVE_MILLIS * NANOS_PER_MILLI)
    &&& forall|x: int, y: int|
        starts_at((NUM_COLS - 2) as int, SWARM_HEIGHT as int, x, y) <==> occupied(s.army@, x, y)
}

/// The player, the swarm, and the mode they are in.
#[derive(Debug)]
pub struct Game {
    pub mode: Mode,
    pub player: Player,
    pub invaders: Invaders,
}

impl Game {
    /// Both sides are well formed, and a swarm in play is above the player's row.
    pub open spec fn wf(&self) -> bool {
        &&& self.player.wf()
        &&& self.invaders.wf()
        &&& self.mode == Mode::Playing ==> !self.invaders.at_bottom()
    }

    /// The sides of a fresh round.
    fn fresh_sides() -> (r: (Player, Invaders))
        ensures
            fresh_player(r.0),
            fresh_swarm(r.1),
    {
        let player = Player::new();
        let invaders = Invaders::new(BASE_MOVE_MILLIS, NUM_COLS - 2, SWARM_HEIGHT);
        assert forall|x: int, y: int|
            occupied(invaders.army@, x, y) implies starts_at(
            (NUM_COLS - 2) as int,
            SWARM_HEIGHT as int,
            x,
            y,
        ) by {
            let i = choose|i: int|
                0 <= i < invaders.army@.len() && invaders.army@[i].x == x && invaders.army@[i].y == y;
            assert(starts_at(
                (NUM_COLS - 2) as int,
                SWARM_HEIGHT as int,
                invaders.army@[i].x as int,
                invaders.army@[i].y as int,
            ));
        }
        (player, invaders)
    }

    /// A round in play, with a fresh player and swarm.
    pub fn new() -> (g: Game)
        ensures
            g.wf(),
            g.mode == Mode::Playing,
            fresh_player(g.player),
            fresh_swarm(g.invaders),
    {
        let (player, invaders) = Game::fresh_sides();
        Game { mode: Mode::Playing, player, invaders }
    }

    /// Acts on one key press; returns the sound it triggers, if any.
    /// In play: arrows move, shoot or confirm fires a shot, pierce fires a
    /// piercer, quit ends the game. In the menu: shoot or confirm starts a new
    /// round, quit ends the game. Once ended, keys do nothing.
    pub fn handle_key(&mut self, key: Key) -> (r: Option<Sound>)
        requires
            old(self).wf(),
        ensures
            final(self).wf(),
            old(self).mode == Mode::Playing ==> match key {
                Key::Quit => r == Some(Sound::Lose) && final(self).mode == Mode::Exit,
                Key::Left => r.is_none() && final(self).mode == Mode::Playing
                    && final(self).player.x == (if old(self).player.x > 0 {
                    old(self).player.x - 1
                } else {
                    old(self).player.x as int
                }),
                Key::Right => r.is_none() && final(self).mode == Mode::Playing
                    && final(self).player.x == (if old(self).player.x < NUM_COLS - 1 {
                    old(self).player.x + 1
                } else {
                    old(self).player.x as int
                }),
                Key::Shoot | Key::Confirm => final(self).mode == Mode::Playing
                    && (r == if old(self).player.shots@.len() < 3 {
                    Some(Sound::Pew)
                } else {
                    None
                }) && final(self).player.shots@ == (if old(self).player.shots@.len() < 3 {
                    old(self).player.shots@.push(
                        Shot::spawned(old(self).player.x, (old(self).player.y - 1) as usize),
                    )
                } else {
                    old(self).player.shots@
                }),
                Key::Pierce => final(self).mode == Mode::Playing
                    && (r == if old(self).player.piercers@.len() < 1 {
                    Some(Sound::Pew)
                } else {
                    None
                }) && final(self).player.piercers@ == (if old(self).player.piercers@.len() < 1 {
                    old(self).player.piercers@.push(
                        Piercer::spawned(old(self).player.x, (old(self).player.y - 1) as usize),
                    )
                } else {
                    old(self).player.piercers@
                }),
            },
            old(self).mode == Mode::Menu ==> match key {
                Key::Quit => r.is_none() && final(self).mode == Mode::Exit,
                Key::Shoot | Key::Confirm => r == Some(Sound::Startup) && final(self).mode
                    == Mode::Playing && fresh_player(final(self).player) && fresh_swarm(
                    final(self).invaders,
                ),
                _ => r.is_none() && final(self).mode == Mode::Menu,
            },
            old(self).mode == Mode::Playing ==> final(self).invaders == old(self).invaders
                && final(self).player.y == old(self).player.y,
            old(self).mode == Mode::Playing && key != Key::Shoot && key != Key::Confirm ==>
                final(self).player.shots@ == old(self).player.shots@,
            old(self).mode == Mode::Playing && key != Key::Pierce ==>
                final(self).player.piercers@ == old(self).player.piercers@,
            old(self).mode == Mode::Playing && key != Key::Left && key != Key::Right ==>
                final(self).player.x == old(self).player.x,
            old(self).mode == Mode::Exit ==> r.is_none() && final(self).mode == Mode::Exit,
            old(self).mode == Mode::Exit || (old(self).mode == Mode::Menu && key != Key::Shoot
                && key != Key::Confirm) ==> final(self).player == old(self).player
                && final(self).invaders == old(self).invaders,
    {
        match self.mode {
            Mode::Playing => match key {
                Key::Quit => {
                    self.mode = Mode::Exit;
                    Some(Sound::Lose)
                },
                Key::Left => {
                    self.player.move_left();
                    None
                },
                Key::Right => {
                    self.player.move_right();
                    None
                },
                Key::Shoot | Key::Confirm => {
                    if self.player.shoot() {
                        Some(Sound::Pew)
                    } else {
                        None
                    }
                },
                Key::Pierce => {
                    if self.player.pierce() {
                        Some(Sound::Pew)
                    } else {
                        None
                    }
                },
            },
            Mode::Menu => match key {
                Key::Quit => {
                    self.mode = Mode::Exit;
                    None
                },
                Key::Shoot | Key::Confirm => {
                    let (player, invaders) = Game::fresh_sides();
                    self.player = player;
                    self.invaders = invaders;
                    self.mode = Mode::Playing;
                    Some(Sound::Startup)
                },
                _ => None,
            },
            Mode::Exit => None,
        }
    }

    /// Advances a round in play by `delta` nanoseconds: projectiles and swarm
    /// move, hits are resolved, and a cleared swarm (a win) or one at the
    /// bottom (a loss) sends the game to the menu. Returns the sounds to play.
    /// Outside play nothing changes.
    pub fn tick(&mut self, delta: u64) -> (r: Vec<Sound>)
        requires
            old(self).wf(),
        ensures
            final(self).wf(),
            old(self).mode != Mode::Playing ==> r@.len() == 0 && final(self).mode == old(self).mode
                && final(self).player == old(self).player && final(self).invaders == old(
                self,
            ).invaders,
            old(self).mode == Mode::Playing ==> {
                let moved = old(self).invaders.move_timer.advanced(delta).ready;
                let army1 = old(self).invaders.stepped_army(delta);
                let hits = hit_pass(surviving_shots(old(self).player.shots@, delta), army1);
                let pierced = pierce_pass(
                    surviving_piercers(old(self).player.piercers@, delta),
                    hits.1,
                );
                let cleared = pierced.0.len() == 0;
                let bottom = bottom_reached(pierced.0);
                &&& final(self).player.x == old(self).player.x
                &&& final(self).player.y == old(self).player.y
                &&& final(self).invaders.move_timer == old(self).invaders.stepped_timer(delta)
                &&& final(self).invaders.rightward == old(self).invaders.stepped_rightward(delta)
                &&& final(self).invaders.base_millis == old(self).invaders.base_millis
                &&& final(self).invaders.initial_count == old(self).invaders.initial_count
                &&& final(self).player.shots@ == hits.0
                &&& final(self).player.piercers@ == surviving_piercers(
                    old(self).player.piercers@,
                    delta,
                )
                &&& final(self).invaders.army@ == pierced.0
                &&& r@ == round_sounds(moved, hits.2, pierced.1, cleared, bottom)
                &&& final(self).mode == (if cleared || bottom {
                    Mode::Menu
                } else {
                    Mode::Playing
                })
            },
    {
        let mut sounds: Vec<Sound> = Vec::new();
        if self.mode != Mode::Playing {
            return sounds;
        }
        self.player.update(delta);
        if self.invaders.update(delta) {
            sounds.push(Sound::Move);
        }
        if self.player.detect_hits(&mut self.invaders) {
            sounds.push(Sound::Explode);
        }
        if self.player.detect_pierce(&mut self.invaders) {
            sounds.push(Sound::Explode);
        }
        if self.invaders.all_killed() {
            sounds.push(Sound::Win);
            self.mode = Mode::Menu;
        } else if self.invaders.reached_bottom() {
            sounds.push(Sound::Lose);
            self.mode = Mode::Menu;
        }
        sounds
    }

    /// The frame showing the player and the swarm.
    pub fn draw(&self) -> (f: Frame)
        requires
            self.wf(),
        ensures
            f.wf(),
            f.cells@ == self.invaders.painted(self.player.painted(blank_cells())),
    {
        let mut f = new_frame();
        self.player.draw(&mut f);
        self.invaders.draw(&mut f);
        f
    }
}

} // verus!
