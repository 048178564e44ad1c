use space_invaders::frame::{new_frame, BLANK, FRAME_CELLS};
use space_invaders::game::{Game, Key, Mode, Sound};
use space_invaders::render::{frame_diff, CellWrite};
use space_invaders::{NUM_COLS, NUM_ROWS};

const MS: u64 = 1_000_000;

#[test]
fn diff_writes_only_changed_cells() {
    let last = new_frame();
    let mut curr = new_frame();
    assert!(frame_diff(&last, &curr, false).is_empty());
    curr.set(0, 0, 'A');
    curr.set(3, 7, 'x');
    curr.set(39, 19, '|');
    let w = frame_diff(&last, &curr, false);
    assert_eq!(
        w,
        vec![
            CellWrite { x: 0, y: 0, glyph: 'A' },
            CellWrite { x: 3, y: 7, glyph: 'x' },
            CellWrite { x: 39, y: 19, glyph: '|' },
        ]
    );
    let back = frame_diff(&curr, &last, false);
    assert_eq!(back.len(), 3);
    assert!(back.iter().all(|c| c.glyph == BLANK));
}

#[test]
fn forced_diff_writes_every_cell() {
    let f = new_frame();
    let w = frame_diff(&f, &f, true);
    assert_eq!(w.len(), FRAME_CELLS);
    assert_eq!(w[0], CellWrite { x: 0, y: 0, glyph: BLANK });
    assert_eq!(w[NUM_ROWS + 1], CellWrite { x: 1, y: 1, glyph: BLANK });
    assert_eq!(w[FRAME_CELLS - 1], CellWrite { x: NUM_COLS - 1, y: NUM_ROWS - 1, glyph: BLANK });
}

#[test]
fn game_keys_in_play() {
    let mut g = Game::new();
    assert_eq!(g.mode, Mode::Playing);
    assert_eq!(g.handle_key(Key::Left), None);
    assert_eq!(g.player.x, NUM_COLS / 2 - 1);
    assert_eq!(g.handle_key(Key::Right), None);
    assert_eq!(g.player.x, NUM_COLS / 2);
    assert_eq!(g.handle_key(Key::Shoot), Some(Sound::Pew));
    assert_eq!(g.handle_key(Key::Confirm), Some(Sound::Pew));
    assert_eq!(g.handle_key(Key::Shoot), Some(Sound::Pew));
    assert_eq!(g.handle_key(Key::Shoot), None);
    assert_eq!(g.handle_key(Key::Pierce), Some(Sound::Pew));
    assert_eq!(g.handle_key(Key::Pierce), None);
    assert_eq!(g.handle_key(Key::Quit), Some(Sound::Lose));
    assert_eq!(g.mode, Mode::Exit);
    assert_eq!(g.handle_key(Key::Confirm), None);
    assert_eq!(g.mode, Mode::Exit);
}

#[test]
fn tick_moves_swarm_and_reports_sounds() {
    let mut g = Game::new();
    assert!(g.tick(MS).is_empty());
    assert_eq!(g.tick(1999 * MS), vec![Sound::Move]);
    assert_eq!(g.mode, Mode::Playing);
    assert!(g.invaders.rightward);
    assert_eq!(g.invaders.move_timer.elapsed, 0);
    assert_eq!(g.invaders.move_timer.duration, 2000 * MS);
    assert_eq!(g.player.y, NUM_ROWS - 1);
}

#[test]
fn clearing_the_swarm_wins_and_menu_restarts() {
    let mut g = Game::new();
    g.invaders.army.clear();
    assert_eq!(g.tick(MS), vec![Sound::Win]);
    assert_eq!(g.mode, Mode::Menu);
    assert!(g.tick(MS).is_empty());
    assert_eq!(g.handle_key(Key::Left), None);
    assert_eq!(g.mode, Mode::Menu);
    assert_eq!(g.handle_key(Key::Confirm), Some(Sound::Startup));
    assert_eq!(g.mode, Mode::Playing);
    assert_eq!(g.invaders.army.len(), 72);
    g.invaders.army.clear();
    g.tick(MS);
    assert_eq!(g.handle_key(Key::Quit), None);
    assert_eq!(g.mode, Mode::Exit);
}

#[test]
fn swarm_reaching_bottom_loses() {
    let mut g = Game::new();
    let mut sounds = Vec::new();
    for _ in 0..200 {
        sounds = g.tick(2000 * MS);
        if g.mode != Mode::Playing {
            break;
        }
    }
    assert_eq!(g.mode, Mode::Menu);
    assert_eq!(sounds.last(), Some(&Sound::Lose));
    assert!(g.invaders.reached_bottom());
}

#[test]
fn shot_travels_and_kills_in_play() {
    let mut g = Game::new();
    for _ in 0..NUM_COLS / 2 - 2 {
        g.handle_key(Key::Left);
    }
    assert_eq!(g.player.x, 2);
    g.handle_key(Key::Shoot);
    let mut exploded = false;
    for _ in 0..20 {
        let sounds = g.tick(50 * MS);
        if sounds.contains(&Sound::Explode) {
            exploded = true;
            break;
        }
    }
    assert!(exploded);
    assert_eq!(g.invaders.army.len(), 71);
    assert!(!g.invaders.army.iter().any(|a| a.x == 2 && a.y == 8));
}

#[test]
fn game_frame_shows_player_and_swarm() {
    let g = Game::new();
    let f = g.draw();
    assert_eq!(f.get(NUM_COLS / 2, NUM_ROWS - 1), 'A');
    assert_eq!(f.get(2, 2), 'x');
    assert_eq!(f.get(0, 0), BLANK);
}
