use space_invaders::frame::{new_frame, Drawable, BLANK, FRAME_CELLS};
use space_invaders::invaders::{move_duration_millis, Invader, Invaders};
use space_invaders::piercer::Piercer;
use space_invaders::player::Player;
use space_invaders::shot::Shot;
use space_invaders::timer::Timer;
use space_invaders::{NUM_COLS, NUM_ROWS};

const MS: u64 = 1_000_000;

#[test]
fn timer_fires_once_elapsed_reaches_duration() {
    let mut t = Timer::from_millis(500);
    t.update(300 * MS);
    assert!(!t.ready);
    t.update(200 * MS);
    assert!(t.ready);
    t.reset();
    assert!(!t.ready);
    assert_eq!(t.elapsed, 0);
    assert_eq!(t.duration, 500 * MS);
}

#[test]
fn timer_saturates_instead_of_wrapping() {
    let mut t = Timer::from_millis(1);
    t.update(u64::MAX);
    t.update(u64::MAX);
    assert_eq!(t.elapsed, u64::MAX);
    assert!(t.ready);
}

#[test]
fn shot_climbs_and_dies_at_top() {
    let mut s = Shot::new(5, 2);
    s.update(49 * MS);
    assert_eq!(s.y, 2);
    s.update(MS);
    assert_eq!(s.y, 1);
    assert!(!s.dead());
    s.update(50 * MS);
    assert_eq!(s.y, 0);
    assert!(s.dead());
}

#[test]
fn exploding_shot_stops_and_burns_out() {
    let mut s = Shot::new(5, 10);
    s.explode();
    assert!(s.exploding);
    s.update(200 * MS);
    assert_eq!(s.y, 10);
    assert!(!s.dead());
    s.update(50 * MS);
    assert_eq!(s.y, 10);
    assert!(s.dead());
}

#[test]
fn piercer_climbs_one_row_per_period() {
    let mut p = Piercer::new(3, 10);
    p.update(100 * MS);
    assert_eq!(p.y, 10);
    p.update(60 * MS);
    assert_eq!(p.y, 9);
    p.update(150 * MS);
    assert_eq!(p.y, 8);
    // one long step still moves a single row
    p.update(1000 * MS);
    assert_eq!(p.y, 7);
}

#[test]
fn piercer_stays_on_top_row() {
    let mut p = Piercer::new(3, 1);
    p.update(150 * MS);
    assert_eq!(p.y, 0);
    assert!(p.dead());
    p.update(150 * MS);
    assert_eq!(p.y, 0);
}

#[test]
fn piercer_with_ready_movement_timer_is_alive() {
    let mut p = Piercer::new(3, 5);
    p.timer.update(150 * MS);
    assert!(p.timer.ready);
    assert!(!p.dead());
    p.update(0);
    assert_eq!(p.y, 4);
    assert!(!p.dead());
}

#[test]
fn exploded_piercer_dies_when_burn_out_is_ready() {
    let mut p = Piercer::new(3, 5);
    p.explode();
    p.timer.update(250 * MS);
    assert!(p.dead());
}

#[test]
fn piercer_explode_keeps_moving() {
    let mut p = Piercer::new(3, 10);
    p.explode();
    assert!(p.exploding);
    p.update(250 * MS);
    assert_eq!(p.y, 9);
    assert!(p.exploding);
}

#[test]
fn player_starts_mid_bottom() {
    let p = Player::new();
    assert_eq!(p.x, NUM_COLS / 2);
    assert_eq!(p.y, NUM_ROWS - 1);
    assert!(p.shots.is_empty());
    assert!(p.piercers.is_empty());
}

#[test]
fn player_moves_are_clamped() {
    let mut p = Player::new();
    for _ in 0..100 {
        p.move_left();
    }
    assert_eq!(p.x, 0);
    for _ in 0..100 {
        p.move_right();
    }
    assert_eq!(p.x, NUM_COLS - 1);
    p.move_left();
    assert_eq!(p.x, NUM_COLS - 2);
}

#[test]
fn shoot_refuses_a_fourth_shot() {
    let mut p = Player::new();
    let fired: Vec<bool> = (0..5).map(|_| p.shoot()).collect();
    assert_eq!(fired, vec![true, true, true, false, false]);
    assert_eq!(p.shots.len(), 3);
    assert_eq!(p.shots[0].x, NUM_COLS / 2);
    assert_eq!(p.shots[0].y, NUM_ROWS - 2);
}

#[test]
fn pierce_refuses_a_second_piercer() {
    let mut p = Player::new();
    assert!(p.pierce());
    assert!(!p.pierce());
    assert_eq!(p.piercers.len(), 1);
    assert_eq!(p.piercers[0].y, NUM_ROWS - 2);
    for _ in 0..NUM_ROWS {
        p.update(150 * MS);
    }
    assert!(p.piercers.is_empty());
    assert!(p.pierce());
}

#[test]
fn shots_fired_then_flown_off_are_removed() {
    let mut p = Player::new();
    let _ = Invaders::new(2000, NUM_COLS - 2, 9);
    let fired: Vec<bool> = (0..4).map(|_| p.shoot()).collect();
    assert_eq!(fired, vec![true, true, true, false]);
    for _ in 0..NUM_ROWS - 3 {
        p.update(50 * MS);
    }
    assert_eq!(p.shots.len(), 3);
    assert_eq!(p.shots[0].y, 1);
    p.update(50 * MS);
    assert!(p.shots.is_empty());
    assert!(p.shoot());
}

#[test]
fn move_duration_speeds_up_to_floor() {
    assert_eq!(move_duration_millis(2000, 72, 72), 2000);
    assert_eq!(move_duration_millis(2000, 72, 71), 1975);
    assert_eq!(move_duration_millis(2000, 72, 10), 450);
    assert_eq!(move_duration_millis(2000, 72, 1), 250);
    assert_eq!(move_duration_millis(2000, 72, 0), 250);
    assert_eq!(move_duration_millis(100, 10, 5), 100);
    let mut last = move_duration_millis(2000, 9, 9);
    for remaining in (0..9).rev() {
        let d = move_duration_millis(2000, 9, remaining);
        assert!(d < last || d == 250);
        last = d;
    }
    assert_eq!(move_duration_millis(2000, 9, 1), 1800);
}

#[test]
fn swarm_fills_even_cells_of_grid() {
    let s = Invaders::new(2000, NUM_COLS - 2, 9);
    assert_eq!(s.army.len(), 72);
    assert_eq!(s.initial_count, 72);
    assert!(s.rightward);
    assert!(s.army.iter().all(|a| a.x >= 2 && a.x <= 36 && a.x % 2 == 0));
    assert!(s.army.iter().all(|a| a.y >= 2 && a.y <= 8 && a.y % 2 == 0));
    assert!(s.army.contains(&Invader { x: 36, y: 8 }));
    assert!(!s.all_killed());
    assert!(!s.reached_bottom());
}

#[test]
fn swarm_marches_then_drops_at_edge() {
    let mut s = Invaders::new(2000, NUM_COLS - 2, 9);
    assert!(!s.update(1999 * MS));
    assert!(s.update(MS));
    assert!(s.army.contains(&Invader { x: 3, y: 2 }));
    assert!(s.update(2000 * MS));
    assert!(s.update(2000 * MS));
    let max_x = s.army.iter().map(|a| a.x).max().unwrap();
    assert_eq!(max_x, NUM_COLS - 1);
    let before: Vec<Invader> = s.army.clone();
    assert!(s.update(2000 * MS));
    assert!(!s.rightward);
    for (a, b) in before.iter().zip(s.army.iter()) {
        assert_eq!(a.x, b.x);
        assert_eq!(a.y + 1, b.y);
    }
    assert!(s.update(2000 * MS));
    assert_eq!(s.army[0].x, before[0].x - 1);
}

#[test]
fn swarm_period_shrinks_after_kills() {
    let mut s = Invaders::new(2000, NUM_COLS - 2, 9);
    assert!(s.kill_invader_at(2, 2));
    assert!(s.kill_invader_at(4, 2));
    assert!(s.update(2000 * MS));
    assert_eq!(s.move_timer.duration, 1950 * MS);
}

#[test]
fn kill_invader_at_exact_cell_only() {
    let mut s = Invaders::new(2000, NUM_COLS - 2, 9);
    assert!(!s.kill_invader_at(3, 2));
    assert!(!s.kill_invader_at(2, 3));
    assert_eq!(s.army.len(), 72);
    assert!(s.kill_invader_at(2, 2));
    assert_eq!(s.army.len(), 71);
    assert!(!s.kill_invader_at(2, 2));
    assert_eq!(s.army.len(), 71);
    assert!(!s.army.contains(&Invader { x: 2, y: 2 }));
}

#[test]
fn swarm_at_bottom_and_cleared() {
    let mut s = Invaders::new(2000, 4, 3);
    assert_eq!(s.army, vec![Invader { x: 2, y: 2 }]);
    for _ in 0..2000 {
        if s.reached_bottom() {
            break;
        }
        s.update(2000 * MS);
    }
    assert!(s.reached_bottom());
    let Invader { x, y } = s.army[0];
    assert!(s.kill_invader_at(x, y));
    assert!(s.all_killed());
}

#[test]
fn shot_on_invader_hits_and_explodes() {
    let mut s = Invaders::new(2000, NUM_COLS - 2, 9);
    let mut p = Player::new();
    p.shots.push(Shot::new(4, 4));
    p.shots.push(Shot::new(5, 4));
    assert!(p.detect_hits(&mut s));
    assert!(p.shots[0].exploding);
    assert!(!p.shots[1].exploding);
    assert_eq!(s.army.len(), 71);
    assert!(!p.detect_hits(&mut s));
    assert_eq!(s.army.len(), 71);
}

#[test]
fn exploding_shot_hits_nothing() {
    let mut s = Invaders::new(2000, NUM_COLS - 2, 9);
    let mut p = Player::new();
    let mut shot = Shot::new(4, 4);
    shot.explode();
    p.shots.push(shot);
    assert!(!p.detect_hits(&mut s));
    assert_eq!(s.army.len(), 72);
}

#[test]
fn piercer_kills_without_exploding() {
    let mut s = Invaders::new(2000, NUM_COLS - 2, 9);
    let mut p = Player::new();
    p.piercers.push(Piercer::new(6, 8));
    assert!(p.detect_pierce(&mut s));
    assert!(!p.piercers[0].exploding);
    assert_eq!(s.army.len(), 71);
    assert!(!p.detect_pierce(&mut s));
    p.piercers[0].y = 6;
    assert!(p.detect_pierce(&mut s));
    assert_eq!(s.army.len(), 70);
}

#[test]
fn entities_paint_their_glyphs() {
    let mut f = new_frame();
    assert_eq!(f.cells.len(), FRAME_CELLS);
    assert!(f.cells.iter().all(|c| *c == BLANK));
    let mut p = Player::new();
    p.shoot();
    p.pierce();
    p.draw(&mut f);
    // the piercer is painted after the shot at the same cell
    assert_eq!(f.get(NUM_COLS / 2, NUM_ROWS - 1), 'A');
    assert_eq!(f.get(NUM_COLS / 2, NUM_ROWS - 2), 'O');
    let mut g = new_frame();
    Shot::new(1, 1).draw(&mut g);
    assert_eq!(g.get(1, 1), '|');
    let mut shot = Shot::new(2, 1);
    shot.explode();
    shot.draw(&mut g);
    assert_eq!(g.get(2, 1), '*');
    let mut s = Invaders::new(2000, NUM_COLS - 2, 9);
    s.draw(&mut g);
    assert_eq!(g.get(2, 2), 'x');
    assert_eq!(g.get(3, 2), BLANK);
    s.update(1000 * MS);
    s.draw(&mut g);
    assert_eq!(g.get(2, 2), '+');
}
