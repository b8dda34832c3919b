use invaders_server::game::clock::{Countdown, Span};
use invaders_server::game::common::{MAX_SHOTS, NUM_COLS, NUM_ROWS};
use invaders_server::game::frame::Frame;
use invaders_server::game::invaders::{Invader, Invaders};
use invaders_server::game::player::Player;
use invaders_server::game::shot::{Shot, ShotPhase};

fn ms(n: u64) -> Span {
    Span::from_millis(n)
}

fn swarm_of(cells: Vec<(usize, usize)>) -> Invaders {
    let mut swarm = Invaders::new();
    swarm.army = cells.into_iter().map(|(x, y)| Invader { x, y }).collect();
    swarm
}

fn cells_of(swarm: &Invaders) -> Vec<(usize, usize)> {
    swarm.army.iter().map(|i| (i.x, i.y)).collect()
}

#[test]
fn shot_starts_in_flight() {
    let s = Shot::new(4, 9);
    assert_eq!((s.x, s.y), (4, 9));
    assert!(!s.exploding);
    assert_eq!(s.timer, Countdown::from_millis(50));
    assert_eq!(s.phase(), ShotPhase::InFlight);
    assert!(!s.dead());
}

#[test]
fn shot_climbs_one_row_when_its_countdown_runs_out() {
    let mut s = Shot::new(4, 9);
    s.update(ms(30));
    assert_eq!(s.y, 9);
    assert_eq!(s.timer.time_left, ms(20));
    s.update(ms(30));
    assert_eq!(s.y, 8);
    assert_eq!(s.x, 4);
    assert_eq!(s.timer, Countdown::from_millis(50));
}

#[test]
fn shot_in_top_row_is_spent() {
    let mut s = Shot::new(4, 1);
    s.update(ms(51));
    assert_eq!(s.y, 0);
    assert!(s.dead());
    assert_eq!(s.phase(), ShotPhase::Spent);
    s.update(ms(51));
    assert_eq!(s.y, 0);
}

#[test]
fn exploding_shot_stays_and_is_spent_after_its_explosion() {
    let mut s = Shot::new(4, 9);
    s.explode();
    assert!(s.exploding);
    assert_eq!(s.timer, Countdown::from_millis(250));
    assert_eq!(s.phase(), ShotPhase::Exploding);
    s.update(ms(200));
    assert_eq!(s.y, 9);
    assert!(!s.dead());
    s.update(ms(51));
    assert_eq!(s.y, 9);
    assert!(s.dead());
    assert_eq!(s.phase(), ShotPhase::Spent);
}

#[test]
fn shot_draws_its_glyph() {
    let mut f = Frame::new();
    let mut s = Shot::new(4, 9);
    s.draw(&mut f);
    assert_eq!(f.get(4, 9), '|');
    s.explode();
    s.draw(&mut f);
    assert_eq!(f.get(4, 9), '*');
}

#[test]
fn fresh_swarm_has_every_second_column_and_four_rows() {
    let swarm = Invaders::new();
    assert_eq!(swarm.army.len(), 76);
    assert_eq!(swarm.army[0], Invader { x: 2, y: 2 });
    assert_eq!(swarm.army[1], Invader { x: 2, y: 4 });
    assert_eq!(swarm.army[3], Invader { x: 2, y: 8 });
    assert_eq!(swarm.army[4], Invader { x: 4, y: 2 });
    assert_eq!(swarm.army[75], Invader { x: 38, y: 8 });
    let mut expected = Vec::new();
    for x in 0..NUM_COLS {
        for y in 0..NUM_ROWS {
            if y > 1 && y < NUM_ROWS / 2 && x > 0 && x % 2 == 0 && y % 2 == 0 {
                expected.push((x, y));
            }
        }
    }
    assert_eq!(cells_of(&swarm), expected);
    assert_eq!(swarm.direction, 1);
    assert!(!swarm.stop);
    assert_eq!(swarm.move_timer, Countdown::from_millis(2500));
    assert!(!swarm.all_killed());
}

#[test]
fn swarm_waits_until_its_countdown_runs_out() {
    let mut swarm = swarm_of(vec![(2, 2), (4, 4)]);
    assert!(!swarm.update(ms(2500)));
    assert_eq!(cells_of(&swarm), vec![(2, 2), (4, 4)]);
    assert_eq!(swarm.move_timer.time_left, ms(0));
    assert!(swarm.update(ms(1)));
    assert_eq!(cells_of(&swarm), vec![(3, 2), (5, 4)]);
    assert_eq!(swarm.move_timer, Countdown::from_millis(2500));
    assert_eq!(swarm.direction, 1);
}

#[test]
fn swarm_turns_at_the_right_wall_and_speeds_up() {
    let mut swarm = swarm_of(vec![(39, 2), (10, 4)]);
    assert!(swarm.update(ms(2501)));
    assert_eq!(cells_of(&swarm), vec![(39, 3), (10, 5)]);
    assert_eq!(swarm.direction, -1);
    assert_eq!(swarm.move_timer, Countdown::from_millis(2250));
    assert!(swarm.update(ms(2251)));
    assert_eq!(cells_of(&swarm), vec![(38, 3), (9, 5)]);
    assert_eq!(swarm.move_timer, Countdown::from_millis(2250));
}

#[test]
fn swarm_turns_at_the_left_wall() {
    let mut swarm = swarm_of(vec![(0, 2), (10, 4)]);
    swarm.direction = -1;
    assert!(swarm.update(ms(2501)));
    assert_eq!(cells_of(&swarm), vec![(0, 3), (10, 5)]);
    assert_eq!(swarm.direction, 1);
}

#[test]
fn swarm_interval_stops_shrinking_at_its_floor() {
    let mut swarm = swarm_of(vec![(39, 2)]);
    swarm.move_timer = Countdown::from_millis(500);
    assert!(swarm.update(ms(501)));
    assert_eq!(swarm.move_timer, Countdown::from_millis(250));
    assert_eq!(swarm.direction, -1);
    swarm.army = vec![Invader { x: 0, y: 3 }];
    assert!(swarm.update(ms(251)));
    assert_eq!(swarm.move_timer, Countdown::from_millis(250));
    assert_eq!(cells_of(&swarm), vec![(0, 4)]);
}

#[test]
fn empty_swarm_moving_left_turns() {
    let mut swarm = swarm_of(vec![]);
    swarm.direction = -1;
    assert!(swarm.update(ms(2501)));
    assert_eq!(swarm.direction, 1);
    assert_eq!(swarm.move_timer, Countdown::from_millis(2250));
    assert!(swarm.all_killed());
}

#[test]
fn stopped_swarm_reports_and_stays() {
    let mut swarm = swarm_of(vec![(5, 18)]);
    assert!(swarm.reached_bottom());
    assert!(swarm.stop);
    assert!(swarm.update(ms(5000)));
    assert_eq!(cells_of(&swarm), vec![(5, 18)]);
    assert_eq!(swarm.move_timer, Countdown::from_millis(2500));
}

#[test]
fn reached_bottom_is_two_rows_above_the_last() {
    let mut swarm = swarm_of(vec![(5, 17), (7, 3)]);
    assert!(!swarm.reached_bottom());
    assert!(!swarm.stop);
    swarm.army.push(Invader { x: 9, y: NUM_ROWS - 2 });
    assert!(swarm.reached_bottom());
    assert!(swarm.stop);
    let mut none = swarm_of(vec![]);
    assert!(!none.reached_bottom());
}

#[test]
fn kill_invader_at_removes_the_first_at_that_cell() {
    let mut swarm = swarm_of(vec![(2, 2), (4, 4), (2, 2), (6, 6)]);
    assert!(swarm.kill_invader_at(2, 2));
    assert_eq!(cells_of(&swarm), vec![(4, 4), (2, 2), (6, 6)]);
    assert!(!swarm.kill_invader_at(2, 4));
    assert_eq!(cells_of(&swarm), vec![(4, 4), (2, 2), (6, 6)]);
    assert!(swarm.kill_invader_at(6, 6));
    assert_eq!(cells_of(&swarm), vec![(4, 4), (2, 2)]);
}

#[test]
fn swarm_draws_its_glyph_by_the_time_left() {
    let mut swarm = swarm_of(vec![(2, 2), (4, 4)]);
    let mut f = Frame::new();
    swarm.draw(&mut f);
    assert_eq!(f.get(2, 2), 'x');
    assert_eq!(f.get(4, 4), 'x');
    swarm.update(ms(1250));
    let mut g = Frame::new();
    swarm.draw(&mut g);
    assert_eq!(g.get(2, 2), '+');
    assert_eq!(g.get(4, 4), '+');
    assert_eq!(g.get(3, 3), ' ');
}

#[test]
fn new_player_stands_in_the_middle_of_the_bottom_row() {
    let p = Player::new(7);
    assert_eq!(p.id, 7);
    assert_eq!(p.x, NUM_COLS / 2);
    assert_eq!(p.y, NUM_ROWS - 1);
    assert!(p.shots.is_empty());
    assert_eq!(p.room_id, None);
}

#[test]
fn player_moves_stop_at_the_walls() {
    let mut p = Player::new(1);
    p.x = 1;
    p.move_left();
    assert_eq!(p.x, 0);
    p.move_left();
    assert_eq!(p.x, 0);
    p.x = NUM_COLS - 2;
    p.move_right();
    assert_eq!(p.x, NUM_COLS - 1);
    p.move_right();
    assert_eq!(p.x, NUM_COLS - 1);
    p.y = 1;
    p.move_up();
    assert_eq!(p.y, 0);
    p.move_up();
    assert_eq!(p.y, 0);
}

#[test]
fn player_shoots_from_the_cell_above() {
    let mut p = Player::new(1);
    assert!(p.shoot());
    assert_eq!(p.shots.len(), 1);
    assert_eq!((p.shots[0].x, p.shots[0].y), (NUM_COLS / 2, NUM_ROWS - 2));
    assert!(!p.shots[0].exploding);
}

#[test]
fn player_shots_are_capped() {
    let mut p = Player::new(1);
    for _ in 0..MAX_SHOTS {
        assert!(p.shoot());
    }
    assert!(!p.shoot());
    assert_eq!(p.shots.len(), 20);
}

#[test]
fn twenty_five_shoot_commands_leave_twenty_shots() {
    let mut p = Player::new(1);
    for _ in 0..25 {
        assert!(p.handle_movement("-"));
    }
    assert_eq!(p.shots.len(), 20);
    for shot in p.shots.iter() {
        assert_eq!(shot.phase(), ShotPhase::InFlight);
    }
}

#[test]
fn handle_movement_knows_three_commands() {
    let mut p = Player::new(1);
    let x = p.x;
    assert!(p.handle_movement("-1"));
    assert_eq!(p.x, x - 1);
    assert!(p.handle_movement("1"));
    assert!(p.handle_movement("1"));
    assert_eq!(p.x, x + 1);
    assert!(p.handle_movement("up"));
    assert!(p.handle_movement(""));
    assert_eq!((p.x, p.y), (x + 1, NUM_ROWS - 1));
    assert!(p.shots.is_empty());
    assert!(p.handle_movement("-"));
    assert_eq!(p.shots.len(), 1);
}

#[test]
fn player_update_ages_shots_and_drops_spent_ones() {
    let mut p = Player::new(1);
    p.shots.push(Shot::new(3, 1));
    p.shots.push(Shot::new(5, 9));
    let mut burst = Shot::new(7, 7);
    burst.explode();
    p.shots.push(burst);
    p.update(ms(51));
    assert_eq!(p.shots.len(), 2);
    assert_eq!((p.shots[0].x, p.shots[0].y), (5, 8));
    assert_eq!((p.shots[1].x, p.shots[1].y), (7, 7));
    assert!(p.shots[1].exploding);
    p.update(ms(200));
    assert_eq!(p.shots.len(), 1);
    assert_eq!((p.shots[0].x, p.shots[0].y), (5, 7));
}

#[test]
fn detect_hits_removes_enemies_and_explodes_shots() {
    let mut p = Player::new(1);
    p.shots.push(Shot::new(2, 2));
    p.shots.push(Shot::new(9, 9));
    p.shots.push(Shot::new(4, 4));
    let mut swarm = swarm_of(vec![(2, 2), (4, 4), (6, 6)]);
    let killed = p.detect_hits(&mut swarm);
    assert_eq!(killed, 2);
    assert_eq!(cells_of(&swarm), vec![(6, 6)]);
    assert_eq!(p.shots.len(), 3);
    assert!(p.shots[0].exploding);
    assert!(!p.shots[1].exploding);
    assert!(p.shots[2].exploding);
    assert_eq!(p.shots[0].timer, Countdown::from_millis(250));
}

#[test]
fn two_shots_at_one_cell_need_two_enemies() {
    let mut p = Player::new(1);
    p.shots.push(Shot::new(2, 2));
    p.shots.push(Shot::new(2, 2));
    let mut swarm = swarm_of(vec![(2, 2)]);
    assert_eq!(p.detect_hits(&mut swarm), 1);
    assert!(p.shots[0].exploding);
    assert!(!p.shots[1].exploding);
    assert!(swarm.all_killed());
}

#[test]
fn exploding_shot_hits_nothing() {
    let mut p = Player::new(1);
    let mut burst = Shot::new(2, 2);
    burst.explode();
    p.shots.push(burst);
    let mut swarm = swarm_of(vec![(2, 2)]);
    assert_eq!(p.detect_hits(&mut swarm), 0);
    assert_eq!(cells_of(&swarm), vec![(2, 2)]);
}

#[test]
fn player_draws_itself_and_its_shots() {
    let mut p = Player::new(1);
    p.shoot();
    let mut f = Frame::new();
    p.draw(&mut f);
    assert_eq!(f.get(NUM_COLS / 2, NUM_ROWS - 1), 'A');
    assert_eq!(f.get(NUM_COLS / 2, NUM_ROWS - 2), '|');
}
