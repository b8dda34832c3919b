use invaders_server::game::clock::Span;
use invaders_server::game::common::{NUM_COLS, NUM_ROWS};
use invaders_server::game::invaders::{Invader, Invaders};
use invaders_server::game::player::Player;
use invaders_server::game::shot::Shot;
use invaders_server::game_session::{GameSession, GameStateType};
use invaders_server::room::Room;

fn ms(n: u64) -> Span {
    Span::from_millis(n)
}

fn swarm_of(cells: Vec<(usize, usize)>) -> Invaders {
    let mut swarm = Invaders::new();
    swarm.army = cells.into_iter().map(|(x, y)| Invader { x, y }).collect();
    swarm
}

fn session_with(cells: Vec<(usize, usize)>) -> GameSession {
    let mut gs = GameSession::new("r1".to_string());
    let mut p = Player::new(11);
    p.room_id = Some("r1".to_string());
    gs.player1 = Some(p);
    gs.player1_sessionid = 11;
    gs.invaders = Some(swarm_of(cells));
    gs
}

fn occupied(room: &Room) -> usize {
    let mut n = 0;
    if room.game_session.player1.is_some() {
        n += 1;
    }
    if room.game_session.player2.is_some() {
        n += 1;
    }
    n
}

fn scheduler_rule_holds(room: &Room) -> bool {
    room.ticking == (!room.game_session.state.terminal() && occupied(room) >= 1)
}

#[test]
fn new_session_starts_blank() {
    let gs = GameSession::new("r1".to_string());
    assert_eq!(gs.room, "r1");
    assert_eq!(gs.state, GameStateType::START);
    assert!(gs.player1.is_none());
    assert!(gs.player2.is_none());
    assert!(gs.invaders.is_none());
    assert_eq!(gs.score, 0);
    assert_eq!((gs.player1_sessionid, gs.player2_sessionid), (0, 0));
    assert_eq!(gs.last_frame.cells.len(), NUM_ROWS);
    let report = gs.report();
    assert_eq!(report.room_id, "r1");
    assert_eq!(report.state, GameStateType::START);
    assert_eq!((report.player1_sessionid, report.player2_sessionid), (0, 0));
    assert_eq!(report.frame.cells, gs.last_frame.cells);
}

#[test]
fn tick_renders_players_shots_and_swarm() {
    let mut gs = session_with(vec![(2, 2), (4, 4)]);
    gs.player1.as_mut().unwrap().shots.push(Shot::new(20, 10));
    let report = gs.update_frame(ms(10));
    assert_eq!(report.state, GameStateType::RUNNING);
    assert_eq!(gs.state, GameStateType::RUNNING);
    assert_eq!(report.player1_sessionid, 11);
    let f = &gs.last_frame;
    assert_eq!(f.get(NUM_COLS / 2, NUM_ROWS - 1), 'A');
    assert_eq!(f.get(20, 10), '|');
    assert_eq!(f.get(2, 2), 'x');
    assert_eq!(f.get(4, 4), 'x');
    assert_eq!(report.frame.cells, f.cells);
    let mut glyphs = 0;
    for row in f.cells.iter() {
        for cell in row.iter() {
            if *cell != ' ' {
                glyphs += 1;
            }
        }
    }
    assert_eq!(glyphs, 4);
}

#[test]
fn last_enemy_hit_wins_and_scores_one() {
    let mut gs = session_with(vec![(6, 6)]);
    gs.player1.as_mut().unwrap().shots.push(Shot::new(6, 6));
    let before = gs.score;
    let report = gs.update_frame(ms(10));
    assert_eq!(report.state, GameStateType::WIN);
    assert_eq!(gs.state, GameStateType::WIN);
    assert_eq!(gs.score, before + 1);
    assert!(gs.invaders.as_ref().unwrap().all_killed());
    assert!(gs.player1.as_ref().unwrap().shots[0].exploding);
}

#[test]
fn enemy_near_the_bottom_loses() {
    let mut gs = session_with(vec![(39, NUM_ROWS - 3), (3, 3)]);
    let report = gs.update_frame(ms(2501));
    assert_eq!(report.state, GameStateType::LOSE);
    assert_eq!(gs.state, GameStateType::LOSE);
    let swarm = gs.invaders.as_ref().unwrap();
    assert!(swarm.stop);
    assert_eq!(swarm.army[0], Invader { x: 39, y: NUM_ROWS - 2 });
}

#[test]
fn ended_session_ignores_ticks() {
    let mut gs = session_with(vec![(6, 6)]);
    gs.player1.as_mut().unwrap().shots.push(Shot::new(6, 6));
    gs.update_frame(ms(10));
    assert_eq!(gs.state, GameStateType::WIN);
    let frame = gs.last_frame.duplicate();
    let score = gs.score;
    gs.player1.as_mut().unwrap().shots.push(Shot::new(9, 9));
    let report = gs.update_frame(ms(5000));
    assert_eq!(report.state, GameStateType::WIN);
    assert_eq!(gs.last_frame.cells, frame.cells);
    assert_eq!(gs.score, score);
    assert_eq!(gs.player1.as_ref().unwrap().shots.len(), 2);

    let mut lost = session_with(vec![(39, NUM_ROWS - 3)]);
    lost.update_frame(ms(2501));
    assert_eq!(lost.state, GameStateType::LOSE);
    let frame = lost.last_frame.duplicate();
    lost.update_frame(ms(2501));
    assert_eq!(lost.state, GameStateType::LOSE);
    assert_eq!(lost.last_frame.cells, frame.cells);
    assert_eq!(lost.score, 0);
}

#[test]
fn frame_dimensions_stay_across_ticks() {
    let mut gs = session_with(vec![(2, 2), (38, 8)]);
    for step in 0..60 {
        if step % 7 == 0 {
            gs.player1.as_mut().unwrap().shoot();
        }
        gs.update_frame(ms(400));
        assert_eq!(gs.last_frame.cells.len(), NUM_ROWS);
        for row in gs.last_frame.cells.iter() {
            assert_eq!(row.len(), NUM_COLS);
        }
    }
}

#[test]
fn swarm_never_grows_across_ticks() {
    let mut gs = GameSession::new("r1".to_string());
    let mut p = Player::new(11);
    p.x = 2;
    gs.player1 = Some(p);
    gs.player1_sessionid = 11;
    gs.invaders = Some(Invaders::new());
    let mut size = 76;
    let mut score = 0;
    for _ in 0..400 {
        if gs.state.terminal() {
            break;
        }
        gs.player1.as_mut().unwrap().shoot();
        gs.update_frame(ms(60));
        let now = gs.invaders.as_ref().unwrap().army.len();
        assert!(now <= size);
        assert_eq!(gs.score - score, size - now);
        size = now;
        score = gs.score;
    }
    assert!(gs.score > 0);
}

#[test]
fn session_without_swarm_keeps_running() {
    let mut gs = GameSession::new("r1".to_string());
    let report = gs.update_frame(ms(100));
    assert_eq!(report.state, GameStateType::RUNNING);
    assert_eq!(gs.score, 0);
}

#[test]
fn stop_ends_a_session_once() {
    let mut gs = session_with(vec![(6, 6)]);
    gs.stop();
    assert_eq!(gs.state, GameStateType::STOP);
    assert!(gs.state.terminal());
    let mut won = session_with(vec![(6, 6)]);
    won.player1.as_mut().unwrap().shots.push(Shot::new(6, 6));
    won.update_frame(ms(10));
    won.stop();
    assert_eq!(won.state, GameStateType::WIN);
}

#[test]
fn render_prints_rows_and_a_closing_line() {
    let mut gs = session_with(vec![(2, 2)]);
    gs.update_frame(ms(10));
    let text = gs.render();
    let lines: Vec<&str> = text.split('\n').collect();
    assert_eq!(lines.len(), NUM_ROWS + 3);
    for y in 0..NUM_ROWS {
        let row: String = gs.last_frame.cells[y].iter().collect();
        assert_eq!(lines[y], row);
    }
    assert_eq!(lines[NUM_ROWS], "");
    assert_eq!(lines[NUM_ROWS + 1], "=".repeat(NUM_COLS));
    assert_eq!(lines[NUM_ROWS + 2], "");
    assert!(text.ends_with("=\n"));
}

#[test]
fn terminal_states_are_win_lose_stop() {
    assert!(GameStateType::WIN.terminal());
    assert!(GameStateType::LOSE.terminal());
    assert!(GameStateType::STOP.terminal());
    assert!(!GameStateType::IDLE.terminal());
    assert!(!GameStateType::START.terminal());
    assert!(!GameStateType::RUNNING.terminal());
}

#[test]
fn new_room_is_empty_and_idle() {
    let room = Room::new("r1".to_string());
    assert_eq!(room.name, "r1");
    assert_eq!(room.game_session.room, "r1");
    assert_eq!((room.player1_session_id, room.player2_session_id), (0, 0));
    assert!(!room.ticking);
    assert_eq!(occupied(&room), 0);
    assert!(scheduler_rule_holds(&room));
}

#[test]
fn two_joins_fill_the_slots_in_order() {
    let mut room = Room::new("r1".to_string());
    assert!(room.join(101));
    assert!(room.ticking);
    assert!(room.game_session.invaders.is_some());
    assert!(room.join(202));
    let p1 = room.game_session.player1.as_ref().unwrap();
    let p2 = room.game_session.player2.as_ref().unwrap();
    assert_eq!(p1.id, 101);
    assert_eq!((p1.x, p1.y), (NUM_COLS / 2, NUM_ROWS - 1));
    assert_eq!(p2.id, 202);
    assert_eq!((p2.x, p2.y), (NUM_COLS / 2, NUM_ROWS - 2));
    assert_eq!(p1.room_id.as_deref(), Some("r1"));
    assert_eq!(p2.room_id.as_deref(), Some("r1"));
    assert_eq!((room.player1_session_id, room.player2_session_id), (101, 202));
    assert_eq!(room.game_session.player1_sessionid, 101);
    assert_eq!(room.game_session.player2_sessionid, 202);
    assert!(scheduler_rule_holds(&room));
}

#[test]
fn third_join_is_turned_away() {
    let mut room = Room::new("r1".to_string());
    assert!(room.join(1));
    assert!(room.join(2));
    assert!(!room.join(3));
    assert_eq!(occupied(&room), 2);
    assert_eq!((room.player1_session_id, room.player2_session_id), (1, 2));
    assert_eq!(room.game_session.player1.as_ref().unwrap().id, 1);
    assert_eq!(room.game_session.player2.as_ref().unwrap().id, 2);
    assert!(scheduler_rule_holds(&room));
}

#[test]
fn second_join_keeps_the_swarm() {
    let mut room = Room::new("r1".to_string());
    room.join(1);
    room.tick(ms(2501));
    let cells: Vec<Invader> = room.game_session.invaders.as_ref().unwrap().army.clone();
    room.join(2);
    assert_eq!(room.game_session.invaders.as_ref().unwrap().army, cells);
}

#[test]
fn join2_takes_a_ready_player() {
    let mut room = Room::new("r1".to_string());
    let mut p = Player::new(5);
    p.x = 3;
    assert!(room.join2(p));
    let mut q = Player::new(6);
    q.x = 30;
    assert!(room.join2(q));
    assert!(!room.join2(Player::new(7)));
    let p1 = room.game_session.player1.as_ref().unwrap();
    let p2 = room.game_session.player2.as_ref().unwrap();
    assert_eq!((p1.id, p1.x, p1.y), (5, 3, NUM_ROWS - 1));
    assert_eq!((p2.id, p2.x, p2.y), (6, 30, NUM_ROWS - 2));
    assert_eq!(p2.room_id.as_deref(), Some("r1"));
    assert_eq!((room.player1_session_id, room.player2_session_id), (5, 6));
    assert!(room.ticking);
}

#[test]
fn commands_go_to_the_player_of_the_connection() {
    let mut room = Room::new("r1".to_string());
    room.join(1);
    room.join(2);
    room.handle_player_input(&1, "-1");
    room.handle_player_input(&2, "1");
    room.handle_player_input(&2, "-");
    room.handle_player_input(&3, "-1");
    let p1 = room.game_session.player1.as_ref().unwrap();
    let p2 = room.game_session.player2.as_ref().unwrap();
    assert_eq!(p1.x, NUM_COLS / 2 - 1);
    assert_eq!(p2.x, NUM_COLS / 2 + 1);
    assert!(p1.shots.is_empty());
    assert_eq!(p2.shots.len(), 1);
    assert_eq!((p2.shots[0].x, p2.shots[0].y), (NUM_COLS / 2 + 1, NUM_ROWS - 3));
}

#[test]
fn command_for_an_empty_slot_does_nothing() {
    let mut room = Room::new("r1".to_string());
    room.handle_player_input(&0, "-");
    room.handle_player_input(&9, "-");
    assert_eq!(occupied(&room), 0);
    assert!(!room.ticking);
}

#[test]
fn slot_one_player_never_has_more_than_twenty_shots() {
    let mut room = Room::new("r1".to_string());
    room.join(1);
    for _ in 0..25 {
        room.handle_player_input(&1, "-");
    }
    assert_eq!(room.game_session.player1.as_ref().unwrap().shots.len(), 20);
    room.tick(ms(10));
    assert_eq!(room.game_session.player1.as_ref().unwrap().shots.len(), 20);
    room.handle_player_input(&1, "-");
    assert_eq!(room.game_session.player1.as_ref().unwrap().shots.len(), 20);
}

#[test]
fn disconnect_clears_the_slot_of_the_connection() {
    let mut room = Room::new("r1".to_string());
    room.join(1);
    room.join(2);
    room.disconnect_player(1);
    assert!(room.game_session.player1.is_none());
    assert_eq!(room.player1_session_id, 0);
    assert_eq!(room.game_session.player1_sessionid, 0);
    assert_eq!(room.game_session.player2.as_ref().unwrap().id, 2);
    assert!(room.ticking);
    assert!(scheduler_rule_holds(&room));
    room.disconnect_player(7);
    assert_eq!(occupied(&room), 1);
    assert!(room.ticking);
    assert!(room.join(3));
    assert_eq!(room.game_session.player1.as_ref().unwrap().id, 3);
}

#[test]
fn room_stops_when_both_players_are_gone() {
    let mut room = Room::new("r1".to_string());
    room.join(1);
    room.join(2);
    room.disconnect_player(2);
    room.disconnect_player(1);
    assert_eq!(occupied(&room), 0);
    assert!(!room.ticking);
    assert_eq!(room.game_session.state, GameStateType::STOP);
    assert!(scheduler_rule_holds(&room));
    let frame = room.game_session.last_frame.duplicate();
    let report = room.tick(ms(5000));
    assert_eq!(report.state, GameStateType::STOP);
    assert_eq!(room.game_session.last_frame.cells, frame.cells);
}

#[test]
fn disconnect_of_a_stranger_leaves_a_new_room_alone() {
    let mut room = Room::new("r1".to_string());
    room.disconnect_player(5);
    assert_eq!(room.game_session.state, GameStateType::START);
    assert!(room.join(5));
    assert!(room.ticking);
}

#[test]
fn stopping_the_scheduler_twice_is_stopping_it_once() {
    let mut room = Room::new("r1".to_string());
    room.join(1);
    room.stop_update_loop();
    let once = (room.ticking, room.player1_session_id, room.game_session.state, room.game_session.score);
    let swarm_once = room.game_session.invaders.as_ref().unwrap().army.clone();
    room.stop_update_loop();
    let twice = (room.ticking, room.player1_session_id, room.game_session.state, room.game_session.score);
    assert_eq!(once, twice);
    assert!(!room.ticking);
    assert_eq!(room.game_session.invaders.as_ref().unwrap().army, swarm_once);
    let mut idle = Room::new("r2".to_string());
    idle.stop_update_loop();
    assert!(!idle.ticking);
}

#[test]
fn starting_the_scheduler_brings_a_fresh_swarm() {
    let mut room = Room::new("r1".to_string());
    room.run_game_session_update_loop();
    assert!(room.ticking);
    assert_eq!(room.game_session.invaders.as_ref().unwrap().army.len(), 76);
}

#[test]
fn tick_stops_the_scheduler_when_the_game_ends() {
    let mut room = Room::new("r1".to_string());
    room.join(1);
    room.game_session.invaders.as_mut().unwrap().army = vec![Invader { x: 6, y: 6 }];
    room.game_session.player1.as_mut().unwrap().shots.push(Shot::new(6, 6));
    assert!(scheduler_rule_holds(&room));
    let report = room.tick(ms(10));
    assert_eq!(report.state, GameStateType::WIN);
    assert_eq!(room.game_session.score, 1);
    assert!(!room.ticking);
    assert!(scheduler_rule_holds(&room));
    assert!(room.join(2));
    assert!(!room.ticking);
    assert!(scheduler_rule_holds(&room));
}

#[test]
fn scheduler_rule_holds_along_a_game() {
    let mut room = Room::new("r1".to_string());
    assert!(scheduler_rule_holds(&room));
    room.join(1);
    assert!(scheduler_rule_holds(&room));
    for step in 0..300 {
        if step == 10 {
            room.join(2);
        }
        if step == 120 {
            room.disconnect_player(1);
        }
        room.handle_player_input(&2, if step % 3 == 0 { "-" } else { "1" });
        room.tick(ms(250));
        assert!(scheduler_rule_holds(&room));
        assert!(occupied(&room) <= 2);
    }
    room.disconnect_player(2);
    assert!(scheduler_rule_holds(&room));
    assert!(room.game_session.state.terminal());
    assert!(!room.ticking);
}

#[test]
fn swarm_that_is_left_alone_reaches_the_players() {
    let mut room = Room::new("r1".to_string());
    room.join(1);
    let mut ticks = 0;
    while room.ticking && ticks < 100_000 {
        room.tick(ms(2501));
        assert!(scheduler_rule_holds(&room));
        ticks += 1;
    }
    assert_eq!(room.game_session.state, GameStateType::LOSE);
    assert!(!room.ticking);
    assert_eq!(room.game_session.score, 0);
    assert_eq!(room.game_session.invaders.as_ref().unwrap().army.len(), 76);
}
