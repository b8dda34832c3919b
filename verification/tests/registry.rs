use invaders_server::game::clock::Span;
use invaders_server::game::common::{NUM_COLS, NUM_ROWS};
use invaders_server::game::frame::Frame;
use invaders_server::game::invaders::Invader;
use invaders_server::game::shot::Shot;
use invaders_server::game_session::{GameSessionMessage, GameStateType};
use invaders_server::server::{
    ChatServer, ClientMessage, ClientMessageType, Connect, Delivery, Disconnect,
};

fn ms(n: u64) -> Span {
    Span::from_millis(n)
}

fn join(server: &mut ChatServer<&'static str>, id: usize, room: &str) -> Vec<Delivery> {
    server.handle_client_message(ClientMessage {
        id,
        room: room.to_string(),
        msg_type: ClientMessageType::JOIN,
    })
}

fn command(server: &mut ChatServer<&'static str>, id: usize, room: &str, cmd: &str) -> Vec<Delivery> {
    server.handle_client_message(ClientMessage {
        id,
        room: room.to_string(),
        msg_type: ClientMessageType::MOVEMENT(cmd.to_string()),
    })
}

fn report(room: &str, state: GameStateType, id1: usize, id2: usize) -> GameSessionMessage {
    GameSessionMessage {
        room_id: room.to_string(),
        frame: Frame::new(),
        state,
        player1_sessionid: id1,
        player2_sessionid: id2,
    }
}

fn slots(server: &ChatServer<&'static str>, room: &str) -> (usize, usize) {
    let r = server.game_rooms.get(room).expect("the room exists");
    (r.player1_session_id, r.player2_session_id)
}

fn pairs(out: &[Delivery]) -> Vec<(usize, String)> {
    out.iter().map(|d| (d.to, d.message.0.clone())).collect()
}

#[test]
fn new_registry_has_only_the_main_chat_room() {
    let server: ChatServer<&'static str> = ChatServer::new();
    assert!(server.sessions.is_empty());
    assert_eq!(server.rooms.len(), 1);
    assert!(server.rooms.get("main").expect("main exists").is_empty());
    assert!(server.game_rooms.is_empty());
    assert!(server.active_games.is_empty());
}

#[test]
fn connect_gives_each_connection_its_own_identifier() {
    let mut server: ChatServer<&'static str> = ChatServer::new();
    let mut seen = std::collections::HashSet::new();
    for _ in 0..200 {
        let id = server.connect(Connect { addr: "sink" });
        assert_ne!(id, 0);
        assert!(seen.insert(id));
        assert_eq!(server.sink(id), Some(&"sink"));
    }
    assert_eq!(server.sessions.len(), 200);
}

#[test]
fn connect_as_takes_a_usable_candidate() {
    let mut server: ChatServer<&'static str> = ChatServer::new();
    assert_eq!(server.connect_as(Connect { addr: "a" }, 77), 77);
    assert_eq!(server.sink(77), Some(&"a"));
    assert_eq!(server.sessions.len(), 1);
}

#[test]
fn connect_as_replaces_an_unusable_candidate_by_the_least_free() {
    let mut server: ChatServer<&'static str> = ChatServer::new();
    assert_eq!(server.connect_as(Connect { addr: "a" }, 0), 1);
    assert_eq!(server.connect_as(Connect { addr: "b" }, 1), 2);
    assert_eq!(server.connect_as(Connect { addr: "c" }, 4), 4);
    assert_eq!(server.connect_as(Connect { addr: "d" }, 4), 3);
    assert_eq!(server.connect_as(Connect { addr: "e" }, 0), 5);
    assert_eq!(server.fresh_id(2), 6);
    assert_eq!(server.fresh_id(9), 9);
    assert_eq!(server.sink(3), Some(&"d"));
    assert_eq!(server.sessions.len(), 5);
}

#[test]
fn disconnect_forgets_sink_and_chat_membership() {
    let mut server: ChatServer<&'static str> = ChatServer::new();
    let a = server.connect_as(Connect { addr: "a" }, 10);
    let b = server.connect_as(Connect { addr: "b" }, 20);
    server.rooms.get_mut("main").unwrap().insert(a);
    server.rooms.get_mut("main").unwrap().insert(b);
    server.rooms.insert("side".to_string(), [a].into_iter().collect());
    server.disconnect(Disconnect { id: a });
    assert_eq!(server.sink(a), None);
    assert_eq!(server.sink(b), Some(&"b"));
    assert!(!server.rooms.get("main").unwrap().contains(&a));
    assert!(server.rooms.get("main").unwrap().contains(&b));
    assert!(server.rooms.get("side").unwrap().is_empty());
    assert_eq!(server.rooms.len(), 2);
}

#[test]
fn disconnect_twice_is_disconnect_once() {
    let mut server: ChatServer<&'static str> = ChatServer::new();
    let a = server.connect_as(Connect { addr: "a" }, 10);
    let b = server.connect_as(Connect { addr: "b" }, 20);
    server.rooms.get_mut("main").unwrap().insert(b);
    server.disconnect(Disconnect { id: a });
    server.rooms.get_mut("main").unwrap().insert(a);
    server.disconnect(Disconnect { id: a });
    assert!(server.rooms.get("main").unwrap().contains(&a));
    assert_eq!(server.sessions.len(), 1);
    server.disconnect(Disconnect { id: 999 });
    assert_eq!(server.sessions.len(), 1);
    assert_eq!(server.sink(b), Some(&"b"));
}

#[test]
fn chat_text_goes_to_members_that_have_a_sink() {
    let mut server: ChatServer<&'static str> = ChatServer::new();
    let a = server.connect_as(Connect { addr: "a" }, 10);
    let b = server.connect_as(Connect { addr: "b" }, 20);
    let _c = server.connect_as(Connect { addr: "c" }, 30);
    server.rooms.get_mut("main").unwrap().insert(a);
    server.rooms.get_mut("main").unwrap().insert(b);
    server.rooms.get_mut("main").unwrap().insert(40);
    let out = server.handle_client_message(ClientMessage {
        id: a,
        room: "main".to_string(),
        msg_type: ClientMessageType::MESSAGE("hello".to_string()),
    });
    let mut got = pairs(&out);
    got.sort();
    assert_eq!(got, vec![(10, "hello".to_string()), (20, "hello".to_string())]);
    let none = server.send_message("nowhere", "hello");
    assert!(none.is_empty());
    assert!(server.game_rooms.is_empty());
}

#[test]
fn chat_room_without_members_reaches_nobody() {
    let mut server: ChatServer<&'static str> = ChatServer::new();
    let a = server.connect(Connect { addr: "a" });
    let out = server.handle_client_message(ClientMessage {
        id: a,
        room: "main".to_string(),
        msg_type: ClientMessageType::MESSAGE("hello".to_string()),
    });
    assert!(out.is_empty());
}

#[test]
fn first_join_makes_the_room_and_starts_its_game() {
    let mut server: ChatServer<&'static str> = ChatServer::new();
    let a = server.connect_as(Connect { addr: "a" }, 10);
    assert!(!server.scheduler_runs("r1"));
    assert!(!server.is_active("r1"));
    let out = join(&mut server, a, "r1");
    assert!(out.is_empty());
    assert_eq!(server.game_rooms.len(), 1);
    assert_eq!(slots(&server, "r1"), (10, 0));
    assert!(server.scheduler_runs("r1"));
    assert!(server.is_active("r1"));
    assert_eq!(server.game_rooms.get("r1").unwrap().name, "r1");
}

#[test]
fn two_connections_join_one_room_in_order() {
    let mut server: ChatServer<&'static str> = ChatServer::new();
    let a = server.connect_as(Connect { addr: "a" }, 10);
    let b = server.connect_as(Connect { addr: "b" }, 20);
    let c = server.connect_as(Connect { addr: "c" }, 30);
    join(&mut server, a, "r1");
    join(&mut server, b, "r1");
    join(&mut server, c, "r1");
    assert_eq!(slots(&server, "r1"), (10, 20));
    {
        let room = server.game_rooms.get("r1").unwrap();
        let p1 = room.game_session.player1.as_ref().unwrap();
        let p2 = room.game_session.player2.as_ref().unwrap();
        assert_eq!((p1.x, p1.y), (NUM_COLS / 2, NUM_ROWS - 1));
        assert_eq!((p2.x, p2.y), (NUM_COLS / 2, NUM_ROWS - 2));
    }
    join(&mut server, c, "r2");
    assert_eq!(slots(&server, "r2"), (30, 0));
    assert_eq!(server.game_rooms.len(), 2);
}

#[test]
fn commands_reach_the_room_of_the_message() {
    let mut server: ChatServer<&'static str> = ChatServer::new();
    let a = server.connect_as(Connect { addr: "a" }, 10);
    join(&mut server, a, "r1");
    assert!(command(&mut server, a, "r1", "-1").is_empty());
    command(&mut server, a, "r1", "-");
    command(&mut server, a, "r2", "-1");
    command(&mut server, 99, "r1", "1");
    let room = server.game_rooms.get("r1").unwrap();
    let p1 = room.game_session.player1.as_ref().unwrap();
    assert_eq!(p1.x, NUM_COLS / 2 - 1);
    assert_eq!(p1.shots.len(), 1);
    assert_eq!(server.game_rooms.len(), 1);
}

#[test]
fn frame_goes_to_both_slots_as_json() {
    let mut server: ChatServer<&'static str> = ChatServer::new();
    let a = server.connect_as(Connect { addr: "a" }, 10);
    let b = server.connect_as(Connect { addr: "b" }, 20);
    join(&mut server, a, "r1");
    join(&mut server, b, "r1");
    let mut msg = report("r1", GameStateType::RUNNING, a, b);
    msg.frame.set(1, 1, 'A');
    let text = msg.frame.to_json().unwrap();
    let out = server.deliver_frame(msg);
    assert_eq!(pairs(&out), vec![(10, text.clone()), (20, text.clone())]);
    let rows: Vec<Vec<char>> = serde_json::from_str(&text).unwrap();
    assert_eq!(rows[1][1], 'A');
    assert_eq!(slots(&server, "r1"), (10, 20));
    assert!(server.scheduler_runs("r1"));
    assert!(server.is_active("r1"));
}

#[test]
fn deliver_encoded_pushes_the_given_text_or_nothing() {
    let mut server: ChatServer<&'static str> = ChatServer::new();
    let a = server.connect_as(Connect { addr: "a" }, 10);
    join(&mut server, a, "r1");
    let msg = report("r1", GameStateType::RUNNING, a, 0);
    let out = server.deliver_encoded(&msg, Some("payload".to_string()));
    assert_eq!(pairs(&out), vec![(10, "payload".to_string())]);
    let out = server.deliver_encoded(&msg, None);
    assert!(out.is_empty());
    assert_eq!(slots(&server, "r1"), (10, 0));
}

#[test]
fn start_report_marks_the_game_and_sends_nothing() {
    let mut server: ChatServer<&'static str> = ChatServer::new();
    let a = server.connect_as(Connect { addr: "a" }, 10);
    join(&mut server, a, "r1");
    server.active_games.remove("r1");
    let out = server.deliver_frame(report("r1", GameStateType::START, a, 0));
    assert!(out.is_empty());
    assert!(server.is_active("r1"));
    assert!(server.scheduler_runs("r1"));
}

#[test]
fn report_for_an_unknown_room_changes_nothing() {
    let mut server: ChatServer<&'static str> = ChatServer::new();
    let a = server.connect_as(Connect { addr: "a" }, 10);
    let out = server.deliver_frame(report("ghost", GameStateType::RUNNING, a, 0));
    assert!(out.is_empty());
    assert!(server.game_rooms.is_empty());
    assert!(!server.is_active("ghost"));
    let out = server.deliver_frame(report("ghost", GameStateType::START, a, 0));
    assert!(out.is_empty());
    assert!(!server.is_active("ghost"));
}

#[test]
fn missing_sink_is_an_implicit_disconnect() {
    let mut server: ChatServer<&'static str> = ChatServer::new();
    let a = server.connect_as(Connect { addr: "a" }, 10);
    let b = server.connect_as(Connect { addr: "b" }, 20);
    join(&mut server, a, "r1");
    join(&mut server, b, "r1");
    server.disconnect(Disconnect { id: a });
    assert_eq!(slots(&server, "r1"), (10, 20));
    let out = server.tick("r1", ms(100));
    assert_eq!(out.len(), 1);
    assert_eq!(out[0].to, 20);
    assert_eq!(slots(&server, "r1"), (0, 20));
    assert!(server.scheduler_runs("r1"));
    assert!(server.is_active("r1"));
}

#[test]
fn room_stops_when_both_connections_are_gone() {
    let mut server: ChatServer<&'static str> = ChatServer::new();
    let a = server.connect_as(Connect { addr: "a" }, 10);
    let b = server.connect_as(Connect { addr: "b" }, 20);
    join(&mut server, a, "r1");
    join(&mut server, b, "r1");
    assert_eq!(server.tick("r1", ms(100)).len(), 2);
    server.disconnect(Disconnect { id: a });
    server.disconnect(Disconnect { id: b });
    let out = server.tick("r1", ms(100));
    assert!(out.is_empty());
    assert_eq!(slots(&server, "r1"), (0, 0));
    assert!(!server.scheduler_runs("r1"));
    assert!(!server.is_active("r1"));
    assert_eq!(server.game_rooms.get("r1").unwrap().game_session.state, GameStateType::STOP);
    for _ in 0..5 {
        assert!(server.tick("r1", ms(100)).is_empty());
    }
    assert!(!server.scheduler_runs("r1"));
}

#[test]
fn won_game_stops_the_scheduler_and_clears_the_mark() {
    let mut server: ChatServer<&'static str> = ChatServer::new();
    let a = server.connect_as(Connect { addr: "a" }, 10);
    join(&mut server, a, "r1");
    {
        let mut room = server.game_rooms.get_mut("r1").unwrap();
        room.game_session.invaders.as_mut().unwrap().army = vec![Invader { x: 6, y: 6 }];
        room.game_session.player1.as_mut().unwrap().shots.push(Shot::new(6, 6));
    }
    let out = server.tick("r1", ms(10));
    assert_eq!(out.len(), 1);
    assert_eq!(out[0].to, 10);
    {
        let room = server.game_rooms.get("r1").unwrap();
        assert_eq!(room.game_session.state, GameStateType::WIN);
        assert_eq!(room.game_session.score, 1);
        assert!(!room.ticking);
    }
    assert!(!server.scheduler_runs("r1"));
    assert!(!server.is_active("r1"));
    assert!(server.tick("r1", ms(10)).is_empty());
}

#[test]
fn report_of_an_ended_game_stops_the_scheduler() {
    let mut server: ChatServer<&'static str> = ChatServer::new();
    let a = server.connect_as(Connect { addr: "a" }, 10);
    join(&mut server, a, "r1");
    let out = server.deliver_frame(report("r1", GameStateType::LOSE, a, 0));
    assert_eq!(out.len(), 1);
    assert!(!server.scheduler_runs("r1"));
    assert!(!server.is_active("r1"));
    let again = server.deliver_frame(report("r1", GameStateType::LOSE, a, 0));
    assert_eq!(again.len(), 1);
    assert!(!server.scheduler_runs("r1"));
}

#[test]
fn tick_of_an_unknown_room_does_nothing() {
    let mut server: ChatServer<&'static str> = ChatServer::new();
    assert!(server.tick("ghost", ms(100)).is_empty());
    assert!(server.game_rooms.is_empty());
}

#[test]
fn ticks_send_the_frame_of_the_room() {
    let mut server: ChatServer<&'static str> = ChatServer::new();
    let a = server.connect_as(Connect { addr: "a" }, 10);
    join(&mut server, a, "r1");
    let out = server.tick("r1", ms(100));
    assert_eq!(out.len(), 1);
    let rows: Vec<Vec<char>> = serde_json::from_str(&out[0].message.0).unwrap();
    assert_eq!(rows.len(), NUM_ROWS);
    assert_eq!(rows[NUM_ROWS - 1][NUM_COLS / 2], 'A');
    assert_eq!(rows[2][2], 'x');
    let room = server.game_rooms.get("r1").unwrap();
    assert_eq!(rows, room.game_session.last_frame.cells);
    assert_eq!(room.game_session.state, GameStateType::RUNNING);
}

#[test]
fn rooms_do_not_touch_each_other() {
    let mut server: ChatServer<&'static str> = ChatServer::new();
    let a = server.connect_as(Connect { addr: "a" }, 10);
    let b = server.connect_as(Connect { addr: "b" }, 20);
    join(&mut server, a, "r1");
    join(&mut server, b, "r2");
    command(&mut server, a, "r1", "-1");
    server.disconnect(Disconnect { id: b });
    assert!(server.tick("r2", ms(100)).is_empty());
    assert!(!server.scheduler_runs("r2"));
    assert!(server.scheduler_runs("r1"));
    assert!(server.is_active("r1"));
    assert_eq!(server.tick("r1", ms(100)).len(), 1);
    assert_eq!(slots(&server, "r1"), (10, 0));
}
