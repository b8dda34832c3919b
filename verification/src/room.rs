//! A named room: matchmaking into its two slots, its game session, and the
//! life of its tick scheduler.

use crate::game::clock::Span;
use crate::game::common::{NUM_COLS, NUM_ROWS};
use crate::game::frame::lemma_blank_grid_sized;
use crate::game::invaders::{fresh_swarm, lemma_fresh_swarm_wf, Invaders, ARMY_COLS, ARMY_ROWS};
use crate::game::player::{lemma_player_stays_wf, Player, PlayerView};
use crate::game_session::{
    lemma_tick_keeps_session_well_formed, GameSession, GameSessionMessage, GameView,
};
use vstd::prelude::*;

verus! {

/// A room: its name, the connections in its two slots (0 for an empty slot),
/// whether its tick scheduler runs, and its game session, which holds the
/// players.
#[derive(Debug)]
pub struct Room {
    pub name: String,
    pub player1_session_id: usize,
    pub player2_session_id: usize,
    pub ticking: bool,
    pub game_session: GameSession,
}

/// A room as a mathematical value.
pub struct RoomView {
    pub name: Seq<char>,
    pub player1_session_id: usize,
    pub player2_session_id: usize,
    pub ticking: bool,
    pub game: GameView,
}

/// The player that a connection gets when it joins: in the middle of the
/// bottom row, without shots and without a room.
pub open spec fn newcomer(id: usize) -> PlayerView {
    PlayerView {
        id,
        x: (NUM_COLS / 2) as usize,
        y: (NUM_ROWS - 1) as usize,
        shots: Seq::empty(),
        room_id: None,
    }
}

/// Whether a slot's player, if there is one, belongs to the room `name` and
/// stands below the top row.
pub open spec fn seated_in(player: Option<PlayerView>, name: Seq<char>) -> bool {
    match player {
        Some(p) => p.room_id == Some(name) && p.y > 0,
        None => true,
    }
}

impl RoomView {
    /// A new room named `name`: both slots empty, no scheduler, a new session.
    pub open spec fn fresh(name: Seq<char>) -> RoomView {
        RoomView {
            name,
            player1_session_id: 0,
            player2_session_id: 0,
            ticking: false,
            game: GameView::fresh(name),
        }
    }

    /// How many of the two slots hold a player.
    pub open spec fn occupied(&self) -> nat {
        self.game.occupied()
    }

    /// Whether a slot is free.
    pub open spec fn has_room(&self) -> bool {
        self.game.player1 is None || self.game.player2 is None
    }

    /// The session is well formed and is the session of this room; the room
    /// and the session record the same connections; each player in a slot
    /// belongs to this room; and a running scheduler has a swarm to move.
    pub open spec fn wf(&self) -> bool {
        &&& self.game.wf()
        &&& self.game.room == self.name
        &&& self.player1_session_id == self.game.player1_sessionid
        &&& self.player2_session_id == self.game.player2_sessionid
        &&& seated_in(self.game.player1, self.name)
        &&& seated_in(self.game.player2, self.name)
        &&& (self.ticking ==> self.game.swarm is Some)
    }

    /// The scheduler runs exactly while the session has not ended and a slot
    /// is occupied.
    pub open spec fn scheduler_consistent(&self) -> bool {
        self.ticking <==> (!self.game.state.is_terminal() && self.occupied() >= 1)
    }

    /// What holds of a room between any two of its operations: it is well
    /// formed, its scheduler runs exactly while it should, and a room that
    /// waits for its first player has no swarm yet.
    pub open spec fn inv(&self) -> bool {
        &&& self.wf()
        &&& self.scheduler_consistent()
        &&& (!self.ticking && !self.game.state.is_terminal() ==> self.game.swarm is None)
    }

    /// The room with its scheduler started: the session gets a fresh swarm.
    pub open spec fn scheduler_started(self) -> RoomView {
        RoomView { ticking: true, game: self.game.with_swarm(Some(fresh_swarm())), ..self }
    }

    /// The room with its scheduler stopped.
    pub open spec fn scheduler_stopped(self) -> RoomView {
        RoomView { ticking: false, ..self }
    }

    /// The room with `player` put into the first free slot and bound to the
    /// room; into the second slot the player goes one row up. A full room
    /// stays as it is.
    pub open spec fn seated(self, player: PlayerView) -> RoomView {
        if self.game.player1 is None {
            let p = PlayerView { room_id: Some(self.name), ..player };
            RoomView { player1_session_id: p.id, game: self.game.with_slot1(Some(p)), ..self }
        } else if self.game.player2 is None {
            let p = PlayerView { room_id: Some(self.name), ..player.up() };
            RoomView { player2_session_id: p.id, game: self.game.with_slot2(Some(p)), ..self }
        } else {
            self
        }
    }

    /// Whether a join that found a free slot has to start the scheduler: none
    /// runs and the session has not ended.
    pub open spec fn must_start(&self) -> bool {
        self.has_room() && !self.ticking && !self.game.state.is_terminal()
    }

    /// The room after `player` asked to join.
    pub open spec fn joined_by(self, player: PlayerView) -> RoomView {
        if self.must_start() {
            self.seated(player).scheduler_started()
        } else {
            self.seated(player)
        }
    }

    /// The room after connection `id` asked to join.
    pub open spec fn joined(self, id: usize) -> RoomView {
        self.joined_by(newcomer(id))
    }

    /// Whether the first slot holds the player of connection `id`.
    pub open spec fn holds1(&self, id: usize) -> bool {
        match self.game.player1 {
            Some(p) => p.id == id,
            None => false,
        }
    }

    /// Whether the second slot holds the player of connection `id`.
    pub open spec fn holds2(&self, id: usize) -> bool {
        match self.game.player2 {
            Some(p) => p.id == id,
            None => false,
        }
    }

    /// The room with every slot of connection `id` emptied.
    pub open spec fn vacated(self, id: usize) -> RoomView {
        let first = if self.holds1(id) {
            RoomView { player1_session_id: 0, game: self.game.with_slot1(None), ..self }
        } else {
            self
        };
        if self.holds2(id) {
            RoomView { player2_session_id: 0, game: first.game.with_slot2(None), ..first }
        } else {
            first
        }
    }

    /// The room after connection `id` has gone: its slots are empty, and if
    /// that left the room without players, the scheduler is stopped and the
    /// session has ended.
    pub open spec fn left(self, id: usize) -> RoomView {
        let room = self.vacated(id);
        if (self.holds1(id) || self.holds2(id)) && room.occupied() == 0 {
            RoomView { ticking: false, game: room.game.stopped(), ..room }
        } else {
            room
        }
    }

    /// The room after connection `id` sent the command `command`: the command
    /// goes to the player of the slot that records the connection, the first
    /// slot before the second; without such a player nothing changes.
    pub open spec fn commanded(self, id: usize, command: Seq<char>) -> RoomView {
        if id == self.player1_session_id {
            match self.game.player1 {
                Some(p) => RoomView {
                    game: GameView { player1: Some(p.commanded(command)), ..self.game },
                    ..self
                },
                None => self,
            }
        } else if id == self.player2_session_id {
            match self.game.player2 {
                Some(p) => RoomView {
                    game: GameView { player2: Some(p.commanded(command)), ..self.game },
                    ..self
                },
                None => self,
            }
        } else {
            self
        }
    }

    /// The room after its scheduler fired with `delta` since the last firing:
    /// the session advances, and the scheduler stops if the session has ended.
    /// Without a running scheduler nothing changes.
    pub open spec fn ticked(self, delta: Span) -> RoomView {
        if self.ticking {
            let game = self.game.advanced(delta);
            RoomView { ticking: !game.state.is_terminal(), game, ..self }
        } else {
            self
        }
    }
}

/// A room never holds more than two players.
pub proof fn lemma_at_most_two_players(room: RoomView)
    ensures
        room.occupied() <= 2,
{
}

/// A join never makes more than one slot change, and a full room turns every
/// join away unchanged.
pub proof fn lemma_full_room_turns_away(room: RoomView, id: usize)
    requires
        !room.has_room(),
    ensures
        room.joined(id) == room,
{
}

/// In a well-formed room a player belongs to the room exactly if it stands
/// in one of its slots: each slot's player records the room's name and has
/// the identifier that the room records for the slot, and an empty slot
/// records none.
pub proof fn lemma_slot_players_belong(room: RoomView)
    requires
        room.wf(),
    ensures
        match room.game.player1 {
            Some(p) => p.room_id == Some(room.name) && p.id == room.player1_session_id,
            None => room.player1_session_id == 0,
        },
        match room.game.player2 {
            Some(p) => p.room_id == Some(room.name) && p.id == room.player2_session_id,
            None => room.player2_session_id == 0,
        },
{
}

/// A connection that has left stands in no slot any more.
pub proof fn lemma_left_player_is_gone(room: RoomView, id: usize)
    ensures
        !room.left(id).holds1(id),
        !room.left(id).holds2(id),
{
}

/// Between any two operations the scheduler of a room runs exactly if the
/// session has not ended and at least one slot is occupied.
pub proof fn lemma_scheduler_rule(room: RoomView)
    requires
        room.inv(),
    ensures
        room.ticking <==> (!room.game.state.is_terminal() && room.occupied() >= 1),
{
}

/// Every operation of a room keeps its invariant: a join, the loss of a
/// connection, a command and a tick. So the scheduler of a room runs exactly
/// while its session has not ended and a slot is occupied, whatever is done
/// to the room.
pub proof fn lemma_room_invariant_is_kept(
    room: RoomView,
    id: usize,
    command: Seq<char>,
    delta: Span,
)
    requires
        room.inv(),
    ensures
        RoomView::fresh(room.name).inv(),
        room.joined(id).inv(),
        room.left(id).inv(),
        room.commanded(id, command).inv(),
        room.ticked(delta).inv(),
{
    lemma_blank_grid_sized();
    lemma_fresh_swarm_wf();
    lemma_player_stays_wf(newcomer(id), delta, Seq::empty(), command);
    match room.game.player1 {
        Some(p) => {
            lemma_player_stays_wf(p, delta, Seq::empty(), command);
        },
        None => {},
    }
    match room.game.player2 {
        Some(p) => {
            lemma_player_stays_wf(p, delta, Seq::empty(), command);
        },
        None => {},
    }
    lemma_tick_keeps_session_well_formed(room.game, delta);
}

/// Stopping the scheduler twice is the same as stopping it once.
pub proof fn lemma_stop_is_idempotent(room: RoomView)
    ensures
        room.scheduler_stopped().scheduler_stopped() == room.scheduler_stopped(),
        !room.scheduler_stopped().ticking,
        room.scheduler_stopped().game == room.game,
{
}

impl Room {
    /// The room as a mathematical value.
    pub open spec fn view(&self) -> RoomView {
        RoomView {
            name: self.name@,
            player1_session_id: self.player1_session_id,
            player2_session_id: self.player2_session_id,
            ticking: self.ticking,
            game: self.game_session@,
        }
    }

    /// A room named `name`: both slots empty, no scheduler, and a new session.
    pub fn new(name: String) -> (r: Room)
        ensures
            r@ == RoomView::fresh(name@),
            r@.inv(),
    {
        let game_session: GameSession = GameSession::new(name.clone());
        Room { name, player1_session_id: 0, player2_session_id: 0, ticking: false, game_session }
    }

    /// Starts the scheduler: the session gets a fresh swarm.
    pub fn run_game_session_update_loop(&mut self)
        requires
            old(self)@.game.score + ARMY_COLS * ARMY_ROWS <= usize::MAX,
        ensures
            final(self)@ == old(self)@.scheduler_started(),
            old(self)@.wf() ==> final(self)@.wf(),
    {
        self.game_session.invaders = Some(Invaders::new());
        self.ticking = true;
    }

    /// Stops the scheduler, if it runs.
    pub fn stop_update_loop(&mut self)
        ensures
            final(self)@ == old(self)@.scheduler_stopped(),
            old(self)@.wf() ==> final(self)@.wf(),
            old(self)@.inv() && (old(self)@.game.state.is_terminal() || old(self)@.occupied() == 0)
                ==> final(self)@.inv(),
    {
        self.ticking = false;
    }

    /// Empties every slot that holds the player of connection `player_id`.
    /// If that leaves the room without players, the scheduler stops and the
    /// session ends.
    pub fn disconnect_player(&mut self, player_id: usize)
        ensures
            final(self)@ == old(self)@.left(player_id),
            old(self)@.wf() ==> final(self)@.wf(),
            old(self)@.inv() ==> final(self)@.inv(),
    {
        let first: bool = match &self.game_session.player1 {
            Some(p) => p.id == player_id,
            None => false,
        };
        let second: bool = match &self.game_session.player2 {
            Some(p) => p.id == player_id,
            None => false,
        };
        if first {
            self.game_session.player1 = None;
            self.game_session.player1_sessionid = 0;
            self.player1_session_id = 0;
        }
        if second {
            self.game_session.player2 = None;
            self.game_session.player2_sessionid = 0;
            self.player2_session_id = 0;
        }
        if (first || second) && self.game_session.player1.is_none()
            && self.game_session.player2.is_none() {
            self.stop_update_loop();
            self.game_session.stop();
        }
    }

    /// Puts `player` into the first free slot and binds it to the room; into
    /// the second slot the player goes one row up. A full room turns the
    /// player away. A join that found a free slot starts the scheduler if none
    /// runs and the session has not ended. Says whether a slot was found.
    pub fn join2(&mut self, player: Player) -> (accepted: bool)
        requires
            old(self)@.inv(),
            player@.wf(),
            player.y >= 2,
        ensures
            accepted == old(self)@.has_room(),
            final(self)@ == old(self)@.joined_by(player@),
            final(self)@.inv(),
    {
        let mut player: Player = player;
        let has_room: bool = self.game_session.player1.is_none()
            || self.game_session.player2.is_none();
        let must_start: bool = has_room && !self.ticking && !self.game_session.state.terminal();
        if self.game_session.player1.is_none() {
            player.room_id = Some(self.name.clone());
            self.player1_session_id = player.id;
            self.game_session.player1_sessionid = player.id;
            self.game_session.player1 = Some(player);
        } else if self.game_session.player2.is_none() {
            player.move_up();
            player.room_id = Some(self.name.clone());
            self.player2_session_id = player.id;
            self.game_session.player2_sessionid = player.id;
            self.game_session.player2 = Some(player);
        }
        if must_start {
            self.run_game_session_update_loop();
        }
        has_room
    }

    /// Lets connection `session_id` join: a new player for it goes into the
    /// first free slot, as in `join2`. Says whether a slot was found.
    pub fn join(&mut self, session_id: usize) -> (accepted: bool)
        requires
            old(self)@.inv(),
        ensures
            accepted == old(self)@.has_room(),
            final(self)@ == old(self)@.joined(session_id),
            final(self)@.inv(),
    {
        self.join2(Player::new(session_id))
    }

    /// Hands the command of connection `session_id` to its player.
    pub fn handle_player_input(&mut self, session_id: &usize, command: &str)
        requires
            old(self)@.wf(),
        ensures
            final(self)@ == old(self)@.commanded(*session_id, command@),
            final(self)@.wf(),
            old(self)@.inv() ==> final(self)@.inv(),
    {
        if *session_id == self.player1_session_id {
            match &mut self.game_session.player1 {
                Some(p1) => {
                    p1.handle_movement(command);
                },
                None => {},
            }
        } else if *session_id == self.player2_session_id {
            match &mut self.game_session.player2 {
                Some(p2) => {
                    p2.handle_movement(command);
                },
                None => {},
            }
        }
    }

    /// One firing of the scheduler, `delta` after the last: the session
    /// advances and publishes the result, and the scheduler stops if the
    /// session has ended. Without a running scheduler nothing changes and the
    /// session publishes what it has.
    pub fn tick(&mut self, delta: Span) -> (report: GameSessionMessage)
        requires
            old(self)@.wf(),
            delta.wf(),
        ensures
            final(self)@ == old(self)@.ticked(delta),
            report@ == final(self)@.game.report(),
            final(self)@.wf(),
            old(self)@.inv() ==> final(self)@.inv(),
    {
        if self.ticking {
            let report: GameSessionMessage = self.game_session.update_frame(delta);
            if self.game_session.state.terminal() {
                self.stop_update_loop();
            }
            report
        } else {
            self.game_session.report()
        }
    }
}

} // verus!
