//! The game session of one room: the two player slots, the enemy swarm, the
//! last frame, the score and the state machine, advanced once per tick.

use crate::game::clock::Span;
use crate::game::common::NUM_COLS;
use crate::game::frame::{arena_sized, blank_grid, lemma_blank_grid_sized, Frame};
use crate::game::invaders::{
    at_bottom, drawn_army, lemma_drawn_army_size, lemma_stepped_wf, Invaders, Swarm,
};
use crate::game::player::{
    lemma_drawn_player_size, lemma_player_stays_wf, lemma_volley_counts, lemma_volley_wf, survivors,
    volley, Player, PlayerView,
};
use vstd::prelude::*;

verus! {

/// The states of a game session. A session is made in `START`, runs in
/// `RUNNING`, and ends in `WIN`, `LOSE` or `STOP`.
#[allow(non_camel_case_types)]
#[derive(Clone, Copy, Debug, PartialEq, Eq, Structural)]
pub enum GameStateType {
    IDLE,
    START,
    RUNNING,
    STOP,
    WIN,
    LOSE,
}

impl GameStateType {
    /// Whether the state is one of the three in which a session has ended.
    pub open spec fn is_terminal(self) -> bool {
        self == GameStateType::WIN || self == GameStateType::LOSE || self == GameStateType::STOP
    }

    /// Whether the state is one of the three in which a session has ended.
    pub fn terminal(&self) -> (r: bool)
        ensures
            r == self.is_terminal(),
    {
        match self {
            GameStateType::WIN => true,
            GameStateType::LOSE => true,
            GameStateType::STOP => true,
            _ => false,
        }
    }
}

/// What a session publishes after a tick: its room, the frame, the state and
/// the connections in its two slots (0 for an empty slot).
#[derive(Debug)]
pub struct GameSessionMessage {
    pub room_id: String,
    pub frame: Frame,
    pub state: GameStateType,
    pub player1_sessionid: usize,
    pub player2_sessionid: usize,
}

/// A published tick as a mathematical value.
pub struct Report {
    pub room_id: Seq<char>,
    pub frame: Seq<Seq<char>>,
    pub state: GameStateType,
    pub player1_sessionid: usize,
    pub player2_sessionid: usize,
}

impl GameSessionMessage {
    /// The message as a mathematical value.
    pub open spec fn view(&self) -> Report {
        Report {
            room_id: self.room_id@,
            frame: self.frame@,
            state: self.state,
            player1_sessionid: self.player1_sessionid,
            player2_sessionid: self.player2_sessionid,
        }
    }
}

/// The game session of one room.
#[derive(Debug)]
pub struct GameSession {
    pub room: String,
    pub last_frame: Frame,
    pub player1: Option<Player>,
    pub player2: Option<Player>,
    pub invaders: Option<Invaders>,
    pub state: GameStateType,
    pub player1_sessionid: usize,
    pub player2_sessionid: usize,
    pub score: usize,
}

/// A game session as a mathematical value.
pub struct GameView {
    pub room: Seq<char>,
    pub frame: Seq<Seq<char>>,
    pub player1: Option<PlayerView>,
    pub player2: Option<PlayerView>,
    pub swarm: Option<Swarm>,
    pub state: GameStateType,
    pub player1_sessionid: usize,
    pub player2_sessionid: usize,
    pub score: nat,
}

/// A player that may be absent, after `delta` has passed.
pub open spec fn aged_player(player: Option<PlayerView>, delta: Span) -> Option<PlayerView> {
    match player {
        Some(p) => Some(p.aged(delta)),
        None => None,
    }
}

/// A swarm that may be absent, after `delta` has passed.
pub open spec fn stepped_swarm(swarm: Option<Swarm>, delta: Span) -> Option<Swarm> {
    match swarm {
        Some(s) => Some(s.stepped(delta)),
        None => None,
    }
}

/// The grid with a player that may be absent drawn into it.
pub open spec fn with_player(grid: Seq<Seq<char>>, player: Option<PlayerView>) -> Seq<Seq<char>> {
    match player {
        Some(p) => p.drawn(grid),
        None => grid,
    }
}

/// The frame of a tick: on a blank grid the first player with its shots, then
/// the second, then the swarm.
pub open spec fn rendered(
    player1: Option<PlayerView>,
    player2: Option<PlayerView>,
    swarm: Option<Swarm>,
) -> Seq<Seq<char>> {
    let grid = with_player(with_player(blank_grid(), player1), player2);
    match swarm {
        Some(s) => drawn_army(grid, s.army, s.glyph()),
        None => grid,
    }
}

/// What hit detection for one slot leaves: the player, the swarm and the
/// number of enemies removed.
pub struct Strike {
    pub player: Option<PlayerView>,
    pub swarm: Option<Swarm>,
    pub kills: nat,
}

/// Hit detection for one slot. Without a player or without a swarm nothing happens.
pub open spec fn strike(player: Option<PlayerView>, swarm: Option<Swarm>) -> Strike {
    match (player, swarm) {
        (Some(p), Some(s)) => {
            let v = volley(p.shots, s.army);
            Strike {
                player: Some(p.with_shots(survivors(v.shots))),
                swarm: Some(
                    Swarm {
                        army: v.army,
                        move_timer: s.move_timer,
                        direction: s.direction,
                        stop: s.stop,
                    },
                ),
                kills: v.kills,
            }
        },
        _ => Strike { player, swarm, kills: 0 },
    }
}

/// The state after a tick: lost if an enemy is too close to the players, won
/// if no enemy is left, running otherwise.
pub open spec fn outcome(swarm: Option<Swarm>) -> GameStateType {
    match swarm {
        Some(s) => if at_bottom(s.army) {
            GameStateType::LOSE
        } else if s.army.len() == 0 {
            GameStateType::WIN
        } else {
            GameStateType::RUNNING
        },
        None => GameStateType::RUNNING,
    }
}

/// The swarm once the state is decided: it has stopped if an enemy is too close to
/// the players, and goes on if not.
pub open spec fn judged(swarm: Option<Swarm>) -> Option<Swarm> {
    match swarm {
        Some(s) => Some(
            Swarm {
                army: s.army,
                move_timer: s.move_timer,
                direction: s.direction,
                stop: at_bottom(s.army),
            },
        ),
        None => None,
    }
}

impl GameView {
    /// The session of a new room named `room`: both slots empty, no swarm, a
    /// blank frame, no score, in state `START`.
    pub open spec fn fresh(room: Seq<char>) -> GameView {
        GameView {
            room,
            frame: blank_grid(),
            player1: None,
            player2: None,
            swarm: None,
            state: GameStateType::START,
            player1_sessionid: 0,
            player2_sessionid: 0,
            score: 0,
        }
    }

    /// The frame has the arena's dimensions; each slot holds the player of the
    /// connection recorded for it, and an empty slot records connection 0; the
    /// swarm can take its next step; the score can still take every enemy that
    /// is left; and without a swarm nothing has been scored.
    pub open spec fn wf(&self) -> bool {
        &&& arena_sized(self.frame)
        &&& match self.player1 {
            Some(p) => p.wf() && p.id == self.player1_sessionid,
            None => self.player1_sessionid == 0,
        }
        &&& match self.player2 {
            Some(p) => p.wf() && p.id == self.player2_sessionid,
            None => self.player2_sessionid == 0,
        }
        &&& match self.swarm {
            Some(s) => s.wf() && s.settled() && self.score + s.army.len() <= usize::MAX,
            None => self.score == 0,
        }
    }

    /// What the session publishes.
    pub open spec fn report(&self) -> Report {
        Report {
            room_id: self.room,
            frame: self.frame,
            state: self.state,
            player1_sessionid: self.player1_sessionid,
            player2_sessionid: self.player2_sessionid,
        }
    }

    /// The session after a tick of length `delta`. A session that has ended
    /// stays as it is. Otherwise, in this order: the shots of both players age
    /// and the spent ones go; the swarm takes its step; the frame is rendered;
    /// the shots of the first player and then of the second are tested against
    /// the swarm, and each enemy removed adds one to the score; and the state
    /// is decided.
    pub open spec fn advanced(self, delta: Span) -> GameView {
        if self.state.is_terminal() {
            self
        } else {
            let player1 = aged_player(self.player1, delta);
            let player2 = aged_player(self.player2, delta);
            let swarm = stepped_swarm(self.swarm, delta);
            let first = strike(player1, swarm);
            let second = strike(player2, first.swarm);
            GameView {
                room: self.room,
                frame: rendered(player1, player2, swarm),
                player1: first.player,
                player2: second.player,
                swarm: judged(second.swarm),
                state: outcome(second.swarm),
                player1_sessionid: self.player1_sessionid,
                player2_sessionid: self.player2_sessionid,
                score: self.score + first.kills + second.kills,
            }
        }
    }

    /// The session with the first slot given to `player`, or emptied.
    pub open spec fn with_slot1(self, player: Option<PlayerView>) -> GameView {
        GameView {
            player1: player,
            player1_sessionid: match player {
                Some(p) => p.id,
                None => 0,
            },
            ..self
        }
    }

    /// The session with the second slot given to `player`, or emptied.
    pub open spec fn with_slot2(self, player: Option<PlayerView>) -> GameView {
        GameView {
            player2: player,
            player2_sessionid: match player {
                Some(p) => p.id,
                None => 0,
            },
            ..self
        }
    }

    /// The session with another swarm.
    pub open spec fn with_swarm(self, swarm: Option<Swarm>) -> GameView {
        GameView { swarm, ..self }
    }

    /// How many of the two slots hold a player.
    pub open spec fn occupied(&self) -> nat {
        (if self.player1 is Some { 1nat } else { 0nat }) + (if self.player2 is Some { 1nat } else { 0nat })
    }

    /// The session after it was stopped from outside: a session that has not
    /// ended is in `STOP`.
    pub open spec fn stopped(self) -> GameView {
        if self.state.is_terminal() {
            self
        } else {
            GameView {
                room: self.room,
                frame: self.frame,
                player1: self.player1,
                player2: self.player2,
                swarm: self.swarm,
                state: GameStateType::STOP,
                player1_sessionid: self.player1_sessionid,
                player2_sessionid: self.player2_sessionid,
                score: self.score,
            }
        }
    }
}

/// The rows of a grid as lines of text, each ended by a line feed.
pub open spec fn rows_text(grid: Seq<Seq<char>>) -> Seq<char>
    decreases grid.len(),
{
    if grid.len() == 0 {
        Seq::empty()
    } else {
        rows_text(grid.drop_last()) + grid.last() + seq!['\n']
    }
}

/// The line that closes a printed frame: as many `=` as the arena has columns.
pub open spec fn rule() -> Seq<char> {
    Seq::new(NUM_COLS as nat, |i: int| '=')
}

/// A frame as it is printed: its rows, an empty line, and the closing line.
pub open spec fn screen_text(grid: Seq<Seq<char>>) -> Seq<char> {
    rows_text(grid) + seq!['\n'] + rule() + seq!['\n']
}

/// A session that has ended is not changed by a tick: not its frame, not its
/// score, and nothing else.
pub proof fn lemma_ended_session_is_final(game: GameView, delta: Span)
    requires
        game.state == GameStateType::WIN || game.state == GameStateType::LOSE || game.state
            == GameStateType::STOP,
    ensures
        game.advanced(delta) == game,
        game.advanced(delta).frame == game.frame,
        game.advanced(delta).score == game.score,
{
}

/// Hit detection for one slot keeps a well-formed player and a well-formed
/// swarm well formed, and leaves the player who it was.
pub proof fn lemma_strike_wf(player: Option<PlayerView>, swarm: Option<Swarm>)
    requires
        match player {
            Some(p) => p.wf(),
            None => true,
        },
        match swarm {
            Some(s) => s.wf(),
            None => true,
        },
    ensures
        match strike(player, swarm).player {
            Some(p) => player is Some && p.wf() && p.id == player->0.id && p.room_id
                == player->0.room_id && p.y == player->0.y && p.x == player->0.x,
            None => player is None,
        },
        match strike(player, swarm).swarm {
            Some(s) => swarm is Some && s.wf() && s.army.len() + strike(player, swarm).kills
                == swarm->0.army.len() && (at_bottom(s.army) ==> at_bottom(swarm->0.army)),
            None => swarm is None && strike(player, swarm).kills == 0,
        },
{
    match (player, swarm) {
        (Some(p), Some(s)) => {
            lemma_player_stays_wf(p, Span { secs: 0, nanos: 0 }, s.army, Seq::empty());
            lemma_volley_wf(p.shots, s.army);
            lemma_volley_counts(p.shots, s.army);
        },
        _ => {},
    }
}

/// The frame of a tick has the arena's dimensions, whoever is drawn into it.
pub proof fn lemma_rendered_size(
    player1: Option<PlayerView>,
    player2: Option<PlayerView>,
    swarm: Option<Swarm>,
)
    requires
        match player1 {
            Some(p) => p.wf(),
            None => true,
        },
        match player2 {
            Some(p) => p.wf(),
            None => true,
        },
        match swarm {
            Some(s) => s.wf(),
            None => true,
        },
    ensures
        arena_sized(rendered(player1, player2, swarm)),
{
    lemma_blank_grid_sized();
    let first = with_player(blank_grid(), player1);
    match player1 {
        Some(p) => {
            lemma_drawn_player_size(blank_grid(), p);
        },
        None => {},
    }
    let second = with_player(first, player2);
    match player2 {
        Some(p) => {
            lemma_drawn_player_size(first, p);
        },
        None => {},
    }
    match swarm {
        Some(s) => {
            lemma_drawn_army_size(second, s.army, s.glyph());
        },
        None => {},
    }
}

/// A tick keeps a well-formed session well formed. Among the rest, the frame
/// has the arena's dimensions after every tick, and each slot keeps its player.
pub proof fn lemma_tick_keeps_session_well_formed(game: GameView, delta: Span)
    requires
        game.wf(),
    ensures
        game.advanced(delta).wf(),
        arena_sized(game.advanced(delta).frame),
        game.advanced(delta).room == game.room,
        game.advanced(delta).player1_sessionid == game.player1_sessionid,
        game.advanced(delta).player2_sessionid == game.player2_sessionid,
        game.advanced(delta).player1 is Some == game.player1 is Some,
        game.advanced(delta).player2 is Some == game.player2 is Some,
        game.advanced(delta).swarm is Some == game.swarm is Some,
        match (game.player1, game.advanced(delta).player1) {
            (Some(p), Some(q)) => q.room_id == p.room_id && q.y == p.y && q.x == p.x,
            _ => true,
        },
        match (game.player2, game.advanced(delta).player2) {
            (Some(p), Some(q)) => q.room_id == p.room_id && q.y == p.y && q.x == p.x,
            _ => true,
        },
{
    if !game.state.is_terminal() {
        let player1 = aged_player(game.player1, delta);
        let player2 = aged_player(game.player2, delta);
        let swarm = stepped_swarm(game.swarm, delta);
        match game.player1 {
            Some(p) => {
                lemma_player_stays_wf(p, delta, Seq::empty(), Seq::empty());
            },
            None => {},
        }
        match game.player2 {
            Some(p) => {
                lemma_player_stays_wf(p, delta, Seq::empty(), Seq::empty());
            },
            None => {},
        }
        match game.swarm {
            Some(s) => {
                lemma_stepped_wf(s, delta);
            },
            None => {},
        }
        lemma_rendered_size(player1, player2, swarm);
        lemma_strike_wf(player1, swarm);
        let first = strike(player1, swarm);
        lemma_strike_wf(player2, first.swarm);
        lemma_swarm_never_grows(game, delta);
    }
}

/// How many enemies a swarm that may be absent has.
pub open spec fn swarm_size(swarm: Option<Swarm>) -> nat {
    match swarm {
        Some(s) => s.army.len(),
        None => 0,
    }
}

/// A tick never adds an enemy: the swarm after the tick has as many enemies
/// as before less those that were hit, and each hit adds one to the score.
pub proof fn lemma_swarm_never_grows(game: GameView, delta: Span)
    ensures
        swarm_size(game.advanced(delta).swarm) <= swarm_size(game.swarm),
        game.advanced(delta).swarm is Some == game.swarm is Some,
        game.advanced(delta).score - game.score == swarm_size(game.swarm) - swarm_size(
            game.advanced(delta).swarm,
        ),
{
    if !game.state.is_terminal() {
        let player1 = aged_player(game.player1, delta);
        let player2 = aged_player(game.player2, delta);
        let swarm = stepped_swarm(game.swarm, delta);
        let first = strike(player1, swarm);
        match (player1, swarm) {
            (Some(p), Some(s)) => {
                lemma_volley_counts(p.shots, s.army);
            },
            _ => {},
        }
        match (player2, first.swarm) {
            (Some(p), Some(s)) => {
                lemma_volley_counts(p.shots, s.army);
            },
            _ => {},
        }
    }
}

/// When a tick of a session that has not ended leaves no enemy, the session
/// is won.
pub proof fn lemma_empty_swarm_wins(game: GameView, delta: Span)
    requires
        !game.state.is_terminal(),
        game.advanced(delta).swarm is Some,
        swarm_size(game.advanced(delta).swarm) == 0,
    ensures
        game.advanced(delta).state == GameStateType::WIN,
{
}

/// When a tick of a session that has not ended leaves an enemy too close to
/// the players, the session is lost, and the swarm has stopped.
pub proof fn lemma_low_enemy_loses(game: GameView, delta: Span)
    requires
        !game.state.is_terminal(),
        game.advanced(delta).swarm is Some,
        at_bottom(game.advanced(delta).swarm->0.army),
    ensures
        game.advanced(delta).state == GameStateType::LOSE,
        game.advanced(delta).swarm->0.stop,
{
}

/// The state after a tick of a session that has not ended says how the swarm
/// stands: lost exactly if an enemy is too close, won exactly if no enemy is
/// left, and running otherwise.
pub proof fn lemma_state_follows_swarm(game: GameView, delta: Span)
    requires
        !game.state.is_terminal(),
    ensures
        game.advanced(delta).state == outcome(game.advanced(delta).swarm),
        game.advanced(delta).state != GameStateType::STOP,
{
}

/// The view of a player that may be absent.
pub open spec fn player_view(player: Option<Player>) -> Option<PlayerView> {
    match player {
        Some(p) => Some(p@),
        None => None,
    }
}

/// The view of a swarm that may be absent.
pub open spec fn swarm_view(invaders: Option<Invaders>) -> Option<Swarm> {
    match invaders {
        Some(s) => Some(s@),
        None => None,
    }
}

impl GameSession {
    /// The session as a mathematical value.
    pub open spec fn view(&self) -> GameView {
        GameView {
            room: self.room@,
            frame: self.last_frame@,
            player1: player_view(self.player1),
            player2: player_view(self.player2),
            swarm: swarm_view(self.invaders),
            state: self.state,
            player1_sessionid: self.player1_sessionid,
            player2_sessionid: self.player2_sessionid,
            score: self.score as nat,
        }
    }

    /// A session for the room `room`: both slots empty, no swarm, a blank
    /// frame, no score, in state `START`.
    pub fn new(room: String) -> (r: GameSession)
        ensures
            r@ == GameView::fresh(room@),
            r@.wf(),
    {
        GameSession {
            room,
            last_frame: Frame::new(),
            player1: None,
            player2: None,
            invaders: None,
            state: GameStateType::START,
            player1_sessionid: 0,
            player2_sessionid: 0,
            score: 0,
        }
    }

    /// What the session publishes: its room, a copy of the last frame, the
    /// state and the connections in the two slots.
    pub fn report(&self) -> (r: GameSessionMessage)
        ensures
            r@ == self@.report(),
    {
        GameSessionMessage {
            room_id: self.room.clone(),
            frame: self.last_frame.duplicate(),
            state: self.state,
            player1_sessionid: self.player1_sessionid,
            player2_sessionid: self.player2_sessionid,
        }
    }

    /// The last frame as text to print: its rows, an empty line, and a line of
    /// `=` as wide as the arena.
    pub fn render(&self) -> (text: String)
        ensures
            text@ == screen_text(self@.frame),
    {
        let mut text: String = String::new();
        let mut y: usize = 0;
        while y < self.last_frame.cells.len()
            invariant
                y <= self.last_frame.cells@.len(),
                text@ == rows_text(self@.frame.take(y as int)),
            decreases self.last_frame.cells@.len() - y,
        {
            let row: &Vec<char> = &self.last_frame.cells[y];
            let ghost before = text@;
            let mut x: usize = 0;
            while x < row.len()
                invariant
                    x <= row@.len(),
                    text@ == before + row@.take(x as int),
                decreases row@.len() - x,
            {
                text.push(row[x]);
                x += 1;
            }
            text.push('\n');
            proof {
                assert(self@.frame.take(y + 1).drop_last() =~= self@.frame.take(y as int));
            }
            y += 1;
        }
        assert(self@.frame.take(y as int) =~= self@.frame);
        text.push('\n');
        let ghost head = text@;
        let mut x: usize = 0;
        while x < NUM_COLS
            invariant
                x <= NUM_COLS,
                text@ == head + rule().take(x as int),
            decreases NUM_COLS - x,
        {
            text.push('=');
            x += 1;
        }
        text.push('\n');
        text
    }

    /// Ends the session from outside, unless it has ended already.
    pub fn stop(&mut self)
        ensures
            final(self)@ == old(self)@.stopped(),
            old(self)@.wf() ==> final(self)@.wf(),
    {
        if !self.state.terminal() {
            self.state = GameStateType::STOP;
        }
    }

    /// One tick of length `delta`: advances the session and publishes the result.
    pub fn update_frame(&mut self, delta: Span) -> (report: GameSessionMessage)
        requires
            old(self)@.wf(),
            delta.wf(),
        ensures
            final(self)@ == old(self)@.advanced(delta),
            final(self)@.wf(),
            report@ == final(self)@.report(),
            arena_sized(final(self)@.frame),
            swarm_size(final(self)@.swarm) <= swarm_size(old(self)@.swarm),
    {
        proof {
            lemma_swarm_never_grows(self@, delta);
        }
        if self.state.terminal() {
            return self.report();
        }
        let mut new_frame: Frame = Frame::new();
        match &mut self.player1 {
            Some(p1) => {
                p1.update(delta);
                p1.draw(&mut new_frame);
            },
            None => {},
        }
        match &mut self.player2 {
            Some(p2) => {
                p2.update(delta);
                p2.draw(&mut new_frame);
            },
            None => {},
        }
        match &mut self.invaders {
            Some(invaders) => {
                invaders.update(delta);
                invaders.draw(&mut new_frame);
            },
            None => {},
        }
        let mut gained1: usize = 0;
        match &mut self.player1 {
            Some(p1) => {
                match &mut self.invaders {
                    Some(invaders) => {
                        gained1 = p1.detect_hits(invaders);
                    },
                    None => {},
                }
            },
            None => {},
        }
        self.score = self.score + gained1;
        let mut gained2: usize = 0;
        match &mut self.player2 {
            Some(p2) => {
                match &mut self.invaders {
                    Some(invaders) => {
                        gained2 = p2.detect_hits(invaders);
                    },
                    None => {},
                }
            },
            None => {},
        }
        self.score = self.score + gained2;
        let mut state: GameStateType = GameStateType::RUNNING;
        match &mut self.invaders {
            Some(invaders) => {
                if invaders.all_killed() {
                    state = GameStateType::WIN;
                }
                if invaders.reached_bottom() {
                    state = GameStateType::LOSE;
                }
            },
            None => {},
        }
        self.state = state;
        self.last_frame = new_frame;
        self.report()
    }
}

} // verus!
