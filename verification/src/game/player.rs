use crate::game::clock::Span;
use crate::game::common::{MAX_SHOTS, NUM_COLS, NUM_ROWS};
use crate::game::frame::{arena_sized, lemma_put_keeps_size, put, Frame};
use crate::game::invaders::{
    lemma_without_first_at_len, lemma_without_first_at_subset, stands_at, without_first_at, Invader,
    Invaders, Swarm,
};
use crate::game::shot::{drawn_shot, lemma_fired_wf, lemma_shot_stays_wf, Shot, ShotPhase};
use crate::text::same_text;
use vstd::prelude::*;

verus! {

/// The glyph of a player.
pub const PLAYER_GLYPH: char = 'A';

/// A player: the connection it belongs to, its cell, its shots in the order
/// in which they were fired, and the room it plays in.
#[derive(Debug)]
pub struct Player {
    pub id: usize,
    pub x: usize,
    pub y: usize,
    pub shots: Vec<Shot>,
    pub room_id: Option<String>,
}

/// A player as a mathematical value.
pub struct PlayerView {
    pub id: usize,
    pub x: usize,
    pub y: usize,
    pub shots: Seq<Shot>,
    pub room_id: Option<Seq<char>>,
}

/// The command that moves a player one column to the left.
pub open spec fn left_command() -> Seq<char> {
    seq!['-', '1']
}

/// The command that moves a player one column to the right.
pub open spec fn right_command() -> Seq<char> {
    seq!['1']
}

/// The command that fires a shot.
pub open spec fn shoot_command() -> Seq<char> {
    seq!['-']
}

/// Tells the shots that are not spent.
pub open spec fn alive() -> spec_fn(Shot) -> bool {
    |shot: Shot| !shot.is_dead()
}

/// The shots that are not spent, in their order.
pub open spec fn survivors(shots: Seq<Shot>) -> Seq<Shot> {
    shots.filter(alive())
}

/// Every shot after `delta` has passed.
pub open spec fn all_aged(shots: Seq<Shot>, delta: Span) -> Seq<Shot> {
    Seq::new(shots.len(), |i: int| shots[i].aged(delta))
}

/// Whether every shot is well formed.
pub open spec fn all_wf(shots: Seq<Shot>) -> bool {
    forall|i: int| 0 <= i < shots.len() ==> (#[trigger] shots[i]).wf()
}

/// The grid with the shots drawn into it, in order.
pub open spec fn drawn_shots(grid: Seq<Seq<char>>, shots: Seq<Shot>) -> Seq<Seq<char>>
    decreases shots.len(),
{
    if shots.len() == 0 {
        grid
    } else {
        drawn_shot(drawn_shots(grid, shots.drop_last()), shots.last())
    }
}

/// What a round of hit detection leaves: the shots, the army and the number
/// of enemies removed.
pub struct Volley {
    pub shots: Seq<Shot>,
    pub army: Seq<Invader>,
    pub kills: nat,
}

/// Hit detection, shot by shot in order: a shot in flight at the cell of an
/// enemy removes the first enemy at that cell and explodes; every other shot
/// stays as it is.
pub open spec fn volley(shots: Seq<Shot>, army: Seq<Invader>) -> Volley
    decreases shots.len(),
{
    if shots.len() == 0 {
        Volley { shots: Seq::empty(), army, kills: 0 }
    } else {
        let before = volley(shots.drop_last(), army);
        let shot = shots.last();
        if shot.spec_phase() == ShotPhase::InFlight && stands_at(before.army, shot.x, shot.y) {
            Volley {
                shots: before.shots.push(shot.exploded()),
                army: without_first_at(before.army, shot.x, shot.y),
                kills: before.kills + 1,
            }
        } else {
            Volley { shots: before.shots.push(shot), army: before.army, kills: before.kills }
        }
    }
}

/// Hit detection keeps every shot, and each enemy that it removes is counted.
pub proof fn lemma_volley_counts(shots: Seq<Shot>, army: Seq<Invader>)
    ensures
        volley(shots, army).shots.len() == shots.len(),
        volley(shots, army).army.len() + volley(shots, army).kills == army.len(),
    decreases shots.len(),
{
    if shots.len() > 0 {
        lemma_volley_counts(shots.drop_last(), army);
        let before = volley(shots.drop_last(), army);
        lemma_without_first_at_len(before.army, shots.last().x, shots.last().y);
    }
}

/// The shots that are not spent are shots of the list: well formed if all
/// are, and no more than before.
pub proof fn lemma_survivors_wf(shots: Seq<Shot>)
    ensures
        survivors(shots).len() <= shots.len(),
        all_wf(shots) ==> all_wf(survivors(shots)),
        forall|i: int|
            0 <= i < survivors(shots).len() ==> !(#[trigger] survivors(shots)[i]).is_dead(),
    decreases shots.len(),
{
    reveal(Seq::filter);
    if shots.len() > 0 {
        lemma_survivors_wf(shots.drop_last());
    }
}

/// Hit detection keeps well-formed shots well formed, and every enemy that
/// it leaves stood in the army before.
pub proof fn lemma_volley_wf(shots: Seq<Shot>, army: Seq<Invader>)
    ensures
        all_wf(shots) ==> all_wf(volley(shots, army).shots),
        forall|i: int|
            0 <= i < volley(shots, army).army.len() ==> army.contains(
                #[trigger] volley(shots, army).army[i],
            ),
    decreases shots.len(),
{
    if shots.len() > 0 {
        let shot = shots.last();
        lemma_volley_wf(shots.drop_last(), army);
        lemma_without_first_at_subset(volley(shots.drop_last(), army).army, shot.x, shot.y);
        if all_wf(shots) {
            lemma_shot_stays_wf(shot, Span { secs: 0, nanos: 0 });
        }
    }
}

/// Drawing well-formed shots leaves the grid's dimensions as they are.
pub proof fn lemma_drawn_shots_size(grid: Seq<Seq<char>>, shots: Seq<Shot>)
    requires
        arena_sized(grid),
        all_wf(shots),
    ensures
        arena_sized(drawn_shots(grid, shots)),
    decreases shots.len(),
{
    if shots.len() > 0 {
        lemma_drawn_shots_size(grid, shots.drop_last());
        lemma_put_keeps_size(
            drawn_shots(grid, shots.drop_last()),
            shots.last().x as int,
            shots.last().y as int,
            shots.last().glyph(),
        );
    }
}

/// Time that passes, a round of hit detection, and every command keep a
/// well-formed player well formed, in its row, and who and where it was.
pub proof fn lemma_player_stays_wf(
    player: PlayerView,
    delta: Span,
    army: Seq<Invader>,
    movement: Seq<char>,
)
    requires
        player.wf(),
    ensures
        player.aged(delta).wf(),
        player.with_shots(survivors(volley(player.shots, army).shots)).wf(),
        player.y > 0 ==> player.commanded(movement).wf(),
        player.commanded(movement).y == player.y,
        player.commanded(movement).id == player.id,
        player.commanded(movement).room_id == player.room_id,
{
    let aged = all_aged(player.shots, delta);
    assert forall|i: int| 0 <= i < aged.len() implies (#[trigger] aged[i]).wf() by {
        lemma_shot_stays_wf(player.shots[i], delta);
    }
    lemma_survivors_wf(aged);
    lemma_volley_wf(player.shots, army);
    lemma_volley_counts(player.shots, army);
    lemma_survivors_wf(volley(player.shots, army).shots);
    if player.y > 0 {
        lemma_fired_wf(player.x, (player.y - 1) as usize);
    }
}

/// Drawing a well-formed player leaves the grid's dimensions as they are.
pub proof fn lemma_drawn_player_size(grid: Seq<Seq<char>>, player: PlayerView)
    requires
        arena_sized(grid),
        player.wf(),
    ensures
        arena_sized(player.drawn(grid)),
{
    lemma_put_keeps_size(grid, player.x as int, player.y as int, PLAYER_GLYPH);
    lemma_drawn_shots_size(put(grid, player.x as int, player.y as int, PLAYER_GLYPH), player.shots);
}

impl PlayerView {
    /// The player and its shots are inside the arena, and the shots are no
    /// more than the cap.
    pub open spec fn wf(&self) -> bool {
        &&& self.x < NUM_COLS
        &&& self.y < NUM_ROWS
        &&& self.shots.len() <= MAX_SHOTS
        &&& all_wf(self.shots)
    }

    /// The player with other shots.
    pub open spec fn with_shots(self, shots: Seq<Shot>) -> PlayerView {
        PlayerView { id: self.id, x: self.x, y: self.y, shots, room_id: self.room_id }
    }

    /// The player in another cell.
    pub open spec fn at(self, x: usize, y: usize) -> PlayerView {
        PlayerView { id: self.id, x, y, shots: self.shots, room_id: self.room_id }
    }

    /// The player one row up, unless it is in the top row.
    pub open spec fn up(self) -> PlayerView {
        if self.y > 0 { self.at(self.x, (self.y - 1) as usize) } else { self }
    }

    /// The player one column to the left, unless it is in the first column.
    pub open spec fn left(self) -> PlayerView {
        if self.x > 0 { self.at((self.x - 1) as usize, self.y) } else { self }
    }

    /// The player one column to the right, unless it is in the last column.
    pub open spec fn right(self) -> PlayerView {
        if self.x < NUM_COLS - 1 { self.at((self.x + 1) as usize, self.y) } else { self }
    }

    /// Whether the player can fire: it has fewer shots than the cap.
    pub open spec fn can_shoot(&self) -> bool {
        self.shots.len() < MAX_SHOTS
    }

    /// The player after a command to fire: below the cap a new shot starts in
    /// the cell above the player; at the cap nothing changes.
    pub open spec fn fired(self) -> PlayerView {
        if self.can_shoot() {
            self.with_shots(self.shots.push(Shot::fired(self.x, (self.y - 1) as usize)))
        } else {
            self
        }
    }

    /// The player after a command: left, right or fire; any other text
    /// changes nothing.
    pub open spec fn commanded(self, movement: Seq<char>) -> PlayerView {
        if movement == left_command() {
            self.left()
        } else if movement == right_command() {
            self.right()
        } else if movement == shoot_command() {
            self.fired()
        } else {
            self
        }
    }

    /// The player after `delta` has passed: every shot ages, and the spent
    /// ones are gone.
    pub open spec fn aged(self, delta: Span) -> PlayerView {
        self.with_shots(survivors(all_aged(self.shots, delta)))
    }

    /// The grid with the player and then its shots drawn into it.
    pub open spec fn drawn(self, grid: Seq<Seq<char>>) -> Seq<Seq<char>> {
        drawn_shots(put(grid, self.x as int, self.y as int, PLAYER_GLYPH), self.shots)
    }
}

impl Player {
    /// The player as a mathematical value.
    pub open spec fn view(&self) -> PlayerView {
        PlayerView {
            id: self.id,
            x: self.x,
            y: self.y,
            shots: self.shots@,
            room_id: match self.room_id {
                Some(name) => Some(name@),
                None => None,
            },
        }
    }

    /// A player for connection `id`: in the middle of the bottom row, without
    /// shots and without a room.
    pub fn new(id: usize) -> (r: Player)
        ensures
            r@ == (PlayerView {
                id,
                x: (NUM_COLS / 2) as usize,
                y: (NUM_ROWS - 1) as usize,
                shots: Seq::empty(),
                room_id: None,
            }),
            r@.wf(),
    {
        Player { id, x: NUM_COLS / 2, y: NUM_ROWS - 1, shots: Vec::new(), room_id: None }
    }

    /// Moves the player one row up, unless it is in the top row.
    pub fn move_up(&mut self)
        ensures
            final(self)@ == old(self)@.up(),
            old(self)@.wf() ==> final(self)@.wf(),
    {
        if self.y > 0 {
            self.y -= 1;
        }
    }

    /// Moves the player one column to the left, unless it is in the first column.
    pub fn move_left(&mut self)
        ensures
            final(self)@ == old(self)@.left(),
            old(self)@.wf() ==> final(self)@.wf(),
    {
        if self.x > 0 {
            self.x -= 1;
        }
    }

    /// Moves the player one column to the right, unless it is in the last column.
    pub fn move_right(&mut self)
        ensures
            final(self)@ == old(self)@.right(),
            old(self)@.wf() ==> final(self)@.wf(),
    {
        if self.x < NUM_COLS - 1 {
            self.x += 1;
        }
    }

    /// Fires a shot from the cell above the player, unless the player has as
    /// many shots as the cap allows, and says whether it fired.
    pub fn shoot(&mut self) -> (fired: bool)
        requires
            old(self)@.can_shoot() ==> old(self).y > 0,
        ensures
            fired == old(self)@.can_shoot(),
            final(self)@ == old(self)@.fired(),
            old(self)@.wf() ==> final(self)@.wf(),
    {
        if self.shots.len() < MAX_SHOTS {
            let shot: Shot = Shot::new(self.x, self.y - 1);
            self.shots.push(shot);
            true
        } else {
            false
        }
    }

    /// Carries out a command: left, right or fire. Any other text changes
    /// nothing. The command counts as handled either way.
    pub fn handle_movement(&mut self, movement: &str) -> (handled: bool)
        requires
            movement@ == shoot_command() && old(self)@.can_shoot() ==> old(self).y > 0,
        ensures
            handled,
            final(self)@ == old(self)@.commanded(movement@),
            old(self)@.wf() ==> final(self)@.wf(),
    {
        proof {
            reveal_strlit("-1");
            reveal_strlit("1");
            reveal_strlit("-");
            assert("-1"@ =~= left_command());
            assert("1"@ =~= right_command());
            assert("-"@ =~= shoot_command());
        }
        if same_text(movement, "-1") {
            self.move_left();
        } else if same_text(movement, "1") {
            self.move_right();
        } else if same_text(movement, "-") {
            self.shoot();
        }
        true
    }

    /// Tests the shots in flight against the swarm, in the order in which they
    /// were fired: each one at the cell of an enemy removes that enemy and
    /// explodes. Spent shots are dropped afterwards. Returns the number of
    /// enemies removed.
    pub fn detect_hits(&mut self, invaders: &mut Invaders) -> (killed: usize)
        ensures
            killed == volley(old(self)@.shots, old(invaders)@.army).kills,
            final(self)@ == old(self)@.with_shots(
                survivors(volley(old(self)@.shots, old(invaders)@.army).shots),
            ),
            final(invaders)@ == (Swarm {
                army: volley(old(self)@.shots, old(invaders)@.army).army,
                move_timer: old(invaders)@.move_timer,
                direction: old(invaders)@.direction,
                stop: old(invaders)@.stop,
            }),
            old(self)@.wf() ==> final(self)@.wf(),
            old(invaders)@.wf() ==> final(invaders)@.wf(),
            old(invaders)@.settled() ==> final(invaders)@.settled(),
            final(invaders)@.army.len() + killed == old(invaders)@.army.len(),
    {
        let n: usize = self.shots.len();
        let mut nb_killed: usize = 0;
        let mut i: usize = 0;
        while i < n
            invariant
                i <= n,
                self.shots@.len() == n,
                old(self)@.shots.len() == n,
                self@ == old(self)@.with_shots(self.shots@),
                nb_killed <= i,
                nb_killed == volley(old(self)@.shots.take(i as int), old(invaders)@.army).kills,
                self.shots@.take(i as int) == volley(
                    old(self)@.shots.take(i as int),
                    old(invaders)@.army,
                ).shots,
                forall|k: int| i <= k < n ==> (#[trigger] self.shots@[k]) == old(self)@.shots[k],
                invaders@ == (Swarm {
                    army: volley(old(self)@.shots.take(i as int), old(invaders)@.army).army,
                    move_timer: old(invaders)@.move_timer,
                    direction: old(invaders)@.direction,
                    stop: old(invaders)@.stop,
                }),
                old(self)@.wf() ==> all_wf(self.shots@),
                old(invaders)@.wf() ==> invaders@.wf(),
                old(invaders)@.settled() ==> invaders@.settled(),
                invaders@.army.len() + nb_killed == old(invaders)@.army.len(),
            decreases n - i,
        {
            let ghost before = self.shots@;
            let mut shot: Shot = self.shots[i];
            proof {
                assert(old(self)@.shots.take(i + 1).drop_last() =~= old(self)@.shots.take(i as int));
            }
            let mut hit: bool = false;
            if !shot.exploding && shot.y != 0 {
                hit = invaders.kill_invader_at(shot.x, shot.y);
            }
            if hit {
                nb_killed += 1;
                shot.explode();
                self.shots.set(i, shot);
            }
            i += 1;
        }
        proof {
            assert(old(self)@.shots.take(n as int) =~= old(self)@.shots);
            assert(self.shots@.take(n as int) =~= self.shots@);
        }
        self.retain_alive();
        nb_killed
    }

    /// Lets `delta` pass for every shot and drops the spent ones.
    pub fn update(&mut self, delta: Span)
        requires
            old(self)@.wf(),
            delta.wf(),
        ensures
            final(self)@ == old(self)@.aged(delta),
            final(self)@.wf(),
    {
        let n: usize = self.shots.len();
        let mut i: usize = 0;
        while i < n
            invariant
                i <= n,
                self.shots@.len() == n,
                old(self)@.shots.len() == n,
                delta.wf(),
                self@ == old(self)@.with_shots(self.shots@),
                all_wf(self.shots@),
                all_wf(old(self)@.shots),
                forall|k: int|
                    0 <= k < i ==> (#[trigger] self.shots@[k]) == old(self)@.shots[k].aged(delta),
                forall|k: int| i <= k < n ==> (#[trigger] self.shots@[k]) == old(self)@.shots[k],
            decreases n - i,
        {
            let mut shot: Shot = self.shots[i];
            shot.update(delta);
            self.shots.set(i, shot);
            i += 1;
        }
        assert(self.shots@ =~= all_aged(old(self)@.shots, delta));
        self.retain_alive();
    }

    /// Drops the spent shots.
    fn retain_alive(&mut self)
        ensures
            final(self)@ == old(self)@.with_shots(survivors(old(self)@.shots)),
            all_wf(old(self)@.shots) ==> all_wf(final(self)@.shots),
            final(self)@.shots.len() <= old(self)@.shots.len(),
    {
        let n: usize = self.shots.len();
        let mut kept: Vec<Shot> = Vec::new();
        let mut i: usize = 0;
        while i < n
            invariant
                i <= n,
                self.shots@.len() == n,
                *self == *old(self),
                kept@ == survivors(self.shots@.take(i as int)),
                kept@.len() <= i,
                all_wf(self.shots@) ==> all_wf(kept@),
            decreases n - i,
        {
            let shot: Shot = self.shots[i];
            proof {
                assert(self.shots@.take(i + 1) =~= self.shots@.take(i as int).push(shot));
                self.shots@.take(i as int).lemma_filter_push(shot, alive());
            }
            if !shot.dead() {
                kept.push(shot);
            }
            i += 1;
        }
        assert(self.shots@.take(n as int) =~= self.shots@);
        self.shots = kept;
    }

    /// Draws the player and then its shots into the frame.
    pub fn draw(&self, frame: &mut Frame)
        requires
            self@.wf(),
            old(frame).wf(),
        ensures
            final(frame).wf(),
            final(frame)@ == self@.drawn(old(frame)@),
    {
        frame.set(self.x, self.y, PLAYER_GLYPH);
        let mut i: usize = 0;
        while i < self.shots.len()
            invariant
                i <= self.shots@.len(),
                self@.wf(),
                frame.wf(),
                frame@ == drawn_shots(
                    put(old(frame)@, self.x as int, self.y as int, PLAYER_GLYPH),
                    self.shots@.take(i as int),
                ),
            decreases self.shots@.len() - i,
        {
            let shot: Shot = self.shots[i];
            shot.draw(frame);
            assert(self.shots@.take(i + 1).drop_last() =~= self.shots@.take(i as int));
            i += 1;
        }
        assert(self.shots@.take(i as int) =~= self.shots@);
    }
}

} // verus!
