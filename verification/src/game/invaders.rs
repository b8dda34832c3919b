use crate::game::clock::{lemma_aged_wf, lemma_started_wf, Countdown, Span};
use crate::game::common::{NUM_COLS, NUM_ROWS};
use crate::game::frame::{arena_sized, lemma_put_keeps_size, put, Frame};
use vstd::prelude::*;

verus! {

/// Milliseconds between two moves of a fresh swarm.
pub const INITIAL_MOVE_MS: u64 = 2500;

/// Milliseconds by which the time between two moves shrinks at each wall.
pub const MOVE_DECREMENT_MS: u64 = 250;

/// The shortest time between two moves, in milliseconds.
pub const MIN_MOVE_MS: u64 = 250;

/// Columns of enemies in a fresh swarm.
pub const ARMY_COLS: usize = 19;

/// Rows of enemies in a fresh swarm.
pub const ARMY_ROWS: usize = 4;

/// The first row that is too close to the players: an enemy in it, or below
/// it, ends the game.
pub const BOTTOM_ROW: usize = NUM_ROWS - 2;

/// The glyph of an enemy while more than half of the time to the next move is left.
pub const INVADER_GLYPH: char = 'x';

/// The glyph of an enemy in the second half of the time to the next move.
pub const INVADER_GLYPH_LATE: char = '+';

/// One enemy, by its cell.
#[derive(Clone, Copy, Debug, PartialEq, Eq, Structural)]
pub struct Invader {
    pub x: usize,
    pub y: usize,
}

/// The enemy swarm: its members in order, the countdown to the next move, the
/// direction of that move (1 to the right, -1 to the left), and whether the
/// swarm has stopped because it came too close to the players.
#[derive(Debug)]
pub struct Invaders {
    pub army: Vec<Invader>,
    pub move_timer: Countdown,
    pub direction: i32,
    pub stop: bool,
}

/// A swarm as a mathematical value.
pub struct Swarm {
    pub army: Seq<Invader>,
    pub move_timer: Countdown,
    pub direction: int,
    pub stop: bool,
}

/// The members of a fresh swarm: every second column from column 2 on, and in
/// each the rows 2, 4, 6 and 8, column by column.
pub open spec fn initial_army() -> Seq<Invader> {
    Seq::new(
        (ARMY_COLS * ARMY_ROWS) as nat,
        |k: int|
            Invader {
                x: (2 * (k / (ARMY_ROWS as int)) + 2) as usize,
                y: (2 * (k % (ARMY_ROWS as int)) + 2) as usize,
            },
    )
}

/// A fresh swarm: all its members, the longest time between two moves, moving
/// to the right, not stopped.
pub open spec fn fresh_swarm() -> Swarm {
    Swarm {
        army: initial_army(),
        move_timer: Countdown::started(INITIAL_MOVE_MS),
        direction: 1,
        stop: false,
    }
}

/// Whether some enemy stands at column `x` of row `y`.
pub open spec fn stands_at(army: Seq<Invader>, x: usize, y: usize) -> bool {
    exists|i: int| 0 <= i < army.len() && (#[trigger] army[i]).x == x && army[i].y == y
}

/// The index of the first enemy at column `x` of row `y`, or the length of the
/// army where there is none.
pub open spec fn first_at(army: Seq<Invader>, x: usize, y: usize) -> int
    decreases army.len(),
{
    if army.len() == 0 {
        0
    } else if army[0].x == x && army[0].y == y {
        0
    } else {
        1 + first_at(army.drop_first(), x, y)
    }
}

/// The army without the first enemy at column `x` of row `y`, if there is one.
pub open spec fn without_first_at(army: Seq<Invader>, x: usize, y: usize) -> Seq<Invader> {
    if stands_at(army, x, y) {
        army.remove(first_at(army, x, y))
    } else {
        army
    }
}

/// Whether the swarm, moving left, has to turn: an enemy stands in column 0,
/// or nobody is left.
pub open spec fn at_left_wall(army: Seq<Invader>) -> bool {
    army.len() == 0 || exists|i: int| 0 <= i < army.len() && (#[trigger] army[i]).x == 0
}

/// Whether the swarm, moving right, has to turn: an enemy stands in the last column.
pub open spec fn at_right_wall(army: Seq<Invader>) -> bool {
    exists|i: int| 0 <= i < army.len() && (#[trigger] army[i]).x == NUM_COLS - 1
}

/// Whether some enemy has come too close to the players.
pub open spec fn at_bottom(army: Seq<Invader>) -> bool {
    exists|i: int| 0 <= i < army.len() && (#[trigger] army[i]).y >= BOTTOM_ROW
}

/// The army one row further down.
pub open spec fn lowered(army: Seq<Invader>) -> Seq<Invader> {
    Seq::new(army.len(), |i: int| Invader { x: army[i].x, y: (army[i].y + 1) as usize })
}

/// The army one column further in direction `direction`.
pub open spec fn shifted(army: Seq<Invader>, direction: int) -> Seq<Invader> {
    Seq::new(army.len(), |i: int| Invader { x: (army[i].x + direction) as usize, y: army[i].y })
}

/// The time between two moves after a turn at a wall, in milliseconds.
pub open spec fn shortened(ms: nat) -> nat {
    if ms >= MOVE_DECREMENT_MS + MIN_MOVE_MS {
        (ms - MOVE_DECREMENT_MS) as nat
    } else {
        MIN_MOVE_MS as nat
    }
}

/// The grid with every enemy of the army drawn into it as `glyph`, in order.
pub open spec fn drawn_army(grid: Seq<Seq<char>>, army: Seq<Invader>, glyph: char) -> Seq<Seq<char>>
    decreases army.len(),
{
    if army.len() == 0 {
        grid
    } else {
        put(
            drawn_army(grid, army.drop_last(), glyph),
            army.last().x as int,
            army.last().y as int,
            glyph,
        )
    }
}

impl Swarm {
    /// Every enemy is inside the arena and above the players, the direction is
    /// 1 or -1, and the time between two moves is within its limits.
    pub open spec fn wf(&self) -> bool {
        &&& forall|i: int|
            0 <= i < self.army.len() ==> (#[trigger] self.army[i]).x < NUM_COLS && self.army[i].y
                <= BOTTOM_ROW
        &&& (self.direction == 1 || self.direction == -1)
        &&& self.move_timer.wf()
        &&& MIN_MOVE_MS <= self.move_timer.duration.millis() <= INITIAL_MOVE_MS
    }

    /// The swarm has stopped, or no enemy is too close to the players: the
    /// swarm can take a step without leaving the arena.
    pub open spec fn settled(&self) -> bool {
        self.stop || !at_bottom(self.army)
    }

    /// Whether the swarm, at its next move, turns at a wall.
    pub open spec fn turns(&self) -> bool {
        if self.direction == -1 {
            at_left_wall(self.army)
        } else {
            at_right_wall(self.army)
        }
    }

    /// The swarm after its move: at a wall it turns, comes one row down and
    /// moves faster from then on; elsewhere it goes one column further.
    pub open spec fn moved(self) -> Swarm {
        if self.turns() {
            Swarm {
                army: lowered(self.army),
                move_timer: Countdown::started(
                    shortened(self.move_timer.duration.millis()) as u64,
                ),
                direction: -self.direction,
                stop: self.stop,
            }
        } else {
            Swarm {
                army: shifted(self.army, self.direction),
                move_timer: self.move_timer.rewound(),
                direction: self.direction,
                stop: self.stop,
            }
        }
    }

    /// Whether the swarm makes its move when `delta` passes. A swarm that has
    /// stopped makes none.
    pub open spec fn due(self, delta: Span) -> bool {
        !self.stop && self.move_timer.aged(delta).ready
    }

    /// What a step reports when `delta` passes: that the swarm has stopped, or
    /// that it made its move.
    pub open spec fn reports(self, delta: Span) -> bool {
        self.stop || self.due(delta)
    }

    /// The swarm after `delta` has passed.
    pub open spec fn stepped(self, delta: Span) -> Swarm {
        if self.stop {
            self
        } else if self.due(delta) {
            (Swarm {
                army: self.army,
                move_timer: self.move_timer.aged(delta).rewound(),
                direction: self.direction,
                stop: self.stop,
            }).moved()
        } else {
            Swarm {
                army: self.army,
                move_timer: self.move_timer.aged(delta),
                direction: self.direction,
                stop: self.stop,
            }
        }
    }

    /// The glyph that shows each enemy of the swarm.
    pub open spec fn glyph(&self) -> char {
        if self.move_timer.in_first_half() {
            INVADER_GLYPH
        } else {
            INVADER_GLYPH_LATE
        }
    }
}

impl Invaders {
    /// The swarm as a mathematical value.
    pub open spec fn view(&self) -> Swarm {
        Swarm {
            army: self.army@,
            move_timer: self.move_timer,
            direction: self.direction as int,
            stop: self.stop,
        }
    }

    /// A fresh swarm: it moves to the right and has not stopped.
    pub fn new() -> (r: Invaders)
        ensures
            r@ == fresh_swarm(),
            r@.wf(),
            r@.settled(),
    {
        let mut army: Vec<Invader> = Vec::new();
        let mut i: usize = 0;
        while i < ARMY_COLS
            invariant
                i <= ARMY_COLS,
                army@.len() == i * ARMY_ROWS,
                forall|k: int| 0 <= k < army@.len() ==> (#[trigger] army@[k]) == initial_army()[k],
            decreases ARMY_COLS - i,
        {
            let mut j: usize = 0;
            while j < ARMY_ROWS
                invariant
                    i < ARMY_COLS,
                    j <= ARMY_ROWS,
                    army@.len() == i * ARMY_ROWS + j,
                    forall|k: int|
                        0 <= k < army@.len() ==> (#[trigger] army@[k]) == initial_army()[k],
                decreases ARMY_ROWS - j,
            {
                army.push(Invader { x: 2 * i + 2, y: 2 * j + 2 });
                j += 1;
            }
            i += 1;
        }
        assert(army@ =~= initial_army());
        Invaders { army, move_timer: Countdown::from_millis(INITIAL_MOVE_MS), direction: 1, stop: false }
    }

    /// Lets `delta` pass for the swarm, and says whether the swarm has stopped
    /// or made its move.
    pub fn update(&mut self, delta: Span) -> (moved: bool)
        requires
            old(self)@.wf(),
            old(self)@.settled(),
            delta.wf(),
        ensures
            final(self)@ == old(self)@.stepped(delta),
            moved == old(self)@.reports(delta),
            final(self)@.wf(),
    {
        if self.stop {
            return true;
        }
        self.move_timer.update(delta);
        if self.move_timer.ready {
            self.move_timer.reset();
            let downwards: bool = if self.direction == -1 {
                self.army.len() == 0 || has_column(&self.army, 0)
            } else {
                has_column(&self.army, NUM_COLS - 1)
            };
            if downwards {
                let ms: u128 = self.move_timer.duration.as_millis();
                let shorter: u64 = if ms >= (MOVE_DECREMENT_MS + MIN_MOVE_MS) as u128 {
                    (ms - MOVE_DECREMENT_MS as u128) as u64
                } else {
                    MIN_MOVE_MS
                };
                self.move_timer = Countdown::from_millis(shorter);
                self.direction = -self.direction;
                lower(&mut self.army);
            } else {
                shift(&mut self.army, self.direction);
            }
            return true;
        }
        false
    }

    /// Whether no enemy is left.
    pub fn all_killed(&self) -> (r: bool)
        ensures
            r == (self@.army.len() == 0),
    {
        self.army.len() == 0
    }

    /// Whether some enemy has come too close to the players. The swarm stops
    /// if so, and goes on if not.
    pub fn reached_bottom(&mut self) -> (r: bool)
        ensures
            r == at_bottom(old(self)@.army),
            final(self)@ == (Swarm {
                army: old(self)@.army,
                move_timer: old(self)@.move_timer,
                direction: old(self)@.direction,
                stop: r,
            }),
            final(self)@.settled(),
    {
        let mut found: bool = false;
        let mut i: usize = 0;
        while i < self.army.len()
            invariant
                i <= self.army@.len(),
                *self == *old(self),
                found == exists|k: int| 0 <= k < i && (#[trigger] self.army@[k]).y >= BOTTOM_ROW,
            decreases self.army@.len() - i,
        {
            if self.army[i].y >= BOTTOM_ROW {
                found = true;
            }
            i += 1;
        }
        self.stop = found;
        found
    }

    /// Removes the first enemy at column `x` of row `y`, and says whether there
    /// was one.
    pub fn kill_invader_at(&mut self, x: usize, y: usize) -> (killed: bool)
        ensures
            killed == stands_at(old(self)@.army, x, y),
            final(self)@ == (Swarm {
                army: without_first_at(old(self)@.army, x, y),
                move_timer: old(self)@.move_timer,
                direction: old(self)@.direction,
                stop: old(self)@.stop,
            }),
            old(self)@.wf() ==> final(self)@.wf(),
            old(self)@.settled() ==> final(self)@.settled(),
            final(self)@.army.len() == old(self)@.army.len() - (if killed { 1int } else { 0int }),
    {
        let mut i: usize = 0;
        while i < self.army.len()
            invariant
                i <= self.army@.len(),
                *self == *old(self),
                forall|k: int| 0 <= k < i ==> !((#[trigger] self.army@[k]).x == x && self.army@[k].y == y),
            decreases self.army@.len() - i,
        {
            if self.army[i].x == x && self.army[i].y == y {
                proof {
                    lemma_first_at(self.army@, x, y, i as int);
                }
                self.army.remove(i);
                return true;
            }
            i += 1;
        }
        false
    }

    /// Draws every enemy into the frame.
    pub fn draw(&self, frame: &mut Frame)
        requires
            self@.wf(),
            old(frame).wf(),
        ensures
            final(frame).wf(),
            final(frame)@ == drawn_army(old(frame)@, self@.army, self@.glyph()),
    {
        let glyph: char = if self.move_timer.first_half() {
            INVADER_GLYPH
        } else {
            INVADER_GLYPH_LATE
        };
        let mut i: usize = 0;
        while i < self.army.len()
            invariant
                i <= self.army@.len(),
                self@.wf(),
                frame.wf(),
                frame@ == drawn_army(old(frame)@, self.army@.take(i as int), glyph),
            decreases self.army@.len() - i,
        {
            let invader: Invader = self.army[i];
            assert(invader == self@.army[i as int]);
            frame.set(invader.x, invader.y, glyph);
            assert(self.army@.take(i + 1).drop_last() =~= self.army@.take(i as int));
            i += 1;
        }
        assert(self.army@.take(i as int) =~= self.army@);
    }
}

/// Where the first enemy at a cell stands: `i` is the index that `first_at`
/// gives if an enemy stands there at `i` and none does before `i`.
pub proof fn lemma_first_at(army: Seq<Invader>, x: usize, y: usize, i: int)
    requires
        0 <= i < army.len(),
        army[i].x == x && army[i].y == y,
        forall|k: int| 0 <= k < i ==> !((#[trigger] army[k]).x == x && army[k].y == y),
    ensures
        first_at(army, x, y) == i,
    decreases i,
{
    if i > 0 {
        lemma_first_at(army.drop_first(), x, y, i - 1);
    }
}

/// Where an enemy stands at a cell, `first_at` gives the index of one, and
/// no enemy at that cell comes before it.
pub proof fn lemma_first_at_found(army: Seq<Invader>, x: usize, y: usize)
    requires
        stands_at(army, x, y),
    ensures
        0 <= first_at(army, x, y) < army.len(),
        army[first_at(army, x, y)].x == x,
        army[first_at(army, x, y)].y == y,
        forall|k: int|
            0 <= k < first_at(army, x, y) ==> !((#[trigger] army[k]).x == x && army[k].y == y),
    decreases army.len(),
{
    let i = choose|i: int| 0 <= i < army.len() && (#[trigger] army[i]).x == x && army[i].y == y;
    if !(army[0].x == x && army[0].y == y) {
        let rest = army.drop_first();
        assert(rest[i - 1] == army[i]);
        lemma_first_at_found(rest, x, y);
        let found = first_at(rest, x, y);
        assert forall|k: int| 0 <= k < found + 1 implies !((#[trigger] army[k]).x == x && army[k].y
            == y) by {
            if k > 0 {
                assert(rest[k - 1] == army[k]);
            }
        }
    }
}

/// Removing the first enemy at a cell takes one enemy away if one stands
/// there, and none if not.
pub proof fn lemma_without_first_at_len(army: Seq<Invader>, x: usize, y: usize)
    ensures
        without_first_at(army, x, y).len() == army.len() - (if stands_at(army, x, y) {
            1int
        } else {
            0int
        }),
{
    if stands_at(army, x, y) {
        lemma_first_at_found(army, x, y);
    }
}

/// Every enemy that is left after the first at a cell was removed stood in
/// the army before.
pub proof fn lemma_without_first_at_subset(army: Seq<Invader>, x: usize, y: usize)
    ensures
        forall|i: int|
            0 <= i < without_first_at(army, x, y).len() ==> army.contains(
                #[trigger] without_first_at(army, x, y)[i],
            ),
{
    if stands_at(army, x, y) {
        lemma_first_at_found(army, x, y);
    }
}

/// A fresh swarm is well formed and can take its first step.
pub proof fn lemma_fresh_swarm_wf()
    ensures
        fresh_swarm().wf(),
        fresh_swarm().settled(),
        fresh_swarm().army.len() == ARMY_COLS * ARMY_ROWS,
{
    lemma_started_wf(INITIAL_MOVE_MS);
}

/// A step keeps a swarm that can take it well formed, and neither adds nor
/// removes an enemy.
pub proof fn lemma_stepped_wf(swarm: Swarm, delta: Span)
    requires
        swarm.wf(),
        swarm.settled(),
    ensures
        swarm.stepped(delta).wf(),
        swarm.stepped(delta).army.len() == swarm.army.len(),
        swarm.stepped(delta).stop == swarm.stop,
{
    lemma_aged_wf(swarm.move_timer, delta);
    lemma_aged_wf(swarm.move_timer.aged(delta), delta);
    if swarm.due(delta) {
        let ready = Swarm {
            army: swarm.army,
            move_timer: swarm.move_timer.aged(delta).rewound(),
            direction: swarm.direction,
            stop: swarm.stop,
        };
        if ready.turns() {
            lemma_started_wf(shortened(ready.move_timer.duration.millis()) as u64);
        }
    }
}

/// Drawing a well-formed swarm leaves the grid's dimensions as they are.
pub proof fn lemma_drawn_army_size(grid: Seq<Seq<char>>, army: Seq<Invader>, glyph: char)
    requires
        arena_sized(grid),
        forall|i: int|
            0 <= i < army.len() ==> (#[trigger] army[i]).x < NUM_COLS && army[i].y < NUM_ROWS,
    ensures
        arena_sized(drawn_army(grid, army, glyph)),
    decreases army.len(),
{
    if army.len() > 0 {
        lemma_drawn_army_size(grid, army.drop_last(), glyph);
        lemma_put_keeps_size(
            drawn_army(grid, army.drop_last(), glyph),
            army.last().x as int,
            army.last().y as int,
            glyph,
        );
    }
}

/// Whether some enemy stands in column `col`.
fn has_column(army: &Vec<Invader>, col: usize) -> (r: bool)
    ensures
        r == exists|i: int| 0 <= i < army@.len() && (#[trigger] army@[i]).x == col,
{
    let mut found: bool = false;
    let mut i: usize = 0;
    while i < army.len()
        invariant
            i <= army@.len(),
            found == exists|k: int| 0 <= k < i && (#[trigger] army@[k]).x == col,
        decreases army@.len() - i,
    {
        if army[i].x == col {
            found = true;
        }
        i += 1;
    }
    found
}

/// Moves every enemy one row down.
fn lower(army: &mut Vec<Invader>)
    requires
        forall|i: int| 0 <= i < old(army)@.len() ==> (#[trigger] old(army)@[i]).y < usize::MAX,
    ensures
        final(army)@ == lowered(old(army)@),
{
    let n: usize = army.len();
    let mut i: usize = 0;
    while i < n
        invariant
            i <= n,
            army@.len() == n,
            old(army)@.len() == n,
            forall|k: int| 0 <= k < n ==> (#[trigger] old(army)@[k]).y < usize::MAX,
            forall|k: int| 0 <= k < i ==> (#[trigger] army@[k]) == lowered(old(army)@)[k],
            forall|k: int| i <= k < n ==> (#[trigger] army@[k]) == old(army)@[k],
        decreases n - i,
    {
        let invader: Invader = army[i];
        army.set(i, Invader { x: invader.x, y: invader.y + 1 });
        i += 1;
    }
}

/// Moves every enemy one column in direction `direction`.
fn shift(army: &mut Vec<Invader>, direction: i32)
    requires
        direction == 1 || direction == -1,
        forall|i: int|
            0 <= i < old(army)@.len() ==> 0 <= (#[trigger] old(army)@[i]).x + direction
                <= usize::MAX,
    ensures
        final(army)@ == shifted(old(army)@, direction as int),
{
    let n: usize = army.len();
    let mut i: usize = 0;
    while i < n
        invariant
            i <= n,
            army@.len() == n,
            old(army)@.len() == n,
            direction == 1 || direction == -1,
            forall|k: int|
                0 <= k < n ==> 0 <= (#[trigger] old(army)@[k]).x + direction <= usize::MAX,
            forall|k: int|
                0 <= k < i ==> (#[trigger] army@[k]) == shifted(old(army)@, direction as int)[k],
            forall|k: int| i <= k < n ==> (#[trigger] army@[k]) == old(army)@[k],
        decreases n - i,
    {
        let invader: Invader = army[i];
        let x: usize = if direction == 1 {
            invader.x + 1
        } else {
            invader.x - 1
        };
        army.set(i, Invader { x, y: invader.y });
        i += 1;
    }
}

} // verus!
