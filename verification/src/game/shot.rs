use crate::game::clock::{lemma_aged_wf, lemma_started_wf, Countdown, Span};
use crate::game::common::{NUM_COLS, NUM_ROWS};
use crate::game::frame::{put, Frame};
use vstd::prelude::*;

verus! {

/// Milliseconds that a shot in flight stays in one row.
pub const FLIGHT_STEP_MS: u64 = 50;

/// Milliseconds that an explosion lasts.
pub const EXPLOSION_MS: u64 = 250;

/// The glyph of a shot in flight.
pub const SHOT_GLYPH: char = '|';

/// The glyph of an exploding shot.
pub const EXPLOSION_GLYPH: char = '*';

/// Where a shot is in its life.
#[derive(Clone, Copy, Debug, PartialEq, Eq, Structural)]
pub enum ShotPhase {
    /// It climbs one row each time its countdown runs out.
    InFlight,
    /// It has hit an enemy and shows the explosion until its countdown runs out.
    Exploding,
    /// It has left the arena at the top, or its explosion is over.
    Spent,
}

/// A shot fired by a player.
#[derive(Clone, Copy, Debug)]
pub struct Shot {
    pub x: usize,
    pub y: usize,
    pub exploding: bool,
    pub timer: Countdown,
}

impl Shot {
    /// The shot lies inside the arena and its countdown is well formed.
    pub open spec fn wf(&self) -> bool {
        &&& self.x < NUM_COLS
        &&& self.y < NUM_ROWS
        &&& self.timer.wf()
    }

    /// A shot in flight at column `x` of row `y`.
    pub open spec fn fired(x: usize, y: usize) -> Shot {
        Shot { x, y, exploding: false, timer: Countdown::started(FLIGHT_STEP_MS) }
    }

    /// The shot after `delta` has passed: its countdown ages, and a shot in
    /// flight whose countdown ran out climbs one row, unless it is in the top
    /// row, and starts the countdown again.
    pub open spec fn aged(self, delta: Span) -> Shot {
        let timer = self.timer.aged(delta);
        if timer.ready && !self.exploding {
            Shot {
                x: self.x,
                y: if self.y > 0 { (self.y - 1) as usize } else { self.y },
                exploding: false,
                timer: timer.rewound(),
            }
        } else {
            Shot { x: self.x, y: self.y, exploding: self.exploding, timer }
        }
    }

    /// The shot once it has hit: it explodes where it is.
    pub open spec fn exploded(self) -> Shot {
        Shot { x: self.x, y: self.y, exploding: true, timer: Countdown::started(EXPLOSION_MS) }
    }

    /// Where the shot is in its life.
    pub open spec fn spec_phase(&self) -> ShotPhase {
        if (self.exploding && self.timer.ready) || self.y == 0 {
            ShotPhase::Spent
        } else if self.exploding {
            ShotPhase::Exploding
        } else {
            ShotPhase::InFlight
        }
    }

    /// Whether the shot is spent.
    pub open spec fn is_dead(&self) -> bool {
        self.spec_phase() == ShotPhase::Spent
    }

    /// The glyph that shows the shot.
    pub open spec fn glyph(&self) -> char {
        if self.exploding { EXPLOSION_GLYPH } else { SHOT_GLYPH }
    }

    /// A shot in flight at column `x` of row `y`.
    pub fn new(x: usize, y: usize) -> (r: Shot)
        ensures
            r == Shot::fired(x, y),
            r.timer.wf(),
    {
        Shot { x, y, exploding: false, timer: Countdown::from_millis(FLIGHT_STEP_MS) }
    }

    /// Lets `delta` pass for the shot.
    pub fn update(&mut self, delta: Span)
        requires
            old(self).wf(),
            delta.wf(),
        ensures
            *final(self) == old(self).aged(delta),
            final(self).wf(),
    {
        self.timer.update(delta);
        if self.timer.ready && !self.exploding {
            if self.y > 0 {
                self.y -= 1;
            }
            self.timer.reset();
        }
    }

    /// Turns the shot into an explosion.
    pub fn explode(&mut self)
        ensures
            *final(self) == old(self).exploded(),
            final(self).timer.wf(),
    {
        self.exploding = true;
        self.timer = Countdown::from_millis(EXPLOSION_MS);
    }

    /// Where the shot is in its life.
    pub fn phase(&self) -> (r: ShotPhase)
        ensures
            r == self.spec_phase(),
    {
        if (self.exploding && self.timer.ready) || self.y == 0 {
            ShotPhase::Spent
        } else if self.exploding {
            ShotPhase::Exploding
        } else {
            ShotPhase::InFlight
        }
    }

    /// Whether the shot is spent.
    pub fn dead(&self) -> (r: bool)
        ensures
            r == self.is_dead(),
    {
        (self.exploding && self.timer.ready) || self.y == 0
    }

    /// Draws the shot into the frame.
    pub fn draw(&self, frame: &mut Frame)
        requires
            self.wf(),
            old(frame).wf(),
        ensures
            final(frame).wf(),
            final(frame)@ == drawn_shot(old(frame)@, *self),
    {
        frame.set(self.x, self.y, if self.exploding { EXPLOSION_GLYPH } else { SHOT_GLYPH });
    }
}

/// Time that passes, and an explosion, keep a shot well formed and in its column.
pub proof fn lemma_shot_stays_wf(shot: Shot, delta: Span)
    requires
        shot.wf(),
    ensures
        shot.aged(delta).wf(),
        shot.aged(delta).x == shot.x,
        shot.aged(delta).y <= shot.y,
        shot.exploded().wf(),
{
    lemma_aged_wf(shot.timer, delta);
    lemma_aged_wf(shot.timer.aged(delta), delta);
    lemma_started_wf(EXPLOSION_MS);
}

/// A shot that was just fired inside the arena is well formed and in flight.
pub proof fn lemma_fired_wf(x: usize, y: usize)
    requires
        x < NUM_COLS,
        y < NUM_ROWS,
    ensures
        Shot::fired(x, y).wf(),
        !Shot::fired(x, y).exploding,
{
    lemma_started_wf(FLIGHT_STEP_MS);
}

/// The grid with a shot drawn into it.
pub open spec fn drawn_shot(grid: Seq<Seq<char>>, shot: Shot) -> Seq<Seq<char>> {
    put(grid, shot.x as int, shot.y as int, shot.glyph())
}

} // verus!
