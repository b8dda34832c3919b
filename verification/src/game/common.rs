use vstd::prelude::*;

verus! {

/// Number of columns of the arena.
pub const NUM_COLS: usize = 40;

/// Number of rows of the arena.
pub const NUM_ROWS: usize = 20;

/// Most shots that one player can have in the arena at once.
pub const MAX_SHOTS: usize = 20;

} // verus!
