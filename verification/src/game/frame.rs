use crate::game::common::{NUM_COLS, NUM_ROWS};
use vstd::prelude::*;

verus! {

/// The glyph of a cell that holds nothing.
pub const BLANK: char = ' ';

/// One rendered snapshot of the arena: `NUM_ROWS` rows of `NUM_COLS` cells,
/// one glyph each, addressed by row and then by column.
#[derive(Debug)]
pub struct Frame {
    pub cells: Vec<Vec<char>>,
}

impl Frame {
    /// The grid as a sequence of rows.
    pub open spec fn view(&self) -> Seq<Seq<char>> {
        Seq::new(self.cells@.len(), |i: int| self.cells@[i]@)
    }

    /// The grid has the arena's dimensions.
    pub open spec fn wf(&self) -> bool {
        arena_sized(self@)
    }

    /// A frame of the arena's dimensions with every cell blank.
    pub fn new() -> (r: Frame)
        ensures
            r.wf(),
            r@ == blank_grid(),
    {
        let mut cells: Vec<Vec<char>> = Vec::new();
        let mut y: usize = 0;
        while y < NUM_ROWS
            invariant
                y <= NUM_ROWS,
                cells@.len() == y,
                forall|i: int| 0 <= i < y ==> (#[trigger] cells@[i])@.len() == NUM_COLS,
                forall|i: int, j: int|
                    0 <= i < y && 0 <= j < NUM_COLS ==> (#[trigger] cells@[i]@[j]) == BLANK,
            decreases NUM_ROWS - y,
        {
            let mut row: Vec<char> = Vec::new();
            let mut x: usize = 0;
            while x < NUM_COLS
                invariant
                    x <= NUM_COLS,
                    row@.len() == x,
                    forall|j: int| 0 <= j < x ==> (#[trigger] row@[j]) == BLANK,
                decreases NUM_COLS - x,
            {
                row.push(BLANK);
                x += 1;
            }
            cells.push(row);
            y += 1;
        }
        let r = Frame { cells };
        assert(r@ =~~= blank_grid());
        r
    }

    /// A second frame with the same glyphs.
    pub fn duplicate(&self) -> (r: Frame)
        ensures
            r@ == self@,
            r.wf() == self.wf(),
    {
        let mut cells: Vec<Vec<char>> = Vec::new();
        let mut y: usize = 0;
        while y < self.cells.len()
            invariant
                y <= self.cells@.len(),
                cells@.len() == y,
                forall|i: int| 0 <= i < y ==> (#[trigger] cells@[i])@ == self.cells@[i]@,
            decreases self.cells@.len() - y,
        {
            let source: &Vec<char> = &self.cells[y];
            let mut row: Vec<char> = Vec::new();
            let mut x: usize = 0;
            while x < source.len()
                invariant
                    x <= source@.len(),
                    row@.len() == x,
                    forall|j: int| 0 <= j < x ==> (#[trigger] row@[j]) == source@[j],
                decreases source@.len() - x,
            {
                row.push(source[x]);
                x += 1;
            }
            cells.push(row);
            y += 1;
        }
        let r = Frame { cells };
        assert(r@ =~= self@);
        r
    }

    /// The glyph at column `x` of row `y`.
    pub fn get(&self, x: usize, y: usize) -> (glyph: char)
        requires
            self.wf(),
            x < NUM_COLS,
            y < NUM_ROWS,
        ensures
            glyph == self@[y as int][x as int],
    {
        assert(self@[y as int] == self.cells@[y as int]@);
        self.cells[y][x]
    }

    /// The frame as it goes over the wire: a JSON array of rows, each row a JSON
    /// array of one-glyph strings. `None` where the encoder gave no text.
    pub fn to_json(&self) -> (r: Option<String>)
        ensures
            wire_text(r) == json_of_grid(self@),
    {
        grid_to_json(&self.cells)
    }

    /// The glyph `glyph` put at column `x` of row `y`.
    pub fn set(&mut self, x: usize, y: usize, glyph: char)
        requires
            old(self).wf(),
            x < NUM_COLS,
            y < NUM_ROWS,
        ensures
            final(self).wf(),
            final(self)@ == put(old(self)@, x as int, y as int, glyph),
    {
        assert(self@[y as int] == self.cells@[y as int]@);
        let row: &mut Vec<char> = &mut self.cells[y];
        row.set(x, glyph);
        assert(self@ =~= put(old(self)@, x as int, y as int, glyph));
    }
}

/// The grid with one glyph put at column `x` of row `y`.
pub open spec fn put(grid: Seq<Seq<char>>, x: int, y: int, glyph: char) -> Seq<Seq<char>> {
    grid.update(y, grid[y].update(x, glyph))
}

/// The grid of the arena's dimensions with every cell blank.
pub open spec fn blank_grid() -> Seq<Seq<char>> {
    Seq::new(NUM_ROWS as nat, |y: int| Seq::new(NUM_COLS as nat, |x: int| BLANK))
}

/// Whether a grid has the arena's dimensions.
pub open spec fn arena_sized(grid: Seq<Seq<char>>) -> bool {
    &&& grid.len() == NUM_ROWS
    &&& forall|i: int| 0 <= i < grid.len() ==> (#[trigger] grid[i]).len() == NUM_COLS
}

/// A glyph put into a cell of the arena leaves the grid's dimensions as they are.
pub proof fn lemma_put_keeps_size(grid: Seq<Seq<char>>, x: int, y: int, glyph: char)
    requires
        arena_sized(grid),
        0 <= x < NUM_COLS,
        0 <= y < NUM_ROWS,
    ensures
        arena_sized(put(grid, x, y, glyph)),
{
}

/// The blank grid has the arena's dimensions.
pub proof fn lemma_blank_grid_sized()
    ensures
        arena_sized(blank_grid()),
{
}

/// The characters of a text that may be missing.
pub open spec fn wire_text(text: Option<String>) -> Option<Seq<char>> {
    match text {
        Some(s) => Some(s@),
        None => None,
    }
}

/// What `serde_json::to_string` makes of a grid of glyphs, given as its rows:
/// the characters of the JSON text, or `None` where it reports an error.
pub uninterp spec fn json_of_grid(cells: Seq<Seq<char>>) -> Option<Seq<char>>;

/// Calls `serde_json::to_string` on the rows. Its answer depends on the glyphs
/// alone and is known here only by name; an error becomes `None`.
#[verifier::external_body]
fn grid_to_json(cells: &Vec<Vec<char>>) -> (r: Option<String>)
    ensures
        wire_text(r) == json_of_grid(Seq::new(cells@.len(), |i: int| cells@[i]@)),
{
    serde_json::to_string(cells).ok()
}

} // verus!
