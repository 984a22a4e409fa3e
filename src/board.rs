//! The walled grid of glyphs.

use rand::Rng;
use vstd::prelude::*;

use crate::block::{
    block_of, generation_glyph, lemma_generation_glyph, occupied, registry_wf,
    valid_block, Block,
};
use crate::glyphs::{is_wall_glyph, BLANK_SQUARE, HORIZONTAL_WALL, VERTICAL_WALL};

verus! {

/// Number of columns of the grid, walls included.
pub open spec fn board_width(b: Seq<Seq<char>>) -> int {
    if b.len() > 0 {
        b[0].len() as int
    } else {
        0
    }
}

/// `(x, y)` addresses a cell of the grid.
pub open spec fn in_board(b: Seq<Seq<char>>, x: int, y: int) -> bool {
    0 <= y < b.len() && 0 <= x < board_width(b)
}

/// `(x, y)` is a cell of the wall that surrounds the grid.
pub open spec fn on_border(b: Seq<Seq<char>>, x: int, y: int) -> bool {
    &&& in_board(b, x, y)
    &&& (x == 0 || y == 0 || x == board_width(b) - 1 || y == b.len() - 1)
}

/// `(x, y)` is a cell inside the wall.
pub open spec fn is_interior(b: Seq<Seq<char>>, x: int, y: int) -> bool {
    0 < x < board_width(b) - 1 && 0 < y < b.len() - 1
}

/// The wall glyph of a border cell: horizontal on the top and bottom rows,
/// vertical on the sides.
pub open spec fn border_glyph(b: Seq<Seq<char>>, x: int, y: int) -> char {
    if y == 0 || y == b.len() - 1 {
        HORIZONTAL_WALL
    } else {
        VERTICAL_WALL
    }
}

/// A rectangular grid whose border holds the wall glyphs and whose interior
/// holds none.
pub open spec fn board_wf(b: Seq<Seq<char>>) -> bool {
    &&& 2 <= b.len() <= usize::MAX
    &&& 2 <= board_width(b) <= usize::MAX
    &&& forall|y: int| 0 <= y < b.len() ==> #[trigger] b[y].len() == board_width(b)
    &&& forall|x: int, y: int| #[trigger]
        on_border(b, x, y) ==> b[y][x] == border_glyph(b, x, y)
    &&& forall|x: int, y: int| #[trigger]
        is_interior(b, x, y) ==> !is_wall_glyph(b[y][x])
}

/// The grid with the cell `(x, y)` replaced.
pub open spec fn with_cell(b: Seq<Seq<char>>, x: int, y: int, c: char) -> Seq<Seq<char>> {
    b.update(y, b[y].update(x, c))
}

/// A generation roll places a block on its cell: four outcomes of eleven.
pub open spec fn places_block(d: (u8, u8)) -> bool {
    d.0 < 4
}

/// What generation leaves in an interior cell for its roll.
pub open spec fn generated_cell(d: (u8, u8)) -> char {
    if places_block(d) {
        generation_glyph(d.1)
    } else {
        BLANK_SQUARE
    }
}

/// The roll of interior cell `(x, y)`: rolls are given row by row for the
/// interior alone.
pub open spec fn roll_at(draws: Seq<Vec<(u8, u8)>>, x: int, y: int) -> (u8, u8) {
    draws[y - 1]@[x - 1]
}

/// Interior columns of the standard board.
pub const BOARD_WIDTH: usize = 72;

/// Interior rows of the standard board.
pub const BOARD_HEIGHT: usize = 24;

/// Relies on rand's `thread_rng().gen_range(lo..=hi)`: a value drawn from the
/// inclusive range, which must not be empty.
#[verifier::external_body]
fn roll(lo: u8, hi: u8) -> (r: u8)
    requires
        lo <= hi,
    ensures
        lo <= r <= hi,
{
    rand::thread_rng().gen_range(lo..=hi)
}

/// Random rolls for a `width` by `height` interior: whether a cell gets a
/// block (0 to 10), and which glyph it gets (0 to 2).
pub fn random_draws(width: usize, height: usize) -> (r: Vec<Vec<(u8, u8)>>)
    ensures
        r@.len() == height,
        forall|y: int| 0 <= y < height ==> #[trigger] r@[y]@.len() == width,
        forall|y: int, x: int|
            0 <= y < height && 0 <= x < width ==> (#[trigger] r@[y]@[x]).0 <= 10 && r@[y]@[x].1 <= 2,
{
    let mut rows: Vec<Vec<(u8, u8)>> = Vec::new();
    let mut y: usize = 0;
    while y < height
        invariant
            y <= height,
            rows@.len() == y,
            forall|j: int| 0 <= j < y ==> #[trigger] rows@[j]@.len() == width,
            forall|j: int, x: int|
                0 <= j < y && 0 <= x < width ==> (#[trigger] rows@[j]@[x]).0 <= 10 && rows@[j]@[x].1 <= 2,
        decreases height - y,
    {
        let mut row: Vec<(u8, u8)> = Vec::new();
        let mut x: usize = 0;
        while x < width
            invariant
                x <= width,
                row@.len() == x,
                forall|i: int| 0 <= i < x ==> (#[trigger] row@[i]).0 <= 10 && row@[i].1 <= 2,
            decreases width - x,
        {
            let kind = roll(0, 10);
            let glyph = roll(0, 2);
            row.push((kind, glyph));
            x += 1;
        }
        rows.push(row);
        y += 1;
    }
    rows
}

/// A row of `n` horizontal wall glyphs.
fn wall_row(n: usize) -> (r: Vec<char>)
    ensures
        r@.len() == n,
        forall|x: int| 0 <= x < n ==> r@[x] == HORIZONTAL_WALL,
{
    let mut r: Vec<char> = Vec::new();
    let mut i: usize = 0;
    while i < n
        invariant
            i <= n,
            r@.len() == i,
            forall|x: int| 0 <= x < i ==> r@[x] == HORIZONTAL_WALL,
        decreases n - i,
    {
        r.push(HORIZONTAL_WALL);
        i += 1;
    }
    r
}

/// The board: rows of cells, indexed by `y` then `x`.
pub struct Board {
    vector: Vec<Vec<char>>,
}

impl View for Board {
    type V = Seq<Seq<char>>;

    closed spec fn view(&self) -> Seq<Seq<char>> {
        self.vector@.map_values(|r: Vec<char>| r@)
    }
}

impl Board {
    /// Builds a walled board with `width` by `height` interior cells. Each
    /// interior cell has a roll: where it places a block, a block with the
    /// glyph that the roll picks is registered there and drawn on the board;
    /// every other interior cell is blank.
    pub fn generate(width: usize, height: usize, draws: &Vec<Vec<(u8, u8)>>) -> (r: (Board, Vec<Block>))
        requires
            width <= usize::MAX - 2,
            height <= usize::MAX - 2,
            draws@.len() == height,
            forall|y: int| 0 <= y < height ==> #[trigger] draws@[y]@.len() == width,
        ensures
            r.0.wf(),
            r.0@.len() == height + 2,
            board_width(r.0@) == width + 2,
            forall|x: int, y: int| #[trigger]
                is_interior(r.0@, x, y) ==> r.0@[y][x] == generated_cell(roll_at(draws@, x, y)),
            registry_wf(r.0@, r.1@),
            forall|i: int|
                0 <= i < r.1@.len() ==> {
                    let l = #[trigger] r.1@[i]@.loc;
                    &&& places_block(roll_at(draws@, l.0 as int, l.1 as int))
                    &&& r.1@[i]@ == block_of(l, generation_glyph(roll_at(draws@, l.0 as int, l.1 as int).1))
                },
            forall|x: int, y: int|
                is_interior(r.0@, x, y) && places_block(#[trigger] roll_at(draws@, x, y)) ==> occupied(
                    r.1@,
                    (x as usize, y as usize),
                ),
    {
        let w = width + 2;
        let mut rows: Vec<Vec<char>> = Vec::new();
        rows.push(wall_row(w));
        let mut blocks: Vec<Block> = Vec::new();
        let mut y: usize = 1;
        while y <= height
            invariant
                1 <= y <= height + 1,
                w == width + 2,
                width <= usize::MAX - 2,
                height <= usize::MAX - 2,
                draws@.len() == height,
                forall|j: int| 0 <= j < height ==> #[trigger] draws@[j]@.len() == width,
                rows@.len() == y,
                forall|j: int| 0 <= j < y ==> (#[trigger] rows@[j])@.len() == w,
                forall|x: int| 0 <= x < w ==> rows@[0]@[x] == HORIZONTAL_WALL,
                forall|j: int|
                    1 <= j < y ==> (#[trigger] rows@[j])@[0] == VERTICAL_WALL && rows@[j]@[w - 1]
                        == VERTICAL_WALL,
                forall|j: int, x: int|
                    1 <= j < y && 1 <= x <= width ==> (#[trigger] rows@[j]@[x]) == generated_cell(
                        roll_at(draws@, x, j),
                    ),
                forall|i: int|
                    0 <= i < blocks@.len() ==> {
                        let l = #[trigger] blocks@[i]@.loc;
                        &&& 1 <= l.0 <= width
                        &&& 1 <= l.1 < y
                        &&& places_block(roll_at(draws@, l.0 as int, l.1 as int))
                        &&& blocks@[i]@ == block_of(l, generation_glyph(roll_at(draws@, l.0 as int, l.1 as int).1))
                    },
                forall|i: int, k: int|
                    0 <= i < blocks@.len() && 0 <= k < blocks@.len() && i != k ==> #[trigger] blocks@[i]@.loc
                        != #[trigger] blocks@[k]@.loc,
                forall|x: int, j: int|
                    1 <= j < y && 1 <= x <= width && places_block(#[trigger] roll_at(draws@, x, j))
                        ==> occupied(blocks@, (x as usize, j as usize)),
            decreases height + 1 - y,
        {
            let mut row: Vec<char> = Vec::new();
            row.push(VERTICAL_WALL);
            let mut x: usize = 1;
            while x <= width
                invariant
                    1 <= y <= height,
                    1 <= x <= width + 1,
                    w == width + 2,
                    width <= usize::MAX - 2,
                    draws@.len() == height,
                    forall|j: int| 0 <= j < height ==> #[trigger] draws@[j]@.len() == width,
                    row@.len() == x,
                    row@[0] == VERTICAL_WALL,
                    forall|x2: int| 1 <= x2 < x ==> #[trigger] row@[x2] == generated_cell(roll_at(draws@, x2, y as int)),
                    forall|i: int|
                        0 <= i < blocks@.len() ==> {
                            let l = #[trigger] blocks@[i]@.loc;
                            &&& 1 <= l.0 <= width
                            &&& (1 <= l.1 < y || (l.1 == y && l.0 < x))
                            &&& places_block(roll_at(draws@, l.0 as int, l.1 as int))
                            &&& blocks@[i]@ == block_of(l, generation_glyph(roll_at(draws@, l.0 as int, l.1 as int).1))
                        },
                    forall|i: int, k: int|
                        0 <= i < blocks@.len() && 0 <= k < blocks@.len() && i != k ==> #[trigger] blocks@[i]@.loc
                            != #[trigger] blocks@[k]@.loc,
                    forall|x2: int, j: int|
                        ((1 <= j < y && 1 <= x2 <= width) || (j == y && 1 <= x2 < x)) && places_block(
                            #[trigger] roll_at(draws@, x2, j),
                        ) ==> occupied(blocks@, (x2 as usize, j as usize)),
                decreases width + 1 - x,
            {
                let d = draws[y - 1][x - 1];
                assert(d == roll_at(draws@, x as int, y as int));
                if d.0 < 4 {
                    let b = Block::build((x, y), d.1);
                    proof {
                        lemma_generation_glyph(d.1);
                    }
                    row.push(b.get_symbol());
                    let ghost old_blocks = blocks@;
                    blocks.push(b);
                    proof {
                        assert(blocks@[old_blocks.len() as int]@.loc == (x, y));
                        assert forall|x2: int, j: int|
                            ((1 <= j < y && 1 <= x2 <= width) || (j == y && 1 <= x2 < x + 1)) && places_block(
                                #[trigger] roll_at(draws@, x2, j),
                            ) implies occupied(blocks@, (x2 as usize, j as usize)) by {
                            if j == y && x2 == x {
                                assert(blocks@[old_blocks.len() as int]@.loc == (x2 as usize, j as usize));
                            } else {
                                assert(occupied(old_blocks, (x2 as usize, j as usize)));
                                let i = choose|i: int| 0 <= i < old_blocks.len() && #[trigger] old_blocks[i]@.loc == (x2 as usize, j as usize);
                                assert(blocks@[i]@.loc == (x2 as usize, j as usize));
                            }
                        }
                    }
                } else {
                    row.push(BLANK_SQUARE);
                }
                x += 1;
            }
            row.push(VERTICAL_WALL);
            rows.push(row);
            y += 1;
        }
        rows.push(wall_row(w));
        let board = Board { vector: rows };
        proof {
            let b = board@;
            assert(b.len() == height + 2);
            assert(b[0].len() == w);
            assert forall|j: int| 0 <= j < b.len() implies #[trigger] b[j].len() == board_width(b) by {}
            assert forall|x: int, j: int| #[trigger] on_border(b, x, j) implies b[j][x] == border_glyph(b, x, j) by {}
            assert forall|x: int, j: int| #[trigger] is_interior(b, x, j) implies !is_wall_glyph(b[j][x])
                && b[j][x] == generated_cell(roll_at(draws@, x, j)) by {
                lemma_generation_glyph(roll_at(draws@, x, j).1);
            }
            assert forall|i: int| 0 <= i < blocks@.len() implies {
                &&& is_interior(b, blocks@[i]@.loc.0 as int, blocks@[i]@.loc.1 as int)
                &&& valid_block(#[trigger] blocks@[i]@)
            } by {
                lemma_generation_glyph(roll_at(draws@, blocks@[i]@.loc.0 as int, blocks@[i]@.loc.1 as int).1);
            }
        }
        (board, blocks)
    }

    /// A standard-size board with randomly placed blocks.
    pub fn new() -> (r: (Board, Vec<Block>))
        ensures
            r.0.wf(),
            r.0@.len() == BOARD_HEIGHT + 2,
            board_width(r.0@) == BOARD_WIDTH + 2,
            registry_wf(r.0@, r.1@),
    {
        let draws = random_draws(BOARD_WIDTH, BOARD_HEIGHT);
        Board::generate(BOARD_WIDTH, BOARD_HEIGHT, &draws)
    }

    pub open spec fn wf(&self) -> bool {
        board_wf(self@)
    }

    /// Number of rows, walls included.
    pub fn height(&self) -> (r: usize)
        ensures
            r == self@.len(),
    {
        self.vector.len()
    }

    /// Number of columns, walls included.
    pub fn width(&self) -> (r: usize)
        requires
            self.wf(),
        ensures
            r == board_width(self@),
    {
        self.vector[0].len()
    }

    /// The glyph at `loc`.
    pub fn get_cell(&self, loc: (usize, usize)) -> (r: char)
        requires
            self.wf(),
            in_board(self@, loc.0 as int, loc.1 as int),
        ensures
            r == self@[loc.1 as int][loc.0 as int],
    {
        proof {
            assert(self@[loc.1 as int].len() == board_width(self@));
        }
        self.vector[loc.1][loc.0]
    }

    /// Writes a glyph into an interior cell.
    pub fn set_cell(&mut self, target: (usize, usize), symbol: char)
        requires
            old(self).wf(),
            is_interior(old(self)@, target.0 as int, target.1 as int),
            !is_wall_glyph(symbol),
        ensures
            final(self)@ == with_cell(old(self)@, target.0 as int, target.1 as int, symbol),
            final(self).wf(),
    {
        self.vector[target.1][target.0] = symbol;
        proof {
            let b = old(self)@;
            let nb = with_cell(b, target.0 as int, target.1 as int, symbol);
            assert(self@ =~= nb);
            assert forall|x: int, y: int| #[trigger] on_border(nb, x, y) implies nb[y][x] == border_glyph(nb, x, y) by {
                assert(on_border(b, x, y));
            }
            assert forall|x: int, y: int| #[trigger] is_interior(nb, x, y) implies !is_wall_glyph(nb[y][x]) by {
                assert(is_interior(b, x, y));
            }
        }
    }
}

} // verus!
