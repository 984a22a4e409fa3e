//! Properties that hold of every board, move and tick.

use vstd::prelude::*;

use crate::block::{block_glyph, block_of, occupied, registry_wf, valid_block, Block, BlockView};
use crate::board::{board_wf, in_board, is_interior, on_border};
use crate::game::{
    game_wf, same_shape, below, cell_at, free_below, next_block, player_moved, projected, step_target, is_unit_step,
};
use crate::glyphs::{
    classify, lemma_material_glyphs, lemma_worn_at, material_palette, BLANK_SQUARE,
    DUG_SQUARE, PLAYER_SQUARE,
};
use crate::player::PlayerView;

verus! {

/// Manhattan distance between two locations.
pub open spec fn distance(a: (usize, usize), b: (usize, usize)) -> int {
    let dx = a.0 - b.0;
    let dy = a.1 - b.1;
    (if dx < 0 { -dx } else { dx }) + (if dy < 0 { -dy } else { dy })
}

/// On a well-formed board a cell classifies as a wall exactly when it lies on
/// the border; every interior cell is solid, a resource, or walkable.
pub proof fn lemma_walls_only_on_border(b: Seq<Seq<char>>)
    requires
        board_wf(b),
    ensures
        forall|x: int, y: int| #[trigger]
            in_board(b, x, y) ==> (classify(b[y][x]) is Wall <==> on_border(b, x, y)),
        forall|x: int, y: int| #[trigger]
            is_interior(b, x, y) ==> {
                ||| classify(b[y][x]) is Solid
                ||| classify(b[y][x]) is Resource
                ||| classify(b[y][x]) is PassThrough
            },
{
    assert forall|x: int, y: int| #[trigger]
        in_board(b, x, y) implies (classify(b[y][x]) is Wall <==> on_border(b, x, y)) by {
        lemma_material_glyphs(b[y][x]);
        if !on_border(b, x, y) {
            assert(is_interior(b, x, y));
        }
    }
    assert forall|x: int, y: int| #[trigger] is_interior(b, x, y) implies {
        ||| classify(b[y][x]) is Solid
        ||| classify(b[y][x]) is Resource
        ||| classify(b[y][x]) is PassThrough
    } by {
        lemma_material_glyphs(b[y][x]);
    }
}

/// A move keeps the game consistent: the registry depends on the board only
/// through its dimensions, which a move keeps, and the player stays inside the
/// wall with its glyph.
pub proof fn lemma_move_keeps_game(
    p: PlayerView,
    b: Seq<Seq<char>>,
    d: (i8, i8),
    np: PlayerView,
    nb: Seq<Seq<char>>,
    blocks: Seq<Block>,
)
    requires
        game_wf(p, b, blocks),
        board_wf(nb),
        same_shape(nb, b),
        is_interior(nb, np.loc.0 as int, np.loc.1 as int),
        player_moved(p, b, d, np, nb),
    ensures
        game_wf(np, nb, blocks),
{
}

/// A step into a walkable cell brings the player onto it, one step closer,
/// and clears the cell left behind: where at most the player's own cell showed
/// the player glyph before, no cell shows it after.
pub proof fn lemma_move_into_passage(
    p: PlayerView,
    b: Seq<Seq<char>>,
    d: (i8, i8),
    np: PlayerView,
    nb: Seq<Seq<char>>,
)
    requires
        board_wf(b),
        is_interior(b, p.loc.0 as int, p.loc.1 as int),
        is_unit_step(d),
        classify(cell_at(b, step_target(p.loc, d))) is PassThrough,
        player_moved(p, b, d, np, nb),
        forall|x: int, y: int| in_board(b, x, y) && #[trigger] b[y][x] == PLAYER_SQUARE ==> (x as usize, y as usize) == p.loc,
    ensures
        np.loc == step_target(p.loc, d),
        distance(p.loc, step_target(p.loc, d)) == 1,
        distance(np.loc, step_target(p.loc, d)) == 0,
        forall|x: int, y: int| in_board(nb, x, y) ==> #[trigger] nb[y][x] != PLAYER_SQUARE,
{
    assert forall|x: int, y: int| in_board(nb, x, y) implies #[trigger] nb[y][x] != PLAYER_SQUARE by {
        if (x as usize, y as usize) != p.loc {
            assert(nb[y][x] == b[y][x]);
        }
    }
}

/// A step against solid material leaves the player where it is and targets
/// that cell for digging.
pub proof fn lemma_move_into_solid(
    p: PlayerView,
    b: Seq<Seq<char>>,
    d: (i8, i8),
    np: PlayerView,
    nb: Seq<Seq<char>>,
)
    requires
        classify(cell_at(b, step_target(p.loc, d))) is Solid,
        player_moved(p, b, d, np, nb),
    ensures
        np.loc == p.loc,
        np.dig_target == step_target(p.loc, d),
        nb == b,
{
}

/// After a tick whose board showed the player glyph nowhere, and whose
/// registry holds valid blocks, exactly one cell shows it: the player's.
pub proof fn lemma_one_player_cell(
    nb: Seq<Seq<char>>,
    b: Seq<Seq<char>>,
    old: Seq<Block>,
    new: Seq<Block>,
    player_loc: (usize, usize),
)
    requires
        board_wf(b),
        registry_wf(b, new),
        old.len() == new.len(),
        nb.len() == b.len(),
        forall|y: int| 0 <= y < b.len() ==> #[trigger] nb[y].len() == b[y].len(),
        projected(nb, b, old, new, player_loc),
        forall|x: int, y: int| in_board(b, x, y) ==> #[trigger] b[y][x] != PLAYER_SQUARE,
    ensures
        forall|x: int, y: int|
            in_board(b, x, y) ==> (#[trigger] nb[y][x] == PLAYER_SQUARE <==> (x as usize, y as usize)
                == player_loc),
{
    assert forall|x: int, y: int| in_board(b, x, y) implies (#[trigger] nb[y][x] == PLAYER_SQUARE <==> (
    x as usize, y as usize) == player_loc) by {
        let l = (x as usize, y as usize);
        if l != player_loc {
            if occupied(new, l) {
                let i = choose|i: int| 0 <= i < new.len() && #[trigger] new[i]@.loc == l;
                assert(valid_block(new[i]@));
                lemma_material_glyphs(block_glyph(new[i]@));
                assert(cell_at(nb, new[i]@.loc) == block_glyph(new[i]@));
            } else if occupied(old, l) {
                let i = choose|i: int| 0 <= i < old.len() && #[trigger] old[i]@.loc == l;
                assert(new[i]@.loc != old[i]@.loc);
                assert(cell_at(nb, old[i]@.loc) == BLANK_SQUARE);
            }
        }
    }
}

/// A block dug `n` times, re-targeted where it stands before each tick.
pub open spec fn dug_times(
    v: BlockView,
    player_loc: (usize, usize),
    b: Seq<Seq<char>>,
    blocks: Seq<Block>,
    n: nat,
) -> BlockView
    decreases n,
{
    if n == 0 {
        v
    } else {
        let w = dug_times(v, player_loc, b, blocks, (n - 1) as nat);
        next_block(w, player_loc, w.loc, b, blocks)
    }
}

/// The heaviest material, dug once per tick where the player does not stand,
/// wears through each stage of the palette and becomes debris after exactly as
/// many digs as the palette has stages.
pub proof fn lemma_dig_through(
    loc: (usize, usize),
    player_loc: (usize, usize),
    b: Seq<Seq<char>>,
    blocks: Seq<Block>,
)
    requires
        player_loc != loc,
    ensures
        forall|n: nat|
            n < material_palette().len() ==> #[trigger] dug_times(
                block_of(loc, material_palette()[0]),
                player_loc,
                b,
                blocks,
                n,
            ) == block_of(loc, material_palette()[n as int]),
        dug_times(block_of(loc, material_palette()[0]), player_loc, b, blocks, material_palette().len())
            == block_of(loc, DUG_SQUARE),
{
    let v = block_of(loc, material_palette()[0]);
    let len = material_palette().len();
    assert forall|n: nat| n <= len implies #[trigger] dug_times(v, player_loc, b, blocks, n) == (if n < len {
        block_of(loc, material_palette()[n as int])
    } else {
        block_of(loc, DUG_SQUARE)
    }) by {
        lemma_dig_prefix(loc, player_loc, b, blocks, n);
    }
}

proof fn lemma_dig_prefix(
    loc: (usize, usize),
    player_loc: (usize, usize),
    b: Seq<Seq<char>>,
    blocks: Seq<Block>,
    n: nat,
)
    requires
        player_loc != loc,
        n <= material_palette().len(),
    ensures
        dug_times(block_of(loc, material_palette()[0]), player_loc, b, blocks, n) == (if n
            < material_palette().len() {
            block_of(loc, material_palette()[n as int])
        } else {
            block_of(loc, DUG_SQUARE)
        }),
    decreases n,
{
    let p = material_palette();
    if n > 0 {
        lemma_dig_prefix(loc, player_loc, b, blocks, (n - 1) as nat);
        let m = (n - 1) as int;
        assert(p.contains(p[m]));
        lemma_worn_at(m);
        if n < p.len() {
            assert(p.contains(p[n as int]));
        }
    } else {
        assert(p.contains(p[0]));
    }
}

/// Debris falls one row where the cell below is free, and stays put otherwise;
/// staying put, it is left unchanged by the tick, whatever the player does.
pub proof fn lemma_debris_falls(
    v: BlockView,
    player_loc: (usize, usize),
    dig: (usize, usize),
    b: Seq<Seq<char>>,
    blocks: Seq<Block>,
)
    requires
        board_wf(b),
        is_interior(b, v.loc.0 as int, v.loc.1 as int),
        v.kind == classify(DUG_SQUARE),
    ensures
        free_below(b, blocks, v.loc) ==> next_block(v, player_loc, dig, b, blocks) == block_of(
            below(v.loc),
            DUG_SQUARE,
        ) && below(v.loc).1 == v.loc.1 + 1,
        !free_below(b, blocks, v.loc) ==> next_block(v, player_loc, dig, b, blocks) == v,
{
    lemma_material_glyphs(DUG_SQUARE);
}

/// Debris on the row above the bottom wall never falls further.
pub proof fn lemma_debris_rests_on_floor(v: BlockView, b: Seq<Seq<char>>, blocks: Seq<Block>)
    requires
        board_wf(b),
        is_interior(b, v.loc.0 as int, v.loc.1 as int),
        v.loc.1 == b.len() - 2,
    ensures
        !free_below(b, blocks, v.loc),
{
    let l = below(v.loc);
    assert(on_border(b, l.0 as int, l.1 as int));
}

/// A resource under the player is collected by the next tick, whatever the dig
/// target.
pub proof fn lemma_collect_under_player(
    v: BlockView,
    dig: (usize, usize),
    b: Seq<Seq<char>>,
    blocks: Seq<Block>,
)
    requires
        v.kind is Resource,
    ensures
        next_block(v, v.loc, dig, b, blocks) == block_of(v.loc, DUG_SQUARE),
{
}

} // verus!
