//! One tick of the game: player movement and the block transitions.

use vstd::prelude::*;

use crate::block::{
    block_glyph, block_of, occupied, registry_wf, valid_block, Block, BlockView,
};
use crate::board::{board_width, board_wf, in_board, is_interior, on_border, with_cell, Board};
use crate::glyphs::{
    classify, lemma_material_glyphs, physics_glyph, worn, BlockPhysics, BLANK_SQUARE, DUG_SQUARE,
    PLAYER_SQUARE,
};
use crate::location::BoardLoc;
use crate::player::{Player, PlayerView, NO_TARGET};

verus! {

/// One of the four unit directions.
pub open spec fn is_unit_step(d: (i8, i8)) -> bool {
    ||| (d.0 == 0 && (d.1 == 1 || d.1 == -1))
    ||| (d.1 == 0 && (d.0 == 1 || d.0 == -1))
}

/// The cell one step from `loc` in direction `d`.
pub open spec fn step_target(loc: (usize, usize), d: (i8, i8)) -> (usize, usize) {
    ((loc.0 + d.0) as usize, (loc.1 + d.1) as usize)
}

/// The glyph at `loc`.
pub open spec fn cell_at(b: Seq<Seq<char>>, loc: (usize, usize)) -> char {
    b[loc.1 as int][loc.0 as int]
}

/// A consistent game: a well-formed board, the player inside the wall drawn
/// with the player glyph, and a well-formed registry.
pub open spec fn game_wf(p: PlayerView, b: Seq<Seq<char>>, blocks: Seq<Block>) -> bool {
    &&& board_wf(b)
    &&& is_interior(b, p.loc.0 as int, p.loc.1 as int)
    &&& p.symbol == PLAYER_SQUARE
    &&& registry_wf(b, blocks)
}

/// Two grids of the same dimensions.
pub open spec fn same_shape(a: Seq<Seq<char>>, b: Seq<Seq<char>>) -> bool {
    a.len() == b.len() && board_width(a) == board_width(b)
}

/// The outcome of one step of the player from `p` on `b` in direction `d`:
/// player `np` on board `nb`.
pub open spec fn player_moved(
    p: PlayerView,
    b: Seq<Seq<char>>,
    d: (i8, i8),
    np: PlayerView,
    nb: Seq<Seq<char>>,
) -> bool {
    let t = step_target(p.loc, d);
    match classify(cell_at(b, t)) {
        BlockPhysics::PassThrough(_) => {
            &&& nb == with_cell(b, p.loc.0 as int, p.loc.1 as int, BLANK_SQUARE)
            &&& np == (PlayerView { loc: t, ..p })
        },
        BlockPhysics::Solid(_) => {
            &&& nb == b
            &&& np == (PlayerView { dig_target: t, ..p })
        },
        _ => {
            &&& nb == b
            &&& np == p
        },
    }
}

/// Walks the player one step: into a walkable cell it moves, clearing the cell
/// it left; against solid material it stays and targets that cell for digging;
/// against a resource or a wall nothing happens.
pub fn move_player(player: &mut Player, board: &mut Board, target: (i8, i8))
    requires
        board_wf(old(board)@),
        is_interior(old(board)@, old(player)@.loc.0 as int, old(player)@.loc.1 as int),
        is_unit_step(target),
    ensures
        board_wf(final(board)@),
        same_shape(final(board)@, old(board)@),
        is_interior(final(board)@, final(player)@.loc.0 as int, final(player)@.loc.1 as int),
        player_moved(old(player)@, old(board)@, target, final(player)@, final(board)@),
{
    let player_loc = player.get_loc();
    let target_location = match BoardLoc::location_from_target(&player_loc, target) {
        Ok(t) => t,
        Err(_) => return ,
    };
    let target_square = BlockPhysics::new(board.get_cell(target_location.get_loc()));
    match target_square {
        BlockPhysics::PassThrough(_) => {
            board.set_cell(player_loc, BLANK_SQUARE);
            player.set_loc(target_location);
            proof {
                let b = old(board)@;
                let t = (target_location.x, target_location.y);
                assert(!on_border(b, t.0 as int, t.1 as int));
            }
        },
        BlockPhysics::Solid(_) => player.set_digg_target(target_location),
        _ => {},
    }
}

/// The cell directly below `loc`.
pub open spec fn below(loc: (usize, usize)) -> (usize, usize) {
    (loc.0, (loc.1 + 1) as usize)
}

/// Debris at `loc` can fall: the cell below shows blank and no block holds it.
pub open spec fn free_below(b: Seq<Seq<char>>, blocks: Seq<Block>, loc: (usize, usize)) -> bool {
    cell_at(b, below(loc)) == BLANK_SQUARE && !occupied(blocks, below(loc))
}

/// A block after one tick, on the board and registry as they stood when the
/// tick began: a resource under the player is collected; material at the dig
/// target wears by one stage; debris with a free cell below falls one row;
/// anything else stays as it is.
pub open spec fn next_block(
    v: BlockView,
    player_loc: (usize, usize),
    dig: (usize, usize),
    b: Seq<Seq<char>>,
    blocks: Seq<Block>,
) -> BlockView {
    if v.loc == player_loc && v.kind is Resource {
        block_of(v.loc, DUG_SQUARE)
    } else if v.loc == dig && v.kind is Solid {
        block_of(v.loc, worn(physics_glyph(v.kind)))
    } else if v.kind == classify(DUG_SQUARE) && free_below(b, blocks, v.loc) {
        block_of(below(v.loc), DUG_SQUARE)
    } else {
        v
    }
}

/// Whether two locations are equal.
pub fn same_loc(a: (usize, usize), b: (usize, usize)) -> (r: bool)
    ensures
        r == (a == b),
{
    a.0 == b.0 && a.1 == b.1
}

/// Whether some block of the registry stands at `loc`.
pub fn is_occupied(blocks: &Vec<Block>, loc: (usize, usize)) -> (r: bool)
    ensures
        r == occupied(blocks@, loc),
{
    let mut i: usize = 0;
    while i < blocks.len()
        invariant
            i <= blocks@.len(),
            forall|j: int| 0 <= j < i ==> #[trigger] blocks@[j]@.loc != loc,
        decreases blocks@.len() - i,
    {
        if same_loc(blocks[i].get_loc(), loc) {
            return true;
        }
        i += 1;
    }
    false
}

/// Debris at `block_loc` after one tick: one row lower where the cell below is
/// free, else where it was.
pub fn debris_sim(block_loc: (usize, usize), board: &Board, blocks: &Vec<Block>) -> (r: Block)
    requires
        board_wf(board@),
        is_interior(board@, block_loc.0 as int, block_loc.1 as int),
    ensures
        r@ == block_of(
            if free_below(board@, blocks@, block_loc) {
                below(block_loc)
            } else {
                block_loc
            },
            DUG_SQUARE,
        ),
{
    let target_loc = BoardLoc { x: block_loc.0, y: block_loc.1 + 1 };
    if board.get_cell(target_loc.get_loc()) == BLANK_SQUARE && !is_occupied(blocks, target_loc.get_loc()) {
        Block::new(target_loc, DUG_SQUARE)
    } else {
        Block::new(BoardLoc { x: block_loc.0, y: block_loc.1 }, DUG_SQUARE)
    }
}

/// One block after one tick.
pub fn advance_block(
    block: &Block,
    player_loc: (usize, usize),
    dig: (usize, usize),
    board: &Board,
    blocks: &Vec<Block>,
) -> (r: Block)
    requires
        board_wf(board@),
        is_interior(board@, block@.loc.0 as int, block@.loc.1 as int),
        valid_block(block@),
    ensures
        r@ == next_block(block@, player_loc, dig, board@, blocks@),
{
    let loc = block.get_loc();
    let kind = block.get_type();
    match kind {
        BlockPhysics::Resource(_) => {
            if same_loc(loc, player_loc) {
                return Block::collect_resource(loc);
            }
        },
        BlockPhysics::Solid(c) => {
            if same_loc(loc, dig) {
                return Block::digg(loc, *c);
            }
        },
        _ => {},
    }
    let symbol = block.get_symbol();
    if symbol == DUG_SQUARE {
        debris_sim(loc, board, blocks)
    } else {
        Block::new(BoardLoc { x: loc.0, y: loc.1 }, symbol)
    }
}

/// `new` is the registry `old` after one tick.
pub open spec fn stepped(
    new: Seq<Block>,
    old: Seq<Block>,
    player_loc: (usize, usize),
    dig: (usize, usize),
    b: Seq<Seq<char>>,
) -> bool {
    &&& new.len() == old.len()
    &&& forall|i: int|
        0 <= i < old.len() ==> #[trigger] new[i]@ == next_block(old[i]@, player_loc, dig, b, old)
}

/// Some block among the first `k` of the registry stands at `loc`.
pub open spec fn occupied_upto(blocks: Seq<Block>, k: int, loc: (usize, usize)) -> bool {
    exists|i: int| 0 <= i < k && #[trigger] blocks[i]@.loc == loc
}

/// `nb` is the board `b` redrawn after the registry went from `old` to `new`:
/// each block drawn where it now stands, each cell that a block left blank,
/// the player drawn on top, and every other cell as it was.
pub open spec fn projected(
    nb: Seq<Seq<char>>,
    b: Seq<Seq<char>>,
    old: Seq<Block>,
    new: Seq<Block>,
    player_loc: (usize, usize),
) -> bool {
    &&& cell_at(nb, player_loc) == PLAYER_SQUARE
    &&& forall|i: int|
        0 <= i < new.len() && (#[trigger] new[i]@).loc != player_loc ==> cell_at(nb, new[i]@.loc)
            == block_glyph(new[i]@)
    &&& forall|i: int|
        0 <= i < old.len() && 0 <= i < new.len() && (#[trigger] new[i]@).loc != old[i]@.loc
            && old[i]@.loc != player_loc ==> cell_at(nb, old[i]@.loc) == BLANK_SQUARE
    &&& forall|x: int, y: int|
        #![trigger nb[y][x]]
        in_board(b, x, y) && (x as usize, y as usize) != player_loc && !occupied(old, (x as usize, y as usize))
            && !occupied(new, (x as usize, y as usize)) ==> nb[y][x] == b[y][x]
}

/// A tick keeps the registry well formed, and a block that moves goes to the
/// cell below it, which no block held.
pub proof fn lemma_stepped_registry(
    new: Seq<Block>,
    old: Seq<Block>,
    player_loc: (usize, usize),
    dig: (usize, usize),
    b: Seq<Seq<char>>,
)
    requires
        board_wf(b),
        registry_wf(b, old),
        stepped(new, old, player_loc, dig, b),
    ensures
        registry_wf(b, new),
        forall|i: int|
            0 <= i < new.len() && (#[trigger] new[i]@).loc != old[i]@.loc ==> new[i]@.loc == below(
                old[i]@.loc,
            ) && !occupied(old, new[i]@.loc) && cell_at(b, new[i]@.loc) == BLANK_SQUARE,
{
    lemma_material_glyphs(DUG_SQUARE);
    assert forall|i: int| 0 <= i < new.len() implies {
        &&& is_interior(b, new[i]@.loc.0 as int, new[i]@.loc.1 as int)
        &&& valid_block(#[trigger] new[i]@)
    } by {
        let o = old[i]@;
        assert(valid_block(o) && is_interior(b, o.loc.0 as int, o.loc.1 as int));
        lemma_material_glyphs(physics_glyph(o.kind));
        let n = new[i]@;
        if n.loc != o.loc {
            let l = n.loc;
            assert(in_board(b, l.0 as int, l.1 as int));
            if on_border(b, l.0 as int, l.1 as int) {
                assert(cell_at(b, l) == b[l.1 as int][l.0 as int]);
            }
        }
        lemma_material_glyphs(block_glyph(n));
    }
    assert forall|i: int, j: int|
        0 <= i < new.len() && 0 <= j < new.len() && i != j implies #[trigger] new[i]@.loc
        != #[trigger] new[j]@.loc by {
        assert(old[i]@.loc != old[j]@.loc);
        if new[i]@.loc != old[i]@.loc {
            assert(old[j]@.loc == old[j]@.loc);
        }
        if new[j]@.loc != old[j]@.loc {
            assert(old[i]@.loc == old[i]@.loc);
        }
    }
}

/// Advances the game by one tick. The player's pending dig target is taken;
/// every block makes its transition against the board and registry as they
/// stood when the tick began; the board is redrawn from the registry, with the
/// player on top.
pub fn simulation_step(player: &mut Player, board: &mut Board, blocks: &mut Vec<Block>)
    requires
        game_wf(old(player)@, old(board)@, old(blocks)@),
    ensures
        game_wf(final(player)@, final(board)@, final(blocks)@),
        final(player)@ == (PlayerView { dig_target: NO_TARGET, ..old(player)@ }),
        same_shape(final(board)@, old(board)@),
        stepped(final(blocks)@, old(blocks)@, old(player)@.loc, old(player)@.dig_target, old(board)@),
        projected(final(board)@, old(board)@, old(blocks)@, final(blocks)@, old(player)@.loc),
{
    let ghost b0 = board@;
    let ghost old_blocks = blocks@;
    let player_loc = player.get_loc();
    let dig = player.get_digg_target();
    let n = blocks.len();
    let mut new_blocks: Vec<Block> = Vec::with_capacity(n);
    let mut k: usize = 0;
    while k < n
        invariant
            n == blocks@.len(),
            blocks@ == old_blocks,
            board@ == b0,
            board_wf(b0),
            registry_wf(b0, old_blocks),
            k <= n,
            new_blocks@.len() == k,
            forall|i: int|
                0 <= i < k ==> #[trigger] new_blocks@[i]@ == next_block(
                    old_blocks[i]@,
                    player_loc,
                    dig,
                    b0,
                    old_blocks,
                ),
        decreases n - k,
    {
        assert(valid_block(old_blocks[k as int]@));
        let next = advance_block(&blocks[k], player_loc, dig, board, blocks);
        new_blocks.push(next);
        k += 1;
    }
    proof {
        lemma_stepped_registry(new_blocks@, old_blocks, player_loc, dig, b0);
    }
    let ghost new_v = new_blocks@;
    k = 0;
    while k < n
        invariant
            n == old_blocks.len(),
            blocks@ == old_blocks,
            new_blocks@ == new_v,
            stepped(new_v, old_blocks, player_loc, dig, b0),
            registry_wf(b0, old_blocks),
            registry_wf(b0, new_v),
            forall|i: int|
                0 <= i < new_v.len() && (#[trigger] new_v[i]@).loc != old_blocks[i]@.loc ==> new_v[i]@.loc
                    == below(old_blocks[i]@.loc) && !occupied(old_blocks, new_v[i]@.loc),
            board_wf(b0),
            board_wf(board@),
            same_shape(board@, b0),
            k <= n,
            forall|i: int|
                0 <= i < k ==> cell_at(board@, (#[trigger] new_v[i]@).loc) == block_glyph(new_v[i]@),
            forall|i: int|
                0 <= i < k && (#[trigger] new_v[i]@).loc != old_blocks[i]@.loc ==> cell_at(
                    board@,
                    old_blocks[i]@.loc,
                ) == BLANK_SQUARE,
            forall|x: int, y: int|
                #![trigger board@[y][x]]
                in_board(b0, x, y) && !occupied_upto(old_blocks, k as int, (x as usize, y as usize))
                    && !occupied_upto(new_v, k as int, (x as usize, y as usize)) ==> board@[y][x]
                    == b0[y][x],
        decreases n - k,
    {
        let ghost cur = board@;
        let old_loc = blocks[k].get_loc();
        let new_loc = new_blocks[k].get_loc();
        let glyph = new_blocks[k].get_symbol();
        proof {
            assert(valid_block(new_v[k as int]@));
            lemma_material_glyphs(glyph);
            assert(old_blocks[k as int]@.loc == old_loc);
            assert(new_v[k as int]@.loc == new_loc);
        }
        if !same_loc(old_loc, new_loc) {
            board.set_cell(old_loc, BLANK_SQUARE);
        }
        let ghost mid = board@;
        board.set_cell(new_loc, glyph);
        proof {
            let nb = board@;
            assert forall|i: int| 0 <= i < k + 1 implies cell_at(nb, (#[trigger] new_v[i]@).loc)
                == block_glyph(new_v[i]@) by {
                if i < k {
                    assert(new_v[i]@.loc != new_v[k as int]@.loc);
                    if new_v[i]@.loc == old_loc && old_loc != new_loc {
                        if new_v[i]@.loc == old_blocks[i]@.loc {
                            assert(old_blocks[i]@.loc != old_blocks[k as int]@.loc);
                        } else {
                            assert(occupied(old_blocks, old_loc));
                        }
                    }
                }
            }
            assert forall|i: int|
                0 <= i < k + 1 && (#[trigger] new_v[i]@).loc != old_blocks[i]@.loc implies cell_at(
                nb,
                old_blocks[i]@.loc,
            ) == BLANK_SQUARE by {
                if i < k {
                    if old_blocks[i]@.loc == new_loc {
                        if new_loc == old_loc {
                            assert(old_blocks[i]@.loc != old_blocks[k as int]@.loc);
                        } else {
                            assert(occupied(old_blocks, new_loc));
                        }
                    }
                }
            }
            assert forall|x: int, y: int|
                #![trigger nb[y][x]]
                in_board(b0, x, y) && !occupied_upto(old_blocks, k + 1, (x as usize, y as usize))
                    && !occupied_upto(new_v, k + 1, (x as usize, y as usize)) implies nb[y][x]
                == b0[y][x] by {
                let l = (x as usize, y as usize);
                if occupied_upto(old_blocks, k as int, l) {
                    let i = choose|i: int| 0 <= i < k && #[trigger] old_blocks[i]@.loc == l;
                    assert(0 <= i < k + 1 && old_blocks[i]@.loc == l);
                }
                if occupied_upto(new_v, k as int, l) {
                    let i = choose|i: int| 0 <= i < k && #[trigger] new_v[i]@.loc == l;
                    assert(0 <= i < k + 1 && new_v[i]@.loc == l);
                }
                assert(old_blocks[k as int]@.loc != l);
                assert(new_v[k as int]@.loc != l);
                assert(cur[y][x] == b0[y][x]);
            }
        }
        k += 1;
    }
    let ghost pre = board@;
    board.set_cell(player_loc, player.get_symbol());
    *blocks = new_blocks;
    proof {
        let nb = board@;
        assert forall|x: int, y: int|
            #![trigger nb[y][x]]
            in_board(b0, x, y) && (x as usize, y as usize) != player_loc && !occupied(
                old_blocks,
                (x as usize, y as usize),
            ) && !occupied(new_v, (x as usize, y as usize)) implies nb[y][x] == b0[y][x] by {
            let l = (x as usize, y as usize);
            if occupied_upto(old_blocks, n as int, l) {
                let i = choose|i: int| 0 <= i < n && #[trigger] old_blocks[i]@.loc == l;
                assert(occupied(old_blocks, l));
            }
            if occupied_upto(new_v, n as int, l) {
                let i = choose|i: int| 0 <= i < n && #[trigger] new_v[i]@.loc == l;
                assert(occupied(new_v, l));
            }
            assert(pre[y][x] == b0[y][x]);
        }
        assert forall|i: int|
            0 <= i < new_v.len() && (#[trigger] new_v[i]@).loc != player_loc implies cell_at(
            nb,
            new_v[i]@.loc,
        ) == block_glyph(new_v[i]@) by {
            assert(cell_at(pre, new_v[i]@.loc) == block_glyph(new_v[i]@));
        }
        assert forall|i: int|
            0 <= i < old_blocks.len() && 0 <= i < new_v.len() && (#[trigger] new_v[i]@).loc
                != old_blocks[i]@.loc && old_blocks[i]@.loc != player_loc implies cell_at(
            nb,
            old_blocks[i]@.loc,
        ) == BLANK_SQUARE by {
            assert(cell_at(pre, old_blocks[i]@.loc) == BLANK_SQUARE);
        }
        assert(registry_wf(nb, new_v));
    }
}

} // verus!
