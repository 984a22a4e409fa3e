//! Blocks: diggable material and resources that sit on the board.

use vstd::prelude::*;

use crate::glyphs::{classify, is_material, physics_glyph, wear, worn, BlockPhysics, DUG_SQUARE, RESOURCE_SQUARE};
use crate::board::is_interior;
use crate::location::BoardLoc;

verus! {

/// What a block is: where it stands and how it behaves.
pub struct BlockView {
    pub loc: (usize, usize),
    pub kind: BlockPhysics,
}

/// A block of the registry.
pub struct Block {
    location: BoardLoc,
    symbol: BlockPhysics,
}

impl View for Block {
    type V = BlockView;

    closed spec fn view(&self) -> BlockView {
        BlockView { loc: (self.location.x, self.location.y), kind: self.symbol }
    }
}

/// A block at `loc` holding the class of glyph `c`.
pub open spec fn block_of(loc: (usize, usize), c: char) -> BlockView {
    BlockView { loc, kind: classify(c) }
}

/// The glyph a block is drawn with.
pub open spec fn block_glyph(b: BlockView) -> char {
    physics_glyph(b.kind)
}

/// The glyph that a generation roll picks for a new block.
pub open spec fn generation_glyph(roll: u8) -> char {
    if roll == 0 {
        '█'
    } else if roll == 1 {
        '▓'
    } else {
        RESOURCE_SQUARE
    }
}

/// A glyph that a block can hold: material, a resource, or debris.
pub open spec fn is_block_glyph(c: char) -> bool {
    is_material(c) || c == RESOURCE_SQUARE || c == DUG_SQUARE
}

/// A block whose class is that of a block glyph.
pub open spec fn valid_block(b: BlockView) -> bool {
    is_block_glyph(block_glyph(b)) && b.kind == classify(block_glyph(b))
}

/// The registry holds valid blocks on interior cells, at most one per cell.
pub open spec fn registry_wf(board: Seq<Seq<char>>, blocks: Seq<Block>) -> bool {
    &&& forall|i: int|
        0 <= i < blocks.len() ==> {
            &&& is_interior(board, blocks[i]@.loc.0 as int, blocks[i]@.loc.1 as int)
            &&& valid_block(#[trigger] blocks[i]@)
        }
    &&& forall|i: int, j: int|
        0 <= i < blocks.len() && 0 <= j < blocks.len() && i != j ==> #[trigger] blocks[i]@.loc
            != #[trigger] blocks[j]@.loc
}

/// Some block of the registry stands at `loc`.
pub open spec fn occupied(blocks: Seq<Block>, loc: (usize, usize)) -> bool {
    exists|i: int| 0 <= i < blocks.len() && #[trigger] blocks[i]@.loc == loc
}

/// Every glyph that generation picks is a block glyph, drawn as itself.
pub proof fn lemma_generation_glyph(roll: u8)
    ensures
        is_block_glyph(generation_glyph(roll)),
        valid_block(block_of((0, 0), generation_glyph(roll))),
        physics_glyph(classify(generation_glyph(roll))) == generation_glyph(roll),
{
    let p = crate::glyphs::material_palette();
    assert(p[0] == '█' && p[1] == '▓');
    assert(!p.contains(RESOURCE_SQUARE)) by {
        if p.contains(RESOURCE_SQUARE) {
            let i = choose|i: int| 0 <= i < p.len() && p[i] == RESOURCE_SQUARE;
            assert(p[i] == RESOURCE_SQUARE);
        }
    }
}

impl Block {
    /// A block at `location` holding the class of `symbol`.
    pub fn new(location: BoardLoc, symbol: char) -> (r: Block)
        ensures
            r@ == block_of((location.x, location.y), symbol),
    {
        Block { location, symbol: BlockPhysics::new(symbol) }
    }

    /// A freshly generated block at `loc`, its material picked by `roll`.
    pub fn build(loc: (usize, usize), roll: u8) -> (r: Block)
        ensures
            r@ == block_of(loc, generation_glyph(roll)),
    {
        let symbol = if roll == 0 {
            '█'
        } else if roll == 1 {
            '▓'
        } else {
            RESOURCE_SQUARE
        };
        Block::new(BoardLoc { x: loc.0, y: loc.1 }, symbol)
    }

    /// The debris that a collected resource at `loc` leaves.
    pub fn collect_resource(loc: (usize, usize)) -> (r: Block)
        ensures
            r@ == block_of(loc, DUG_SQUARE),
    {
        Block::new(BoardLoc { x: loc.0, y: loc.1 }, DUG_SQUARE)
    }

    /// The block at `loc` after one dig into material `symbol`.
    pub fn digg(loc: (usize, usize), symbol: char) -> (r: Block)
        requires
            is_material(symbol),
        ensures
            r@ == block_of(loc, worn(symbol)),
    {
        Block::new(BoardLoc { x: loc.0, y: loc.1 }, wear(symbol))
    }

    pub fn get_loc(&self) -> (r: (usize, usize))
        ensures
            r == self@.loc,
    {
        self.location.get_loc()
    }

    pub fn get_symbol(&self) -> (r: char)
        ensures
            r == block_glyph(self@),
    {
        self.symbol.glyph()
    }

    pub fn get_type(&self) -> (r: &BlockPhysics)
        ensures
            *r == self@.kind,
    {
        &self.symbol
    }
}

} // verus!
