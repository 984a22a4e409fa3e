//! Cell glyphs and the physical class that each glyph belongs to.

use vstd::prelude::*;

verus! {

/// An empty interior cell.
pub const BLANK_SQUARE: char = ' ';

/// A collectible resource.
pub const RESOURCE_SQUARE: char = '◈';

/// The terminal state of a dug or collected block; loose debris.
pub const DUG_SQUARE: char = '.';

/// The glyph that the player is drawn with.
pub const PLAYER_SQUARE: char = '@';

/// The wall glyph of the left and right edges.
pub const VERTICAL_WALL: char = '|';

/// The wall glyph of the top and bottom edges.
pub const HORIZONTAL_WALL: char = '#';

/// Number of wear stages of solid material.
pub const PALETTE_LEN: usize = 4;

/// The solid materials, from the heaviest to the most worn.
pub open spec fn material_palette() -> Seq<char> {
    seq!['█', '▓', '▩', '▦']
}

pub open spec fn is_material(c: char) -> bool {
    material_palette().contains(c)
}

pub open spec fn is_wall_glyph(c: char) -> bool {
    c == VERTICAL_WALL || c == HORIZONTAL_WALL
}

/// What one dig leaves of the material at palette position `i`: the next,
/// more worn material, or debris after the last one.
pub open spec fn wear_at(i: int) -> char {
    if i + 1 < material_palette().len() {
        material_palette()[i + 1]
    } else {
        DUG_SQUARE
    }
}

/// What one dig leaves of a material glyph.
pub open spec fn worn(c: char) -> char {
    wear_at(material_palette().index_of(c))
}

/// The glyph at a position of the palette wears as that position says.
pub proof fn lemma_worn_at(i: int)
    requires
        0 <= i < material_palette().len(),
    ensures
        worn(material_palette()[i]) == wear_at(i),
{
    let p = material_palette();
    let c = p[i];
    assert(p[i] == c);
    let j = p.index_of(c);
    assert(0 <= j < p.len() && p[j] == c);
    assert(j == i);
}

/// Material glyphs are none of the other glyphs, and one dig leaves material
/// or debris.
pub proof fn lemma_material_glyphs(c: char)
    ensures
        is_material(c) ==> !is_wall_glyph(c) && c != DUG_SQUARE && c != RESOURCE_SQUARE && c
            != BLANK_SQUARE && c != PLAYER_SQUARE,
        is_material(c) ==> is_material(worn(c)) || worn(c) == DUG_SQUARE,
        !is_material(DUG_SQUARE),
        !is_material(RESOURCE_SQUARE),
        !is_material(BLANK_SQUARE),
        !is_material(PLAYER_SQUARE),
        !is_material(VERTICAL_WALL),
        !is_material(HORIZONTAL_WALL),
{
    let p = material_palette();
    if is_material(c) {
        let i = choose|i: int| 0 <= i < p.len() && p[i] == c;
        lemma_worn_at(i);
        if i + 1 < p.len() {
            assert(p[i + 1] == wear_at(i));
            assert(p.contains(p[i + 1]));
        }
    }
    assert forall|d: char|
        d == DUG_SQUARE || d == RESOURCE_SQUARE || d == BLANK_SQUARE || d == PLAYER_SQUARE || d
            == VERTICAL_WALL || d == HORIZONTAL_WALL implies !#[trigger] is_material(d) by {
        if p.contains(d) {
            let i = choose|i: int| 0 <= i < p.len() && p[i] == d;
            assert(p[i] == d);
        }
    }
}

/// How a cell behaves physically.
#[derive(Clone, Copy, Debug, PartialEq, Eq, Structural)]
pub enum BlockPhysics {
    /// Impassable and diggable material of the palette.
    Solid(char),
    /// Impassable; collected when the player stands on it.
    Resource(char),
    /// Walkable: blank, dug debris, or any glyph not recognised.
    PassThrough(char),
    /// The permanent border.
    Wall,
}

/// The class of a glyph.
pub open spec fn classify(c: char) -> BlockPhysics {
    if is_material(c) {
        BlockPhysics::Solid(c)
    } else if c == RESOURCE_SQUARE {
        BlockPhysics::Resource(c)
    } else if is_wall_glyph(c) {
        BlockPhysics::Wall
    } else {
        BlockPhysics::PassThrough(c)
    }
}

/// The glyph that a class is drawn with.
pub open spec fn physics_glyph(p: BlockPhysics) -> char {
    match p {
        BlockPhysics::Solid(c) => c,
        BlockPhysics::Resource(c) => c,
        BlockPhysics::PassThrough(c) => c,
        BlockPhysics::Wall => HORIZONTAL_WALL,
    }
}

/// How a glyph is shown on the terminal.
#[derive(Clone, Copy, Debug, PartialEq, Eq, Structural)]
pub enum CellStyle {
    Wall,
    Resource,
    Dug,
    Player,
    Plain,
}

/// The display style of a glyph: walls, resources, debris and the player each
/// have their own; everything else is plain.
pub open spec fn style_of(c: char) -> CellStyle {
    if is_wall_glyph(c) {
        CellStyle::Wall
    } else if c == RESOURCE_SQUARE {
        CellStyle::Resource
    } else if c == DUG_SQUARE {
        CellStyle::Dug
    } else if c == PLAYER_SQUARE {
        CellStyle::Player
    } else {
        CellStyle::Plain
    }
}

pub fn cell_style(c: char) -> (r: CellStyle)
    ensures
        r == style_of(c),
{
    if c == VERTICAL_WALL || c == HORIZONTAL_WALL {
        CellStyle::Wall
    } else if c == RESOURCE_SQUARE {
        CellStyle::Resource
    } else if c == DUG_SQUARE {
        CellStyle::Dug
    } else if c == PLAYER_SQUARE {
        CellStyle::Player
    } else {
        CellStyle::Plain
    }
}

/// Position of a glyph in the material palette.
pub fn palette_index(c: char) -> (r: Option<usize>)
    ensures
        match r {
            Some(i) => i < material_palette().len() && material_palette()[i as int] == c,
            None => !is_material(c),
        },
{
    if c == '█' {
        Some(0)
    } else if c == '▓' {
        Some(1)
    } else if c == '▩' {
        Some(2)
    } else if c == '▦' {
        Some(3)
    } else {
        proof {
            if is_material(c) {
                let i = choose|i: int| 0 <= i < material_palette().len() && material_palette()[i] == c;
                assert(material_palette()[i] == c);
            }
        }
        None
    }
}

/// The material glyph at a position of the palette.
pub fn palette_glyph(i: usize) -> (c: char)
    requires
        i < material_palette().len(),
    ensures
        c == material_palette()[i as int],
{
    if i == 0 {
        '█'
    } else if i == 1 {
        '▓'
    } else if i == 2 {
        '▩'
    } else {
        '▦'
    }
}

/// The glyph that one dig leaves of a material glyph.
pub fn wear(c: char) -> (r: char)
    requires
        is_material(c),
    ensures
        r == worn(c),
{
    match palette_index(c) {
        Some(i) => {
            proof {
                lemma_worn_at(i as int);
            }
            if i < PALETTE_LEN - 1 {
                palette_glyph(i + 1)
            } else {
                DUG_SQUARE
            }
        },
        None => DUG_SQUARE,
    }
}

impl BlockPhysics {
    /// Classifies a glyph.
    pub fn new(symbol: char) -> (r: BlockPhysics)
        ensures
            r == classify(symbol),
    {
        if palette_index(symbol).is_some() {
            BlockPhysics::Solid(symbol)
        } else if symbol == RESOURCE_SQUARE {
            BlockPhysics::Resource(symbol)
        } else if symbol == VERTICAL_WALL || symbol == HORIZONTAL_WALL {
            BlockPhysics::Wall
        } else {
            BlockPhysics::PassThrough(symbol)
        }
    }

    /// The glyph that this class is drawn with.
    pub fn glyph(&self) -> (c: char)
        ensures
            c == physics_glyph(*self),
    {
        match self {
            BlockPhysics::Solid(c) => *c,
            BlockPhysics::Resource(c) => *c,
            BlockPhysics::PassThrough(c) => *c,
            BlockPhysics::Wall => HORIZONTAL_WALL,
        }
    }
}

} // verus!
