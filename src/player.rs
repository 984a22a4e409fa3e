//! The player: where it stands, how it is drawn, and what it digs next.

use vstd::prelude::*;

use crate::glyphs::PLAYER_SQUARE;
use crate::location::BoardLoc;

verus! {

/// The dig target that stands for "none": a wall corner, which holds no block.
pub const NO_TARGET: (usize, usize) = (0, 0);

/// Column where a new player starts.
pub const START_X: usize = 12;

/// Row where a new player starts.
pub const START_Y: usize = 2;

/// What a player is: location, glyph and pending dig target.
pub struct PlayerView {
    pub loc: (usize, usize),
    pub symbol: char,
    pub dig_target: (usize, usize),
}

pub struct Player {
    location: BoardLoc,
    symbol: char,
    digg_target: (usize, usize),
}

impl View for Player {
    type V = PlayerView;

    closed spec fn view(&self) -> PlayerView {
        PlayerView {
            loc: (self.location.x, self.location.y),
            symbol: self.symbol,
            dig_target: self.digg_target,
        }
    }
}

impl Player {
    /// A player at the start position with no dig target.
    pub fn new() -> (r: Player)
        ensures
            r@ == (PlayerView { loc: (START_X, START_Y), symbol: PLAYER_SQUARE, dig_target: NO_TARGET }),
    {
        Player::at((START_X, START_Y))
    }

    /// A player at `loc` with no dig target.
    pub fn at(loc: (usize, usize)) -> (r: Player)
        ensures
            r@ == (PlayerView { loc, symbol: PLAYER_SQUARE, dig_target: NO_TARGET }),
    {
        Player { location: BoardLoc { x: loc.0, y: loc.1 }, symbol: PLAYER_SQUARE, digg_target: NO_TARGET }
    }

    pub fn set_loc(&mut self, player_loc: BoardLoc)
        ensures
            final(self)@ == (PlayerView { loc: (player_loc.x, player_loc.y), ..old(self)@ }),
    {
        self.location.x = player_loc.x;
        self.location.y = player_loc.y;
    }

    pub fn set_digg_target(&mut self, target: BoardLoc)
        ensures
            final(self)@ == (PlayerView { dig_target: (target.x, target.y), ..old(self)@ }),
    {
        self.digg_target = target.get_loc();
    }

    pub fn get_loc(&self) -> (r: (usize, usize))
        ensures
            r == self@.loc,
    {
        self.location.get_loc()
    }

    pub fn get_symbol(&self) -> (r: char)
        ensures
            r == self@.symbol,
    {
        self.symbol
    }

    /// Takes the pending dig target, leaving none behind.
    pub fn get_digg_target(&mut self) -> (r: (usize, usize))
        ensures
            r == old(self)@.dig_target,
            final(self)@ == (PlayerView { dig_target: NO_TARGET, ..old(self)@ }),
    {
        let dig_target = self.digg_target;
        self.digg_target = NO_TARGET;
        dig_target
    }
}

} // verus!
