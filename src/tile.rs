//! Cell states, the two sides, and the move descriptors.
use vstd::prelude::*;

verus! {

/// The state of one cell: its elevation and, for raised and lowered cells,
/// whether a piece stands on it. Level cells never hold a piece.
#[derive(Clone, Copy, PartialEq, Eq, Debug, Structural)]
pub enum Tile {
    High(bool),
    Normal,
    Low(bool),
}

impl Tile {
    /// One level down; an occupied raised cell and any lowered cell stay as they are.
    pub open spec fn lowered(self) -> Tile {
        match self {
            Tile::High(false) => Tile::Normal,
            Tile::Normal => Tile::Low(false),
            _ => self,
        }
    }

    /// One level up; an occupied lowered cell and any raised cell stay as they are.
    pub open spec fn raised(self) -> Tile {
        match self {
            Tile::Low(false) => Tile::Normal,
            Tile::Normal => Tile::High(false),
            _ => self,
        }
    }

    /// Occupancy flipped; a level cell stays level.
    pub open spec fn toggled(self) -> Tile {
        match self {
            Tile::High(b) => Tile::High(!b),
            Tile::Low(b) => Tile::Low(!b),
            Tile::Normal => Tile::Normal,
        }
    }

    /// A piece stands on the cell.
    pub open spec fn holds_piece(self) -> bool {
        match self {
            Tile::High(b) => b,
            Tile::Low(b) => b,
            Tile::Normal => false,
        }
    }

    /// Four characters that draw the cell.
    pub open spec fn picture(self) -> Seq<char> {
        match self {
            Tile::High(true) => seq!['+', 'O', 'O', '+'],
            Tile::High(false) => seq!['+', '+', '+', '+'],
            Tile::Normal => seq!['=', '=', '=', '='],
            Tile::Low(true) => seq!['-', 'X', 'X', '-'],
            Tile::Low(false) => seq!['-', '-', '-', '-'],
        }
    }

    /// Four characters that draw the cell.
    pub fn repr(&self) -> (r: String)
        ensures
            r@ == self.picture(),
    {
        let s = match self {
            Tile::High(true) => "+OO+",
            Tile::High(false) => "++++",
            Tile::Normal => "====",
            Tile::Low(true) => "-XX-",
            Tile::Low(false) => "----",
        };
        proof {
            reveal_strlit("+OO+");
            reveal_strlit("++++");
            reveal_strlit("====");
            reveal_strlit("-XX-");
            reveal_strlit("----");
        }
        let r = String::from_str(s);
        assert(r@ =~= self.picture());
        r
    }

    /// The cell one level down (see `lowered`).
    pub fn reduce(&self) -> (r: Tile)
        ensures
            r == self.lowered(),
    {
        match self {
            Tile::High(false) => Tile::Normal,
            Tile::Normal => Tile::Low(false),
            _ => *self,
        }
    }

    /// The cell one level up (see `raised`).
    pub fn increase(&self) -> (r: Tile)
        ensures
            r == self.raised(),
    {
        match self {
            Tile::Low(false) => Tile::Normal,
            Tile::Normal => Tile::High(false),
            _ => *self,
        }
    }

    /// The cell with its occupancy flipped (see `toggled`).
    pub fn switch(&self) -> (r: Tile)
        ensures
            r == self.toggled(),
    {
        match self {
            Tile::High(b) => Tile::High(!*b),
            Tile::Low(b) => Tile::Low(!*b),
            Tile::Normal => Tile::Normal,
        }
    }

    /// Whether a piece stands on the cell.
    pub fn occupied(&self) -> (r: bool)
        ensures
            r == self.holds_piece(),
    {
        match self {
            Tile::High(b) => *b,
            Tile::Low(b) => *b,
            Tile::Normal => false,
        }
    }
}

/// The two sides. Top's pieces stand on raised cells and start in cells 0 to 3;
/// Bottom's stand on lowered cells and start in cells 33 to 36.
#[derive(Clone, Copy, PartialEq, Eq, Debug, Structural)]
pub enum Player {
    Top,
    Bottom,
}

impl Player {
    /// The other side.
    pub open spec fn opponent(self) -> Player {
        match self {
            Player::Top => Player::Bottom,
            Player::Bottom => Player::Top,
        }
    }

    /// The state of a cell that holds one of this side's pieces.
    pub open spec fn piece_tile(self) -> Tile {
        match self {
            Player::Top => Tile::High(true),
            Player::Bottom => Tile::Low(true),
        }
    }

    /// The state of an empty cell that this side's pieces may enter.
    pub open spec fn free_tile(self) -> Tile {
        match self {
            Player::Top => Tile::High(false),
            Player::Bottom => Tile::Low(false),
        }
    }

    /// Cell `c` lies in this side's home row.
    pub open spec fn home_row(self, c: int) -> bool {
        match self {
            Player::Top => 0 <= c <= 3,
            Player::Bottom => 33 <= c <= 36,
        }
    }

    /// The other side.
    pub fn switch(&self) -> (r: Player)
        ensures
            r == self.opponent(),
    {
        match self {
            Player::Top => Player::Bottom,
            Player::Bottom => Player::Top,
        }
    }
}

/// One of the two moves of a turn, over cell indices.
#[derive(Clone, Copy, PartialEq, Eq, Debug, Structural)]
pub enum Move {
    /// Moves one level of terrain from the first cell to the second.
    TileMove(usize, usize),
    /// Moves a piece from the first cell to the adjacent second cell.
    PieceMove(usize, usize),
    /// Removes the opposing piece on the cell.
    Capture(usize),
}

impl Move {
    /// Every cell the move names is on the board.
    pub open spec fn on_board(self) -> bool {
        match self {
            Move::TileMove(a, b) => a < 37 && b < 37,
            Move::PieceMove(a, b) => a < 37 && b < 37,
            Move::Capture(c) => c < 37,
        }
    }

    /// Position of the move's kind in the order in which a turn applies its
    /// two moves: terrain first, then capture, then the piece move.
    pub open spec fn rank(self) -> int {
        match self {
            Move::TileMove(..) => 0,
            Move::Capture(..) => 1,
            Move::PieceMove(..) => 2,
        }
    }

    /// Whether every cell the move names is on the board.
    pub fn within_board(&self) -> (r: bool)
        ensures
            r == self.on_board(),
    {
        match self {
            Move::TileMove(a, b) => *a < 37 && *b < 37,
            Move::PieceMove(a, b) => *a < 37 && *b < 37,
            Move::Capture(c) => *c < 37,
        }
    }

    /// Position of the move's kind in the order of application (see `rank`).
    pub fn kind_rank(&self) -> (r: u8)
        ensures
            r as int == self.rank(),
    {
        match self {
            Move::TileMove(..) => 0,
            Move::Capture(..) => 1,
            Move::PieceMove(..) => 2,
        }
    }
}

} // verus!
