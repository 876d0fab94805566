//! The board: 37 cells and the side to move, with move legality, execution,
//! rollback, and the two-move turn protocol.
use vstd::prelude::*;

use crate::adjacency::{adjacent, get_adjacent, is_cell, CELL_COUNT};
use crate::tile::{Move, Player, Tile};

verus! {

/// Why a turn was refused. The board is unchanged after each of them.
#[derive(Clone, Copy, PartialEq, Eq, Debug, Structural)]
pub enum TurnError {
    /// The two moves are of the same kind.
    InvalidCombination,
    /// The move applied first is illegal on the board as it stands.
    FirstMoveIllegal,
    /// The move applied second is illegal once the first has been applied.
    SecondMoveIllegal,
}

impl TurnError {
    /// The sentence shown to a player.
    pub open spec fn text(self) -> Seq<char> {
        match self {
            TurnError::InvalidCombination => "This move-combination is not allowed"@,
            TurnError::FirstMoveIllegal => "The first move was illegal"@,
            TurnError::SecondMoveIllegal => "The second move was illegal"@,
        }
    }

    /// The sentence shown to a player.
    pub fn message(&self) -> (r: String)
        ensures
            r@ == self.text(),
    {
        match self {
            TurnError::InvalidCombination => String::from_str("This move-combination is not allowed"),
            TurnError::FirstMoveIllegal => String::from_str("The first move was illegal"),
            TurnError::SecondMoveIllegal => String::from_str("The second move was illegal"),
        }
    }
}

/// What a board holds: the state of each cell and the side to move.
pub struct BoardView {
    pub cells: Seq<Tile>,
    pub turn: Player,
}

/// The cells after move `m`: a terrain move lowers its first cell and then
/// raises its second; a piece move toggles both its cells; a capture toggles
/// its cell.
pub open spec fn applied(cells: Seq<Tile>, m: Move) -> Seq<Tile> {
    match m {
        Move::TileMove(a, b) => {
            let c1 = cells.update(a as int, cells[a as int].lowered());
            c1.update(b as int, c1[b as int].raised())
        },
        Move::PieceMove(a, b) => {
            let c1 = cells.update(a as int, cells[a as int].toggled());
            c1.update(b as int, c1[b as int].toggled())
        },
        Move::Capture(c) => cells.update(c as int, cells[c as int].toggled()),
    }
}

/// The cells after taking back move `m` by the inverse steps of `applied`: a
/// terrain move raises its first cell and then lowers its second.
pub open spec fn undone(cells: Seq<Tile>, m: Move) -> Seq<Tile> {
    match m {
        Move::TileMove(a, b) => {
            let c1 = cells.update(a as int, cells[a as int].raised());
            c1.update(b as int, c1[b as int].lowered())
        },
        Move::PieceMove(a, b) => {
            let c1 = cells.update(a as int, cells[a as int].toggled());
            c1.update(b as int, c1[b as int].toggled())
        },
        Move::Capture(c) => cells.update(c as int, cells[c as int].toggled()),
    }
}

/// Terrain may leave `from` unless it is lowered or holds a raised piece, and
/// may reach `to` unless it is raised or holds a lowered piece; neither cell may
/// lie in the home row of the side to move.
pub open spec fn terrain_legal(v: BoardView, from: int, to: int) -> bool {
    let a = v.cells[from];
    let b = v.cells[to];
    !(a is Low) && a != Tile::High(true) && !(b is High) && b != Tile::Low(true)
        && !v.turn.home_row(from) && !v.turn.home_row(to)
}

/// A piece of the side to move steps to an adjacent free cell of its own level.
pub open spec fn piece_legal(v: BoardView, from: int, to: int) -> bool {
    adjacent(from, to) && v.cells[from] == v.turn.piece_tile() && v.cells[to] == v.turn.free_tile()
}

/// At least two distinct cells adjacent to `at` hold a piece of `p`.
pub open spec fn flanked(cells: Seq<Tile>, p: Player, at: int) -> bool {
    exists|a: int, b: int|
        a != b && adjacent(at, a) && adjacent(at, b) && #[trigger] cells[a] == p.piece_tile()
            && #[trigger] cells[b] == p.piece_tile()
}

/// An opposing piece stands on `at` and the side to move flanks it.
pub open spec fn capture_legal(v: BoardView, at: int) -> bool {
    v.cells[at] == v.turn.opponent().piece_tile() && flanked(v.cells, v.turn, at)
}

/// Move `m` is legal for the side to move on board `v`.
pub open spec fn legal(v: BoardView, m: Move) -> bool {
    match m {
        Move::TileMove(a, b) => terrain_legal(v, a as int, b as int),
        Move::PieceMove(a, b) => piece_legal(v, a as int, b as int),
        Move::Capture(c) => capture_legal(v, c as int),
    }
}

/// Board `v` after move `m`; the side to move is unchanged.
pub open spec fn after(v: BoardView, m: Move) -> BoardView {
    BoardView { cells: applied(v.cells, m), turn: v.turn }
}

/// The two moves of a turn in the order they are applied, or `None` when both
/// are of the same kind.
pub open spec fn ordered(ms: Seq<Move>) -> Option<(Move, Move)> {
    if ms[0].rank() == ms[1].rank() {
        None
    } else if ms[0].rank() < ms[1].rank() {
        Some((ms[0], ms[1]))
    } else {
        Some((ms[1], ms[0]))
    }
}

/// The board after a turn of moves `ms` on `v`, and what the turn reports.
pub open spec fn turn_outcome(v: BoardView, ms: Seq<Move>) -> (BoardView, Result<(), TurnError>) {
    match ordered(ms) {
        None => (v, Err(TurnError::InvalidCombination)),
        Some((m1, m2)) => if !legal(v, m1) {
            (v, Err(TurnError::FirstMoveIllegal))
        } else if !legal(after(v, m1), m2) {
            (v, Err(TurnError::SecondMoveIllegal))
        } else {
            (
                BoardView { cells: applied(applied(v.cells, m1), m2), turn: v.turn.opponent() },
                Ok(()),
            )
        },
    }
}

/// A game in progress.
pub struct IsoPath {
    board: [Tile; 37],
    turn: Player,
}

impl View for IsoPath {
    type V = BoardView;

    closed spec fn view(&self) -> BoardView {
        BoardView { cells: self.board@, turn: self.turn }
    }
}

impl IsoPath {
    /// The board holds exactly 37 cells.
    pub closed spec fn wf(&self) -> bool {
        self.board@.len() == 37
    }

    /// The starting position: Top's pieces on raised cells 0 to 3, Bottom's
    /// on lowered cells 33 to 36, every other cell level, Top to move.
    pub fn new() -> (r: IsoPath)
        ensures
            r.wf(),
            r@.cells.len() == 37,
            forall|i: int| 0 <= i < 4 ==> r@.cells[i] == Tile::High(true),
            forall|i: int| 33 <= i < 37 ==> r@.cells[i] == Tile::Low(true),
            forall|i: int| 4 <= i < 33 ==> r@.cells[i] == Tile::Normal,
            r@.turn == Player::Top,
    {
        let mut board = [Tile::Normal; 37];
        let mut i: usize = 0;
        while i < 4
            invariant
                i <= 4,
                forall|j: int| 0 <= j < i ==> board@[j] == Tile::High(true),
                forall|j: int| 37 - i <= j < 37 ==> board@[j] == Tile::Low(true),
                forall|j: int| i <= j < 37 - i ==> board@[j] == Tile::Normal,
            decreases 4 - i,
        {
            board[i] = Tile::High(true);
            board[36 - i] = Tile::Low(true);
            i += 1;
        }
        IsoPath { board, turn: Player::Top }
    }

    /// A game at the given position with `turn` to move.
    pub fn from_cells(cells: [Tile; 37], turn: Player) -> (r: IsoPath)
        ensures
            r.wf(),
            r@.cells == cells@,
            r@.turn == turn,
    {
        IsoPath { board: cells, turn }
    }

    /// The state of cell `i`.
    pub fn tile(&self, i: usize) -> (r: Tile)
        requires
            self.wf(),
            i < CELL_COUNT,
        ensures
            r == self@.cells[i as int],
    {
        self.board[i]
    }

    /// The side to move.
    pub fn turn(&self) -> (r: Player)
        ensures
            r == self@.turn,
    {
        self.turn
    }

    /// Plays a turn of two moves: they are put in order (terrain before
    /// capture before piece move), the first is checked and applied, then the
    /// second is checked on the changed board and applied, or the first is
    /// rolled back. On success the other side is to move; on any error the
    /// board is as it was.
    pub fn apply_turn(&mut self, movs: [Move; 2]) -> (r: Result<(), TurnError>)
        requires
            old(self).wf(),
            movs[0].on_board(),
            movs[1].on_board(),
        ensures
            final(self).wf(),
            (final(self)@, r) == turn_outcome(old(self)@, movs@),
    {
        let a = movs[0];
        let b = movs[1];
        let ra = a.kind_rank();
        let rb = b.kind_rank();
        if ra == rb {
            return Err(TurnError::InvalidCombination);
        }
        let (m1, m2) = if ra < rb { (a, b) } else { (b, a) };
        if !self.move_legal(m1) {
            return Err(TurnError::FirstMoveIllegal);
        }
        self.execute_move(m1);
        if !self.move_legal(m2) {
            self.undo_move(m1);
            proof {
                lemma_undo_restores(old(self)@, m1);
            }
            return Err(TurnError::SecondMoveIllegal);
        }
        self.execute_move(m2);
        self.turn = self.turn.switch();
        Ok(())
    }

    /// Plays a turn as `apply_turn` does and reports the outcome as text: an
    /// empty string on success, else the error's sentence.
    pub fn make_move(&mut self, movs: [Move; 2]) -> (r: Result<String, String>)
        requires
            old(self).wf(),
            movs[0].on_board(),
            movs[1].on_board(),
        ensures
            final(self).wf(),
            final(self)@ == turn_outcome(old(self)@, movs@).0,
            match turn_outcome(old(self)@, movs@).1 {
                Ok(()) => r is Ok && r->Ok_0@ == Seq::<char>::empty(),
                Err(e) => r is Err && r->Err_0@ == e.text(),
            },
    {
        match self.apply_turn(movs) {
            Ok(()) => Ok(String::new()),
            Err(e) => Err(e.message()),
        }
    }

    /// Applies `mov` to the cells; the side to move is unchanged.
    fn execute_move(&mut self, mov: Move)
        requires
            old(self).wf(),
            mov.on_board(),
        ensures
            final(self).wf(),
            final(self)@ == after(old(self)@, mov),
    {
        match mov {
            Move::TileMove(m1, m2) => {
                self.board[m1] = self.board[m1].reduce();
                self.board[m2] = self.board[m2].increase();
            },
            Move::PieceMove(m1, m2) => {
                self.board[m1] = self.board[m1].switch();
                self.board[m2] = self.board[m2].switch();
            },
            Move::Capture(c) => {
                self.board[c] = self.board[c].switch();
            },
        }
    }

    /// Takes back `mov` by the inverse steps; the side to move is unchanged.
    fn undo_move(&mut self, mov: Move)
        requires
            old(self).wf(),
            mov.on_board(),
        ensures
            final(self).wf(),
            final(self)@ == (BoardView { cells: undone(old(self)@.cells, mov), turn: old(self)@.turn }),
    {
        match mov {
            Move::TileMove(m1, m2) => {
                self.board[m1] = self.board[m1].increase();
                self.board[m2] = self.board[m2].reduce();
            },
            Move::PieceMove(m1, m2) => {
                self.board[m1] = self.board[m1].switch();
                self.board[m2] = self.board[m2].switch();
            },
            Move::Capture(c) => {
                self.board[c] = self.board[c].switch();
            },
        }
    }

    /// Whether `mov` is legal for the side to move.
    pub fn move_legal(&self, mov: Move) -> (r: bool)
        requires
            self.wf(),
            mov.on_board(),
        ensures
            r == legal(self@, mov),
    {
        match mov {
            Move::TileMove(m1, m2) => {
                let t1 = self.board[m1];
                let t2 = self.board[m2];
                let source_ok = match t1 {
                    Tile::Low(_) => false,
                    Tile::High(true) => false,
                    _ => true,
                };
                let target_ok = match t2 {
                    Tile::High(_) => false,
                    Tile::Low(true) => false,
                    _ => true,
                };
                // terrain never leaves or enters the mover's own home row
                let outside_home = match self.turn {
                    Player::Top => m1 > 3 && m2 > 3,
                    Player::Bottom => m1 < 33 && m2 < 33,
                };
                source_ok && target_ok && outside_home
            },
            Move::PieceMove(m1, m2) => {
                let (piece, free) = match self.turn {
                    Player::Top => (Tile::High(true), Tile::High(false)),
                    Player::Bottom => (Tile::Low(true), Tile::Low(false)),
                };
                contains_cell(&get_adjacent(m1), m2) && self.board[m1] == piece && self.board[m2]
                    == free
            },
            Move::Capture(c) => {
                let (own, theirs) = match self.turn {
                    Player::Top => (Tile::High(true), Tile::Low(true)),
                    Player::Bottom => (Tile::Low(true), Tile::High(true)),
                };
                self.board[c] == theirs && self.flanked_by(c, own)
            },
        }
    }

    /// Whether at least two cells adjacent to `at` are in state `own`, the
    /// state of the mover's pieces.
    fn flanked_by(&self, at: usize, own: Tile) -> (r: bool)
        requires
            self.wf(),
            is_cell(at as int),
            own == self@.turn.piece_tile(),
        ensures
            r == flanked(self@.cells, self@.turn, at as int),
    {
        let nbrs = get_adjacent(at);
        let mut first: Option<usize> = None;
        let mut i: usize = 0;
        while i < nbrs.len()
            invariant
                self.wf(),
                i <= nbrs.len(),
                forall|b: usize| nbrs@.contains(b) <==> adjacent(at as int, b as int),
                nbrs@.no_duplicates(),
                own == self@.turn.piece_tile(),
                match first {
                    None => forall|j: int| 0 <= j < i ==> self@.cells[nbrs@[j] as int] != own,
                    Some(f) => exists|k: int|
                        0 <= k < i && nbrs@[k] == f && self@.cells[f as int] == own && forall|j: int|
                            0 <= j < i && j != k ==> self@.cells[nbrs@[j] as int] != own,
                },
            decreases nbrs.len() - i,
        {
            let b = nbrs[i];
            assert(nbrs@.contains(b));
            assert(adjacent(at as int, b as int));
            assert(b < 37);
            if self.board[b] == own {
                match first {
                    None => {
                        first = Some(b);
                    },
                    Some(f) => {
                        assert(adjacent(at as int, f as int)) by {
                            let k = choose|k: int|
                                0 <= k < i && nbrs@[k] == f && self@.cells[f as int] == own
                                    && forall|j: int|
                                    0 <= j < i && j != k ==> self@.cells[nbrs@[j] as int] != own;
                            assert(nbrs@.contains(f));
                        }
                        assert(f != b);
                        assert(flanked(self@.cells, self@.turn, at as int)) by {
                            assert(self@.cells[f as int] == own);
                            assert(self@.cells[b as int] == own);
                        }
                        return true;
                    },
                }
            }
            i += 1;
        }
        proof {
            if flanked(self@.cells, self@.turn, at as int) {
                let (x, y) = choose|x: int, y: int|
                    x != y && adjacent(at as int, x) && adjacent(at as int, y) && #[trigger] self@.cells[x]
                        == own && #[trigger] self@.cells[y] == own;
                assert(nbrs@.contains(x as usize));
                assert(nbrs@.contains(y as usize));
                let jx = choose|j: int| 0 <= j < nbrs.len() && nbrs@[j] == x as usize;
                let jy = choose|j: int| 0 <= j < nbrs.len() && nbrs@[j] == y as usize;
                assert(jx != jy);
            }
        }
        false
    }
}

/// Whether `cells` holds `x`.
fn contains_cell(cells: &Vec<usize>, x: usize) -> (r: bool)
    ensures
        r == cells@.contains(x),
{
    let mut i: usize = 0;
    while i < cells.len()
        invariant
            i <= cells.len(),
            forall|j: int| 0 <= j < i ==> cells@[j] != x,
        decreases cells.len() - i,
    {
        if cells[i] == x {
            return true;
        }
        i += 1;
    }
    false
}

/// Taking back a legal move restores the board it was made on, for all three
/// kinds of move.
pub proof fn lemma_undo_restores(v: BoardView, m: Move)
    requires
        v.cells.len() == 37,
        m.on_board(),
        legal(v, m),
    ensures
        undone(applied(v.cells, m), m) == v.cells,
{
    assert(undone(applied(v.cells, m), m) =~= v.cells);
}

/// A refused turn leaves the board exactly as it was, whatever the error.
pub proof fn lemma_refused_turn_changes_nothing(v: BoardView, ms: Seq<Move>)
    requires
        ms.len() == 2,
    ensures
        turn_outcome(v, ms).1 is Err ==> turn_outcome(v, ms).0 == v,
{
}

/// After a successful turn the other side is to move; after a refused one the
/// same side still is.
pub proof fn lemma_turn_alternates(v: BoardView, ms: Seq<Move>)
    requires
        ms.len() == 2,
    ensures
        turn_outcome(v, ms).1 is Ok ==> turn_outcome(v, ms).0.turn == v.turn.opponent(),
        turn_outcome(v, ms).1 is Err ==> turn_outcome(v, ms).0.turn == v.turn,
{
}

/// No turn that moves terrain out of or into the home row of the side to move
/// succeeds.
pub proof fn lemma_home_row_terrain_refused(v: BoardView, ms: Seq<Move>, i: int)
    requires
        ms.len() == 2,
        0 <= i < 2,
        ms[i] matches Move::TileMove(a, b) && (v.turn.home_row(a as int) || v.turn.home_row(
            b as int,
        )),
    ensures
        turn_outcome(v, ms).1 is Err,
{
    match ordered(ms) {
        None => {},
        Some((m1, m2)) => {
            if m1 == ms[i] {
                assert(!legal(v, m1));
            } else {
                assert(m2 == ms[i]);
                assert(after(v, m1).turn == v.turn);
                assert(!legal(after(v, m1), m2));
            }
        },
    }
}

/// A capture is illegal unless at least two distinct cells adjacent to its
/// target hold pieces of the side to move; when they do and an opposing piece
/// stands on the target, it is legal and removes just that piece.
pub proof fn lemma_capture_needs_two_flankers(v: BoardView, at: usize)
    requires
        v.cells.len() == 37,
        is_cell(at as int),
    ensures
        !flanked(v.cells, v.turn, at as int) ==> !legal(v, Move::Capture(at)),
        flanked(v.cells, v.turn, at as int) && v.cells[at as int] == v.turn.opponent().piece_tile()
            ==> legal(v, Move::Capture(at)) && applied(v.cells, Move::Capture(at))
            == v.cells.update(at as int, v.turn.opponent().free_tile()),
{
}

/// Elevation of a cell: 2 raised, 1 level, 0 lowered.
pub open spec fn level(t: Tile) -> int {
    match t {
        Tile::High(_) => 2,
        Tile::Normal => 1,
        Tile::Low(_) => 0,
    }
}

/// A turn moves the elevation of any cell by at most one step: a raised cell
/// never becomes lowered in one turn, nor a lowered one raised.
pub proof fn lemma_levels_move_one_step(v: BoardView, ms: Seq<Move>, i: int)
    requires
        v.cells.len() == 37,
        ms.len() == 2,
        ms[0].on_board(),
        ms[1].on_board(),
        0 <= i < 37,
    ensures
        -1 <= level(turn_outcome(v, ms).0.cells[i]) - level(v.cells[i]) <= 1,
{
    match ordered(ms) {
        None => {},
        Some((m1, m2)) => {
            let c1 = applied(v.cells, m1);
            let c2 = applied(c1, m2);
            if m1 is TileMove {
                assert(!(m2 is TileMove));
                assert(level(c2[i]) == level(c1[i]));
            } else {
                assert(level(c1[i]) == level(v.cells[i]));
            }
        },
    }
}

} // verus!
