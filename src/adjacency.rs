//! Topology of the hourglass board: seven rows of widths 4, 5, 6, 7, 6, 5, 4,
//! numbered row by row from the top, plus three fold edges that join the two
//! ends of the top, middle and bottom rows.
use vstd::prelude::*;

verus! {

/// Number of cells on the board.
pub const CELL_COUNT: usize = 37;

/// Number of rows on the board.
pub const ROW_COUNT: usize = 7;

/// A valid cell index.
pub open spec fn is_cell(p: int) -> bool {
    0 <= p < 37
}

/// Index of the first cell of row `r`; `row_start(7)` is the number of cells.
pub open spec fn row_start(r: int) -> int {
    if r <= 0 {
        0
    } else if r == 1 {
        4
    } else if r == 2 {
        9
    } else if r == 3 {
        15
    } else if r == 4 {
        22
    } else if r == 5 {
        28
    } else if r == 6 {
        33
    } else {
        37
    }
}

/// Number of cells in row `r`.
pub open spec fn row_width(r: int) -> int {
    row_start(r + 1) - row_start(r)
}

/// The row that holds cell `p`.
pub open spec fn row_of(p: int) -> int {
    if p < 4 {
        0
    } else if p < 9 {
        1
    } else if p < 15 {
        2
    } else if p < 22 {
        3
    } else if p < 28 {
        4
    } else if p < 33 {
        5
    } else {
        6
    }
}

/// Position of cell `p` within its row, counted from the left.
pub open spec fn col_of(p: int) -> int {
    p - row_start(row_of(p))
}

/// `a` and `b` are neighbours within one row.
pub open spec fn beside(a: int, b: int) -> bool {
    is_cell(a) && is_cell(b) && row_of(a) == row_of(b) && (b == a + 1 || a == b + 1)
}

/// `b` lies in the row just below `a` and touches it. Above the middle row the
/// row below is one cell wider (columns `c` and `c + 1` touch column `c`); from
/// the middle row down it is one cell narrower (columns `c - 1` and `c`).
pub open spec fn touches_below(a: int, b: int) -> bool {
    is_cell(a) && is_cell(b) && row_of(b) == row_of(a) + 1 && if row_of(a) < 3 {
        col_of(b) == col_of(a) || col_of(b) == col_of(a) + 1
    } else {
        col_of(b) + 1 == col_of(a) || col_of(b) == col_of(a)
    }
}

/// The fold edges: the two ends of the top, middle and bottom rows touch.
pub open spec fn fold_edge(a: int, b: int) -> bool {
    (a == 0 && b == 3) || (a == 3 && b == 0) || (a == 15 && b == 21) || (a == 21 && b == 15)
        || (a == 33 && b == 36) || (a == 36 && b == 33)
}

/// Cells `a` and `b` are adjacent on the board.
pub open spec fn adjacent(a: int, b: int) -> bool {
    beside(a, b) || touches_below(a, b) || touches_below(b, a) || fold_edge(a, b)
}

/// Adjacency is symmetric: `b` is adjacent to `a` exactly when `a` is adjacent to `b`.
pub proof fn lemma_adjacency_symmetric(a: int, b: int)
    ensures
        adjacent(a, b) == adjacent(b, a),
{
}

/// The row that holds a cell.
pub fn row_index(pos: usize) -> (r: usize)
    requires
        is_cell(pos as int),
    ensures
        r as int == row_of(pos as int),
        r < ROW_COUNT,
{
    if pos < 4 {
        0
    } else if pos < 9 {
        1
    } else if pos < 15 {
        2
    } else if pos < 22 {
        3
    } else if pos < 28 {
        4
    } else if pos < 33 {
        5
    } else {
        6
    }
}

/// Index of the first cell of a row.
pub fn row_first(r: usize) -> (s: usize)
    requires
        r < ROW_COUNT,
    ensures
        s as int == row_start(r as int),
{
    if r == 0 {
        0
    } else if r == 1 {
        4
    } else if r == 2 {
        9
    } else if r == 3 {
        15
    } else if r == 4 {
        22
    } else if r == 5 {
        28
    } else {
        33
    }
}

/// Number of cells in a row.
pub fn row_length(r: usize) -> (w: usize)
    requires
        r < ROW_COUNT,
    ensures
        w as int == row_width(r as int),
{
    if r <= 3 {
        4 + r
    } else {
        10 - r
    }
}

/// Appends `x`; membership afterwards is the old membership plus `x`.
fn push_cell(res: &mut Vec<usize>, x: usize)
    ensures
        final(res)@ == old(res)@.push(x),
        forall|y: usize| final(res)@.contains(y) <==> (old(res)@.contains(y) || y == x),
{
    res.push(x);
    proof {
        assert(final(res)@[old(res)@.len() as int] == x);
        assert forall|y: usize| old(res)@.contains(y) implies final(res)@.contains(y) by {
            let i = choose|i: int| 0 <= i < old(res)@.len() && old(res)@[i] == y;
            assert(final(res)@[i] == y);
        }
    }
}

/// The cells adjacent to `pos`, each once. Every cell has between two and six.
pub fn get_adjacent(pos: usize) -> (res: Vec<usize>)
    requires
        is_cell(pos as int),
    ensures
        forall|b: usize| res@.contains(b) <==> adjacent(pos as int, b as int),
        res@.no_duplicates(),
        2 <= res.len() <= 6,
{
    let row = row_index(pos);
    let start = row_first(row);
    let w = row_length(row);
    let c = pos - start;
    let mut res: Vec<usize> = Vec::new();
    if c > 0 {
        push_cell(&mut res, pos - 1);
    }
    if c + 1 < w {
        push_cell(&mut res, pos + 1);
    }
    if row > 0 {
        let up = row_first(row - 1);
        if row <= 3 {
            // the row above is one cell narrower
            if c > 0 {
                push_cell(&mut res, up + c - 1);
            }
            if c + 1 < w {
                push_cell(&mut res, up + c);
            }
        } else {
            // the row above is one cell wider
            push_cell(&mut res, up + c);
            push_cell(&mut res, up + c + 1);
        }
    }
    if row + 1 < ROW_COUNT {
        let down = row_first(row + 1);
        if row < 3 {
            push_cell(&mut res, down + c);
            push_cell(&mut res, down + c + 1);
        } else {
            if c > 0 {
                push_cell(&mut res, down + c - 1);
            }
            if c + 1 < w {
                push_cell(&mut res, down + c);
            }
        }
    }
    if pos == 0 {
        push_cell(&mut res, 3);
    } else if pos == 3 {
        push_cell(&mut res, 0);
    } else if pos == 15 {
        push_cell(&mut res, 21);
    } else if pos == 21 {
        push_cell(&mut res, 15);
    } else if pos == 33 {
        push_cell(&mut res, 36);
    } else if pos == 36 {
        push_cell(&mut res, 33);
    }
    res
}

} // verus!
