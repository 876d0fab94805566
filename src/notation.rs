//! Reading a turn from text such as `t5-6 p1:2` or `c34 p29@30`: two words
//! separated by a space, each a kind letter (`t` terrain, `p` piece, `c`
//! capture) and one or two cell numbers counted from 1. The two numbers of
//! a terrain or piece move are separated by one of `-`, `:`, `@`, `;`.
use vstd::prelude::*;
use vstd::string::StrSliceExecFns;

use crate::tile::Move;

verus! {

/// Why a line of text is not a turn.
#[derive(Clone, Copy, PartialEq, Eq, Debug, Structural)]
pub enum ParseError {
    /// The text holds no space, so no second move.
    TooFewMoves,
    /// A terrain move lacks a separator between its two cells.
    TileMoveNeedsTwoCells,
    /// A piece move lacks a separator between its two cells.
    PieceMoveNeedsTwoCells,
    /// A cell is not a number.
    BadNumber,
    /// A cell number is outside 1 to 37.
    OffBoard,
    /// A move starts with none of the kind letters.
    NoMoveKind,
}

impl ParseError {
    /// The sentence shown to a player.
    pub open spec fn text(self) -> Seq<char> {
        match self {
            ParseError::TooFewMoves => "Each turn consists of two moves"@,
            ParseError::TileMoveNeedsTwoCells => "A tile move must contain two coordinates"@,
            ParseError::PieceMoveNeedsTwoCells => "A piece move must contain two coordinates"@,
            ParseError::BadNumber => "There was an error parsing a move"@,
            ParseError::OffBoard => "The move was off the board"@,
            ParseError::NoMoveKind => "No move was selected"@,
        }
    }

    /// The sentence shown to a player.
    pub fn message(&self) -> (r: String)
        ensures
            r@ == self.text(),
    {
        match self {
            ParseError::TooFewMoves => String::from_str("Each turn consists of two moves"),
            ParseError::TileMoveNeedsTwoCells => String::from_str(
                "A tile move must contain two coordinates",
            ),
            ParseError::PieceMoveNeedsTwoCells => String::from_str(
                "A piece move must contain two coordinates",
            ),
            ParseError::BadNumber => String::from_str("There was an error parsing a move"),
            ParseError::OffBoard => String::from_str("The move was off the board"),
            ParseError::NoMoveKind => String::from_str("No move was selected"),
        }
    }
}

/// Index of the first character of `s` that satisfies `f`, or `s.len()`.
pub open spec fn first_index(s: Seq<char>, f: spec_fn(char) -> bool) -> int
    decreases s.len(),
{
    if s.len() == 0 {
        0
    } else if f(s[0]) {
        0
    } else {
        1 + first_index(s.drop_first(), f)
    }
}

/// Separates the two cells of a terrain or piece move.
pub open spec fn is_separator(c: char) -> bool {
    c == '-' || c == ':' || c == '@' || c == ';'
}

/// Index of the first space in `s`, or `s.len()`.
pub open spec fn space_index(s: Seq<char>) -> int {
    first_index(s, |c: char| c == ' ')
}

/// Index of the first separator in `s`, or `s.len()`.
pub open spec fn separator_index(s: Seq<char>) -> int {
    first_index(s, |c: char| is_separator(c))
}

/// `s` without its leading `c`s.
pub open spec fn trim_front(s: Seq<char>, c: char) -> Seq<char>
    decreases s.len(),
{
    if s.len() > 0 && s[0] == c {
        trim_front(s.drop_first(), c)
    } else {
        s
    }
}

/// `s` without its trailing `c`s.
pub open spec fn trim_back(s: Seq<char>, c: char) -> Seq<char>
    decreases s.len(),
{
    if s.len() > 0 && s.last() == c {
        trim_back(s.drop_last(), c)
    } else {
        s
    }
}

/// `s` without the `c`s at either end.
pub open spec fn trimmed(s: Seq<char>, c: char) -> Seq<char> {
    trim_back(trim_front(s, c), c)
}

/// `c` is a decimal digit.
pub open spec fn is_digit(c: char) -> bool {
    48 <= (c as u32) <= 57
}

/// Every character of `s` is a decimal digit.
pub open spec fn all_digits(s: Seq<char>) -> bool {
    forall|i: int| 0 <= i < s.len() ==> is_digit(#[trigger] s[i])
}

/// The value of the decimal digits `s`.
pub open spec fn digits_value(s: Seq<char>) -> nat
    decreases s.len(),
{
    if s.len() == 0 {
        0
    } else {
        digits_value(s.drop_last()) * 10 + ((s.last() as u32) - 48) as nat
    }
}

/// The number that `s` writes in the form `usize` accepts: an optional `+`,
/// then at least one decimal digit, with a value that fits in a `usize`.
pub open spec fn number_of(s: Seq<char>) -> Option<nat> {
    let d = if s.len() > 0 && s[0] == '+' {
        s.drop_first()
    } else {
        s
    };
    if d.len() > 0 && all_digits(d) && digits_value(d) <= usize::MAX {
        Some(digits_value(d))
    } else {
        None
    }
}

/// The cell index that number `n` names: cells are numbered from 1 to 37.
pub open spec fn cell_of(n: nat) -> Result<usize, ParseError> {
    if 1 <= n <= 37 {
        Ok((n - 1) as usize)
    } else {
        Err(ParseError::OffBoard)
    }
}

/// The two cells of a terrain or piece move, written before the first
/// separator and between the first and the next; `few` when there is no
/// separator. A malformed number is reported before a number off the board.
pub open spec fn cell_pair(body: Seq<char>, few: ParseError) -> Result<(usize, usize), ParseError> {
    let k = separator_index(body);
    if k >= body.len() {
        Err(few)
    } else {
        let rest = body.skip(k + 1);
        match (number_of(body.take(k)), number_of(rest.take(separator_index(rest)))) {
            (Some(x), Some(y)) => match (cell_of(x), cell_of(y)) {
                (Ok(a), Ok(b)) => Ok((a, b)),
                _ => Err(ParseError::OffBoard),
            },
            _ => Err(ParseError::BadNumber),
        }
    }
}

/// The move that the word `t` writes.
pub open spec fn move_of(t: Seq<char>) -> Result<Move, ParseError> {
    if t.len() > 0 && t[0] == 't' {
        match cell_pair(trimmed(t, 't'), ParseError::TileMoveNeedsTwoCells) {
            Ok((a, b)) => Ok(Move::TileMove(a, b)),
            Err(e) => Err(e),
        }
    } else if t.len() > 0 && t[0] == 'p' {
        match cell_pair(trimmed(t, 'p'), ParseError::PieceMoveNeedsTwoCells) {
            Ok((a, b)) => Ok(Move::PieceMove(a, b)),
            Err(e) => Err(e),
        }
    } else if t.len() > 0 && t[0] == 'c' {
        match number_of(trimmed(t, 'c')) {
            None => Err(ParseError::BadNumber),
            Some(n) => match cell_of(n) {
                Ok(a) => Ok(Move::Capture(a)),
                Err(e) => Err(e),
            },
        }
    } else {
        Err(ParseError::NoMoveKind)
    }
}

/// The two moves that the text `s` writes: its first two words, split at
/// single spaces; anything after a second space is ignored. The first word's
/// error comes before the second's.
pub open spec fn turn_of(s: Seq<char>) -> Result<(Move, Move), ParseError> {
    let i = space_index(s);
    if i >= s.len() {
        Err(ParseError::TooFewMoves)
    } else {
        let rest = s.skip(i + 1);
        match move_of(s.take(i)) {
            Err(e) => Err(e),
            Ok(m0) => match move_of(rest.take(space_index(rest))) {
                Err(e) => Err(e),
                Ok(m1) => Ok((m0, m1)),
            },
        }
    }
}

/// `k` is the first index of `s` that satisfies `f`, or `s.len()` when none does.
proof fn lemma_first_index(s: Seq<char>, f: spec_fn(char) -> bool, k: int)
    requires
        0 <= k <= s.len(),
        k < s.len() ==> f(s[k]),
        forall|j: int| 0 <= j < k ==> !f(#[trigger] s[j]),
    ensures
        first_index(s, f) == k,
    decreases s.len(),
{
    if s.len() > 0 && k > 0 {
        assert(!f(s[0]));
        assert forall|j: int| 0 <= j < k - 1 implies !f(#[trigger] s.drop_first()[j]) by {
            assert(s.drop_first()[j] == s[j + 1]);
        }
        lemma_first_index(s.drop_first(), f, k - 1);
    }
}

/// A prefix of a digit string has at most its value.
proof fn lemma_prefix_value(s: Seq<char>, k: int)
    requires
        0 <= k <= s.len(),
        all_digits(s),
    ensures
        digits_value(s.take(k)) <= digits_value(s),
    decreases s.len(),
{
    if k < s.len() {
        let t = s.drop_last();
        assert(is_digit(s[s.len() - 1]));
        assert(all_digits(t)) by {
            assert forall|i: int| 0 <= i < t.len() implies is_digit(#[trigger] t[i]) by {
                assert(t[i] == s[i]);
            }
        }
        lemma_prefix_value(t, k);
        assert(t.take(k) =~= s.take(k));
    } else {
        assert(s.take(k) =~= s);
    }
}

/// Index of the first `' '` in `cs[lo..hi]`, counted from the start of `cs`;
/// `hi` when there is none.
fn find_space(cs: &Vec<char>, lo: usize, hi: usize) -> (r: usize)
    requires
        lo <= hi <= cs.len(),
    ensures
        r == lo + space_index(cs@.subrange(lo as int, hi as int)),
        lo <= r <= hi,
{
    let mut i = lo;
    while i < hi && cs[i] != ' '
        invariant
            lo <= i <= hi <= cs.len(),
            forall|j: int| lo <= j < i ==> cs@[j] != ' ',
        decreases hi - i,
    {
        i += 1;
    }
    proof {
        let s = cs@.subrange(lo as int, hi as int);
        lemma_first_index(s, |c: char| c == ' ', i - lo);
    }
    i
}

/// Index of the first separator in `cs[lo..hi]`, counted from the start of
/// `cs`; `hi` when there is none.
fn find_separator(cs: &Vec<char>, lo: usize, hi: usize) -> (r: usize)
    requires
        lo <= hi <= cs.len(),
    ensures
        r == lo + separator_index(cs@.subrange(lo as int, hi as int)),
        lo <= r <= hi,
{
    let mut i = lo;
    while i < hi && !(cs[i] == '-' || cs[i] == ':' || cs[i] == '@' || cs[i] == ';')
        invariant
            lo <= i <= hi <= cs.len(),
            forall|j: int| lo <= j < i ==> !is_separator(cs@[j]),
        decreases hi - i,
    {
        i += 1;
    }
    proof {
        let s = cs@.subrange(lo as int, hi as int);
        lemma_first_index(s, |c: char| is_separator(c), i - lo);
    }
    i
}

/// The bounds of `cs[lo..hi]` without the `c`s at either end.
fn trim_range(cs: &Vec<char>, lo: usize, hi: usize, c: char) -> (r: (usize, usize))
    requires
        lo <= hi <= cs.len(),
    ensures
        lo <= r.0 <= r.1 <= hi,
        cs@.subrange(r.0 as int, r.1 as int) == trimmed(cs@.subrange(lo as int, hi as int), c),
{
    let mut a = lo;
    while a < hi && cs[a] == c
        invariant
            lo <= a <= hi <= cs.len(),
            trim_front(cs@.subrange(lo as int, hi as int), c) == trim_front(
                cs@.subrange(a as int, hi as int),
                c,
            ),
        decreases hi - a,
    {
        assert(cs@.subrange(a as int, hi as int).drop_first() =~= cs@.subrange(
            a + 1,
            hi as int,
        ));
        a += 1;
    }
    let mut b = hi;
    while b > a && cs[b - 1] == c
        invariant
            lo <= a <= b <= hi <= cs.len(),
            trim_back(cs@.subrange(a as int, hi as int), c) == trim_back(
                cs@.subrange(a as int, b as int),
                c,
            ),
        decreases b - a,
    {
        assert(cs@.subrange(a as int, b as int).drop_last() =~= cs@.subrange(
            a as int,
            b - 1,
        ));
        b -= 1;
    }
    (a, b)
}

/// The number that `cs[lo..hi]` writes, if it writes one (see `number_of`).
fn read_number(cs: &Vec<char>, lo: usize, hi: usize) -> (r: Option<usize>)
    requires
        lo <= hi <= cs.len(),
    ensures
        match number_of(cs@.subrange(lo as int, hi as int)) {
            Some(n) => r == Some(n as usize),
            None => r is None,
        },
{
    let ghost s = cs@.subrange(lo as int, hi as int);
    let mut start = lo;
    if start < hi && cs[start] == '+' {
        start += 1;
    }
    let ghost d = cs@.subrange(start as int, hi as int);
    assert(d == if s.len() > 0 && s[0] == '+' {
        s.drop_first()
    } else {
        s
    });
    if start == hi {
        return None;
    }
    let mut v: usize = 0;
    let mut i = start;
    while i < hi
        invariant
            lo <= start <= i <= hi <= cs.len(),
            d == cs@.subrange(start as int, hi as int),
            s == cs@.subrange(lo as int, hi as int),
            number_of(s) == if d.len() > 0 && all_digits(d) && digits_value(d) <= usize::MAX {
                Some(digits_value(d))
            } else {
                None
            },
            v == digits_value(cs@.subrange(start as int, i as int)),
            all_digits(cs@.subrange(start as int, i as int)),
        decreases hi - i,
    {
        let ghost p = cs@.subrange(start as int, i as int);
        let ghost q = cs@.subrange(start as int, i + 1);
        assert(q.drop_last() =~= p);
        let code = cs[i] as u32;
        if code < 48 || code > 57 {
            assert(d[i - start] == cs@[i as int]);
            assert(!is_digit(d[i - start]));
            return None;
        }
        assert(all_digits(q)) by {
            assert forall|j: int| 0 <= j < q.len() implies is_digit(#[trigger] q[j]) by {
                if j < p.len() {
                    assert(q[j] == p[j]);
                }
            }
        }
        let digit = (code - 48) as usize;
        assert(q.last() == cs@[i as int]);
        assert(digits_value(q) == v * 10 + digit);
        match v.checked_mul(10) {
            None => {
                proof {
                    if all_digits(d) {
                        lemma_prefix_value(d, i + 1 - start);
                        assert(d.take(i + 1 - start) =~= q);
                    }
                }
                return None;
            },
            Some(t) => match t.checked_add(digit) {
                None => {
                    proof {
                        if all_digits(d) {
                            lemma_prefix_value(d, i + 1 - start);
                            assert(d.take(i + 1 - start) =~= q);
                        }
                    }
                    return None;
                },
                Some(u) => {
                    v = u;
                },
            },
        }
        i += 1;
    }
    Some(v)
}

/// The cell index that number `n` names (see `cell_of`).
fn cell_index(n: usize) -> (r: Result<usize, ParseError>)
    ensures
        r == cell_of(n as nat),
{
    if 1 <= n && n <= 37 {
        Ok(n - 1)
    } else {
        Err(ParseError::OffBoard)
    }
}

/// The two cells that `cs[lo..hi]` writes (see `cell_pair`).
fn read_cell_pair(cs: &Vec<char>, lo: usize, hi: usize, few: ParseError) -> (r: Result<
    (usize, usize),
    ParseError,
>)
    requires
        lo <= hi <= cs.len(),
    ensures
        r == cell_pair(cs@.subrange(lo as int, hi as int), few),
{
    let ghost body = cs@.subrange(lo as int, hi as int);
    let k = find_separator(cs, lo, hi);
    if k >= hi {
        return Err(few);
    }
    let e = find_separator(cs, k + 1, hi);
    proof {
        let rest = body.skip(k + 1 - lo);
        assert(rest =~= cs@.subrange(k + 1, hi as int));
        assert(body.take(k - lo) =~= cs@.subrange(lo as int, k as int));
        assert(rest.take(separator_index(rest)) =~= cs@.subrange(k + 1, e as int));
    }
    let x = read_number(cs, lo, k);
    let y = read_number(cs, k + 1, e);
    match (x, y) {
        (Some(x), Some(y)) => match (cell_index(x), cell_index(y)) {
            (Ok(a), Ok(b)) => Ok((a, b)),
            _ => Err(ParseError::OffBoard),
        },
        _ => Err(ParseError::BadNumber),
    }
}

/// The move that the word `cs[lo..hi]` writes (see `move_of`).
fn read_move(cs: &Vec<char>, lo: usize, hi: usize) -> (r: Result<Move, ParseError>)
    requires
        lo <= hi <= cs.len(),
    ensures
        r == move_of(cs@.subrange(lo as int, hi as int)),
{
    let ghost t = cs@.subrange(lo as int, hi as int);
    if lo == hi {
        return Err(ParseError::NoMoveKind);
    }
    let kind = cs[lo];
    assert(t[0] == kind);
    if kind == 't' || kind == 'p' {
        let (a, b) = trim_range(cs, lo, hi, kind);
        let few = if kind == 't' {
            ParseError::TileMoveNeedsTwoCells
        } else {
            ParseError::PieceMoveNeedsTwoCells
        };
        match read_cell_pair(cs, a, b, few) {
            Ok((x, y)) => if kind == 't' {
                Ok(Move::TileMove(x, y))
            } else {
                Ok(Move::PieceMove(x, y))
            },
            Err(e) => Err(e),
        }
    } else if kind == 'c' {
        let (a, b) = trim_range(cs, lo, hi, kind);
        match read_number(cs, a, b) {
            None => Err(ParseError::BadNumber),
            Some(n) => match cell_index(n) {
                Ok(x) => Ok(Move::Capture(x)),
                Err(e) => Err(e),
            },
        }
    } else {
        Err(ParseError::NoMoveKind)
    }
}

/// The two moves that `cs` writes (see `turn_of`).
pub fn parse_turn(cs: &Vec<char>) -> (r: Result<[Move; 2], ParseError>)
    ensures
        match turn_of(cs@) {
            Ok((m0, m1)) => r is Ok && r->Ok_0@ == seq![m0, m1],
            Err(e) => r == Err::<[Move; 2], ParseError>(e),
        },
{
    let n = cs.len();
    let i = find_space(cs, 0, n);
    assert(cs@.subrange(0, n as int) =~= cs@);
    if i >= n {
        return Err(ParseError::TooFewMoves);
    }
    let e = find_space(cs, i + 1, n);
    proof {
        let rest = cs@.skip(i + 1);
        assert(rest =~= cs@.subrange(i + 1, n as int));
        assert(cs@.take(i as int) =~= cs@.subrange(0, i as int));
        assert(rest.take(space_index(rest)) =~= cs@.subrange(i + 1, e as int));
    }
    let m0 = match read_move(cs, 0, i) {
        Ok(m) => m,
        Err(err) => return Err(err),
    };
    let m1 = match read_move(cs, i + 1, e) {
        Ok(m) => m,
        Err(err) => return Err(err),
    };
    let r = [m0, m1];
    assert(r@ =~= seq![m0, m1]);
    Ok(r)
}

/// The characters of `s`, in order.
fn chars_of(s: &str) -> (r: Vec<char>)
    ensures
        r@ == s@,
{
    let n = s.unicode_len();
    let mut r: Vec<char> = Vec::new();
    let mut i: usize = 0;
    while i < n
        invariant
            n == s@.len(),
            i <= n,
            r@ == s@.take(i as int),
        decreases n - i,
    {
        r.push(s.get_char(i));
        assert(r@ =~= s@.take(i + 1));
        i += 1;
    }
    assert(s@.take(n as int) =~= s@);
    r
}

impl Move {
    /// Reads a turn from text (see `turn_of`); on failure, the sentence
    /// that says what is wrong. Every cell of a move read lies on the board.
    pub fn move_from_string(s: String) -> (r: Result<[Move; 2], String>)
        ensures
            match turn_of(s@) {
                Ok((m0, m1)) => r is Ok && r->Ok_0@ == seq![m0, m1] && m0.on_board()
                    && m1.on_board(),
                Err(e) => r is Err && r->Err_0@ == e.text(),
            },
    {
        let cs = chars_of(s.as_str());
        proof {
            lemma_turn_on_board(cs@);
        }
        match parse_turn(&cs) {
            Ok(ms) => Ok(ms),
            Err(e) => Err(e.message()),
        }
    }
}

/// Every move that reads from text names cells on the board only.
pub proof fn lemma_turn_on_board(s: Seq<char>)
    ensures
        turn_of(s) matches Ok((m0, m1)) ==> m0.on_board() && m1.on_board(),
{
}

} // verus!
