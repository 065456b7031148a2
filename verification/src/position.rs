//! Coordinate arithmetic on the fixed 10x10 grid.
//!
//! A position is a linear row-major index in `[0, 100)`: column `idx % 10`,
//! row `idx / 10`.  The module offers forward/backward traversal of the whole
//! grid, single-step neighbours, walks along each axis direction, and the
//! parser for the turn protocol's shot lines.

use crate::InvalidInputError;
use vstd::prelude::*;

verus! {

/// A coordinate on the grid, stored as its linear row-major index.
#[derive(Debug, Copy, Clone, PartialEq, Eq, Structural)]
pub struct Position {
    yx: u8,
}

impl Position {
    /// The linear index: column plus ten times the row.
    pub closed spec fn idx(self) -> int {
        self.yx as int
    }

    /// The position lies on the grid.
    pub open spec fn wf(self) -> bool {
        0 <= self.idx() < 100
    }

    /// The first cell in row-major order: column 0, row 0.
    pub fn top_left() -> (r: Self)
        ensures
            r.idx() == 0,
            r.wf(),
    {
        Position { yx: 0 }
    }

    /// The last cell in row-major order: column 9, row 9.
    pub fn bottom_right() -> (r: Self)
        ensures
            r.idx() == 99,
            r.wf(),
    {
        Position { yx: 99 }
    }

    /// The column.
    pub fn x(self) -> (r: u8)
        ensures
            r as int == self.idx() % 10,
    {
        self.yx % 10
    }

    /// The row.
    pub fn y(self) -> (r: u8)
        ensures
            r as int == self.idx() / 10,
    {
        self.yx / 10
    }

    /// The linear index itself.
    pub fn yx(self) -> (r: u8)
        ensures
            r as int == self.idx(),
    {
        self.yx
    }

    /// The cell one column to the left, if this is not the leftmost column.
    pub fn get_left(self) -> (r: Option<Position>)
        requires
            self.wf(),
        ensures
            r is Some <==> self.idx() % 10 > 0,
            r matches Some(p) ==> p.idx() == self.idx() - 1 && p.wf(),
    {
        if self.yx % 10 > 0 {
            Some(Position { yx: self.yx - 1 })
        } else {
            None
        }
    }

    /// The cell one column to the right, if this is not the rightmost column.
    pub fn get_right(self) -> (r: Option<Position>)
        requires
            self.wf(),
        ensures
            r is Some <==> self.idx() % 10 < 9,
            r matches Some(p) ==> p.idx() == self.idx() + 1 && p.wf(),
    {
        if self.yx % 10 < 9 {
            Some(Position { yx: self.yx + 1 })
        } else {
            None
        }
    }

    /// The cell one row up, if this is not the top row.
    pub fn get_above(self) -> (r: Option<Position>)
        requires
            self.wf(),
        ensures
            r is Some <==> self.idx() >= 10,
            r matches Some(p) ==> p.idx() == self.idx() - 10 && p.wf(),
    {
        if self.yx >= 10 {
            Some(Position { yx: self.yx - 10 })
        } else {
            None
        }
    }

    /// Traversal of the grid in row-major order, from this position to the
    /// bottom-right corner.
    pub fn iter(self) -> (it: PositionIter)
        requires
            self.wf(),
        ensures
            it.start_idx() == self.idx(),
            it.end_idx() == 99,
            it.wf(),
    {
        PositionIter { start: self, end: Position::bottom_right() }
    }

    /// The cells from this position leftward to the start of its row, nearest
    /// first, this position included.
    pub fn iter_left(self) -> (r: Vec<Position>)
        requires
            self.wf(),
        ensures
            r@.len() == self.idx() % 10 + 1,
            forall|k: int|
                0 <= k < r@.len() ==> (#[trigger] r@[k]).idx() == self.idx() - k && r@[k].wf(),
    {
        let mut r: Vec<Position> = Vec::new();
        let x = self.yx % 10;
        let mut k: u8 = 0;
        while k <= x
            invariant
                self.wf(),
                x as int == self.idx() % 10,
                k <= x + 1,
                r@.len() == k as int,
                forall|j: int|
                    0 <= j < r@.len() ==> (#[trigger] r@[j]).idx() == self.idx() - j && r@[j].wf(),
            decreases x + 1 - k,
        {
            r.push(Position { yx: self.yx - k });
            k = k + 1;
        }
        r
    }

    /// The cells from this position rightward to the end of its row, nearest
    /// first, this position included.
    pub fn iter_right(self) -> (r: Vec<Position>)
        requires
            self.wf(),
        ensures
            r@.len() == 10 - self.idx() % 10,
            forall|k: int|
                0 <= k < r@.len() ==> (#[trigger] r@[k]).idx() == self.idx() + k && r@[k].wf(),
    {
        let mut r: Vec<Position> = Vec::new();
        let n = 10 - self.yx % 10;
        let mut k: u8 = 0;
        while k < n
            invariant
                self.wf(),
                n as int == 10 - self.idx() % 10,
                k <= n,
                r@.len() == k as int,
                forall|j: int|
                    0 <= j < r@.len() ==> (#[trigger] r@[j]).idx() == self.idx() + j && r@[j].wf(),
            decreases n - k,
        {
            r.push(Position { yx: self.yx + k });
            k = k + 1;
        }
        r
    }

    /// The cells from this position upward to the top of its column, nearest
    /// first, this position included.
    pub fn iter_above(self) -> (r: Vec<Position>)
        requires
            self.wf(),
        ensures
            r@.len() == self.idx() / 10 + 1,
            forall|k: int|
                0 <= k < r@.len() ==> (#[trigger] r@[k]).idx() == self.idx() - 10 * k && r@[k].wf(),
    {
        let mut r: Vec<Position> = Vec::new();
        let y = self.yx / 10;
        let mut k: u8 = 0;
        while k <= y
            invariant
                self.wf(),
                y as int == self.idx() / 10,
                k <= y + 1,
                r@.len() == k as int,
                forall|j: int|
                    0 <= j < r@.len() ==> (#[trigger] r@[j]).idx() == self.idx() - 10 * j && r@[j].wf(),
            decreases y + 1 - k,
        {
            r.push(Position { yx: self.yx - 10 * k });
            k = k + 1;
        }
        r
    }

    /// The cells from this position downward to the bottom of its column,
    /// nearest first, this position included.
    pub fn iter_below(self) -> (r: Vec<Position>)
        requires
            self.wf(),
        ensures
            r@.len() == 10 - self.idx() / 10,
            forall|k: int|
                0 <= k < r@.len() ==> (#[trigger] r@[k]).idx() == self.idx() + 10 * k && r@[k].wf(),
    {
        let mut r: Vec<Position> = Vec::new();
        let n = 10 - self.yx / 10;
        let mut k: u8 = 0;
        while k < n
            invariant
                self.wf(),
                n as int == 10 - self.idx() / 10,
                k <= n,
                r@.len() == k as int,
                forall|j: int|
                    0 <= j < r@.len() ==> (#[trigger] r@[j]).idx() == self.idx() + 10 * j && r@[j].wf(),
            decreases n - k,
        {
            r.push(Position { yx: self.yx + 10 * k });
            k = k + 1;
        }
        r
    }
}

/// A blank in a shot line: a space or a tab.
pub open spec fn is_space(c: char) -> bool {
    c == ' ' || c == '\t'
}

/// An ASCII decimal digit.
pub open spec fn is_digit(c: char) -> bool {
    48 <= c as u32 <= 57
}

/// The value of an ASCII decimal digit.
pub open spec fn digit_val(c: char) -> int {
    c as u32 - 48
}

/// The first index at or after `i` that holds a non-blank, or the length.
pub open spec fn skip_spaces(cs: Seq<char>, i: int) -> int
    decreases cs.len() - i,
{
    if i < 0 || i >= cs.len() {
        cs.len() as int
    } else if is_space(cs[i]) {
        skip_spaces(cs, i + 1)
    } else {
        i
    }
}

/// The first index at or after `i` that holds a blank, or the length.
pub open spec fn token_end(cs: Seq<char>, i: int) -> int
    decreases cs.len() - i,
{
    if i < 0 || i >= cs.len() {
        cs.len() as int
    } else if is_space(cs[i]) {
        i
    } else {
        token_end(cs, i + 1)
    }
}

/// All characters in `[a, b)` are digits.
pub open spec fn all_digits(cs: Seq<char>, a: int, b: int) -> bool {
    forall|t: int| a <= t < b ==> is_digit(#[trigger] cs[t])
}

/// The decimal value of the digits in `[a, b)`.
pub open spec fn digits_val(cs: Seq<char>, a: int, b: int) -> int
    decreases b - a,
{
    if b <= a {
        0
    } else {
        digits_val(cs, a, b - 1) * 10 + digit_val(cs[b - 1])
    }
}

/// The token `[a, b)` is a decimal number naming a 1-based grid coordinate.
pub open spec fn coord_token_ok(cs: Seq<char>, a: int, b: int) -> bool {
    a < b && all_digits(cs, a, b) && 1 <= digits_val(cs, a, b) <= 10
}

/// Start of the first token of a shot line.
pub open spec fn tok1_start(cs: Seq<char>) -> int {
    skip_spaces(cs, 0)
}

/// End of the first token of a shot line.
pub open spec fn tok1_end(cs: Seq<char>) -> int {
    token_end(cs, tok1_start(cs))
}

/// Start of the second token of a shot line.
pub open spec fn tok2_start(cs: Seq<char>) -> int {
    skip_spaces(cs, tok1_end(cs))
}

/// End of the second token of a shot line.
pub open spec fn tok2_end(cs: Seq<char>) -> int {
    token_end(cs, tok2_start(cs))
}

/// A shot line is accepted when its first two blank-separated tokens are
/// decimal numbers in `[1, 10]`: 1-based column, then 1-based row.  Anything
/// after the second token is ignored.
pub open spec fn shot_line_ok(cs: Seq<char>) -> bool {
    coord_token_ok(cs, tok1_start(cs), tok1_end(cs)) && coord_token_ok(
        cs,
        tok2_start(cs),
        tok2_end(cs),
    )
}

/// The linear index an accepted shot line names.
pub open spec fn shot_line_idx(cs: Seq<char>) -> int {
    (digits_val(cs, tok2_start(cs), tok2_end(cs)) - 1) * 10 + digits_val(
        cs,
        tok1_start(cs),
        tok1_end(cs),
    ) - 1
}

impl Position {
    /// Parses one line of the turn protocol: two blank-separated 1-based
    /// coordinates, column then row, each in `[1, 10]`.
    pub fn from_line(s: &str) -> (r: Result<Position, InvalidInputError>)
        ensures
            r is Ok <==> shot_line_ok(s@),
            r matches Ok(p) ==> p.idx() == shot_line_idx(s@) && p.wf(),
    {
        let a1 = skip_spaces_from(s, 0);
        let col = match parse_coord_token(s, a1) {
            Some(v) => v,
            None => {
                return Err(InvalidInputError);
            },
        };
        let b1 = token_end_from(s, a1);
        let a2 = skip_spaces_from(s, b1);
        let row = match parse_coord_token(s, a2) {
            Some(v) => v,
            None => {
                return Err(InvalidInputError);
            },
        };
        Ok(Position { yx: (row - 1) * 10 + col - 1 })
    }
}

/// Walks from `i` to the first non-blank character.
fn skip_spaces_from(s: &str, i: usize) -> (r: usize)
    requires
        i <= s@.len(),
    ensures
        r == skip_spaces(s@, i as int),
        i <= r <= s@.len(),
        r < s@.len() ==> !is_space(s@[r as int]),
{
    let n = s.unicode_len();
    let mut j = i;
    while j < n && is_space_exec(s.get_char(j))
        invariant
            i <= j <= n,
            n == s@.len(),
            skip_spaces(s@, i as int) == skip_spaces(s@, j as int),
        decreases n - j,
    {
        j = j + 1;
    }
    j
}

/// Walks from `i` to the first blank character.
fn token_end_from(s: &str, i: usize) -> (r: usize)
    requires
        i <= s@.len(),
    ensures
        r == token_end(s@, i as int),
        i <= r <= s@.len(),
{
    let n = s.unicode_len();
    let mut j = i;
    while j < n && !is_space_exec(s.get_char(j))
        invariant
            i <= j <= n,
            n == s@.len(),
            token_end(s@, i as int) == token_end(s@, j as int),
        decreases n - j,
    {
        j = j + 1;
    }
    j
}

fn is_space_exec(c: char) -> (r: bool)
    ensures
        r == is_space(c),
{
    c == ' ' || c == '\t'
}

/// Reads the token starting at `a` as a decimal coordinate in `[1, 10]`.
/// Yields nothing when the token is empty, holds a non-digit, or names a
/// value outside the range.
fn parse_coord_token(s: &str, a: usize) -> (r: Option<u8>)
    requires
        a <= s@.len(),
        a == skip_spaces(s@, a as int) || a == s@.len(),
    ensures
        r is Some <==> coord_token_ok(s@, a as int, token_end(s@, a as int)),
        r matches Some(v) ==> 1 <= v <= 10 && v as int == digits_val(
            s@,
            a as int,
            token_end(s@, a as int),
        ),
{
    let n = s.unicode_len();
    let ghost b = token_end(s@, a as int);
    let mut j = a;
    let mut acc: u32 = 0;
    let mut bad = false;
    while j < n && !is_space_exec(s.get_char(j))
        invariant
            a <= j <= n,
            n == s@.len(),
            token_end(s@, a as int) == token_end(s@, j as int),
            forall|t: int| a <= t < j ==> !is_space(#[trigger] s@[t]),
            bad <==> !all_digits(s@, a as int, j as int),
            !bad ==> (acc <= 10 && acc as int == digits_val(s@, a as int, j as int)) || (acc == 11
                && digits_val(s@, a as int, j as int) >= 11),
        decreases n - j,
    {
        let c = s.get_char(j);
        let u = c as u32;
        if u < 48 || u > 57 {
            bad = true;
        } else if !bad {
            let d = u - 48;
            proof {
                assert(digits_val(s@, a as int, j as int + 1) == digits_val(
                    s@,
                    a as int,
                    j as int,
                ) * 10 + digit_val(s@[j as int]));
                if digits_val(s@, a as int, j as int) >= 11 {
                    assert(digits_val(s@, a as int, j as int) * 10 >= 11 * 10) by (nonlinear_arith)
                        requires
                            digits_val(s@, a as int, j as int) >= 11,
                    ;
                }
            }
            if acc >= 11 {
                acc = 11;
            } else {
                acc = acc * 10 + d;
                if acc > 10 {
                    acc = 11;
                }
            }
        }
        j = j + 1;
    }
    proof {
        assert(token_end(s@, j as int) == j);
        assert(b == j);
    }
    if bad || acc == 0 || acc > 10 {
        None
    } else {
        Some(acc as u8)
    }
}

/// Forward/backward traversal over the inclusive range of linear indices
/// `[start, end]`; empty once `start` has moved past `end`.
#[derive(Debug, Copy, Clone)]
pub struct PositionIter {
    start: Position,
    end: Position,
}

impl PositionIter {
    /// The first index still to be yielded from the front.
    pub closed spec fn start_idx(self) -> int {
        self.start.idx()
    }

    /// The last index still to be yielded from the back.
    pub closed spec fn end_idx(self) -> int {
        self.end.idx()
    }

    /// How many positions are left.
    pub open spec fn spec_len(self) -> int {
        if self.start_idx() <= self.end_idx() {
            self.end_idx() - self.start_idx() + 1
        } else {
            0
        }
    }

    /// The bounds the traversal keeps: `start` may pass `end` by one step.
    pub open spec fn wf(self) -> bool {
        0 <= self.start_idx() <= 100 && 0 <= self.end_idx() < 100
    }

    /// The next position from the front.
    pub fn next(&mut self) -> (r: Option<Position>)
        requires
            old(self).wf(),
        ensures
            final(self).wf(),
            r is Some <==> old(self).spec_len() > 0,
            r matches Some(p) ==> p.idx() == old(self).start_idx() && p.wf()
                && final(self).start_idx() == old(self).start_idx() + 1
                && final(self).end_idx() == old(self).end_idx(),
            r is None ==> *final(self) == *old(self),
    {
        if self.start.yx <= self.end.yx {
            let position = self.start;
            self.start.yx = self.start.yx + 1;
            Some(position)
        } else {
            None
        }
    }

    /// How many positions are left, as a lower and upper bound.
    pub fn size_hint(self) -> (r: (usize, Option<usize>))
        requires
            self.wf(),
        ensures
            r.0 as int == self.spec_len(),
            r.1 matches Some(u) && u as int == self.spec_len(),
    {
        if self.start.yx <= self.end.yx {
            let size = (self.end.yx - self.start.yx + 1) as usize;
            (size, Some(size))
        } else {
            (0, Some(0))
        }
    }

    /// Skips `n` positions from the front and yields the one after them.
    pub fn nth(&mut self, n: usize) -> (r: Option<Position>)
        requires
            old(self).wf(),
        ensures
            final(self).wf(),
            r is Some <==> old(self).spec_len() > n,
            r matches Some(p) ==> p.idx() == old(self).start_idx() + n && p.wf()
                && final(self).start_idx() == old(self).start_idx() + n + 1
                && final(self).end_idx() == old(self).end_idx(),
            r is None ==> final(self).spec_len() == 0,
    {
        if self.start.yx <= self.end.yx {
            let room = (self.end.yx - self.start.yx) as usize;
            if n <= room {
                let position = Position { yx: self.start.yx + n as u8 };
                self.start.yx = position.yx + 1;
                Some(position)
            } else {
                self.start.yx = self.end.yx + 1;
                None
            }
        } else {
            None
        }
    }

    /// The next position from the back.
    pub fn next_back(&mut self) -> (r: Option<Position>)
        requires
            old(self).wf(),
        ensures
            final(self).wf(),
            r is Some <==> old(self).spec_len() > 0,
            r matches Some(p) ==> p.idx() == old(self).end_idx() && p.wf()
                && final(self).spec_len() == old(self).spec_len() - 1
                && (final(self).spec_len() > 0 ==> final(self).start_idx() == old(self).start_idx()
                    && final(self).end_idx() == old(self).end_idx() - 1),
            r is None ==> *final(self) == *old(self),
    {
        if self.start.yx <= self.end.yx {
            let position = self.end;
            if self.end.yx > 0 {
                self.end.yx = self.end.yx - 1;
            } else {
                self.start.yx = self.start.yx + 1;
            }
            Some(position)
        } else {
            None
        }
    }

    /// Skips `n` positions from the back and yields the one before them.
    pub fn nth_back(&mut self, n: usize) -> (r: Option<Position>)
        requires
            old(self).wf(),
        ensures
            final(self).wf(),
            r is Some <==> old(self).spec_len() > n,
            r matches Some(p) ==> p.idx() == old(self).end_idx() - n && p.wf()
                && final(self).spec_len() == old(self).spec_len() - n - 1
                && (final(self).spec_len() > 0 ==> final(self).start_idx() == old(self).start_idx()
                    && final(self).end_idx() == old(self).end_idx() - n - 1),
            r is None ==> final(self).spec_len() == 0,
    {
        if self.start.yx <= self.end.yx {
            let room = (self.end.yx - self.start.yx) as usize;
            if n <= room {
                let position = Position { yx: self.end.yx - n as u8 };
                if position.yx > 0 {
                    self.end.yx = position.yx - 1;
                } else {
                    self.start.yx = 1;
                    self.end.yx = 0;
                }
                Some(position)
            } else {
                self.start.yx = 1;
                self.end.yx = 0;
                None
            }
        } else {
            None
        }
    }
}

} // verus!
