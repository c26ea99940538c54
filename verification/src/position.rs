//! The geometry of the triangular board.
//!
//! A position is a pair `(column, row)`. A board of edge length `range` has
//! the rows `0 .. range`, and row `r` has the columns `0 ..= r`. From every
//! position six straight lines leave: along the row, along the column, and
//! along the diagonal that keeps `row - column` fixed.

use vstd::prelude::*;

verus! {

/// The largest edge length a board can have. Up to it the coordinates of
/// a drawing of the board stay within `usize` on every machine, and the
/// number of positions within the 64-bit tally of a player's markers.
pub const MAX_RANGE: usize = 0x100_0000;

/// Whether a board of edge length `range` can be set up: the opening
/// pattern needs five rows and an edge length that leaves the remainder
/// zero or two when divided by three.
pub open spec fn valid_range(range: usize) -> bool {
    range >= 5 && (range % 3 == 0 || range % 3 == 2)
}

/// Whether `pos` is a position of the board of edge length `range`.
pub open spec fn in_bounds(range: usize, pos: (usize, usize)) -> bool {
    pos.1 < range && pos.0 <= pos.1
}

/// The positions of the board of edge length `range`.
pub open spec fn all_positions(range: usize) -> Set<(usize, usize)> {
    Set::new(|pos: (usize, usize)| in_bounds(range, pos))
}

/// The number of positions of the board of edge length `range`.
pub open spec fn position_count(range: usize) -> int {
    range * (range + 1) / 2
}

/// The rows above `row`, and the first `n` positions of `row`.
spec fn positions_before(row: usize, n: usize) -> Set<(usize, usize)> {
    Set::new(|pos: (usize, usize)| pos.0 <= pos.1 && (pos.1 < row || (pos.1 == row && pos.0 < n)))
}

/// There are as many positions before the first `n` of `row` as the
/// board of edge length `row` has, and `n` more.
proof fn lemma_positions_before(row: usize, n: usize)
    requires
        n <= row + 1,
    ensures
        positions_before(row, n).finite(),
        positions_before(row, n).len() == position_count(row) + n,
    decreases row, n,
{
    if n == 0 {
        if row == 0 {
            assert(positions_before(row, n) =~= Set::<(usize, usize)>::empty());
        } else {
            let above = (row - 1) as usize;
            lemma_positions_before(above, row);
            assert(positions_before(row, n) =~= positions_before(above, row));
            assert((row - 1) * row / 2 + row == row * (row + 1) / 2) by (nonlinear_arith);
        }
    } else {
        let m = (n - 1) as usize;
        lemma_positions_before(row, m);
        assert(positions_before(row, n) =~= positions_before(row, m).insert((m, row)));
    }
}

/// The board of edge length `range` has `range * (range + 1) / 2`
/// positions.
pub proof fn lemma_position_count(range: usize)
    ensures
        all_positions(range).finite(),
        all_positions(range).len() == position_count(range),
{
    lemma_positions_before(range, 0);
    assert(all_positions(range) =~= positions_before(range, 0));
}

/// A board within the largest edge length has no more positions than a
/// 64-bit tally can count.
pub proof fn lemma_position_count_fits(range: usize)
    requires
        range <= MAX_RANGE,
    ensures
        position_count(range) <= 0x1_0000_0000_0000,
{
    assert(range * (range + 1) <= 0x100_0000 * 0x100_0001) by (nonlinear_arith)
        requires
            0 <= range <= 0x100_0000,
    ;
}

/// One of the six directions in which a straight line leaves a position.
#[derive(Clone, Copy, Debug, PartialEq, Eq, Structural)]
pub enum Direction {
    /// Along the row, towards column zero.
    Left,
    /// Along the row, away from column zero.
    Right,
    /// Along the column, towards the apex.
    Up,
    /// Along the column, towards the base.
    Down,
    /// Along the diagonal, towards the apex.
    LeftUp,
    /// Along the diagonal, towards the base.
    RightDown,
}

impl Direction {
    /// The column reached from `start` after `k` steps.
    pub open spec fn ray_x(self, start: (usize, usize), k: int) -> int {
        match self {
            Direction::Left | Direction::LeftUp => start.0 - k,
            Direction::Right | Direction::RightDown => start.0 + k,
            Direction::Up | Direction::Down => start.0 as int,
        }
    }

    /// The row reached from `start` after `k` steps.
    pub open spec fn ray_y(self, start: (usize, usize), k: int) -> int {
        match self {
            Direction::Up | Direction::LeftUp => start.1 - k,
            Direction::Down | Direction::RightDown => start.1 + k,
            Direction::Left | Direction::Right => start.1 as int,
        }
    }

    /// Whether `k` steps from `start` end on the board of edge length
    /// `range`.
    pub open spec fn ray_in(self, range: usize, start: (usize, usize), k: int) -> bool {
        0 <= self.ray_y(start, k) < range && 0 <= self.ray_x(start, k) <= self.ray_y(start, k)
    }

    /// The position reached from `start` after `k` steps, where that is a
    /// position of the board.
    pub open spec fn ray_pos(self, start: (usize, usize), k: int) -> (usize, usize) {
        (self.ray_x(start, k) as usize, self.ray_y(start, k) as usize)
    }

    /// The neighbour of `pos` in this direction, if the board of edge length
    /// `range` has one.
    pub fn step(self, pos: (usize, usize), range: usize) -> (next: Option<(usize, usize)>)
        requires
            in_bounds(range, pos),
        ensures
            next is Some <==> self.ray_in(range, pos, 1),
            next matches Some(n) ==> n == self.ray_pos(pos, 1) && in_bounds(range, n),
    {
        let (x, y) = pos;
        match self {
            Direction::Left => if x > 0 {
                Some((x - 1, y))
            } else {
                None
            },
            Direction::Right => if x < y {
                Some((x + 1, y))
            } else {
                None
            },
            Direction::Up => if y > 0 && x <= y - 1 {
                Some((x, y - 1))
            } else {
                None
            },
            Direction::Down => if y < range - 1 {
                Some((x, y + 1))
            } else {
                None
            },
            Direction::LeftUp => if x > 0 && y > 0 {
                Some((x - 1, y - 1))
            } else {
                None
            },
            Direction::RightDown => if y < range - 1 {
                Some((x + 1, y + 1))
            } else {
                None
            },
        }
    }
}

/// Every ray leaves the board after fewer steps than the board has rows.
pub proof fn lemma_ray_is_short(d: Direction, range: usize, start: (usize, usize), k: int)
    requires
        in_bounds(range, start),
        k >= 0,
        d.ray_in(range, start, k),
    ensures
        k < range,
{
}

/// One step more along a ray is one step from where the ray has got to.
pub proof fn lemma_ray_step(d: Direction, range: usize, start: (usize, usize), k: int)
    requires
        d.ray_in(range, start, k),
    ensures
        d.ray_in(range, start, k + 1) <==> d.ray_in(range, d.ray_pos(start, k), 1),
        d.ray_pos(start, k + 1) == d.ray_pos(d.ray_pos(start, k), 1),
{
}

/// The positions that follow a start position in one direction, handed out
/// one by one until the edge of the board is reached.
#[derive(Clone, Copy, Debug)]
pub struct Ray {
    direction: Direction,
    range: usize,
    start: (usize, usize),
    steps: usize,
    position: (usize, usize),
}

impl Ray {
    /// The direction of the ray.
    pub closed spec fn direction(&self) -> Direction {
        self.direction
    }

    /// The edge length of the board that the ray runs on.
    pub closed spec fn range(&self) -> usize {
        self.range
    }

    /// The position that the ray leaves from.
    pub closed spec fn start(&self) -> (usize, usize) {
        self.start
    }

    /// The number of positions handed out so far.
    pub closed spec fn steps(&self) -> usize {
        self.steps
    }

    /// What holds of every ray: it has not left the board.
    pub closed spec fn wf(&self) -> bool {
        &&& in_bounds(self.range, self.start)
        &&& self.direction.ray_in(self.range, self.start, self.steps as int)
        &&& self.position == self.direction.ray_pos(self.start, self.steps as int)
    }

    /// The ray that leaves `start` in `direction` on the board of edge
    /// length `range`.
    pub fn new(direction: Direction, start: (usize, usize), range: usize) -> (ray: Ray)
        requires
            in_bounds(range, start),
        ensures
            ray.wf(),
            ray.direction() == direction,
            ray.range() == range,
            ray.start() == start,
            ray.steps() == 0,
    {
        Ray { direction, range, start, steps: 0, position: start }
    }

    /// The next position of the ray, or `None` from the edge of the board
    /// on.
    pub fn next(&mut self) -> (pos: Option<(usize, usize)>)
        requires
            old(self).wf(),
        ensures
            final(self).wf(),
            final(self).direction() == old(self).direction(),
            final(self).range() == old(self).range(),
            final(self).start() == old(self).start(),
            pos is Some <==> old(self).direction().ray_in(
                old(self).range(),
                old(self).start(),
                old(self).steps() + 1,
            ),
            pos matches Some(p) ==> {
                &&& p == old(self).direction().ray_pos(old(self).start(), old(self).steps() + 1)
                &&& in_bounds(old(self).range(), p)
                &&& final(self).steps() == old(self).steps() + 1
            },
            pos is None ==> final(self).steps() == old(self).steps(),
    {
        proof {
            lemma_ray_step(self.direction, self.range, self.start, self.steps as int);
            lemma_ray_is_short(self.direction, self.range, self.start, self.steps as int);
        }
        match self.direction.step(self.position, self.range) {
            Some(p) => {
                self.steps = self.steps + 1;
                self.position = p;
                Some(p)
            },
            None => None,
        }
    }
}

} // verus!
