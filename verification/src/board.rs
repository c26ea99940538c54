//! The board: a triangle of positions, each empty or held by a player.
//!
//! The board of edge length four has this shape:
//!
//! ```text
//! o
//! oo
//! ooo
//! oooo
//! ```

use crate::count::Count;
use crate::error::TriversiError;
use crate::player::Player;
use crate::position::{
    all_positions, in_bounds, lemma_position_count, lemma_position_count_fits, position_count,
    valid_range, MAX_RANGE,
};
use vstd::prelude::*;

verus! {

/// What a board holds, row by row: `grid[row][column]`.
pub type Grid = Seq<Seq<Option<Player>>>;

/// Whether row `r` of the grid has the columns `0 ..= r`.
pub open spec fn triangular(grid: Grid) -> bool {
    forall|y: int| 0 <= y < grid.len() ==> (#[trigger] grid[y]).len() == y + 1
}

/// What the grid holds at `pos`.
pub open spec fn grid_at(grid: Grid, pos: (usize, usize)) -> Option<Player> {
    grid[pos.1 as int][pos.0 as int]
}

/// The grid with `value` written at `pos`.
pub open spec fn grid_set(grid: Grid, pos: (usize, usize), value: Option<Player>) -> Grid {
    grid.update(pos.1 as int, grid[pos.1 as int].update(pos.0 as int, value))
}

/// The positions of the grid that `player` holds.
pub open spec fn occupied(grid: Grid, player: Player) -> Set<(usize, usize)> {
    Set::new(
        |pos: (usize, usize)| pos.0 <= pos.1 < grid.len() && grid_at(grid, pos) == Some(player),
    )
}

/// The number of markers that `player` has on the grid.
pub open spec fn markers(grid: Grid, player: Player) -> nat {
    occupied(grid, player).len()
}

/// The grid of edge length `range` with no marker on it.
pub open spec fn empty_grid(range: usize) -> Grid {
    Seq::new(range as nat, |y: int| Seq::new((y + 1) as nat, |x: int| None))
}

/// Whether `(x, y)` is one of four positions.
pub open spec fn one_of(
    x: int,
    y: int,
    a: (int, int),
    b: (int, int),
    c: (int, int),
    d: (int, int),
) -> bool {
    (x, y) == a || (x, y) == b || (x, y) == c || (x, y) == d
}

/// The marker that the opening of a game puts at `(x, y)` on the board of
/// edge length `r`: four markers for each player around the middle of the
/// board, laid out by the remainder of `r` divided by three.
pub open spec fn opening_marker(r: int, x: int, y: int) -> Option<Player> {
    if r % 3 == 0 {
        let a = r / 3;
        let b = 2 * r / 3;
        if one_of(x, y, (a, b), (a + 1, b - 1), (a - 1, b - 2), (a - 2, b - 1)) {
            Some(Player::One)
        } else if one_of(x, y, (a, b - 1), (a - 2, b - 2), (a - 1, b), (a + 1, b + 1)) {
            Some(Player::Two)
        } else if one_of(x, y, (a - 1, b - 1), (a, b + 1), (a + 1, b), (a, b - 2)) {
            Some(Player::Three)
        } else {
            None
        }
    } else {
        if one_of(
            x,
            y,
            ((r - 2) / 3, (2 * r - 4) / 3),
            ((r - 5) / 3, (2 * r - 1) / 3),
            ((r + 1) / 3, (2 * r + 2) / 3),
            ((r + 4) / 3, (2 * r - 1) / 3),
        ) {
            Some(Player::One)
        } else if one_of(
            x,
            y,
            ((r - 2) / 3, (2 * r - 1) / 3),
            ((r + 4) / 3, (2 * r + 2) / 3),
            ((r + 1) / 3, (2 * r - 4) / 3),
            ((r - 5) / 3, (2 * r - 7) / 3),
        ) {
            Some(Player::Two)
        } else if one_of(
            x,
            y,
            ((r + 1) / 3, (2 * r - 1) / 3),
            ((r - 2) / 3, (2 * r - 7) / 3),
            ((r - 5) / 3, (2 * r - 4) / 3),
            ((r - 2) / 3, (2 * r + 2) / 3),
        ) {
            Some(Player::Three)
        } else {
            None
        }
    }
}

/// The grid that a game on the board of edge length `range` opens with.
pub open spec fn opening_grid(range: usize) -> Grid {
    Seq::new(
        range as nat,
        |y: int| Seq::new((y + 1) as nat, |x: int| opening_marker(range as int, x, y)),
    )
}

/// Where the cursor goes from `pos` on a move towards the apex: one row
/// up, and back onto the row where that row is shorter.
pub open spec fn moved_up(pos: (usize, usize)) -> (usize, usize) {
    if pos.1 > 0 {
        if pos.0 > pos.1 - 1 {
            ((pos.0 - 1) as usize, (pos.1 - 1) as usize)
        } else {
            (pos.0, (pos.1 - 1) as usize)
        }
    } else {
        pos
    }
}

/// Where the cursor goes from `pos` on a move towards the base of the
/// board of edge length `range`.
pub open spec fn moved_down(range: usize, pos: (usize, usize)) -> (usize, usize) {
    if pos.1 < range - 1 {
        (pos.0, (pos.1 + 1) as usize)
    } else {
        pos
    }
}

/// Where the cursor goes from `pos` on a move to the left: one column to
/// the left, or from column zero one row down.
pub open spec fn moved_left(range: usize, pos: (usize, usize)) -> (usize, usize) {
    if pos.0 > 0 {
        ((pos.0 - 1) as usize, pos.1)
    } else if pos.1 < range - 1 {
        (pos.0, (pos.1 + 1) as usize)
    } else {
        pos
    }
}

/// Where the cursor goes from `pos` on a move to the right: one column to
/// the right, and from the end of a row on to the row below.
pub open spec fn moved_right(range: usize, pos: (usize, usize)) -> (usize, usize) {
    if pos.0 < range - 1 {
        if pos.0 + 1 > pos.1 {
            ((pos.0 + 1) as usize, (pos.1 + 1) as usize)
        } else {
            ((pos.0 + 1) as usize, pos.1)
        }
    } else {
        pos
    }
}

/// A cursor that is on the board stays on it, whichever way it moves.
pub proof fn lemma_cursor_stays_on_board(range: usize, pos: (usize, usize))
    requires
        range >= 1,
        in_bounds(range, pos),
    ensures
        in_bounds(range, moved_up(pos)),
        in_bounds(range, moved_down(range, pos)),
        in_bounds(range, moved_left(range, pos)),
        in_bounds(range, moved_right(range, pos)),
{
}

/// Writing at a position adds it to the positions of the player written,
/// takes it from those of the player overwritten, and leaves every other
/// player's positions as they were.
pub proof fn lemma_occupied_after_set(
    grid: Grid,
    pos: (usize, usize),
    value: Option<Player>,
    player: Player,
)
    requires
        triangular(grid),
        pos.0 <= pos.1 < grid.len(),
    ensures
        triangular(grid_set(grid, pos, value)),
        grid_set(grid, pos, value).len() == grid.len(),
        occupied(grid_set(grid, pos, value), player) == if value == Some(player) {
            occupied(grid, player).insert(pos)
        } else {
            occupied(grid, player).remove(pos)
        },
{
    let after = grid_set(grid, pos, value);
    assert forall|q: (usize, usize)| q.0 <= q.1 < grid.len() implies grid_at(after, q) == if q
        == pos {
        value
    } else {
        grid_at(grid, q)
    } by {}
    if value == Some(player) {
        assert(occupied(after, player) =~= occupied(grid, player).insert(pos));
    } else {
        assert(occupied(after, player) =~= occupied(grid, player).remove(pos));
    }
}

/// No player holds more positions than the board has.
pub proof fn lemma_markers_bounded(grid: Grid, player: Player)
    requires
        grid.len() <= MAX_RANGE,
    ensures
        occupied(grid, player).finite(),
        markers(grid, player) <= position_count(grid.len() as usize),
        markers(grid, player) <= 0x1_0000_0000_0000,
{
    let range = grid.len() as usize;
    lemma_position_count(range);
    lemma_position_count_fits(range);
    assert(occupied(grid, player).subset_of(all_positions(range)));
    vstd::set_lib::lemma_len_subset(occupied(grid, player), all_positions(range));
}

/// A triangular board of positions, each empty or held by a player, with
/// the number of markers of each player.
#[derive(Debug)]
pub struct Board {
    board: Vec<Vec<Option<Player>>>,
    range: usize,
    count: Count,
}

/// What the board holds, row by row.
impl View for Board {
    type V = Grid;

    closed spec fn view(&self) -> Grid {
        Seq::new(self.board@.len(), |y: int| self.board@[y]@)
    }
}

impl Board {
    /// The edge length of the board.
    pub closed spec fn spec_range(&self) -> usize {
        self.range
    }

    /// The tally of markers that the board keeps.
    pub closed spec fn spec_count(&self) -> Count {
        self.count
    }

    /// Whether the board has the shape of a triangle of a valid edge
    /// length.
    pub open spec fn shaped(&self) -> bool {
        &&& self@.len() == self.spec_range()
        &&& triangular(self@)
        &&& valid_range(self.spec_range())
        &&& self.spec_range() <= MAX_RANGE
    }

    /// What holds of every board: it is a triangle of a valid edge length,
    /// and its tally gives for each player the number of positions that the
    /// player holds.
    pub open spec fn wf(&self) -> bool {
        &&& self.shaped()
        &&& forall|p: Player| #[trigger] self.spec_count().spec_get(p) == markers(self@, p)
    }

    /// What the board holds at `pos`.
    pub open spec fn at(&self, pos: (usize, usize)) -> Option<Player> {
        grid_at(self@, pos)
    }

    /// The board of edge length `range`, set up for the opening of a game.
    /// An edge length below five, or one that leaves the remainder one when
    /// divided by three, is refused.
    pub fn try_new(range: usize) -> (res: Result<Board, TriversiError>)
        requires
            range <= MAX_RANGE,
        ensures
            res is Ok <==> valid_range(range),
            res matches Ok(b) ==> {
                &&& b.wf()
                &&& b.spec_range() == range
                &&& b@ == opening_grid(range)
                &&& forall|p: Player| #[trigger] b.spec_count().spec_get(p) == 4
            },
            res matches Err(e) ==> e == TriversiError::InvalidBoardRange(range),
    {
        if range < 5 {
            return Err(TriversiError::InvalidBoardRange(range));
        }
        if range % 3 == 1 {
            return Err(TriversiError::InvalidBoardRange(range));
        }
        let mut rows: Vec<Vec<Option<Player>>> = Vec::new();
        let mut y: usize = 0;
        while y < range
            invariant
                y <= range,
                rows@.len() == y,
                forall|i: int| 0 <= i < y ==> (#[trigger] rows@[i])@.len() == i + 1,
            decreases range - y,
        {
            let mut row: Vec<Option<Player>> = Vec::new();
            let mut x: usize = 0;
            while x <= y
                invariant
                    y < range,
                    x <= y + 1,
                    row@.len() == x,
                decreases y + 1 - x,
            {
                row.push(None);
                x = x + 1;
            }
            rows.push(row);
            y = y + 1;
        }
        let mut board = Board { board: rows, range, count: Count::default() };
        board.init();
        Ok(board)
    }

    /// Sets the board up for the opening of a game: every position is
    /// cleared, then each player gets four markers around the middle of the
    /// board.
    pub fn init(&mut self)
        requires
            old(self).shaped(),
        ensures
            final(self).wf(),
            final(self).spec_range() == old(self).spec_range(),
            final(self)@ == opening_grid(old(self).spec_range()),
            forall|p: Player| #[trigger] final(self).spec_count().spec_get(p) == 4,
    {
        self.clear();
        if self.range % 3 == 0 {
            self.open_on_multiple_of_three();
        } else {
            self.open_on_remainder_two();
        }
    }

    /// Takes every marker from the board.
    fn clear(&mut self)
        requires
            old(self).shaped(),
        ensures
            final(self).wf(),
            final(self).spec_range() == old(self).spec_range(),
            final(self)@ == empty_grid(old(self).spec_range()),
            forall|p: Player| #[trigger] final(self).spec_count().spec_get(p) == 0,
    {
        let range = self.range;
        let mut y: usize = 0;
        while y < range
            invariant
                y <= range,
                range == self.range,
                self.shaped(),
                self.spec_range() == old(self).spec_range(),
                forall|i: int, j: int| 0 <= j <= i < y ==> (#[trigger] self@[i][j]) is None,
            decreases range - y,
        {
            let mut x: usize = 0;
            while x <= y
                invariant
                    y < range,
                    x <= y + 1,
                    range == self.range,
                    self.shaped(),
                    self.spec_range() == old(self).spec_range(),
                    forall|i: int, j: int| 0 <= j <= i < y ==> (#[trigger] self@[i][j]) is None,
                    forall|j: int| 0 <= j < x ==> (#[trigger] self@[y as int][j]) is None,
                decreases y + 1 - x,
            {
                assert(self@[y as int].len() == y + 1);
                let ghost before = self@;
                self.board[y][x] = None;
                assert(self@ =~~= grid_set(before, (x, y), None));
                x = x + 1;
            }
            y = y + 1;
        }
        self.count.reset();
        proof {
            assert(self@ =~~= empty_grid(range));
            assert forall|p: Player| #[trigger] self.spec_count().spec_get(p) == markers(self@, p) by {
                assert(occupied(self@, p) =~= Set::<(usize, usize)>::empty());
            }
        }
    }

    /// Lays the opening pattern on the empty board whose edge length is a
    /// multiple of three.
    fn open_on_multiple_of_three(&mut self)
        requires
            old(self).wf(),
            old(self).spec_range() % 3 == 0,
            old(self)@ == empty_grid(old(self).spec_range()),
            forall|p: Player| #[trigger] old(self).spec_count().spec_get(p) == 0,
        ensures
            final(self).wf(),
            final(self).spec_range() == old(self).spec_range(),
            final(self)@ == opening_grid(old(self).spec_range()),
            forall|p: Player| #[trigger] final(self).spec_count().spec_get(p) == 4,
    {
        let range = self.range;
        let a = range / 3;
        let b = 2 * range / 3;
        assert(range == 3 * a && b == 2 * a && a >= 2);
        self.put_four(Player::One, (a, b), (a + 1, b - 1), (a - 1, b - 2), (a - 2, b - 1));
        self.put_four(Player::Two, (a, b - 1), (a - 2, b - 2), (a - 1, b), (a + 1, b + 1));
        self.put_four(Player::Three, (a - 1, b - 1), (a, b + 1), (a + 1, b), (a, b - 2));
        assert forall|x: int, y: int| 0 <= x <= y < range implies #[trigger] self@[y][x]
            == opening_marker(range as int, x, y) by {}
        assert(self@ =~~= opening_grid(range));
    }

    /// Lays the opening pattern on the empty board whose edge length
    /// leaves the remainder two when divided by three.
    fn open_on_remainder_two(&mut self)
        requires
            old(self).wf(),
            old(self).spec_range() % 3 == 2,
            old(self)@ == empty_grid(old(self).spec_range()),
            forall|p: Player| #[trigger] old(self).spec_count().spec_get(p) == 0,
        ensures
            final(self).wf(),
            final(self).spec_range() == old(self).spec_range(),
            final(self)@ == opening_grid(old(self).spec_range()),
            forall|p: Player| #[trigger] final(self).spec_count().spec_get(p) == 4,
    {
        let range = self.range;
        let x0 = (range - 5) / 3;
        let x1 = (range - 2) / 3;
        let x2 = (range + 1) / 3;
        let x3 = (range + 4) / 3;
        let y0 = (2 * range - 7) / 3;
        let y1 = (2 * range - 4) / 3;
        let y2 = (2 * range - 1) / 3;
        let y3 = (2 * range + 2) / 3;
        assert(range == 3 * x1 + 2 && x0 == x1 - 1 && x2 == x1 + 1 && x3 == x1 + 2);
        assert(y0 == 2 * x1 - 1 && y1 == 2 * x1 && y2 == 2 * x1 + 1 && y3 == 2 * x1 + 2);
        self.put_four(Player::One, (x1, y1), (x0, y2), (x2, y3), (x3, y2));
        self.put_four(Player::Two, (x1, y2), (x3, y3), (x2, y1), (x0, y0));
        self.put_four(Player::Three, (x2, y2), (x1, y0), (x0, y1), (x1, y3));
        assert forall|x: int, y: int| 0 <= x <= y < range implies #[trigger] self@[y][x]
            == opening_marker(range as int, x, y) by {}
        assert(self@ =~~= opening_grid(range));
    }

    /// Gives `player` the four positions, which are empty.
    fn put_four(
        &mut self,
        player: Player,
        p0: (usize, usize),
        p1: (usize, usize),
        p2: (usize, usize),
        p3: (usize, usize),
    )
        requires
            old(self).wf(),
            in_bounds(old(self).spec_range(), p0),
            in_bounds(old(self).spec_range(), p1),
            in_bounds(old(self).spec_range(), p2),
            in_bounds(old(self).spec_range(), p3),
            p0 != p1 && p0 != p2 && p0 != p3 && p1 != p2 && p1 != p3 && p2 != p3,
            old(self).at(p0) is None,
            old(self).at(p1) is None,
            old(self).at(p2) is None,
            old(self).at(p3) is None,
        ensures
            final(self).wf(),
            final(self).spec_range() == old(self).spec_range(),
            forall|x: int, y: int|
                0 <= x <= y < old(self).spec_range() ==> #[trigger] final(self)@[y][x] == if one_of(
                    x,
                    y,
                    (p0.0 as int, p0.1 as int),
                    (p1.0 as int, p1.1 as int),
                    (p2.0 as int, p2.1 as int),
                    (p3.0 as int, p3.1 as int),
                ) {
                    Some(player)
                } else {
                    old(self)@[y][x]
                },
            final(self).spec_count().spec_get(player) == old(self).spec_count().spec_get(player)
                + 4,
            forall|p: Player|
                p != player ==> #[trigger] final(self).spec_count().spec_get(p) == old(
                    self,
                ).spec_count().spec_get(p),
    {
        self.set_player(p0, Some(player));
        self.set_player(p1, Some(player));
        self.set_player(p2, Some(player));
        self.set_player(p3, Some(player));
        assert forall|x: int, y: int| 0 <= x <= y < old(self).spec_range() implies #[trigger] self@[y][x]
            == if one_of(
            x,
            y,
            (p0.0 as int, p0.1 as int),
            (p1.0 as int, p1.1 as int),
            (p2.0 as int, p2.1 as int),
            (p3.0 as int, p3.1 as int),
        ) {
            Some(player)
        } else {
            old(self)@[y][x]
        } by {
            let q = (x as usize, y as usize);
            assert(self.at(q) == self@[y][x]);
        }
    }

    /// The player who holds `pos`, if anyone does.
    pub fn player(&self, pos: (usize, usize)) -> (p: Option<Player>)
        requires
            self.shaped(),
            in_bounds(self.spec_range(), pos),
        ensures
            p == self.at(pos),
    {
        self.board[pos.1][pos.0]
    }

    /// Writes `player` at `pos`, and keeps the tally: one more for the
    /// player written, one less for the player overwritten.
    pub fn set_player(&mut self, pos: (usize, usize), player: Option<Player>)
        requires
            old(self).wf(),
            in_bounds(old(self).spec_range(), pos),
        ensures
            final(self).wf(),
            final(self).spec_range() == old(self).spec_range(),
            final(self)@ == grid_set(old(self)@, pos, player),
            forall|q: (usize, usize)|
                in_bounds(old(self).spec_range(), q) ==> #[trigger] final(self).at(q) == if q
                    == pos {
                    player
                } else {
                    old(self).at(q)
                },
            forall|p: Player| #[trigger]
                final(self).spec_count().spec_get(p) == old(self).spec_count().spec_get(p) + (if player
                    == Some(p) {
                    1int
                } else {
                    0int
                }) - (if old(self).at(pos) == Some(p) {
                    1int
                } else {
                    0int
                }),
    {
        proof {
            lemma_markers_bounded(self@, Player::One);
            lemma_markers_bounded(self@, Player::Two);
            lemma_markers_bounded(self@, Player::Three);
            lemma_occupied_after_set(self@, pos, player, Player::One);
            lemma_occupied_after_set(self@, pos, player, Player::Two);
            lemma_occupied_after_set(self@, pos, player, Player::Three);
            assert(self.spec_count().spec_get(Player::One) == markers(self@, Player::One));
            assert(self.spec_count().spec_get(Player::Two) == markers(self@, Player::Two));
            assert(self.spec_count().spec_get(Player::Three) == markers(self@, Player::Three));
            assert(self@[pos.1 as int].len() == pos.1 + 1);
        }
        if let Some(p) = player {
            self.count.increment(p);
        }
        if let Some(p) = self.player(pos) {
            self.count.decrement(p);
        }
        self.board[pos.1][pos.0] = player;
        proof {
            assert(self@ =~~= grid_set(old(self)@, pos, player));
        }
    }

    /// The edge length of the board.
    #[verifier::when_used_as_spec(spec_range)]
    pub fn range(&self) -> (r: usize)
        ensures
            r == self.spec_range(),
    {
        self.range
    }

    /// The tally of markers that the board keeps.
    pub fn count(&self) -> (c: &Count)
        ensures
            *c == self.spec_count(),
    {
        &self.count
    }

    /// The rows of the board.
    pub fn board(&self) -> (rows: &Vec<Vec<Option<Player>>>)
        ensures
            rows@.len() == self@.len(),
            forall|y: int| 0 <= y < rows@.len() ==> (#[trigger] rows@[y])@ == self@[y],
    {
        &self.board
    }

    /// Where the cursor stands when a game opens.
    pub fn initial_position(&self) -> (pos: (usize, usize))
        ensures
            pos == (0usize, 0usize),
    {
        (0, 0)
    }

    /// Moves the cursor towards the apex.
    pub fn move_position_up(&self, position: &mut (usize, usize))
        ensures
            *final(position) == moved_up(*old(position)),
    {
        let (x, y) = *position;
        if y > 0 {
            if x > y - 1 {
                *position = (x - 1, y - 1);
            } else {
                *position = (x, y - 1);
            }
        }
    }

    /// Moves the cursor towards the base.
    pub fn move_position_down(&self, position: &mut (usize, usize))
        requires
            self.shaped(),
        ensures
            *final(position) == moved_down(self.spec_range(), *old(position)),
    {
        let (x, y) = *position;
        if y < self.range - 1 {
            *position = (x, y + 1);
        }
    }

    /// Moves the cursor to the left.
    pub fn move_position_left(&self, position: &mut (usize, usize))
        requires
            self.shaped(),
        ensures
            *final(position) == moved_left(self.spec_range(), *old(position)),
    {
        let (x, y) = *position;
        if x > 0 {
            *position = (x - 1, y);
        } else if y < self.range - 1 {
            *position = (x, y + 1);
        }
    }

    /// Moves the cursor to the right.
    pub fn move_position_right(&self, position: &mut (usize, usize))
        requires
            self.shaped(),
        ensures
            *final(position) == moved_right(self.spec_range(), *old(position)),
    {
        let (x, y) = *position;
        if x < self.range - 1 {
            if x + 1 > y {
                *position = (x + 1, y + 1);
            } else {
                *position = (x + 1, y);
            }
        }
    }
}

/// Boards are copied marker by marker.
impl Clone for Board {
    /// A board with the same markers and the same tally.
    fn clone(&self) -> (copy: Board)
        ensures
            copy@ == self@,
            copy.spec_range() == self.spec_range(),
            copy.spec_count() == self.spec_count(),
    {
        let mut rows: Vec<Vec<Option<Player>>> = Vec::new();
        let mut y: usize = 0;
        while y < self.board.len()
            invariant
                y <= self.board@.len(),
                rows@.len() == y,
                forall|i: int| 0 <= i < y ==> (#[trigger] rows@[i])@ == self.board@[i]@,
            decreases self.board@.len() - y,
        {
            let mut row: Vec<Option<Player>> = Vec::new();
            let mut x: usize = 0;
            while x < self.board[y].len()
                invariant
                    y < self.board@.len(),
                    x <= self.board@[y as int]@.len(),
                    row@ == self.board@[y as int]@.subrange(0, x as int),
                decreases self.board@[y as int]@.len() - x,
            {
                row.push(self.board[y][x]);
                assert(row@ =~= self.board@[y as int]@.subrange(0, x + 1));
                x = x + 1;
            }
            assert(row@ =~= self.board@[y as int]@);
            rows.push(row);
            y = y + 1;
        }
        let copy = Board { board: rows, range: self.range, count: self.count };
        assert(copy@ =~~= self@);
        copy
    }
}

} // verus!
