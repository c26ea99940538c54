//! The rules of capture: which positions a placement takes, and where a
//! player may place a marker at all.
//!
//! A placement at an empty position captures along each of the six lines
//! that leave it: where the line starts with one or more markers of other
//! players and these are followed by a marker of the placing player, the
//! markers in between change hands. A placement is legal where it captures
//! at least one marker.

use crate::availables::Availables;
use crate::board::{
    grid_at, lemma_markers_bounded, markers, occupied, opening_grid, opening_marker, triangular,
    Board, Grid,
};
use crate::player::Player;
use crate::position::{
    all_positions, in_bounds, lemma_position_count, lemma_ray_is_short, valid_range, Direction,
    Ray, MAX_RANGE,
};
use vstd::prelude::*;

verus! {

/// Whether the position `k` steps from `c` in direction `d` is on the grid
/// and holds a marker of another player than `player`.
pub open spec fn opponent_at(grid: Grid, player: Player, c: (usize, usize), d: Direction, k: int) -> bool {
    &&& d.ray_in(grid.len() as usize, c, k)
    &&& grid_at(grid, d.ray_pos(c, k)) is Some
    &&& grid_at(grid, d.ray_pos(c, k)) != Some(player)
}

/// Whether the position `k` steps from `c` in direction `d` is on the grid
/// and holds a marker of `player`.
pub open spec fn own_at(grid: Grid, player: Player, c: (usize, usize), d: Direction, k: int) -> bool {
    &&& d.ray_in(grid.len() as usize, c, k)
    &&& grid_at(grid, d.ray_pos(c, k)) == Some(player)
}

/// Whether a capture line of `n` markers leaves `c` in direction `d`: the
/// first `n` positions hold markers of other players, and the next one a
/// marker of `player`.
pub open spec fn bounded_line(
    grid: Grid,
    player: Player,
    c: (usize, usize),
    d: Direction,
    n: int,
) -> bool {
    &&& n >= 1
    &&& forall|k: int| 1 <= k <= n ==> #[trigger] opponent_at(grid, player, c, d, k)
    &&& own_at(grid, player, c, d, n + 1)
}

/// Whether `q` lies on a capture line that leaves `c` in direction `d`, as
/// its marker number `k` of `n`.
pub open spec fn on_line(
    grid: Grid,
    player: Player,
    c: (usize, usize),
    d: Direction,
    n: int,
    k: int,
    q: (usize, usize),
) -> bool {
    bounded_line(grid, player, c, d, n) && 1 <= k <= n && q == d.ray_pos(c, k)
}

/// The positions that `player` captures in direction `d` by a placement at
/// `c`.
pub open spec fn captured_in(grid: Grid, player: Player, c: (usize, usize), d: Direction) -> Set<
    (usize, usize),
> {
    Set::new(|q: (usize, usize)| exists|n: int, k: int| on_line(grid, player, c, d, n, k, q))
}

/// The positions that `player` captures by a placement at `c`: those
/// captured in any of the six directions.
pub open spec fn captured(grid: Grid, player: Player, c: (usize, usize)) -> Set<(usize, usize)> {
    Set::new(|q: (usize, usize)| exists|d: Direction| captured_in(grid, player, c, d).contains(q))
}

/// Whether `player` may place a marker at `c`: the position is on the grid
/// and empty, and a capture line leaves it in at least one direction.
pub open spec fn legal(grid: Grid, player: Player, c: (usize, usize)) -> bool {
    &&& c.0 <= c.1 < grid.len()
    &&& grid_at(grid, c) is None
    &&& exists|d: Direction, n: int| bounded_line(grid, player, c, d, n)
}

/// The legal moves of `player` on the grid: from each position where the
/// player may place a marker to the positions captured from there.
pub open spec fn legal_moves(grid: Grid, player: Player) -> Map<(usize, usize), Set<(usize, usize)>> {
    Map::new(|c: (usize, usize)| legal(grid, player, c), |c: (usize, usize)| captured(grid, player, c))
}

/// Whether `player` has a legal move on the grid.
pub open spec fn can_move(grid: Grid, player: Player) -> bool {
    exists|c: (usize, usize)| legal(grid, player, c)
}

/// The moves `moves` with `taken` added to what is captured from `c`; with
/// nothing taken, `moves` itself.
pub open spec fn extended(
    moves: Map<(usize, usize), Set<(usize, usize)>>,
    c: (usize, usize),
    taken: Set<(usize, usize)>,
) -> Map<(usize, usize), Set<(usize, usize)>> {
    if taken =~= Set::<(usize, usize)>::empty() {
        moves
    } else if moves.dom().contains(c) {
        moves.insert(c, moves[c].union(taken))
    } else {
        moves.insert(c, taken)
    }
}

/// The moves `moves`, and `taken` as what is captured from `c`; with
/// nothing taken, `moves` itself.
pub open spec fn with_captures(
    moves: Map<(usize, usize), Set<(usize, usize)>>,
    c: (usize, usize),
    taken: Set<(usize, usize)>,
) -> Map<(usize, usize), Set<(usize, usize)>> {
    if taken =~= Set::<(usize, usize)>::empty() {
        moves
    } else {
        moves.insert(c, taken)
    }
}

/// The legal moves of `player` among the positions that come before
/// `(x, y)` when the grid is read row by row.
pub open spec fn legal_moves_before(grid: Grid, player: Player, x: int, y: int) -> Map<
    (usize, usize),
    Set<(usize, usize)>,
> {
    Map::new(
        |c: (usize, usize)| legal(grid, player, c) && (c.1 < y || (c.1 == y && c.0 < x)),
        |c: (usize, usize)| captured(grid, player, c),
    )
}

/// Whether a placement of `player` at `target` gives `q` to the player:
/// it is the position of the placement or one that the placement captures.
pub open spec fn flips(grid: Grid, player: Player, target: (usize, usize), q: (usize, usize)) -> bool {
    q == target || captured(grid, player, target).contains(q)
}

/// The grid after `player` has placed a marker at `target`: the position
/// and all that the placement captures are the player's, the rest is as it
/// was.
pub open spec fn placed(grid: Grid, player: Player, target: (usize, usize)) -> Grid {
    Seq::new(
        grid.len(),
        |y: int|
            Seq::new(
                grid[y].len(),
                |x: int|
                    if flips(grid, player, target, (x as usize, y as usize)) {
                        Some(player)
                    } else {
                        grid[y][x]
                    },
            ),
    )
}

/// In one direction there is at most one capture line.
pub proof fn lemma_line_unique(
    grid: Grid,
    player: Player,
    c: (usize, usize),
    d: Direction,
    n1: int,
    n2: int,
)
    requires
        bounded_line(grid, player, c, d, n1),
        bounded_line(grid, player, c, d, n2),
    ensures
        n1 == n2,
{
    if n1 < n2 {
        assert(opponent_at(grid, player, c, d, n1 + 1));
    }
    if n2 < n1 {
        assert(opponent_at(grid, player, c, d, n2 + 1));
    }
}

/// Whatever a placement captures is on the grid and holds a marker of
/// another player: never a marker of the placing player, never an empty
/// position, and never the position of the placement itself.
pub proof fn lemma_captured_are_opponents(
    grid: Grid,
    player: Player,
    c: (usize, usize),
    q: (usize, usize),
)
    requires
        c.0 <= c.1 < grid.len(),
        grid.len() <= usize::MAX,
        captured(grid, player, c).contains(q),
    ensures
        q.0 <= q.1 < grid.len(),
        grid_at(grid, q) is Some,
        grid_at(grid, q) != Some(player),
        grid_at(grid, c) is None ==> q != c,
{
    let d = choose|d: Direction| captured_in(grid, player, c, d).contains(q);
    let (n, k) = choose|n: int, k: int| on_line(grid, player, c, d, n, k, q);
    assert(opponent_at(grid, player, c, d, k));
}

/// A placement is legal if and only if it is made at an empty position of
/// the grid and captures something.
pub proof fn lemma_legal_iff_captures(grid: Grid, player: Player, c: (usize, usize))
    ensures
        legal(grid, player, c) <==> {
            &&& c.0 <= c.1 < grid.len()
            &&& grid_at(grid, c) is None
            &&& exists|q: (usize, usize)| captured(grid, player, c).contains(q)
        },
{
    if legal(grid, player, c) {
        let (d, n) = choose|d: Direction, n: int| bounded_line(grid, player, c, d, n);
        let q = d.ray_pos(c, 1);
        assert(on_line(grid, player, c, d, n, 1, q));
        assert(captured_in(grid, player, c, d).contains(q));
        assert(captured(grid, player, c).contains(q));
    }
    if exists|q: (usize, usize)| captured(grid, player, c).contains(q) {
        let q = choose|q: (usize, usize)| captured(grid, player, c).contains(q);
        let d = choose|d: Direction| captured_in(grid, player, c, d).contains(q);
        let (n, k) = choose|n: int, k: int| on_line(grid, player, c, d, n, k, q);
        assert(bounded_line(grid, player, c, d, n));
    }
}

/// Taking more at a position where something may have been taken before
/// adds to what is captured there.
proof fn lemma_extend_step(
    moves: Map<(usize, usize), Set<(usize, usize)>>,
    c: (usize, usize),
    acc: Set<(usize, usize)>,
    taken: Set<(usize, usize)>,
)
    requires
        !moves.dom().contains(c),
    ensures
        extended(with_captures(moves, c, acc), c, taken) == with_captures(
            moves,
            c,
            acc.union(taken),
        ),
{
    let empty = Set::<(usize, usize)>::empty();
    if taken =~= empty {
        assert(acc.union(taken) =~= acc);
    } else {
        let q = choose|q: (usize, usize)| taken.contains(q);
        assert(acc.union(taken).contains(q));
        if acc =~= empty {
            assert(acc.union(taken) =~= taken);
        } else {
            assert(moves.insert(c, acc).insert(c, acc.union(taken)) =~= moves.insert(
                c,
                acc.union(taken),
            ));
        }
    }
}

/// What is captured in the six directions, taken together, is what the
/// placement captures.
proof fn lemma_six_directions(grid: Grid, player: Player, c: (usize, usize))
    ensures
        captured_in(grid, player, c, Direction::Left).union(
            captured_in(grid, player, c, Direction::LeftUp),
        ).union(captured_in(grid, player, c, Direction::Right)).union(
            captured_in(grid, player, c, Direction::Up),
        ).union(captured_in(grid, player, c, Direction::Down)).union(
            captured_in(grid, player, c, Direction::RightDown),
        ) == captured(grid, player, c),
{
    let all = captured_in(grid, player, c, Direction::Left).union(
        captured_in(grid, player, c, Direction::LeftUp),
    ).union(captured_in(grid, player, c, Direction::Right)).union(
        captured_in(grid, player, c, Direction::Up),
    ).union(captured_in(grid, player, c, Direction::Down)).union(
        captured_in(grid, player, c, Direction::RightDown),
    );
    assert forall|q: (usize, usize)| all.contains(q) == captured(grid, player, c).contains(q) by {
        if captured(grid, player, c).contains(q) {
            let d = choose|d: Direction| captured_in(grid, player, c, d).contains(q);
            match d {
                Direction::Left => {},
                Direction::LeftUp => {},
                Direction::Right => {},
                Direction::Up => {},
                Direction::Down => {},
                Direction::RightDown => {},
            }
        }
    }
    assert(all =~= captured(grid, player, c));
}

/// What a placement leaves on the grid: the shape of the grid, and at
/// every position the player who placed the marker or whoever was there.
pub proof fn lemma_placed_grid(grid: Grid, player: Player, target: (usize, usize))
    requires
        triangular(grid),
    ensures
        triangular(placed(grid, player, target)),
        placed(grid, player, target).len() == grid.len(),
        forall|q: (usize, usize)|
            q.0 <= q.1 < grid.len() ==> #[trigger] grid_at(placed(grid, player, target), q) == if flips(
                grid,
                player,
                target,
                q,
            ) {
                Some(player)
            } else {
                grid_at(grid, q)
            },
{
}

/// A legal placement gives the player one marker for each position that it
/// captures and one for the position of the placement; the other players
/// together lose one marker for each position captured. So the board has
/// one marker more than before.
pub proof fn lemma_placement_counts(grid: Grid, player: Player, target: (usize, usize))
    requires
        triangular(grid),
        grid.len() <= MAX_RANGE,
        legal(grid, player, target),
    ensures
        captured(grid, player, target).finite(),
        captured(grid, player, target).len() >= 1,
        markers(placed(grid, player, target), player) == markers(grid, player) + captured(
            grid,
            player,
            target,
        ).len() + 1,
        markers(placed(grid, player, target), player.next()) + markers(
            placed(grid, player, target),
            player.next().next(),
        ) == markers(grid, player.next()) + markers(grid, player.next().next()) - captured(
            grid,
            player,
            target,
        ).len(),
        markers(placed(grid, player, target), Player::One) + markers(
            placed(grid, player, target),
            Player::Two,
        ) + markers(placed(grid, player, target), Player::Three) == markers(grid, Player::One)
            + markers(grid, Player::Two) + markers(grid, Player::Three) + 1,
{
    let after = placed(grid, player, target);
    let taken = captured(grid, player, target);
    let second = player.next();
    let third = player.next().next();
    lemma_placed_grid(grid, player, target);
    lemma_markers_bounded(grid, Player::One);
    lemma_markers_bounded(grid, Player::Two);
    lemma_markers_bounded(grid, Player::Three);
    lemma_markers_bounded(after, Player::One);
    lemma_markers_bounded(after, Player::Two);
    lemma_markers_bounded(after, Player::Three);
    assert forall|q: (usize, usize)| taken.contains(q) implies q.0 <= q.1 < grid.len() && (
    occupied(grid, second).contains(q) || occupied(grid, third).contains(q)) && q != target by {
        lemma_captured_are_opponents(grid, player, target, q);
        let holder = grid_at(grid, q)->0;
        assert(holder == second || holder == third);
    }
    // what is captured lies on the board, so there is only so much of it
    let range = grid.len() as usize;
    lemma_position_count(range);
    assert(taken.subset_of(all_positions(range)));
    vstd::set_lib::lemma_len_subset(taken, all_positions(range));
    lemma_legal_iff_captures(grid, player, target);
    let some = choose|q: (usize, usize)| taken.contains(q);
    assert(taken.len() >= 1) by {
        if taken.len() == 0 {
            assert(taken.contains(some));
            taken.lemma_len0_is_empty();
        }
    }
    // the player's positions: those held before, those captured, and the target
    let held = occupied(grid, player);
    assert(held.disjoint(taken));
    vstd::set_lib::lemma_set_disjoint_lens(held, taken);
    assert(!held.union(taken).contains(target));
    assert(occupied(after, player) =~= held.union(taken).insert(target));
    // the others' positions: those held before but for what was captured
    let others = occupied(grid, second).union(occupied(grid, third));
    assert(occupied(grid, second).disjoint(occupied(grid, third)));
    vstd::set_lib::lemma_set_disjoint_lens(occupied(grid, second), occupied(grid, third));
    assert(occupied(after, second) =~= occupied(grid, second).difference(taken));
    assert(occupied(after, third) =~= occupied(grid, third).difference(taken));
    assert(occupied(after, second).disjoint(occupied(after, third)));
    vstd::set_lib::lemma_set_disjoint_lens(occupied(after, second), occupied(after, third));
    assert(occupied(after, second).union(occupied(after, third)) =~= others.difference(taken));
    vstd::set_lib::lemma_set_difference_len(others, taken);
    assert(others.intersect(taken) =~= taken);
    match player {
        Player::One => {},
        Player::Two => {},
        Player::Three => {},
    }
}

/// On the board that a game opens with, every player has a legal move.
pub proof fn lemma_opening_has_moves(range: usize)
    requires
        valid_range(range),
        range <= MAX_RANGE,
    ensures
        forall|p: Player| #[trigger] can_move(opening_grid(range), p),
{
    let grid = opening_grid(range);
    let r = range as int;
    assert forall|x: int, y: int| 0 <= x <= y < r implies #[trigger] grid[y][x] == opening_marker(
        r,
        x,
        y,
    ) by {}
    if range % 3 == 0 {
        let k = r / 3;
        assert(r == 3 * k && 2 * r / 3 == 2 * k && k >= 2);
        let c = ((k - 1) as usize, (2 * k + 1) as usize);
        assert(grid_at(grid, c) is None);
        lemma_line_of_one(grid, Player::Two, c, Direction::Right);
        lemma_line_of_one(grid, Player::Three, c, Direction::Up);
        lemma_line_of_two(grid, Player::One, c, Direction::Up);
        assert(legal(grid, Player::One, c));
        assert(legal(grid, Player::Two, c));
        assert(legal(grid, Player::Three, c));
    } else {
        let k = (r - 2) / 3;
        assert(r == 3 * k + 2 && k >= 1);
        assert((r - 5) / 3 == k - 1 && (r + 1) / 3 == k + 1 && (r + 4) / 3 == k + 2);
        assert((2 * r - 7) / 3 == 2 * k - 1 && (2 * r - 4) / 3 == 2 * k && (2 * r - 1) / 3 == 2 * k
            + 1 && (2 * r + 2) / 3 == 2 * k + 2);
        let c = ((k - 1) as usize, (2 * k - 2) as usize);
        assert(grid_at(grid, c) is None);
        lemma_line_of_one(grid, Player::Two, c, Direction::RightDown);
        lemma_line_of_one(grid, Player::Three, c, Direction::Down);
        lemma_line_of_two(grid, Player::One, c, Direction::Down);
        assert(legal(grid, Player::One, c));
        assert(legal(grid, Player::Two, c));
        assert(legal(grid, Player::Three, c));
    }
    assert forall|p: Player| #[trigger] can_move(grid, p) by {
        match p {
            Player::One => {},
            Player::Two => {},
            Player::Three => {},
        }
    }
}

/// A marker of another player followed by one's own is a capture line.
proof fn lemma_line_of_one(grid: Grid, player: Player, c: (usize, usize), d: Direction)
    requires
        opponent_at(grid, player, c, d, 1),
        own_at(grid, player, c, d, 2),
    ensures
        bounded_line(grid, player, c, d, 1),
{
}

/// Two markers of other players followed by one's own are a capture line.
proof fn lemma_line_of_two(grid: Grid, player: Player, c: (usize, usize), d: Direction)
    requires
        opponent_at(grid, player, c, d, 1),
        opponent_at(grid, player, c, d, 2),
        own_at(grid, player, c, d, 3),
    ensures
        bounded_line(grid, player, c, d, 2),
{
    assert forall|k: int| 1 <= k <= 2 implies #[trigger] opponent_at(grid, player, c, d, k) by {
        if k == 1 {
        } else {
            assert(k == 2);
        }
    }
}

impl Board {
    /// The positions that `player` captures in `direction` by a placement
    /// at `target`, from the nearest to the farthest; none where no capture
    /// line leaves `target` in that direction.
    pub fn capture_line(&self, player: Player, target: (usize, usize), direction: Direction) -> (line:
        Vec<(usize, usize)>)
        requires
            self.shaped(),
            in_bounds(self.spec_range(), target),
        ensures
            line@.len() > 0 <==> exists|n: int| bounded_line(self@, player, target, direction, n),
            line@.len() > 0 ==> bounded_line(self@, player, target, direction, line@.len() as int),
            forall|k: int| 0 <= k < line@.len() ==> line@[k] == direction.ray_pos(target, k + 1),
            line@.no_duplicates(),
            line@.to_set() == captured_in(self@, player, target, direction),
    {
        let ghost grid = self@;
        let mut ray = Ray::new(direction, target, self.range());
        let mut line: Vec<(usize, usize)> = Vec::new();
        let mut bounded = false;
        loop
            invariant_except_break
                !bounded,
                ray.wf(),
                ray.direction() == direction,
                ray.range() == self.spec_range(),
                ray.start() == target,
                ray.steps() == line@.len(),
            invariant
                self.shaped(),
                grid == self@,
                in_bounds(self.spec_range(), target),
                line@.len() < self.spec_range(),
                forall|k: int|
                    1 <= k <= line@.len() ==> #[trigger] opponent_at(grid, player, target, direction, k),
                forall|k: int|
                    0 <= k < line@.len() ==> #[trigger] line@[k] == direction.ray_pos(target, k + 1),
            ensures
                bounded ==> own_at(grid, player, target, direction, line@.len() as int + 1),
                !bounded ==> !own_at(grid, player, target, direction, line@.len() as int + 1)
                    && !opponent_at(grid, player, target, direction, line@.len() as int + 1),
            decreases self.spec_range() - line@.len(),
        {
            match ray.next() {
                None => {
                    break ;
                },
                Some(p) => {
                    match self.player(p) {
                        None => {
                            break ;
                        },
                        Some(holder) => {
                            if holder == player {
                                bounded = true;
                                break ;
                            }
                            proof {
                                lemma_ray_is_short(
                                    direction,
                                    self.spec_range(),
                                    target,
                                    line@.len() as int + 1,
                                );
                            }
                            line.push(p);
                        },
                    }
                },
            }
        }
        let ghost walked = line@.len() as int;
        if !bounded {
            line = Vec::new();
        }
        proof {
            if bounded && walked >= 1 {
                assert(bounded_line(grid, player, target, direction, walked));
            } else {
                assert forall|n: int| !bounded_line(grid, player, target, direction, n) by {
                    if bounded_line(grid, player, target, direction, n) {
                        if n <= walked {
                            if n < walked {
                                assert(opponent_at(grid, player, target, direction, n + 1));
                            }
                        } else {
                            assert(opponent_at(grid, player, target, direction, walked + 1));
                        }
                    }
                }
            }
            assert forall|i: int, j: int| 0 <= i < j < line@.len() implies line@[i] != line@[j] by {
                assert(opponent_at(grid, player, target, direction, i + 1));
                assert(opponent_at(grid, player, target, direction, j + 1));
            }
            assert forall|q: (usize, usize)|
                line@.to_set().contains(q) == captured_in(grid, player, target, direction).contains(
                    q,
                ) by {
                if line@.contains(q) {
                    let i = choose|i: int| 0 <= i < line@.len() && line@[i] == q;
                    assert(on_line(grid, player, target, direction, walked, i + 1, q));
                }
                if captured_in(grid, player, target, direction).contains(q) {
                    let (n, k) = choose|n: int, k: int|
                        on_line(grid, player, target, direction, n, k, q);
                    lemma_line_unique(grid, player, target, direction, n, line@.len() as int);
                    assert(line@[k - 1] == q);
                }
            }
            assert(line@.to_set() =~= captured_in(grid, player, target, direction));
        }
        line
    }

    /// Adds to the legal moves of `player` what a placement at `target`
    /// captures in `direction`.
    pub fn add_available(
        &self,
        player: Player,
        target: (usize, usize),
        direction: Direction,
        availables: &mut Availables,
    )
        requires
            self.shaped(),
            in_bounds(self.spec_range(), target),
            old(availables).wf(),
        ensures
            final(availables).wf(),
            forall|p: Player|
                p != player ==> final(availables).placements(p) == old(availables).placements(p),
            final(availables).moves(player) == extended(
                old(availables).moves(player),
                target,
                captured_in(self@, player, target, direction),
            ),
    {
        let line = self.capture_line(player, target, direction);
        proof {
            if line@.len() > 0 {
                assert(line@.to_set().contains(line@[0]));
            } else {
                assert(line@.to_set() =~= Set::<(usize, usize)>::empty());
            }
        }
        availables.add_or_extend(player, target, line);
    }

    /// Adds to the legal moves of `player` the placement at `target`,
    /// with all that it captures, if it is legal.
    pub fn add_available_around(
        &self,
        player: Player,
        target: (usize, usize),
        availables: &mut Availables,
    )
        requires
            self.shaped(),
            in_bounds(self.spec_range(), target),
            old(availables).wf(),
            !old(availables).moves(player).dom().contains(target),
        ensures
            final(availables).wf(),
            forall|p: Player|
                p != player ==> final(availables).placements(p) == old(availables).placements(p),
            final(availables).moves(player) == if legal(self@, player, target) {
                old(availables).moves(player).insert(target, captured(self@, player, target))
            } else {
                old(availables).moves(player)
            },
    {
        if self.player(target).is_some() {
            return ;
        }
        let ghost grid = self@;
        let ghost moves = availables.moves(player);
        let ghost empty = Set::<(usize, usize)>::empty();
        let ghost left = captured_in(grid, player, target, Direction::Left);
        let ghost left_up = captured_in(grid, player, target, Direction::LeftUp);
        let ghost right = captured_in(grid, player, target, Direction::Right);
        let ghost up = captured_in(grid, player, target, Direction::Up);
        let ghost down = captured_in(grid, player, target, Direction::Down);
        self.add_available(player, target, Direction::Left, availables);
        proof {
            lemma_extend_step(moves, target, empty, left);
            assert(empty.union(left) =~= left);
        }
        self.add_available(player, target, Direction::LeftUp, availables);
        proof {
            lemma_extend_step(moves, target, left, left_up);
        }
        self.add_available(player, target, Direction::Right, availables);
        proof {
            lemma_extend_step(moves, target, left.union(left_up), right);
        }
        self.add_available(player, target, Direction::Up, availables);
        proof {
            lemma_extend_step(moves, target, left.union(left_up).union(right), up);
        }
        self.add_available(player, target, Direction::Down, availables);
        proof {
            lemma_extend_step(moves, target, left.union(left_up).union(right).union(up), down);
        }
        self.add_available(player, target, Direction::RightDown, availables);
        proof {
            lemma_extend_step(
                moves,
                target,
                left.union(left_up).union(right).union(up).union(down),
                captured_in(grid, player, target, Direction::RightDown),
            );
            lemma_six_directions(grid, player, target);
            lemma_legal_iff_captures(grid, player, target);
            if !legal(grid, player, target) {
                assert(captured(grid, player, target) =~= empty);
            }
        }
    }

    /// Computes the legal moves of `player` afresh.
    pub fn update_availables_of(&self, player: Player, availables: &mut Availables)
        requires
            self.shaped(),
            old(availables).wf(),
        ensures
            final(availables).wf(),
            forall|p: Player|
                p != player ==> final(availables).placements(p) == old(availables).placements(p),
            final(availables).moves(player) == legal_moves(self@, player),
    {
        availables.clear(player);
        let range = self.range();
        let ghost grid = self@;
        assert(availables.moves(player) =~= legal_moves_before(grid, player, 0, 0));
        let mut y: usize = 0;
        while y < range
            invariant
                y <= range,
                range == self.spec_range(),
                grid == self@,
                self.shaped(),
                availables.wf(),
                forall|p: Player|
                    p != player ==> availables.placements(p) == old(availables).placements(p),
                availables.moves(player) == legal_moves_before(grid, player, 0, y as int),
            decreases range - y,
        {
            let mut x: usize = 0;
            while x <= y
                invariant
                    y < range,
                    x <= y + 1,
                    range == self.spec_range(),
                    grid == self@,
                    self.shaped(),
                    availables.wf(),
                    forall|p: Player|
                        p != player ==> availables.placements(p) == old(availables).placements(p),
                    availables.moves(player) == legal_moves_before(grid, player, x as int, y as int),
                decreases y + 1 - x,
            {
                self.add_available_around(player, (x, y), availables);
                assert(availables.moves(player) =~= legal_moves_before(
                    grid,
                    player,
                    x as int + 1,
                    y as int,
                ));
                x = x + 1;
            }
            assert(legal_moves_before(grid, player, y as int + 1, y as int) =~= legal_moves_before(
                grid,
                player,
                0,
                y as int + 1,
            ));
            y = y + 1;
        }
        assert(legal_moves_before(grid, player, 0, range as int) =~= legal_moves(grid, player));
    }

    /// Computes the legal moves of every player afresh.
    pub fn update_availables(&self, availables: &mut Availables)
        requires
            self.shaped(),
            old(availables).wf(),
        ensures
            final(availables).wf(),
            forall|p: Player| #[trigger] final(availables).moves(p) == legal_moves(self@, p),
    {
        self.update_availables_of(Player::One, availables);
        self.update_availables_of(Player::Two, availables);
        self.update_availables_of(Player::Three, availables);
    }

    /// Places a marker of `player` at `target` and gives the player the
    /// positions in `taken`, which are those that the placement captures.
    /// The player gains a marker for each of them and one for the
    /// placement; the other players together lose one for each of them.
    pub fn place(&mut self, player: Player, target: (usize, usize), taken: &Vec<(usize, usize)>)
        requires
            old(self).wf(),
            legal(old(self)@, player, target),
            taken@.no_duplicates(),
            taken@.to_set() == captured(old(self)@, player, target),
        ensures
            final(self).wf(),
            final(self).spec_range() == old(self).spec_range(),
            final(self)@ == placed(old(self)@, player, target),
            final(self).spec_count().spec_get(player) == old(self).spec_count().spec_get(player)
                + taken@.len() + 1,
            final(self).spec_count().spec_get(player.next()) + final(self).spec_count().spec_get(
                player.next().next(),
            ) == old(self).spec_count().spec_get(player.next()) + old(self).spec_count().spec_get(
                player.next().next(),
            ) - taken@.len(),
            final(self).spec_count().total() == old(self).spec_count().total() + 1,
    {
        let ghost grid = self@;
        let n = taken.len();
        let mut i: usize = 0;
        while i < n
            invariant
                i <= n,
                n == taken@.len(),
                self.wf(),
                self.spec_range() == old(self).spec_range(),
                grid == old(self)@,
                grid.len() == self.spec_range(),
                legal(grid, player, target),
                taken@.no_duplicates(),
                taken@.to_set() == captured(grid, player, target),
                forall|q: (usize, usize)|
                    in_bounds(self.spec_range(), q) ==> #[trigger] self.at(q) == if taken@.subrange(
                        0,
                        i as int,
                    ).contains(q) {
                        Some(player)
                    } else {
                        grid_at(grid, q)
                    },
                self.spec_count().spec_get(player) == old(self).spec_count().spec_get(player) + i,
                self.spec_count().spec_get(player.next()) + self.spec_count().spec_get(
                    player.next().next(),
                ) == old(self).spec_count().spec_get(player.next()) + old(
                    self,
                ).spec_count().spec_get(player.next().next()) - i,
            decreases n - i,
        {
            let q = taken[i];
            let ghost done = taken@.subrange(0, i as int);
            proof {
                assert(taken@.to_set().contains(q));
                lemma_captured_are_opponents(grid, player, target, q);
                assert(!done.contains(q));
                assert(self.at(q) == grid_at(grid, q));
                assert(taken@.subrange(0, i + 1) =~= done.push(q));
                vstd::seq_lib::lemma_seq_contains_after_push(done, q, q);
            }
            let ghost before = *self;
            self.set_player(q, Some(player));
            proof {
                let holder = before.at(q)->0;
                assert(before.at(q) == Some(holder));
                assert(holder == player.next() || holder == player.next().next());
                assert(player.next() != player.next().next());
                assert(self.spec_count().spec_get(player.next()) == before.spec_count().spec_get(
                    player.next(),
                ) - if holder == player.next() {
                    1int
                } else {
                    0int
                });
                assert(self.spec_count().spec_get(player.next().next())
                    == before.spec_count().spec_get(player.next().next()) - if holder
                    == player.next().next() {
                    1int
                } else {
                    0int
                });
                assert forall|r: (usize, usize)| in_bounds(self.spec_range(), r) implies #[trigger] self.at(
                    r,
                ) == if taken@.subrange(0, i + 1).contains(r) {
                    Some(player)
                } else {
                    grid_at(grid, r)
                } by {
                    vstd::seq_lib::lemma_seq_contains_after_push(done, q, r);
                    assert(before.at(r) == if done.contains(r) {
                        Some(player)
                    } else {
                        grid_at(grid, r)
                    });
                }
            }
            i = i + 1;
        }
        proof {
            assert(taken@.subrange(0, n as int) =~= taken@);
            if taken@.contains(target) {
                assert(taken@.to_set().contains(target));
                lemma_captured_are_opponents(grid, player, target, target);
            }
            assert(self.at(target) == grid_at(grid, target));
        }
        let ghost before = *self;
        self.set_player(target, Some(player));
        proof {
            assert forall|x: int, y: int| 0 <= x <= y < grid.len() implies #[trigger] self@[y][x]
                == placed(grid, player, target)[y][x] by {
                let r = (x as usize, y as usize);
                assert(self.at(r) == self@[y][x]);
                assert(before.at(r) == before@[y][x]);
                assert(taken@.contains(r) == taken@.to_set().contains(r));
            }
            assert(self@ =~~= placed(grid, player, target));
        }
    }
}

} // verus!
