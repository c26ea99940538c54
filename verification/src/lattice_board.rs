//! A drawing of the board as a lattice of blocks.
//!
//! The positions of the board are drawn as stones, `distance` blocks
//! apart, and joined by bonds along the rows and along the two slanted
//! edges of the triangle. The board of edge length three at distance two:
//!
//! ```text
//!     .
//!    / \
//!   . - .
//!  / \ / \
//! . - . - .
//! ```

use crate::board::{
    grid_at, grid_set, moved_down, moved_left, moved_right, moved_up, opening_grid, Board, Grid,
};
use crate::error::TriversiError;
use crate::logic_board::LogicBoard;
use crate::mark::PlayerMark;
use crate::player::Player;
use crate::position::{in_bounds, valid_range, MAX_RANGE};
use vstd::arithmetic::div_mod::{lemma_fundamental_div_mod, lemma_fundamental_div_mod_converse};
use vstd::prelude::*;

verus! {

/// The largest distance at which a board is drawn.
pub const MAX_DISTANCE: usize = 10;

/// A piece of the line that joins two neighbouring stones.
#[derive(Clone, Copy, Debug, PartialEq, Eq)]
pub enum Bond {
    /// Between a stone and its neighbour below on the left.
    LeftDown,
    /// Between a stone and its neighbour below on the right.
    RightDown,
    /// Between a stone and its neighbour in the row.
    Horizontal,
}

/// What the drawing shows at one place.
#[derive(Clone, Copy, Debug, PartialEq, Eq)]
pub enum LatticeBlock {
    /// A position of the board, with the player who holds it.
    Stone(Option<Player>),
    /// A piece of a bond.
    Bond(Bond),
    /// Nothing.
    Background,
}

/// Whether a board can be drawn at `distance`.
pub open spec fn valid_distance(distance: usize) -> bool {
    2 <= distance <= MAX_DISTANCE
}

/// The number of rows of the drawing.
pub open spec fn lattice_height(range: int, distance: int) -> int {
    distance * (range - 1) + 1
}

/// The number of columns of the drawing.
pub open spec fn lattice_width(range: int, distance: int) -> int {
    distance * (range - 1) + 1 + distance * (range - 1)
}

/// The column of the drawing in which the stone of `pos` stands.
pub open spec fn block_x(range: int, distance: int, pos: (usize, usize)) -> int {
    distance * (range - pos.1 - 1) + pos.0 * distance * 2
}

/// The row of the drawing in which the stone of `pos` stands.
pub open spec fn block_y(distance: int, pos: (usize, usize)) -> int {
    distance * pos.1
}

/// What stands at column `bx` of row `by` of the drawing of an empty
/// board.
///
/// Every `distance` rows there is a row of stones, one row for each row of
/// the board. In it the stones stand two distances apart, and between two
/// of them runs a horizontal bond that leaves one block free on each side.
/// In the rows between, a bond leaves every stone of the row of stones
/// above to the left and to the right, one column for each row.
pub open spec fn frame_block(range: int, distance: int, bx: int, by: int) -> LatticeBlock {
    let y = by / distance;
    let offset = by % distance;
    let first = distance * (range - y - 1);
    if offset == 0 {
        let t = bx - first;
        if t >= 0 && t % (2 * distance) == 0 && t / (2 * distance) <= y {
            LatticeBlock::Stone(None)
        } else if t >= 0 && 2 <= t % (2 * distance) <= 2 * distance - 2 && t / (2 * distance) < y {
            LatticeBlock::Bond(Bond::Horizontal)
        } else {
            LatticeBlock::Background
        }
    } else {
        let left = bx + offset - first;
        let right = bx - offset - first;
        if left >= 0 && left % (2 * distance) == 0 && left / (2 * distance) <= y {
            LatticeBlock::Bond(Bond::LeftDown)
        } else if right >= 0 && right % (2 * distance) == 0 && right / (2 * distance) <= y {
            LatticeBlock::Bond(Bond::RightDown)
        } else {
            LatticeBlock::Background
        }
    }
}

/// The position of the board whose stone stands at column `bx` of row
/// `by`, where a stone stands there.
pub open spec fn stone_position(range: int, distance: int, bx: int, by: int) -> (usize, usize) {
    let y = by / distance;
    (((bx - distance * (range - y - 1)) / (2 * distance)) as usize, y as usize)
}

/// What stands at column `bx` of row `by` of the drawing of the grid:
/// what stands there for the empty board, and in a stone the player who
/// holds the position.
pub open spec fn lattice_block(grid: Grid, distance: int, bx: int, by: int) -> LatticeBlock {
    match frame_block(grid.len() as int, distance, bx, by) {
        LatticeBlock::Stone(_) => LatticeBlock::Stone(
            grid_at(grid, stone_position(grid.len() as int, distance, bx, by)),
        ),
        block => block,
    }
}

/// The drawing of the grid at `distance`.
pub open spec fn lattice_of(grid: Grid, distance: int) -> Seq<Seq<LatticeBlock>> {
    Seq::new(
        lattice_height(grid.len() as int, distance) as nat,
        |by: int|
            Seq::new(
                lattice_width(grid.len() as int, distance) as nat,
                |bx: int| lattice_block(grid, distance, bx, by),
            ),
    )
}

/// Whether the blocks are the drawing of the grid but for the players in
/// the stones.
pub open spec fn frame_of(blocks: Seq<Seq<LatticeBlock>>, range: int, distance: int) -> bool {
    &&& blocks.len() == lattice_height(range, distance)
    &&& forall|by: int|
        0 <= by < blocks.len() ==> (#[trigger] blocks[by]).len() == lattice_width(range, distance)
    &&& forall|bx: int, by: int|
        0 <= by < lattice_height(range, distance) && 0 <= bx < lattice_width(range, distance)
            ==> match frame_block(range, distance, bx, by) {
            LatticeBlock::Stone(_) => (#[trigger] blocks[by][bx]) is Stone,
            block => blocks[by][bx] == block,
        }
}

/// The stone of a position of the board stands in the drawing where the
/// drawing has a stone, and that stone is the stone of the position.
pub proof fn lemma_block_of_position(range: int, distance: int, pos: (usize, usize))
    requires
        distance >= 2,
        pos.0 <= pos.1 < range,
    ensures
        0 <= block_x(range, distance, pos) < lattice_width(range, distance),
        0 <= block_y(distance, pos) < lattice_height(range, distance),
        frame_block(range, distance, block_x(range, distance, pos), block_y(distance, pos))
            == LatticeBlock::Stone(None),
        stone_position(range, distance, block_x(range, distance, pos), block_y(distance, pos))
            == pos,
{
    let x = pos.0 as int;
    let y = pos.1 as int;
    let bx = block_x(range, distance, pos);
    let by = block_y(distance, pos);
    lemma_fundamental_div_mod_converse(by, distance, y, 0);
    let first = distance * (range - y - 1);
    assert(bx - first == x * (2 * distance)) by (nonlinear_arith)
        requires
            bx == distance * (range - y - 1) + x * distance * 2,
            first == distance * (range - y - 1),
    ;
    lemma_fundamental_div_mod_converse(bx - first, 2 * distance, x, 0);
    assert(0 <= first) by (nonlinear_arith)
        requires
            first == distance * (range - y - 1),
            distance >= 2,
            range - y - 1 >= 0,
    ;
    assert(bx < lattice_width(range, distance)) by (nonlinear_arith)
        requires
            bx == distance * (range - y - 1) + x * distance * 2,
            lattice_width(range, distance) == distance * (range - 1) + 1 + distance * (range - 1),
            0 <= x <= y < range,
            distance >= 2,
    ;
    assert(0 <= by < lattice_height(range, distance)) by (nonlinear_arith)
        requires
            by == distance * y,
            lattice_height(range, distance) == distance * (range - 1) + 1,
            0 <= y < range,
            distance >= 2,
    ;
}

/// Where the drawing has a stone, it is the stone of a position of the
/// board, and it stands where the stone of that position stands.
pub proof fn lemma_position_of_stone(range: int, distance: int, bx: int, by: int)
    requires
        distance >= 2,
        1 <= range <= usize::MAX,
        0 <= by < lattice_height(range, distance),
        0 <= bx < lattice_width(range, distance),
        frame_block(range, distance, bx, by) is Stone,
    ensures
        stone_position(range, distance, bx, by).0 <= stone_position(range, distance, bx, by).1
            < range,
        block_x(range, distance, stone_position(range, distance, bx, by)) == bx,
        block_y(distance, stone_position(range, distance, bx, by)) == by,
{
    let y = by / distance;
    let first = distance * (range - y - 1);
    let t = bx - first;
    let x = t / (2 * distance);
    lemma_fundamental_div_mod(by, distance);
    lemma_fundamental_div_mod(t, 2 * distance);
    lemma_row_of_block(range, distance, by);
    assert(0 <= x) by (nonlinear_arith)
        requires
            t == (2 * distance) * x + 0,
            t >= 0,
            distance >= 2,
    ;
    assert(t == x * distance * 2) by (nonlinear_arith)
        requires
            t == (2 * distance) * x + 0,
    ;
    let pos = stone_position(range, distance, bx, by);
    assert(by % distance == 0);
    assert(t % (2 * distance) == 0 && x <= y);
    assert(pos == (x as usize, y as usize));
    assert(pos.0 == x && pos.1 == y);
}

/// Every row of the drawing belongs to a row of the board.
pub proof fn lemma_row_of_block(range: int, distance: int, by: int)
    requires
        distance >= 2,
        range >= 1,
        0 <= by < lattice_height(range, distance),
    ensures
        0 <= by / distance <= range - 1,
        0 <= by % distance < distance,
        by % distance != 0 ==> by / distance < range - 1,
        0 <= distance * (range - by / distance - 1) <= distance * (range - 1),
{
    let y = by / distance;
    let offset = by % distance;
    lemma_fundamental_div_mod(by, distance);
    assert(0 <= offset < distance);
    assert(0 <= y <= range - 1 && (offset != 0 ==> y < range - 1)) by (nonlinear_arith)
        requires
            by == distance * y + offset,
            0 <= offset < distance,
            0 <= by < distance * (range - 1) + 1,
            distance >= 2,
    ;
    assert(0 <= distance * (range - y - 1) <= distance * (range - 1)) by (nonlinear_arith)
        requires
            0 <= y <= range - 1,
            distance >= 2,
    ;
}

/// What stands at column `bx` of row `by` of the drawing of the empty
/// board of edge length `range` at `distance`.
pub fn frame_block_at(range: usize, distance: usize, bx: usize, by: usize) -> (block: LatticeBlock)
    requires
        valid_distance(distance),
        1 <= range <= MAX_RANGE,
        by < lattice_height(range as int, distance as int),
        bx < lattice_width(range as int, distance as int),
    ensures
        block == frame_block(range as int, distance as int, bx as int, by as int),
{
    let y = by / distance;
    let offset = by % distance;
    proof {
        lemma_row_of_block(range as int, distance as int, by as int);
        assert(distance * (range - 1) <= 10 * 0x100_0000) by (nonlinear_arith)
            requires
                2 <= distance <= 10,
                1 <= range <= 0x100_0000,
        ;
    }
    let first = distance * (range - y - 1);
    if offset == 0 {
        if bx >= first {
            let t = bx - first;
            let x = t / (2 * distance);
            let rest = t % (2 * distance);
            if rest == 0 && x <= y {
                LatticeBlock::Stone(None)
            } else if 2 <= rest && rest <= 2 * distance - 2 && x < y {
                LatticeBlock::Bond(Bond::Horizontal)
            } else {
                LatticeBlock::Background
            }
        } else {
            LatticeBlock::Background
        }
    } else {
        if bx + offset >= first && (bx + offset - first) % (2 * distance) == 0 && (bx + offset
            - first) / (2 * distance) <= y {
            LatticeBlock::Bond(Bond::LeftDown)
        } else if bx >= first + offset && (bx - offset - first) % (2 * distance) == 0 && (bx
            - offset - first) / (2 * distance) <= y {
            LatticeBlock::Bond(Bond::RightDown)
        } else {
            LatticeBlock::Background
        }
    }
}

/// The position of the board whose stone stands at column `bx` of row `by`
/// of the drawing; `None` where no stone stands.
pub fn position_of_block(range: usize, distance: usize, bx: usize, by: usize) -> (pos: Option<
    (usize, usize),
>)
    requires
        valid_distance(distance),
        1 <= range <= MAX_RANGE,
        by < lattice_height(range as int, distance as int),
        bx < lattice_width(range as int, distance as int),
    ensures
        pos is Some <==> frame_block(range as int, distance as int, bx as int, by as int) is Stone,
        pos matches Some(p) ==> {
            &&& p == stone_position(range as int, distance as int, bx as int, by as int)
            &&& in_bounds(range, p)
            &&& block_x(range as int, distance as int, p) == bx
            &&& block_y(distance as int, p) == by
        },
{
    match frame_block_at(range, distance, bx, by) {
        LatticeBlock::Stone(_) => {
            proof {
                lemma_position_of_stone(range as int, distance as int, bx as int, by as int);
                lemma_row_of_block(range as int, distance as int, by as int);
                assert(distance * (range - 1) <= 10 * 0x100_0000) by (nonlinear_arith)
                    requires
                        2 <= distance <= 10,
                        1 <= range <= 0x100_0000,
                ;
            }
            let y = by / distance;
            let first = distance * (range - y - 1);
            Some(((bx - first) / (2 * distance), y))
        },
        _ => None,
    }
}

/// The place in the drawing where the stone of `pos` stands: column and
/// row.
pub fn block_of_position(range: usize, distance: usize, pos: (usize, usize)) -> (place: (
    usize,
    usize,
))
    requires
        valid_distance(distance),
        range <= MAX_RANGE,
        in_bounds(range, pos),
    ensures
        place.0 == block_x(range as int, distance as int, pos),
        place.1 == block_y(distance as int, pos),
        place.0 < lattice_width(range as int, distance as int),
        place.1 < lattice_height(range as int, distance as int),
{
    let (x_logic, y_logic) = pos;
    proof {
        lemma_block_of_position(range as int, distance as int, pos);
        assert(distance * (range - 1) <= 10 * 0x100_0000) by (nonlinear_arith)
            requires
                2 <= distance <= 10,
                1 <= range <= 0x100_0000,
        ;
        assert(0 <= distance * (range - y_logic - 1) <= distance * (range - 1)) by (nonlinear_arith)
            requires
                2 <= distance <= 10,
                0 <= y_logic < range,
        ;
        assert(0 <= x_logic * distance <= distance * (range - 1)) by (nonlinear_arith)
            requires
                2 <= distance <= 10,
                0 <= x_logic < range,
        ;
        assert(0 <= distance * y_logic <= distance * (range - 1)) by (nonlinear_arith)
            requires
                2 <= distance <= 10,
                0 <= y_logic < range,
        ;
    }
    let x_block = distance * (range - y_logic - 1) + x_logic * distance * 2;
    let y_block = distance * y_logic;
    (x_block, y_block)
}

/// The drawing of `board` at `distance`.
pub fn draw(board: &Board, distance: usize) -> (rows: Vec<Vec<LatticeBlock>>)
    requires
        board.wf(),
        valid_distance(distance),
    ensures
        rows@.len() == lattice_height(board@.len() as int, distance as int),
        forall|by: int|
            0 <= by < rows@.len() ==> (#[trigger] rows@[by])@ == lattice_of(
                board@,
                distance as int,
            )[by],
{
    let range = board.range();
    assert(distance * (range - 1) <= 10 * 0x100_0000) by (nonlinear_arith)
        requires
            2 <= distance <= 10,
            5 <= range <= 0x100_0000,
    ;
    let height = distance * (range - 1) + 1;
    let width = distance * (range - 1) + 1 + distance * (range - 1);
    let mut rows: Vec<Vec<LatticeBlock>> = Vec::new();
    let mut by: usize = 0;
    while by < height
        invariant
            by <= height,
            board.wf(),
            valid_distance(distance),
            range == board.spec_range(),
            height == lattice_height(range as int, distance as int),
            width == lattice_width(range as int, distance as int),
            rows@.len() == by,
            forall|i: int|
                0 <= i < by ==> (#[trigger] rows@[i])@ == lattice_of(board@, distance as int)[i],
        decreases height - by,
    {
        let mut row: Vec<LatticeBlock> = Vec::new();
        let mut bx: usize = 0;
        while bx < width
            invariant
                bx <= width,
                by < height,
                board.wf(),
                valid_distance(distance),
                range == board.spec_range(),
                height == lattice_height(range as int, distance as int),
                width == lattice_width(range as int, distance as int),
                row@.len() == bx,
                forall|j: int|
                    0 <= j < bx ==> (#[trigger] row@[j]) == lattice_block(
                        board@,
                        distance as int,
                        j,
                        by as int,
                    ),
            decreases width - bx,
        {
            let block = match position_of_block(range, distance, bx, by) {
                Some(pos) => LatticeBlock::Stone(board.player(pos)),
                None => frame_block_at(range, distance, bx, by),
            };
            row.push(block);
            bx = bx + 1;
        }
        assert(row@ =~= lattice_of(board@, distance as int)[by as int]);
        rows.push(row);
        by = by + 1;
    }
    rows
}

/// The character that stands for `block` where the players have the
/// marks `marks` and the bonds are shown or not.
pub open spec fn spec_block_char(block: LatticeBlock, marks: PlayerMark, frame_visibility: bool) -> char {
    match block {
        LatticeBlock::Stone(Some(player)) => marks.spec_convert(player),
        LatticeBlock::Stone(None) => if frame_visibility {
            ' '
        } else {
            '.'
        },
        LatticeBlock::Bond(bond) => if frame_visibility {
            match bond {
                Bond::LeftDown => '/',
                Bond::RightDown => '\\',
                Bond::Horizontal => '-',
            }
        } else {
            ' '
        },
        LatticeBlock::Background => ' ',
    }
}

/// The character that stands for `block`.
///
/// A stone shows the mark of the player who holds it. An empty stone
/// shows as a dot while the bonds are hidden and as a blank while they are
/// shown. A bond shows as a stroke along its direction while the bonds are
/// shown, and as a blank while they are hidden. The background is blank.
#[verifier::when_used_as_spec(spec_block_char)]
pub fn block_char(block: LatticeBlock, marks: PlayerMark, frame_visibility: bool) -> (c: char)
    ensures
        c == spec_block_char(block, marks, frame_visibility),
{
    match block {
        LatticeBlock::Stone(player) => match player {
            Some(player) => marks.convert(player),
            None => {
                if frame_visibility {
                    ' '
                } else {
                    '.'
                }
            },
        },
        LatticeBlock::Bond(bond) => {
            if frame_visibility {
                match bond {
                    Bond::LeftDown => '/',
                    Bond::RightDown => '\\',
                    Bond::Horizontal => '-',
                }
            } else {
                ' '
            }
        },
        LatticeBlock::Background => ' ',
    }
}

/// How a stone is shown.
#[derive(Clone, Copy, Debug, PartialEq, Eq)]
pub struct StoneStyle {
    /// The player in whose color the stone is shown, if in any.
    pub color: Option<Player>,
    /// Whether the stone stands out as one of the current player.
    pub strong: bool,
    /// Whether the stone is shown reversed, as the place of the cursor.
    pub reversed: bool,
}

/// How the stone of `position` is shown: in the color of the player who
/// holds it, strong if that is the current player, and reversed if the
/// cursor is on it. A stone that is scrolled out of sight has no style.
pub open spec fn spec_stone_style(
    holder: Option<Player>,
    position: (usize, usize),
    current_player: Player,
    current_position: (usize, usize),
    in_sight: bool,
) -> StoneStyle {
    if in_sight {
        StoneStyle {
            color: holder,
            strong: holder == Some(current_player),
            reversed: position == current_position,
        }
    } else {
        StoneStyle { color: None, strong: false, reversed: false }
    }
}

/// How the stone of `position` is shown.
#[verifier::when_used_as_spec(spec_stone_style)]
pub fn stone_style(
    holder: Option<Player>,
    position: (usize, usize),
    current_player: Player,
    current_position: (usize, usize),
    in_sight: bool,
) -> (style: StoneStyle)
    ensures
        style == spec_stone_style(holder, position, current_player, current_position, in_sight),
{
    if in_sight {
        let strong = match holder {
            Some(player) => player == current_player,
            None => false,
        };
        StoneStyle {
            color: holder,
            strong,
            reversed: position.0 == current_position.0 && position.1 == current_position.1,
        }
    } else {
        StoneStyle { color: None, strong: false, reversed: false }
    }
}

/// A board drawn as a lattice of blocks, with the marks of the players
/// and the distance between neighbouring stones.
#[derive(Debug)]
pub struct LatticeBoard {
    lattice_board: Vec<Vec<LatticeBlock>>,
    logic_board: LogicBoard,
    distance: usize,
    player_mark: PlayerMark,
    frame_visibility: bool,
}

/// The blocks of the drawing, row by row.
impl View for LatticeBoard {
    type V = Seq<Seq<LatticeBlock>>;

    closed spec fn view(&self) -> Seq<Seq<LatticeBlock>> {
        Seq::new(self.lattice_board@.len(), |by: int| self.lattice_board@[by]@)
    }
}

impl LatticeBoard {
    /// The largest distance at which a board is drawn.
    pub const MAX_DISTANCE: usize = 10;

    /// The board that is drawn.
    pub closed spec fn spec_logic_board(&self) -> LogicBoard {
        self.logic_board
    }

    /// The distance between neighbouring stones.
    pub closed spec fn spec_distance(&self) -> usize {
        self.distance
    }

    /// The marks of the players.
    pub closed spec fn spec_player_mark(&self) -> PlayerMark {
        self.player_mark
    }

    /// Whether the bonds are shown.
    pub closed spec fn spec_frame_visibility(&self) -> bool {
        self.frame_visibility
    }

    /// The board that is drawn, as a grid.
    pub open spec fn grid(&self) -> Grid {
        self.spec_logic_board()@
    }

    /// What holds of the board and the distance, whatever the drawing
    /// shows.
    pub open spec fn shaped(&self) -> bool {
        &&& self.spec_logic_board().wf()
        &&& valid_distance(self.spec_distance())
    }

    /// What holds of every drawn board: the drawing is that of the board
    /// at the distance.
    pub open spec fn wf(&self) -> bool {
        &&& self.shaped()
        &&& self@ == lattice_of(self.grid(), self.spec_distance() as int)
    }

    /// The drawing of the board of edge length `range` as a game opens,
    /// with the bonds hidden. A distance below two or above the largest is
    /// refused, and so is an edge length on which no game can be set up.
    pub fn try_new(range: usize, distance: usize, player_mark: PlayerMark) -> (res: Result<
        LatticeBoard,
        TriversiError,
    >)
        requires
            range <= MAX_RANGE,
        ensures
            res is Ok <==> valid_distance(distance) && valid_range(range),
            res matches Ok(board) ==> {
                &&& board.wf()
                &&& board.grid() == opening_grid(range)
                &&& board.spec_distance() == distance
                &&& board.spec_player_mark() == player_mark
                &&& !board.spec_frame_visibility()
                &&& board.spec_logic_board().spec_cursor() == (0usize, 0usize)
            },
            res matches Err(e) ==> e == if valid_distance(distance) {
                TriversiError::InvalidBoardRange(range)
            } else {
                TriversiError::InvalidBoardDistance(distance)
            },
    {
        if distance < 2 || distance > MAX_DISTANCE {
            return Err(TriversiError::InvalidBoardDistance(distance));
        }
        let logic_board = match LogicBoard::try_new(range) {
            Ok(logic_board) => logic_board,
            Err(e) => {
                return Err(e);
            },
        };
        let mut lattice_board = LatticeBoard {
            lattice_board: Vec::new(),
            logic_board,
            distance,
            player_mark,
            frame_visibility: false,
        };
        lattice_board.init();
        Ok(lattice_board)
    }

    /// Sets the board up for the opening of a game and draws it.
    pub fn init(&mut self)
        requires
            old(self).shaped(),
        ensures
            final(self).wf(),
            final(self).grid() == opening_grid(old(self).spec_logic_board().spec_range()),
            final(self).spec_logic_board().spec_cursor() == old(
                self,
            ).spec_logic_board().spec_cursor(),
            final(self).spec_distance() == old(self).spec_distance(),
            final(self).spec_player_mark() == old(self).spec_player_mark(),
            final(self).spec_frame_visibility() == old(self).spec_frame_visibility(),
    {
        self.logic_board.init();
        self.redraw();
        self.reflect_from_logic();
    }

    /// Shows the bonds if they are hidden, and hides them if they are
    /// shown.
    pub fn toggle_frame_visibility(&mut self)
        ensures
            final(self).spec_frame_visibility() == !old(self).spec_frame_visibility(),
            final(self)@ == old(self)@,
            final(self).spec_logic_board() == old(self).spec_logic_board(),
            final(self).spec_distance() == old(self).spec_distance(),
            final(self).spec_player_mark() == old(self).spec_player_mark(),
    {
        self.frame_visibility = !self.frame_visibility;
    }

    /// Draws the board one block wider apart, up to the largest distance.
    pub fn zoom_in(&mut self)
        requires
            old(self).wf(),
        ensures
            final(self).wf(),
            final(self).spec_logic_board() == old(self).spec_logic_board(),
            final(self).spec_player_mark() == old(self).spec_player_mark(),
            final(self).spec_frame_visibility() == old(self).spec_frame_visibility(),
            final(self).spec_distance() == if old(self).spec_distance() < MAX_DISTANCE {
                (old(self).spec_distance() + 1) as usize
            } else {
                old(self).spec_distance()
            },
    {
        if self.distance < MAX_DISTANCE {
            self.distance = self.distance + 1;
            self.redraw();
        }
    }

    /// Draws the board one block closer together, down to the distance
    /// two.
    pub fn zoom_out(&mut self)
        requires
            old(self).wf(),
        ensures
            final(self).wf(),
            final(self).spec_logic_board() == old(self).spec_logic_board(),
            final(self).spec_player_mark() == old(self).spec_player_mark(),
            final(self).spec_frame_visibility() == old(self).spec_frame_visibility(),
            final(self).spec_distance() == if old(self).spec_distance() > 2 {
                (old(self).spec_distance() - 1) as usize
            } else {
                old(self).spec_distance()
            },
    {
        if self.distance > 2 {
            self.distance = self.distance - 1;
            self.redraw();
        }
    }

    /// The place of the cursor in the drawing: column and row.
    pub fn cursor(&self) -> (place: (usize, usize))
        requires
            self.shaped(),
        ensures
            place.0 == block_x(
                self.grid().len() as int,
                self.spec_distance() as int,
                self.spec_logic_board().spec_cursor(),
            ),
            place.1 == block_y(self.spec_distance() as int, self.spec_logic_board().spec_cursor()),
    {
        self.logic_to_block(self.logic_board.cursor())
    }

    /// The character that stands for `block` in this drawing.
    pub open spec fn spec_block_to_char(&self, block: LatticeBlock) -> char {
        spec_block_char(block, self.spec_player_mark(), self.spec_frame_visibility())
    }

    /// The character that stands for `block` in this drawing: with the
    /// marks of its players, and with its bonds shown or hidden.
    pub fn block_to_char(&self, block: LatticeBlock) -> (c: char)
        ensures
            c == self.spec_block_to_char(block),
    {
        block_char(block, self.player_mark, self.frame_visibility)
    }

    /// Draws the board afresh at the distance.
    pub fn redraw(&mut self)
        requires
            old(self).shaped(),
        ensures
            final(self).wf(),
            final(self).spec_logic_board() == old(self).spec_logic_board(),
            final(self).spec_distance() == old(self).spec_distance(),
            final(self).spec_player_mark() == old(self).spec_player_mark(),
            final(self).spec_frame_visibility() == old(self).spec_frame_visibility(),
    {
        let range = self.logic_board.range();
        let distance = self.distance;
        assert(distance * (range - 1) <= 10 * 0x100_0000) by (nonlinear_arith)
            requires
                2 <= distance <= 10,
                5 <= range <= 0x100_0000,
        ;
        let height = distance * (range - 1) + 1;
        let width = distance * (range - 1) + 1 + distance * (range - 1);
        let mut rows: Vec<Vec<LatticeBlock>> = Vec::new();
        let mut by: usize = 0;
        while by < height
            invariant
                by <= height,
                self.shaped(),
                range == self.spec_logic_board().spec_range(),
                distance == self.spec_distance(),
                height == lattice_height(range as int, distance as int),
                width == lattice_width(range as int, distance as int),
                rows@.len() == by,
                forall|i: int| 0 <= i < by ==> (#[trigger] rows@[i])@.len() == width,
                forall|i: int, j: int|
                    0 <= i < by && 0 <= j < width ==> (#[trigger] rows@[i]@[j]) == frame_block(
                        range as int,
                        distance as int,
                        j,
                        i,
                    ),
            decreases height - by,
        {
            let mut row: Vec<LatticeBlock> = Vec::new();
            let mut bx: usize = 0;
            while bx < width
                invariant
                    bx <= width,
                    by < height,
                    self.shaped(),
                    range == self.spec_logic_board().spec_range(),
                    distance == self.spec_distance(),
                    height == lattice_height(range as int, distance as int),
                    width == lattice_width(range as int, distance as int),
                    row@.len() == bx,
                    forall|j: int|
                        0 <= j < bx ==> (#[trigger] row@[j]) == frame_block(
                            range as int,
                            distance as int,
                            j,
                            by as int,
                        ),
                decreases width - bx,
            {
                row.push(frame_block_at(range, distance, bx, by));
                bx = bx + 1;
            }
            rows.push(row);
            by = by + 1;
        }
        self.lattice_board = rows;
        // Each player
        self.reflect_from_logic();
    }

    /// Writes into every stone of the drawing the player who holds the
    /// position.
    fn reflect_from_logic(&mut self)
        requires
            old(self).shaped(),
            frame_of(
                old(self)@,
                old(self).spec_logic_board().spec_range() as int,
                old(self).spec_distance() as int,
            ),
        ensures
            final(self).wf(),
            final(self).spec_logic_board() == old(self).spec_logic_board(),
            final(self).spec_distance() == old(self).spec_distance(),
            final(self).spec_player_mark() == old(self).spec_player_mark(),
            final(self).spec_frame_visibility() == old(self).spec_frame_visibility(),
    {
        let range = self.logic_board.range();
        let ghost d = self.distance as int;
        let ghost grid = self.grid();
        let mut y_logic: usize = 0;
        while y_logic < range
            invariant
                y_logic <= range,
                self.shaped(),
                range == self.spec_logic_board().spec_range(),
                d == self.spec_distance(),
                grid == self.grid(),
                self.spec_logic_board() == old(self).spec_logic_board(),
                self.spec_player_mark() == old(self).spec_player_mark(),
                self.spec_frame_visibility() == old(self).spec_frame_visibility(),
                frame_of(self@, range as int, d),
                forall|pos: (usize, usize)|
                    pos.0 <= pos.1 < y_logic ==> (#[trigger] self@[block_y(d, pos)][block_x(
                        range as int,
                        d,
                        pos,
                    )]) == LatticeBlock::Stone(grid_at(grid, pos)),
            decreases range - y_logic,
        {
            let mut x_logic: usize = 0;
            while x_logic <= y_logic
                invariant
                    y_logic < range,
                    x_logic <= y_logic + 1,
                    self.shaped(),
                    range == self.spec_logic_board().spec_range(),
                    d == self.spec_distance(),
                    grid == self.grid(),
                    self.spec_logic_board() == old(self).spec_logic_board(),
                    self.spec_player_mark() == old(self).spec_player_mark(),
                    self.spec_frame_visibility() == old(self).spec_frame_visibility(),
                    frame_of(self@, range as int, d),
                    forall|pos: (usize, usize)|
                        pos.0 <= pos.1 < range && (pos.1 < y_logic || (pos.1 == y_logic && pos.0
                            < x_logic)) ==> (#[trigger] self@[block_y(d, pos)][block_x(
                            range as int,
                            d,
                            pos,
                        )]) == LatticeBlock::Stone(grid_at(grid, pos)),
                decreases y_logic + 1 - x_logic,
            {
                let player = self.logic_board.player((x_logic, y_logic));
                let block_position = self.logic_to_block((x_logic, y_logic));
                let ghost before = self@;
                proof {
                    lemma_block_of_position(range as int, d, (x_logic, y_logic));
                }
                self.set_block(block_position, LatticeBlock::Stone(player));
                proof {
                    assert forall|pos: (usize, usize)|
                        pos.0 <= pos.1 < range && (pos.1 < y_logic || (pos.1 == y_logic && pos.0
                            < x_logic + 1)) implies (#[trigger] self@[block_y(d, pos)][block_x(
                        range as int,
                        d,
                        pos,
                    )]) == LatticeBlock::Stone(grid_at(grid, pos)) by {
                        lemma_block_of_position(range as int, d, pos);
                        if pos != (x_logic, y_logic) {
                            assert(before[block_y(d, pos)][block_x(range as int, d, pos)]
                                == LatticeBlock::Stone(grid_at(grid, pos)));
                        }
                    }
                }
                x_logic = x_logic + 1;
            }
            y_logic = y_logic + 1;
        }
        proof {
            assert forall|bx: int, by: int|
                0 <= by < lattice_height(range as int, d) && 0 <= bx < lattice_width(
                    range as int,
                    d,
                ) implies #[trigger] self@[by][bx] == lattice_block(grid, d, bx, by) by {
                if frame_block(range as int, d, bx, by) is Stone {
                    lemma_position_of_stone(range as int, d, bx, by);
                    let pos = stone_position(range as int, d, bx, by);
                    assert(self@[block_y(d, pos)][block_x(range as int, d, pos)]
                        == LatticeBlock::Stone(grid_at(grid, pos)));
                }
            }
            assert(self@ =~~= lattice_of(grid, d));
        }
    }

    /// The place in the drawing where the stone of the position stands:
    /// column and row.
    fn logic_to_block(&self, pos: (usize, usize)) -> (place: (usize, usize))
        requires
            self.shaped(),
            in_bounds(self.spec_logic_board().spec_range(), pos),
        ensures
            place.0 == block_x(self.grid().len() as int, self.spec_distance() as int, pos),
            place.1 == block_y(self.spec_distance() as int, pos),
    {
        block_of_position(self.logic_board.range(), self.distance, pos)
    }

    /// Writes `block` at a place of the drawing.
    fn set_block(&mut self, place: (usize, usize), block: LatticeBlock)
        requires
            place.1 < old(self)@.len(),
            place.0 < old(self)@[place.1 as int].len(),
        ensures
            final(self)@ == old(self)@.update(
                place.1 as int,
                old(self)@[place.1 as int].update(place.0 as int, block),
            ),
            final(self).spec_logic_board() == old(self).spec_logic_board(),
            final(self).spec_distance() == old(self).spec_distance(),
            final(self).spec_player_mark() == old(self).spec_player_mark(),
            final(self).spec_frame_visibility() == old(self).spec_frame_visibility(),
    {
        let (x_block, y_block) = place;
        self.lattice_board[y_block][x_block] = block;
        proof {
            assert(self@ =~~= old(self)@.update(
                place.1 as int,
                old(self)@[place.1 as int].update(place.0 as int, block),
            ));
        }
    }

    /// Writes `player` at a position of the board, and into its stone.
    pub fn set_player(&mut self, logical_position: (usize, usize), player: Option<Player>)
        requires
            old(self).wf(),
            in_bounds(old(self).spec_logic_board().spec_range(), logical_position),
        ensures
            final(self).wf(),
            final(self).grid() == grid_set(old(self).grid(), logical_position, player),
            final(self).spec_logic_board().spec_cursor() == old(
                self,
            ).spec_logic_board().spec_cursor(),
            final(self).spec_distance() == old(self).spec_distance(),
            final(self).spec_player_mark() == old(self).spec_player_mark(),
            final(self).spec_frame_visibility() == old(self).spec_frame_visibility(),
    {
        let ghost range = self.spec_logic_board().spec_range() as int;
        let ghost d = self.distance as int;
        let ghost grid = self.grid();
        let block_position = self.logic_to_block(logical_position);
        proof {
            lemma_block_of_position(range, d, logical_position);
        }
        self.set_block(block_position, LatticeBlock::Stone(player));
        self.logic_board.set_player(logical_position, player);
        proof {
            let after = self.grid();
            assert forall|bx: int, by: int|
                0 <= by < lattice_height(range, d) && 0 <= bx < lattice_width(
                    range,
                    d,
                ) implies #[trigger] self@[by][bx] == lattice_block(after, d, bx, by) by {
                if frame_block(range, d, bx, by) is Stone {
                    lemma_position_of_stone(range, d, bx, by);
                }
            }
            assert(self@ =~~= lattice_of(after, d));
        }
    }

    /// Moves the cursor of the board towards the apex.
    pub fn move_cursor_up(&mut self)
        requires
            old(self).wf(),
        ensures
            final(self).wf(),
            final(self)@ == old(self)@,
            final(self).grid() == old(self).grid(),
            final(self).spec_logic_board().spec_cursor() == moved_up(
                old(self).spec_logic_board().spec_cursor(),
            ),
            final(self).spec_distance() == old(self).spec_distance(),
            final(self).spec_player_mark() == old(self).spec_player_mark(),
            final(self).spec_frame_visibility() == old(self).spec_frame_visibility(),
    {
        self.logic_board.move_cursor_up();
    }

    /// Moves the cursor of the board towards the base.
    pub fn move_cursor_down(&mut self)
        requires
            old(self).wf(),
        ensures
            final(self).wf(),
            final(self)@ == old(self)@,
            final(self).grid() == old(self).grid(),
            final(self).spec_logic_board().spec_cursor() == moved_down(
                old(self).spec_logic_board().spec_range(),
                old(self).spec_logic_board().spec_cursor(),
            ),
            final(self).spec_distance() == old(self).spec_distance(),
            final(self).spec_player_mark() == old(self).spec_player_mark(),
            final(self).spec_frame_visibility() == old(self).spec_frame_visibility(),
    {
        self.logic_board.move_cursor_down();
    }

    /// Moves the cursor of the board to the left.
    pub fn move_cursor_left(&mut self)
        requires
            old(self).wf(),
        ensures
            final(self).wf(),
            final(self)@ == old(self)@,
            final(self).grid() == old(self).grid(),
            final(self).spec_logic_board().spec_cursor() == moved_left(
                old(self).spec_logic_board().spec_range(),
                old(self).spec_logic_board().spec_cursor(),
            ),
            final(self).spec_distance() == old(self).spec_distance(),
            final(self).spec_player_mark() == old(self).spec_player_mark(),
            final(self).spec_frame_visibility() == old(self).spec_frame_visibility(),
    {
        self.logic_board.move_cursor_left();
    }

    /// Moves the cursor of the board to the right.
    pub fn move_cursor_right(&mut self)
        requires
            old(self).wf(),
        ensures
            final(self).wf(),
            final(self)@ == old(self)@,
            final(self).grid() == old(self).grid(),
            final(self).spec_logic_board().spec_cursor() == moved_right(
                old(self).spec_logic_board().spec_range(),
                old(self).spec_logic_board().spec_cursor(),
            ),
            final(self).spec_distance() == old(self).spec_distance(),
            final(self).spec_player_mark() == old(self).spec_player_mark(),
            final(self).spec_frame_visibility() == old(self).spec_frame_visibility(),
    {
        self.logic_board.move_cursor_right();
    }

    /// The characters of the drawing, row by row.
    pub fn chars(&self) -> (rows: Vec<Vec<char>>)
        ensures
            rows@.len() == self@.len(),
            forall|by: int|
                0 <= by < rows@.len() ==> (#[trigger] rows@[by])@.len() == self@[by].len(),
            forall|by: int, bx: int|
                0 <= by < rows@.len() && 0 <= bx < self@[by].len() ==> (#[trigger] rows@[by]@[bx])
                    == self.spec_block_to_char(self@[by][bx]),
    {
        let mut rows: Vec<Vec<char>> = Vec::new();
        let mut by: usize = 0;
        while by < self.lattice_board.len()
            invariant
                by <= self.lattice_board@.len(),
                rows@.len() == by,
                forall|i: int| 0 <= i < by ==> (#[trigger] rows@[i])@.len() == self@[i].len(),
                forall|i: int, j: int|
                    0 <= i < by && 0 <= j < self@[i].len() ==> (#[trigger] rows@[i]@[j])
                        == self.spec_block_to_char(self@[i][j]),
            decreases self.lattice_board@.len() - by,
        {
            let mut row: Vec<char> = Vec::new();
            let mut bx: usize = 0;
            while bx < self.lattice_board[by].len()
                invariant
                    by < self.lattice_board@.len(),
                    bx <= self.lattice_board@[by as int]@.len(),
                    row@.len() == bx,
                    forall|j: int|
                        0 <= j < bx ==> (#[trigger] row@[j]) == self.spec_block_to_char(
                            self@[by as int][j],
                        ),
                decreases self.lattice_board@[by as int]@.len() - bx,
            {
                row.push(self.block_to_char(self.lattice_board[by][bx]));
                bx = bx + 1;
            }
            rows.push(row);
            by = by + 1;
        }
        rows
    }

    /// The blocks of the drawing, row by row.
    pub fn lattice_board(&self) -> (rows: &Vec<Vec<LatticeBlock>>)
        ensures
            rows@.len() == self@.len(),
            forall|by: int| 0 <= by < rows@.len() ==> (#[trigger] rows@[by])@ == self@[by],
    {
        &self.lattice_board
    }

    /// The board that is drawn.
    pub fn logic_board(&self) -> (board: &LogicBoard)
        ensures
            *board == self.spec_logic_board(),
    {
        &self.logic_board
    }

    /// The distance between neighbouring stones.
    #[verifier::when_used_as_spec(spec_distance)]
    pub fn distance(&self) -> (distance: usize)
        ensures
            distance == self.spec_distance(),
    {
        self.distance
    }

    /// The marks of the players.
    #[verifier::when_used_as_spec(spec_player_mark)]
    pub fn player_mark(&self) -> (marks: PlayerMark)
        ensures
            marks == self.spec_player_mark(),
    {
        self.player_mark
    }

    /// Whether the bonds are shown.
    #[verifier::when_used_as_spec(spec_frame_visibility)]
    pub fn frame_visibility(&self) -> (shown: bool)
        ensures
            shown == self.spec_frame_visibility(),
    {
        self.frame_visibility
    }
}

} // verus!
