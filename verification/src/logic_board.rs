//! A board that carries its own cursor.

use crate::availables::Availables;
use crate::board::{
    grid_set, lemma_cursor_stays_on_board, moved_down, moved_left, moved_right, moved_up,
    opening_grid, Board, Grid,
};
use crate::capture::legal_moves;
use crate::count::Count;
use crate::error::TriversiError;
use crate::player::Player;
use crate::position::{in_bounds, valid_range, MAX_RANGE};
use vstd::prelude::*;

verus! {

/// The legal moves of a board with a cursor.
pub type AvailableList = Availables;

/// A board together with the position of a cursor on it.
#[derive(Debug)]
pub struct LogicBoard {
    logic: Board,
    cursor: (usize, usize),
}

/// What the board holds, row by row.
impl View for LogicBoard {
    type V = Grid;

    closed spec fn view(&self) -> Grid {
        self.logic@
    }
}

impl LogicBoard {
    /// The board without the cursor.
    pub closed spec fn spec_logic(&self) -> Board {
        self.logic
    }

    /// The position of the cursor.
    pub closed spec fn spec_cursor(&self) -> (usize, usize) {
        self.cursor
    }

    /// The edge length of the board.
    pub open spec fn spec_range(&self) -> usize {
        self.spec_logic().spec_range()
    }

    /// What holds of every board with a cursor: the board is well formed
    /// and the cursor is on it.
    pub open spec fn wf(&self) -> bool {
        &&& self.spec_logic().wf()
        &&& self.spec_logic()@ == self@
        &&& in_bounds(self.spec_range(), self.spec_cursor())
    }

    /// The board of edge length `range`, set up for the opening of a game,
    /// with the cursor at the apex. An edge length below five, or one that
    /// leaves the remainder one when divided by three, is refused.
    pub fn try_new(range: usize) -> (res: Result<LogicBoard, TriversiError>)
        requires
            range <= MAX_RANGE,
        ensures
            res is Ok <==> valid_range(range),
            res matches Ok(b) ==> {
                &&& b.wf()
                &&& b.spec_range() == range
                &&& b@ == opening_grid(range)
                &&& b.spec_cursor() == (0usize, 0usize)
            },
            res matches Err(e) ==> e == TriversiError::InvalidBoardRange(range),
    {
        match Board::try_new(range) {
            Ok(logic) => Ok(LogicBoard { logic, cursor: (0, 0) }),
            Err(e) => Err(e),
        }
    }

    /// Sets the board up for the opening of a game. The cursor stays where
    /// it is.
    pub fn init(&mut self)
        requires
            old(self).wf(),
        ensures
            final(self).wf(),
            final(self).spec_range() == old(self).spec_range(),
            final(self).spec_cursor() == old(self).spec_cursor(),
            final(self)@ == opening_grid(old(self).spec_range()),
    {
        self.logic.init();
    }

    /// The player who holds `pos`, if anyone does.
    pub fn player(&self, pos: (usize, usize)) -> (p: Option<Player>)
        requires
            self.wf(),
            in_bounds(self.spec_range(), pos),
        ensures
            p == self.spec_logic().at(pos),
    {
        self.logic.player(pos)
    }

    /// Writes `player` at `pos`, and keeps the tally.
    pub fn set_player(&mut self, pos: (usize, usize), player: Option<Player>)
        requires
            old(self).wf(),
            in_bounds(old(self).spec_range(), pos),
        ensures
            final(self).wf(),
            final(self).spec_range() == old(self).spec_range(),
            final(self).spec_cursor() == old(self).spec_cursor(),
            final(self)@ == grid_set(old(self)@, pos, player),
    {
        self.logic.set_player(pos, player);
    }

    /// Moves the cursor towards the apex.
    pub fn move_cursor_up(&mut self)
        requires
            old(self).wf(),
        ensures
            final(self).wf(),
            final(self).spec_logic() == old(self).spec_logic(),
            final(self).spec_cursor() == moved_up(old(self).spec_cursor()),
    {
        proof {
            lemma_cursor_stays_on_board(self.spec_range(), self.cursor);
        }
        self.logic.move_position_up(&mut self.cursor);
    }

    /// Moves the cursor towards the base.
    pub fn move_cursor_down(&mut self)
        requires
            old(self).wf(),
        ensures
            final(self).wf(),
            final(self).spec_logic() == old(self).spec_logic(),
            final(self).spec_cursor() == moved_down(old(self).spec_range(), old(self).spec_cursor()),
    {
        proof {
            lemma_cursor_stays_on_board(self.spec_range(), self.cursor);
        }
        self.logic.move_position_down(&mut self.cursor);
    }

    /// Moves the cursor to the left.
    pub fn move_cursor_left(&mut self)
        requires
            old(self).wf(),
        ensures
            final(self).wf(),
            final(self).spec_logic() == old(self).spec_logic(),
            final(self).spec_cursor() == moved_left(old(self).spec_range(), old(self).spec_cursor()),
    {
        proof {
            lemma_cursor_stays_on_board(self.spec_range(), self.cursor);
        }
        self.logic.move_position_left(&mut self.cursor);
    }

    /// Moves the cursor to the right.
    pub fn move_cursor_right(&mut self)
        requires
            old(self).wf(),
        ensures
            final(self).wf(),
            final(self).spec_logic() == old(self).spec_logic(),
            final(self).spec_cursor() == moved_right(
                old(self).spec_range(),
                old(self).spec_cursor(),
            ),
    {
        proof {
            lemma_cursor_stays_on_board(self.spec_range(), self.cursor);
        }
        self.logic.move_position_right(&mut self.cursor);
    }

    /// Computes the legal moves of every player afresh.
    pub fn update_available_list(&self, available_list: &mut AvailableList)
        requires
            self.wf(),
            old(available_list).wf(),
        ensures
            final(available_list).wf(),
            forall|p: Player| #[trigger] final(available_list).moves(p) == legal_moves(self@, p),
    {
        self.logic.update_availables(available_list);
    }

    /// The rows of the board.
    pub fn board(&self) -> (rows: &Vec<Vec<Option<Player>>>)
        requires
            self.wf(),
        ensures
            rows@.len() == self@.len(),
            forall|y: int| 0 <= y < rows@.len() ==> (#[trigger] rows@[y])@ == self@[y],
    {
        self.logic.board()
    }

    /// The board without the cursor.
    pub fn logic(&self) -> (logic: &Board)
        ensures
            *logic == self.spec_logic(),
    {
        &self.logic
    }

    /// The edge length of the board.
    pub fn range(&self) -> (range: usize)
        ensures
            range == self.spec_range(),
    {
        self.logic.range()
    }

    /// The position of the cursor.
    #[verifier::when_used_as_spec(spec_cursor)]
    pub fn cursor(&self) -> (cursor: (usize, usize))
        ensures
            cursor == self.spec_cursor(),
    {
        self.cursor
    }

    /// The tally of markers that the board keeps.
    pub fn count(&self) -> (count: &Count)
        ensures
            *count == self.spec_logic().spec_count(),
    {
        self.logic.count()
    }
}

} // verus!
