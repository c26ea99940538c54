//! The history of a game: the board after every move, and who moved
//! where.
//!
//! The history has a current turn, which can be stepped back and forward
//! to look at the boards of the past. A move that is recorded while the
//! current turn is not the last one discards the turns that came after it.

use crate::board::{Board, Grid};
use crate::player::Player;
use vstd::prelude::*;

verus! {

/// A move: the player, and the position where the player placed a marker.
pub type Move = (Player, (usize, usize));

/// The moves of a game in the order in which they were made.
#[derive(Debug)]
pub struct Record {
    range: usize,
    player_positions: Vec<Move>,
}

/// The moves recorded, the first one first.
impl View for Record {
    type V = Seq<Move>;

    closed spec fn view(&self) -> Seq<Move> {
        self.player_positions@
    }
}

impl Record {
    /// The edge length of the board that the game is played on.
    pub closed spec fn spec_range(&self) -> usize {
        self.range
    }

    /// The record of a game on the board of edge length `range` in which
    /// no move has been made.
    pub fn new(range: usize) -> (record: Record)
        ensures
            record@ == Seq::<Move>::empty(),
            record.spec_range() == range,
    {
        Record { range, player_positions: Vec::new() }
    }

    /// Forgets every move.
    pub fn init(&mut self)
        ensures
            final(self)@ == Seq::<Move>::empty(),
            final(self).spec_range() == old(self).spec_range(),
    {
        self.player_positions.clear();
    }

    /// Records a move behind those recorded so far.
    pub fn push(&mut self, player_position: Move)
        ensures
            final(self)@ == old(self)@.push(player_position),
            final(self).spec_range() == old(self).spec_range(),
    {
        self.player_positions.push(player_position);
    }

    /// Keeps the first `len` moves and forgets the rest.
    pub fn truncate(&mut self, len: usize)
        requires
            len <= old(self)@.len(),
        ensures
            final(self)@ == old(self)@.subrange(0, len as int),
            final(self).spec_range() == old(self).spec_range(),
    {
        self.player_positions.truncate(len);
    }

    /// The edge length of the board that the game is played on.
    #[verifier::when_used_as_spec(spec_range)]
    pub fn range(&self) -> (range: usize)
        ensures
            range == self.spec_range(),
    {
        self.range
    }

    /// The moves recorded, the first one first.
    pub fn player_positions(&self) -> (moves: &Vec<Move>)
        ensures
            moves@ == self@,
    {
        &self.player_positions
    }
}

/// What a history holds: the grid after every turn, the moves between
/// them, and the turn that is looked at.
pub struct HistoryView {
    /// The turn that is looked at; turn zero is the opening.
    pub current: nat,
    /// The moves: move `i` led from turn `i` to turn `i + 1`.
    pub moves: Seq<Move>,
    /// The grid after each turn.
    pub grids: Seq<Grid>,
}

impl HistoryView {
    /// What holds of every history: there is one grid more than there are
    /// moves, and the current turn is one of the turns.
    pub open spec fn wf(self) -> bool {
        &&& self.grids.len() == self.moves.len() + 1
        &&& self.current < self.grids.len()
    }

    /// The history that has only the opening `grid`.
    pub open spec fn opening(grid: Grid) -> HistoryView {
        HistoryView { current: 0, moves: Seq::empty(), grids: seq![grid] }
    }

    /// The grid of the current turn.
    pub open spec fn current_grid(self) -> Grid {
        self.grids[self.current as int]
    }

    /// The move that led to the current turn; none at the opening.
    pub open spec fn current_move(self) -> Option<Move> {
        if self.current == 0 {
            None
        } else {
            Some(self.moves[self.current - 1])
        }
    }

    /// The history one turn back; at the opening, the history itself.
    pub open spec fn stepped_back(self) -> HistoryView {
        if self.current == 0 {
            self
        } else {
            HistoryView { current: (self.current - 1) as nat, ..self }
        }
    }

    /// The history one turn forward; at the last turn, the history
    /// itself.
    pub open spec fn stepped_forward(self) -> HistoryView {
        if self.current + 1 == self.grids.len() {
            self
        } else {
            HistoryView { current: self.current + 1, ..self }
        }
    }

    /// The history after the move `mv` has led from the current turn to
    /// `grid`: the turns behind the current one are discarded, and the new
    /// turn is the current and last one.
    pub open spec fn pushed(self, mv: Move, grid: Grid) -> HistoryView {
        HistoryView {
            current: self.current + 1,
            moves: self.moves.subrange(0, self.current as int).push(mv),
            grids: self.grids.subrange(0, self.current as int + 1).push(grid),
        }
    }
}

/// Stepping back and then forward from any turn but the opening leads to
/// the turn that one started from, and so to the same board.
pub proof fn lemma_back_then_forward(h: HistoryView)
    requires
        h.wf(),
        h.current > 0,
    ensures
        h.stepped_back().stepped_forward() == h,
        h.stepped_back().stepped_forward().current_grid() == h.current_grid(),
{
}

/// Stepping forward and then back from any turn but the last leads to the
/// turn that one started from.
pub proof fn lemma_forward_then_back(h: HistoryView)
    requires
        h.wf(),
        h.current + 1 < h.grids.len(),
    ensures
        h.stepped_forward().stepped_back() == h,
{
}

/// Stepping through the history changes neither the grids nor the moves,
/// and leaves the current turn among the turns.
pub proof fn lemma_steps_keep_turns(h: HistoryView)
    requires
        h.wf(),
    ensures
        h.stepped_back().wf(),
        h.stepped_forward().wf(),
        h.stepped_back().grids == h.grids,
        h.stepped_forward().grids == h.grids,
        h.stepped_back().moves == h.moves,
        h.stepped_forward().moves == h.moves,
{
}

/// A move that is recorded discards what came after the current turn: the
/// history then ends with the new turn, one after the turn that was
/// current, whatever its length was before. The turns up to the one that
/// was current stay as they were.
pub proof fn lemma_push_discards_future(h: HistoryView, mv: Move, grid: Grid)
    requires
        h.wf(),
    ensures
        h.pushed(mv, grid).wf(),
        h.pushed(mv, grid).grids.len() == h.current + 2,
        h.pushed(mv, grid).current + 1 == h.pushed(mv, grid).grids.len(),
        h.pushed(mv, grid).current_grid() == grid,
        h.pushed(mv, grid).current_move() == Some(mv),
        forall|i: int| 0 <= i <= h.current ==> h.pushed(mv, grid).grids[i] == h.grids[i],
{
}

/// A move recorded after two steps back from a turn that has two turns
/// before it leaves a history of two turns more than the turn that the
/// steps led to, which is as many turns as the number of the turn that one
/// started from: not one more than there were.
pub proof fn lemma_push_after_rewind(h: HistoryView, mv: Move, grid: Grid)
    requires
        h.wf(),
        h.current >= 2,
    ensures
        h.stepped_back().stepped_back().current == h.current - 2,
        h.stepped_back().stepped_back().pushed(mv, grid).grids.len() == h.stepped_back().stepped_back().current
            + 2,
        h.stepped_back().stepped_back().pushed(mv, grid).grids.len() == h.current,
        h.stepped_back().stepped_back().pushed(mv, grid).grids.len() < h.grids.len() + 1,
{
}

/// The boards of a game, one after every move, with the record of the
/// moves and the turn that is looked at.
#[derive(Debug)]
pub struct History {
    current_turn: usize,
    record: Record,
    boards: Vec<Board>,
}

/// The turns, the moves and the current turn of the history.
impl View for History {
    type V = HistoryView;

    closed spec fn view(&self) -> HistoryView {
        HistoryView {
            current: self.current_turn as nat,
            moves: self.record@,
            grids: Seq::new(self.boards@.len(), |i: int| self.boards@[i]@),
        }
    }
}

impl History {
    /// The boards of the history.
    pub closed spec fn boards(&self) -> Seq<Board> {
        self.boards@
    }

    /// The record of the moves.
    pub closed spec fn spec_record(&self) -> Record {
        self.record
    }

    /// What holds of every history: its view is well formed, it holds a
    /// board for each grid of the view, and each of the boards is well
    /// formed.
    pub open spec fn wf(&self) -> bool {
        &&& self@.wf()
        &&& self.boards().len() == self@.grids.len()
        &&& self.spec_record()@ == self@.moves
        &&& forall|i: int|
            0 <= i < self.boards().len() ==> (#[trigger] self.boards()[i]).wf() && self.boards()[i]@
                == self@.grids[i]
    }

    /// The history of a game that opens with `board`.
    pub fn new(board: Board) -> (history: History)
        requires
            board.wf(),
        ensures
            history.wf(),
            history@ == HistoryView::opening(board@),
            history.spec_record().spec_range() == board.spec_range(),
    {
        let record = Record::new(board.range());
        let mut boards: Vec<Board> = Vec::new();
        boards.push(board);
        let history = History { current_turn: 0, record, boards };
        assert(history@.grids =~= seq![board@]);
        history
    }

    /// Forgets the game and starts the history of one that opens with
    /// `board`.
    pub fn init(&mut self, board: Board)
        requires
            board.wf(),
        ensures
            final(self).wf(),
            final(self)@ == HistoryView::opening(board@),
    {
        self.current_turn = 0;
        self.record.init();
        self.boards.clear();
        self.boards.push(board);
        assert(self@.grids =~= seq![board@]);
    }

    /// Records that `player_position` has led from the current turn to
    /// `board`. The turns behind the current one are discarded first.
    pub fn push(&mut self, player_position: Move, board: Board)
        requires
            old(self).wf(),
            board.wf(),
        ensures
            final(self).wf(),
            final(self)@ == old(self)@.pushed(player_position, board@),
    {
        if self.current_turn < self.boards.len() - 1 {
            self.boards.truncate(self.current_turn + 1);
            self.record.truncate(self.current_turn);
        }
        proof {
            assert(self.boards@ =~= old(self).boards@.subrange(0, self.current_turn + 1));
            assert(self.record@ =~= old(self).record@.subrange(0, self.current_turn as int));
        }
        self.record.push(player_position);
        self.boards.push(board);
        self.current_turn = self.current_turn + 1;
        proof {
            assert(self@.grids =~= old(self)@.pushed(player_position, board@).grids);
        }
    }

    /// Steps one turn forward, unless the current turn is the last.
    pub fn go_next(&mut self)
        requires
            old(self).wf(),
        ensures
            final(self).wf(),
            final(self)@ == old(self)@.stepped_forward(),
    {
        if self.current_turn != self.boards.len() - 1 {
            self.current_turn = self.current_turn + 1;
        }
    }

    /// Steps one turn back, unless the current turn is the opening.
    pub fn go_prev(&mut self)
        requires
            old(self).wf(),
        ensures
            final(self).wf(),
            final(self)@ == old(self)@.stepped_back(),
    {
        if self.current_turn != 0 {
            self.current_turn = self.current_turn - 1;
        }
    }

    /// Steps to the last turn.
    pub fn go_last(&mut self)
        requires
            old(self).wf(),
        ensures
            final(self).wf(),
            final(self)@ == (HistoryView {
                current: (old(self)@.grids.len() - 1) as nat,
                ..old(self)@
            }),
    {
        self.current_turn = self.boards.len() - 1;
    }

    /// The number of the current turn; the opening is turn zero.
    pub fn current_turn(&self) -> (turn: usize)
        ensures
            turn == self@.current,
    {
        self.current_turn
    }

    /// The number of the last turn.
    pub fn last_turn(&self) -> (turn: usize)
        requires
            self.wf(),
        ensures
            turn == self@.grids.len() - 1,
    {
        self.boards.len() - 1
    }

    /// The record of the moves.
    pub fn record(&self) -> (record: &Record)
        ensures
            *record == self.spec_record(),
            record@ == self@.moves,
    {
        &self.record
    }

    /// The board of the current turn.
    pub fn board(&self) -> (board: &Board)
        requires
            self.wf(),
        ensures
            board.wf(),
            board@ == self@.current_grid(),
    {
        &self.boards[self.current_turn]
    }

    /// The player whose move led to the current turn; nobody at the
    /// opening.
    pub fn past_player(&self) -> (player: Option<Player>)
        requires
            self.wf(),
        ensures
            player == match self@.current_move() {
                Some(mv) => Some(mv.0),
                None => None,
            },
    {
        if self.current_turn == 0 {
            None
        } else {
            Some(self.record.player_positions()[self.current_turn - 1].0)
        }
    }

    /// The position of the move that led to the current turn; none at the
    /// opening.
    pub fn past_position(&self) -> (position: Option<(usize, usize)>)
        requires
            self.wf(),
        ensures
            position == match self@.current_move() {
                Some(mv) => Some(mv.1),
                None => None,
            },
    {
        if self.current_turn == 0 {
            None
        } else {
            Some(self.record.player_positions()[self.current_turn - 1].1)
        }
    }
}

} // verus!
