//! The game: whose turn it is, what a command does, and when the game is
//! over.
//!
//! The system owns the board, the legal moves of the board, the history
//! and the cursor. It takes one command at a time and is in one of a few
//! states: a turn is played, a turn is skipped because the player has no
//! legal move, the game is finished, the history is reviewed, or the
//! players are asked to confirm that they want to start again or to quit.

use crate::availables::Availables;
use crate::board::{
    lemma_cursor_stays_on_board, markers, moved_down, moved_left, moved_right, moved_up,
    opening_grid, Board, Grid,
};
use crate::capture::{can_move, legal, legal_moves, lemma_opening_has_moves, placed};
use crate::error::TriversiError;
use crate::history::{History, HistoryView};
use crate::names::PlayerNames;
use crate::player::Player;
use crate::position::{in_bounds, valid_range, MAX_RANGE};
use crate::text::{decimal, decimal_text};
use vstd::prelude::*;
use vstd::string::StringExecFns;

verus! {

/// What goes on while the game is played.
#[derive(Clone, Copy, Debug, PartialEq, Eq, Structural)]
pub enum Play {
    /// The current player is to place a marker.
    Turn,
    /// The boards of the past are looked at.
    History,
    /// The current player has no legal move and is to acknowledge that the
    /// turn passes on.
    Skipped,
    /// No player has a legal move: the game is over.
    Finished,
}

/// The state of the system.
#[derive(Clone, Copy, Debug, PartialEq, Eq, Structural)]
pub enum Status {
    /// The game is played.
    Play(Play),
    /// The players are asked whether to start again.
    AskInit,
    /// The players are asked whether to quit.
    AskQuit,
    /// The players have quit. Nothing follows.
    Quit,
}

/// What the players can ask of the system.
#[derive(Clone, Copy, Debug, PartialEq, Eq, Structural)]
pub enum Command {
    /// Ask to quit.
    Quit,
    /// Ask to start again.
    Init,
    /// Move the cursor to the left.
    MoveLeft,
    /// Move the cursor to the right.
    MoveRight,
    /// Move the cursor towards the apex.
    MoveUp,
    /// Move the cursor towards the base.
    MoveDown,
    /// Look at the history.
    IntoHistory,
    /// In the history, step one turn back.
    PrevHistory,
    /// In the history, step one turn forward.
    NextHistory,
    /// Place a marker at the cursor; acknowledge a skipped turn; leave the
    /// history.
    Select,
    /// Say yes to what is asked.
    Yes,
    /// Anything else; where something is asked, it means no.
    Other,
}

/// What the system has to tell the players.
#[derive(Clone, Copy, Debug, PartialEq, Eq)]
pub enum Notice {
    /// Nothing.
    Nothing,
    /// The game is over, with so many markers for each player.
    Finished { one: u64, two: u64, three: u64 },
    /// The player has no legal move: the turn is skipped.
    Skipped(Player),
    /// The player may not place a marker at the position.
    Rejected(Player, (usize, usize)),
}

impl Notice {
    /// Whether the notice calls for the players' attention.
    pub open spec fn spec_attention(self) -> bool {
        self is Skipped || self is Rejected
    }

    /// The notice in words, for players of the given names; `select` is
    /// the name of the key that acknowledges a skipped turn.
    pub open spec fn spec_text(self, names: &PlayerNames, select: Seq<char>) -> Seq<char> {
        match self {
            Notice::Nothing => Seq::empty(),
            Notice::Finished { one, two, three } => " Game is finished! Final Score is "@
                + names.spec_player_name(Player::One) + " = "@ + decimal(one as nat) + ", "@
                + names.spec_player_name(Player::Two) + " = "@ + decimal(two as nat) + ", and "@
                + names.spec_player_name(Player::Three) + " = "@ + decimal(three as nat) + "."@,
            Notice::Skipped(player) => " Player-"@ + names.spec_player_name(player)
                + ": Your turn is skipped, you cannot select any position. Press ["@ + select
                + "]."@,
            Notice::Rejected(player, position) => " Player-"@ + names.spec_player_name(player)
                + ": You cannot select ("@ + decimal(position.0 as nat) + ", "@ + decimal(
                position.1 as nat,
            ) + ")."@,
        }
    }

    /// The notice in words, for players of the given names; `select` is
    /// the name of the key that acknowledges a skipped turn. Where there is
    /// nothing to tell, the text is empty.
    pub fn text(self, names: &PlayerNames, select: &str) -> (text: String)
        ensures
            text@ == self.spec_text(names, select@),
    {
        match self {
            Notice::Nothing => String::new(),
            Notice::Finished { one, two, three } => {
                let mut text = String::from_str(" Game is finished! Final Score is ");
                text.append(names.player_name(Player::One));
                text.append(" = ");
                text.append(decimal_text(one).as_str());
                text.append(", ");
                text.append(names.player_name(Player::Two));
                text.append(" = ");
                text.append(decimal_text(two).as_str());
                text.append(", and ");
                text.append(names.player_name(Player::Three));
                text.append(" = ");
                text.append(decimal_text(three).as_str());
                text.append(".");
                text
            },
            Notice::Skipped(player) => {
                let mut text = String::from_str(" Player-");
                text.append(names.player_name(player));
                text.append(": Your turn is skipped, you cannot select any position. Press [");
                text.append(select);
                text.append("].");
                text
            },
            Notice::Rejected(player, position) => {
                let mut text = String::from_str(" Player-");
                text.append(names.player_name(player));
                text.append(": You cannot select (");
                text.append(decimal_text(position.0 as u64).as_str());
                text.append(", ");
                text.append(decimal_text(position.1 as u64).as_str());
                text.append(").");
                text
            },
        }
    }

    /// Whether the notice calls for the players' attention: a skipped turn
    /// and a rejected placement do.
    #[verifier::when_used_as_spec(spec_attention)]
    pub fn attention(self) -> (attention: bool)
        ensures
            attention == self.spec_attention(),
    {
        match self {
            Notice::Skipped(_) => true,
            Notice::Rejected(_, _) => true,
            _ => false,
        }
    }
}

/// What the system holds, as far as it can be seen from outside.
pub struct SystemView {
    /// The player whose turn it is.
    pub player: Player,
    /// The position of the cursor.
    pub position: (usize, usize),
    /// The board of the game.
    pub grid: Grid,
    /// The state of the system.
    pub status: Status,
    /// The state that the system was in before.
    pub previous: Status,
    /// What the system has to tell the players.
    pub notice: Notice,
    /// The history of the game.
    pub history: HistoryView,
}

/// Whether no player has a legal move on the grid.
pub open spec fn nobody_can_move(grid: Grid) -> bool {
    !can_move(grid, Player::One) && !can_move(grid, Player::Two) && !can_move(grid, Player::Three)
}

impl SystemView {
    /// The game on the board of edge length `range` as it opens.
    pub open spec fn opening(range: usize) -> SystemView {
        SystemView::opening_with(opening_grid(range))
    }

    /// A game that opens with `grid`.
    pub open spec fn opening_with(grid: Grid) -> SystemView {
        SystemView {
            player: Player::One,
            position: (0, 0),
            grid,
            status: Status::Play(Play::Turn),
            previous: Status::Play(Play::Turn),
            notice: Notice::Nothing,
            history: HistoryView::opening(grid),
        }
    }

    /// The edge length of the board.
    pub open spec fn range(self) -> usize {
        self.grid.len() as usize
    }

    /// The system in the state `status`; it remembers the state that it
    /// leaves.
    pub open spec fn with_status(self, status: Status) -> SystemView {
        SystemView { previous: self.status, status, ..self }
    }

    /// The system after the request to place a marker at the cursor.
    ///
    /// Where the placement is not legal, it is rejected and nothing else
    /// changes. Otherwise the marker is placed, the captured markers change
    /// hands and the move is recorded. If then nobody has a legal move, the
    /// game is finished; else the turn passes to the next player, and is
    /// skipped if that player has no legal move.
    pub open spec fn after_select(self) -> SystemView {
        if !legal(self.grid, self.player, self.position) {
            SystemView { notice: Notice::Rejected(self.player, self.position), ..self }
        } else {
            let grid = placed(self.grid, self.player, self.position);
            let history = self.history.pushed((self.player, self.position), grid);
            if nobody_can_move(grid) {
                SystemView {
                    grid,
                    history,
                    previous: self.status,
                    status: Status::Play(Play::Finished),
                    notice: Notice::Finished {
                        one: markers(grid, Player::One) as u64,
                        two: markers(grid, Player::Two) as u64,
                        three: markers(grid, Player::Three) as u64,
                    },
                    ..self
                }
            } else if can_move(grid, self.player.next()) {
                SystemView {
                    grid,
                    history,
                    player: self.player.next(),
                    notice: Notice::Nothing,
                    ..self
                }
            } else {
                SystemView {
                    grid,
                    history,
                    player: self.player.next(),
                    previous: self.status,
                    status: Status::Play(Play::Skipped),
                    notice: Notice::Skipped(self.player.next()),
                    ..self
                }
            }
        }
    }

    /// The system after a skipped turn has been acknowledged: the turn
    /// passes to the next player, and is skipped again if that player has
    /// no legal move either.
    pub open spec fn after_skip(self) -> SystemView {
        let next = self.player.next();
        if can_move(self.grid, next) {
            SystemView {
                player: next,
                previous: self.status,
                status: Status::Play(Play::Turn),
                notice: Notice::Nothing,
                ..self
            }
        } else {
            SystemView {
                player: next,
                previous: self.status,
                status: Status::Play(Play::Skipped),
                notice: Notice::Skipped(next),
                ..self
            }
        }
    }

    /// The system after a step through the history, back or forward.
    pub open spec fn after_history_move(self, back: bool) -> SystemView {
        if back {
            SystemView { history: self.history.stepped_back(), ..self }
        } else {
            SystemView { history: self.history.stepped_forward(), ..self }
        }
    }

    /// The system after the history has been left: the history is at its
    /// last turn again, and a turn is played.
    pub open spec fn after_leaving_history(self) -> SystemView {
        SystemView {
            history: HistoryView {
                current: (self.history.grids.len() - 1) as nat,
                ..self.history
            },
            ..self.with_status(Status::Play(Play::Turn))
        }
    }

    /// The system after a command that moves the cursor; after any other
    /// command, the system itself.
    pub open spec fn after_cursor(self, command: Command) -> SystemView {
        match command {
            Command::MoveLeft => SystemView {
                position: moved_left(self.range(), self.position),
                ..self
            },
            Command::MoveRight => SystemView {
                position: moved_right(self.range(), self.position),
                ..self
            },
            Command::MoveUp => SystemView { position: moved_up(self.position), ..self },
            Command::MoveDown => SystemView {
                position: moved_down(self.range(), self.position),
                ..self
            },
            _ => self,
        }
    }

    /// The system after `command`, while the game is played.
    pub open spec fn after_play(self, play: Play, command: Command) -> SystemView {
        match command {
            Command::Quit => self.with_status(Status::AskQuit),
            Command::Init => self.with_status(Status::AskInit),
            Command::MoveLeft | Command::MoveRight | Command::MoveUp | Command::MoveDown => {
                if play is History {
                    self
                } else {
                    self.after_cursor(command)
                }
            },
            Command::IntoHistory => {
                if play is History {
                    self
                } else {
                    self.with_status(Status::Play(Play::History))
                }
            },
            Command::PrevHistory => {
                if play is History {
                    self.after_history_move(true)
                } else {
                    self
                }
            },
            Command::NextHistory => {
                if play is History {
                    self.after_history_move(false)
                } else {
                    self
                }
            },
            Command::Select => match play {
                Play::Turn => self.after_select(),
                Play::History => self.after_leaving_history(),
                Play::Skipped => self.after_skip(),
                Play::Finished => self,
            },
            _ => self,
        }
    }

    /// The system after the answer to the question whether to start again:
    /// on yes the game opens anew, on anything else the system goes back to
    /// the state that it was in.
    pub open spec fn after_ask_init(self, command: Command) -> SystemView {
        if command is Yes {
            SystemView::opening(self.range())
        } else {
            self.with_status(self.previous)
        }
    }

    /// The system after the answer to the question whether to quit: on
    /// yes it has quit, on anything else it goes back to the state that it
    /// was in.
    pub open spec fn after_ask_quit(self, command: Command) -> SystemView {
        if command is Yes {
            self.with_status(Status::Quit)
        } else {
            self.with_status(self.previous)
        }
    }

    /// The system after `command`.
    pub open spec fn after(self, command: Command) -> SystemView {
        match self.status {
            Status::Play(play) => self.after_play(play, command),
            Status::AskInit => self.after_ask_init(command),
            Status::AskQuit => self.after_ask_quit(command),
            Status::Quit => self,
        }
    }

    /// Whether the game is being played, or was when a question came up:
    /// the history is not looked at, and the players have not quit.
    pub open spec fn live(self) -> bool {
        match self.status {
            Status::Play(play) => play !is History,
            Status::AskInit | Status::AskQuit => self.previous != Status::Play(Play::History),
            Status::Quit => false,
        }
    }

    /// Whether the state `status` fits the board: a turn is skipped only
    /// while the current player has no legal move and another player has
    /// one, and the game is finished only while nobody has one.
    pub open spec fn fits(self, status: Status) -> bool {
        &&& status == Status::Play(Play::Skipped) ==> !can_move(self.grid, self.player) && (
        can_move(self.grid, self.player.next()) || can_move(self.grid, self.player.next().next()))
        &&& status == Status::Play(Play::Finished) ==> nobody_can_move(self.grid)
    }

    /// What holds of the system at every moment.
    pub open spec fn wf(self) -> bool {
        &&& self.history.wf()
        &&& self.history.grids[self.history.grids.len() - 1] == self.grid
        &&& self.live() ==> self.history.current + 1 == self.history.grids.len()
        &&& in_bounds(self.range(), self.position)
        &&& self.fits(self.status)
        &&& (self.status is AskInit || self.status is AskQuit) ==> self.previous is Play
            && self.fits(self.previous)
    }
}

/// The game is finished by a request to place a marker if and only if the
/// placement is legal and leaves no player with a legal move.
pub proof fn lemma_finished_iff_nobody_can_move(v: SystemView)
    requires
        v.status == Status::Play(Play::Turn),
    ensures
        v.after_select().status == Status::Play(Play::Finished) <==> legal(
            v.grid,
            v.player,
            v.position,
        ) && nobody_can_move(placed(v.grid, v.player, v.position)),
        v.after(Command::Select) == v.after_select(),
{
}

/// While the game is played and not finished, no command finishes it but
/// the request to place a marker in a turn, and that one only where the
/// placement is legal and leaves no player with a legal move.
pub proof fn lemma_finished_only_by_placement(v: SystemView, command: Command)
    requires
        v.status is Play,
        v.status != Status::Play(Play::Finished),
    ensures
        v.after(command).status == Status::Play(Play::Finished) <==> {
            &&& v.status == Status::Play(Play::Turn)
            &&& command is Select
            &&& legal(v.grid, v.player, v.position)
            &&& nobody_can_move(placed(v.grid, v.player, v.position))
        },
{
}

/// Where one player has a legal move and the other two have none, the
/// skipped turns end with that player: after one acknowledgement or after
/// two, it is the turn of the player who can move.
pub proof fn lemma_skips_end_with_mover(v: SystemView, mover: Player)
    requires
        v.wf(),
        v.status == Status::Play(Play::Skipped),
        can_move(v.grid, mover),
        forall|p: Player| p != mover ==> !can_move(v.grid, p),
    ensures
        ({
            let once = v.after_skip();
            let twice = once.after_skip();
            ||| once.status == Status::Play(Play::Turn) && once.player == mover
            ||| once.status == Status::Play(Play::Skipped) && twice.status == Status::Play(
                Play::Turn,
            ) && twice.player == mover
        }),
        v.after(Command::Select) == v.after_skip(),
{
    assert(mover == v.player.next() || mover == v.player.next().next());
}

/// A player has no legal move in the index exactly if the player cannot
/// move on the grid that the index was computed for.
pub proof fn lemma_no_moves(grid: Grid, player: Player, moves: Map<(usize, usize), Set<(usize, usize)>>)
    requires
        moves == legal_moves(grid, player),
    ensures
        moves.dom() =~= Set::<(usize, usize)>::empty() <==> !can_move(grid, player),
{
    if can_move(grid, player) {
        let c = choose|c: (usize, usize)| legal(grid, player, c);
        assert(moves.dom().contains(c));
    }
    if !(moves.dom() =~= Set::<(usize, usize)>::empty()) {
        let c = choose|c: (usize, usize)| moves.dom().contains(c);
        assert(legal(grid, player, c));
    }
}

/// A game of three players: the board, the legal moves, the history, the
/// cursor, and the state of play.
#[derive(Debug)]
pub struct System {
    current_player: Player,
    current_position: (usize, usize),
    board: Board,
    availables: Availables,
    history: History,
    current_status: Status,
    previous_status: Status,
    notice: Notice,
}

/// What the system holds, as far as it can be seen from outside.
impl View for System {
    type V = SystemView;

    closed spec fn view(&self) -> SystemView {
        SystemView {
            player: self.current_player,
            position: self.current_position,
            grid: self.board@,
            status: self.current_status,
            previous: self.previous_status,
            notice: self.notice,
            history: self.history@,
        }
    }
}

impl System {
    /// The board of the game.
    pub closed spec fn spec_board(&self) -> Board {
        self.board
    }

    /// The legal moves that the system keeps.
    pub closed spec fn spec_availables(&self) -> Availables {
        self.availables
    }

    /// The history that the system keeps.
    pub closed spec fn spec_history(&self) -> History {
        self.history
    }

    /// What holds of the system at every moment: its parts are well
    /// formed and belong together. The board is that of the view, the legal
    /// moves are those of the board, and the history is that of the view.
    pub open spec fn wf(&self) -> bool {
        &&& self@.wf()
        &&& self.spec_board().wf()
        &&& self.spec_board()@ == self@.grid
        &&& self.spec_availables().wf()
        &&& forall|p: Player| #[trigger]
            self.spec_availables().moves(p) == legal_moves(self@.grid, p)
        &&& self.spec_history().wf()
        &&& self.spec_history()@ == self@.history
    }

    /// The game that opens on `board`, with the first player to move.
    pub fn try_new(board: Board) -> (res: Result<System, TriversiError>)
        requires
            board.wf(),
        ensures
            res matches Ok(system) && system.wf() && system@ == SystemView::opening_with(board@),
    {
        let mut availables = Availables::default();
        board.update_availables(&mut availables);
        let history = History::new(board.clone());
        let current_position = board.initial_position();
        let system = System {
            current_player: Player::default(),
            current_position,
            board,
            availables,
            history,
            current_status: Status::Play(Play::Turn),
            previous_status: Status::Play(Play::Turn),
            notice: Notice::Nothing,
        };
        Ok(system)
    }

    /// The game on the board of edge length `range` as it opens: every
    /// player has four markers and at least one legal move. An edge length
    /// below five, or one that leaves the remainder one when divided by
    /// three, is refused.
    pub fn new_game(range: usize) -> (res: Result<System, TriversiError>)
        requires
            range <= MAX_RANGE,
        ensures
            res is Ok <==> valid_range(range),
            res matches Ok(system) ==> {
                &&& system.wf()
                &&& system@ == SystemView::opening(range)
                &&& forall|p: Player| #[trigger] markers(system@.grid, p) == 4
                &&& forall|p: Player| #[trigger] can_move(system@.grid, p)
            },
            res matches Err(e) ==> e == TriversiError::InvalidBoardRange(range),
    {
        match Board::try_new(range) {
            Ok(board) => {
                proof {
                    lemma_opening_has_moves(range);
                    assert forall|p: Player| #[trigger] markers(board@, p) == 4 by {
                        assert(board.spec_count().spec_get(p) == 4);
                    }
                }
                System::try_new(board)
            },
            Err(e) => Err(e),
        }
    }

    /// Starts the game again on the same board.
    fn init(&mut self)
        requires
            old(self).wf(),
        ensures
            final(self).wf(),
            final(self)@ == SystemView::opening(old(self)@.range()),
    {
        self.board.init();
        self.current_player = Player::default();
        self.clear_message();
        self.current_position = self.board.initial_position();
        self.current_status = Status::Play(Play::Turn);
        self.previous_status = Status::Play(Play::Turn);
        self.update_available_list();
        self.history.init(self.board.clone());
    }

    /// Takes back what the system had to tell the players.
    fn clear_message(&mut self)
        ensures
            final(self)@ == (SystemView { notice: Notice::Nothing, ..old(self)@ }),
            final(self).spec_board() == old(self).spec_board(),
            final(self).spec_availables() == old(self).spec_availables(),
            final(self).spec_history() == old(self).spec_history(),
    {
        self.notice = Notice::Nothing;
    }

    /// Puts the system into the state `status`; it remembers the state that
    /// it leaves.
    fn update_status(&mut self, status: Status)
        ensures
            final(self)@ == old(self)@.with_status(status),
            final(self).spec_board() == old(self).spec_board(),
            final(self).spec_availables() == old(self).spec_availables(),
            final(self).spec_history() == old(self).spec_history(),
    {
        self.previous_status = self.current_status;
        self.current_status = status;
    }

    /// Computes the legal moves of the board afresh.
    fn update_available_list(&mut self)
        requires
            old(self).spec_board().shaped(),
            old(self).spec_availables().wf(),
        ensures
            final(self)@ == old(self)@,
            final(self).spec_board() == old(self).spec_board(),
            final(self).spec_history() == old(self).spec_history(),
            final(self).spec_availables().wf(),
            forall|p: Player| #[trigger]
                final(self).spec_availables().moves(p) == legal_moves(final(self)@.grid, p),
    {
        self.board.update_availables(&mut self.availables);
    }

    /// Places a marker of the current player at the cursor, which is a
    /// legal move, and computes the legal moves of the new board.
    fn set_player(&mut self)
        requires
            old(self).wf(),
            legal(old(self)@.grid, old(self)@.player, old(self)@.position),
        ensures
            final(self)@ == (SystemView {
                grid: placed(old(self)@.grid, old(self)@.player, old(self)@.position),
                ..old(self)@
            }),
            final(self).spec_board().wf(),
            final(self).spec_board()@ == final(self)@.grid,
            final(self).spec_history() == old(self).spec_history(),
            final(self).spec_availables().wf(),
            forall|p: Player| #[trigger]
                final(self).spec_availables().moves(p) == legal_moves(final(self)@.grid, p),
    {
        proof {
            assert(self.spec_availables().moves(self.current_player) == legal_moves(
                self@.grid,
                self.current_player,
            ));
        }
        match self.availables.get(self.current_player, self.current_position) {
            Some(taken) => {
                self.board.place(self.current_player, self.current_position, taken);
            },
            None => {},
        }
        self.update_available_list();
    }

    /// Takes one command and goes to the state that follows.
    pub fn transition(&mut self, command: Command)
        requires
            old(self).wf(),
            old(self)@.status != Status::Quit,
        ensures
            final(self).wf(),
            final(self)@ == old(self)@.after(command),
    {
        match self.current_status {
            Status::Play(play) => self.play(command, play),
            Status::AskInit => self.ask_init(command),
            Status::AskQuit => self.ask_quit(command),
            Status::Quit => {},
        }
    }

    /// Takes one command while the game is played.
    fn play(&mut self, command: Command, play: Play)
        requires
            old(self).wf(),
            old(self)@.status == Status::Play(play),
        ensures
            final(self).wf(),
            final(self)@ == old(self)@.after_play(play, command),
    {
        proof {
            lemma_cursor_stays_on_board(self@.range(), self@.position);
        }
        match command {
            Command::Quit => self.update_status(Status::AskQuit),
            Command::Init => self.update_status(Status::AskInit),
            Command::MoveLeft => match play {
                Play::History => {},
                _ => self.board.move_position_left(&mut self.current_position),
            },
            Command::MoveRight => match play {
                Play::History => {},
                _ => self.board.move_position_right(&mut self.current_position),
            },
            Command::MoveUp => match play {
                Play::History => {},
                _ => self.board.move_position_up(&mut self.current_position),
            },
            Command::MoveDown => match play {
                Play::History => {},
                _ => self.board.move_position_down(&mut self.current_position),
            },
            Command::IntoHistory => match play {
                Play::History => {},
                _ => self.update_status(Status::Play(Play::History)),
            },
            Command::PrevHistory => match play {
                Play::History => self.history_move(true),
                _ => {},
            },
            Command::NextHistory => match play {
                Play::History => self.history_move(false),
                _ => {},
            },
            Command::Select => match play {
                Play::Turn => self.select_in_play_turn(),
                Play::History => {
                    self.history.go_last();
                    self.update_status(Status::Play(Play::Turn));
                },
                Play::Skipped => self.select_in_play_skip(),
                Play::Finished => {},
            },
            _ => {},
        }
    }

    /// Places a marker of the current player at the cursor, if that is a
    /// legal move, and passes the turn on.
    fn select_in_play_turn(&mut self)
        requires
            old(self).wf(),
            old(self)@.status == Status::Play(Play::Turn),
        ensures
            final(self).wf(),
            final(self)@ == old(self)@.after_select(),
    {
        proof {
            assert(self.spec_availables().moves(self.current_player) == legal_moves(
                self@.grid,
                self.current_player,
            ));
        }
        if self.availables.contains_key(self.current_player, self.current_position) {
            let mover = self.current_player;
            self.set_player();
            self.history.push((mover, self.current_position), self.board.clone());
            proof {
                lemma_no_moves(self@.grid, Player::One, self.spec_availables().moves(Player::One));
                lemma_no_moves(self@.grid, Player::Two, self.spec_availables().moves(Player::Two));
                lemma_no_moves(
                    self@.grid,
                    Player::Three,
                    self.spec_availables().moves(Player::Three),
                );
                assert(self.spec_board().spec_count().spec_get(Player::One) == markers(
                    self@.grid,
                    Player::One,
                ));
                assert(self.spec_board().spec_count().spec_get(Player::Two) == markers(
                    self@.grid,
                    Player::Two,
                ));
                assert(self.spec_board().spec_count().spec_get(Player::Three) == markers(
                    self@.grid,
                    Player::Three,
                ));
            }
            if self.availables.is_empty(Player::One) && self.availables.is_empty(Player::Two)
                && self.availables.is_empty(Player::Three) {
                self.update_status(Status::Play(Play::Finished));
                self.notice = Notice::Finished {
                    one: self.board.count().get(Player::One),
                    two: self.board.count().get(Player::Two),
                    three: self.board.count().get(Player::Three),
                };
            } else {
                self.current_player.advance();
                self.clear_message();
                if self.availables.is_empty(self.current_player) {
                    self.update_status(Status::Play(Play::Skipped));
                    self.notice = Notice::Skipped(self.current_player);
                }
            }
        } else {
            self.notice = Notice::Rejected(self.current_player, self.current_position);
        }
    }

    /// Acknowledges a skipped turn and passes the turn on.
    fn select_in_play_skip(&mut self)
        requires
            old(self).wf(),
            old(self)@.status == Status::Play(Play::Skipped),
        ensures
            final(self).wf(),
            final(self)@ == old(self)@.after_skip(),
    {
        proof {
            lemma_no_moves(self@.grid, Player::One, self.spec_availables().moves(Player::One));
            lemma_no_moves(self@.grid, Player::Two, self.spec_availables().moves(Player::Two));
            lemma_no_moves(self@.grid, Player::Three, self.spec_availables().moves(Player::Three));
        }
        self.clear_message();
        self.current_player.advance();
        if self.availables.is_empty(self.current_player) {
            self.update_status(Status::Play(Play::Skipped));
            self.notice = Notice::Skipped(self.current_player);
        } else {
            self.update_status(Status::Play(Play::Turn));
        }
    }

    /// Steps through the history, back or forward. The game itself stays
    /// as it is.
    fn history_move(&mut self, back: bool)
        requires
            old(self).wf(),
            old(self)@.status == Status::Play(Play::History),
        ensures
            final(self).wf(),
            final(self)@ == old(self)@.after_history_move(back),
    {
        if back {
            self.history.go_prev();
        } else {
            self.history.go_next();
        }
    }

    /// Takes the answer to the question whether to quit.
    fn ask_quit(&mut self, command: Command)
        requires
            old(self).wf(),
            old(self)@.status == Status::AskQuit,
        ensures
            final(self).wf(),
            final(self)@ == old(self)@.after_ask_quit(command),
    {
        match command {
            Command::Yes => self.update_status(Status::Quit),
            _ => self.update_status(self.previous_status),
        }
    }

    /// Takes the answer to the question whether to start again.
    fn ask_init(&mut self, command: Command)
        requires
            old(self).wf(),
            old(self)@.status == Status::AskInit,
        ensures
            final(self).wf(),
            final(self)@ == old(self)@.after_ask_init(command),
    {
        match command {
            Command::Yes => self.init(),
            _ => self.update_status(self.previous_status),
        }
    }

    /// The state of the system.
    pub fn current_status(&self) -> (status: Status)
        ensures
            status == self@.status,
    {
        self.current_status
    }

    /// The player whose turn it is.
    pub fn current_player(&self) -> (player: Player)
        ensures
            player == self@.player,
    {
        self.current_player
    }

    /// The position of the cursor.
    pub fn current_position(&self) -> (position: (usize, usize))
        ensures
            position == self@.position,
    {
        self.current_position
    }

    /// What the system has to tell the players.
    pub fn notice(&self) -> (notice: Notice)
        ensures
            notice == self@.notice,
    {
        self.notice
    }

    /// The board of the game.
    pub fn board(&self) -> (board: &Board)
        ensures
            *board == self.spec_board(),
    {
        &self.board
    }

    /// The legal moves of the board of the game.
    pub fn availables(&self) -> (availables: &Availables)
        ensures
            *availables == self.spec_availables(),
    {
        &self.availables
    }

    /// The history of the game.
    pub fn history(&self) -> (history: &History)
        ensures
            *history == self.spec_history(),
    {
        &self.history
    }

    /// The board to show: in the history the board of the turn that is
    /// looked at, else the board of the game.
    pub fn shown_board(&self) -> (board: &Board)
        requires
            self.wf(),
        ensures
            board.wf(),
            board@ == if self@.status == Status::Play(Play::History) {
                self@.history.current_grid()
            } else {
                self@.grid
            },
    {
        match self.current_status {
            Status::Play(Play::History) => self.history.board(),
            _ => &self.board,
        }
    }

    /// The player to show: in the history the player whose move led to the
    /// turn that is looked at, if there is one, else the player whose turn
    /// it is.
    pub fn shown_player(&self) -> (player: Player)
        requires
            self.wf(),
        ensures
            player == match self@.history.current_move() {
                Some(mv) if self@.status == Status::Play(Play::History) => mv.0,
                _ => self@.player,
            },
    {
        match self.current_status {
            Status::Play(Play::History) => match self.history.past_player() {
                Some(player) => player,
                None => self.current_player,
            },
            _ => self.current_player,
        }
    }

    /// The position to show: in the history the position of the move that
    /// led to the turn that is looked at, if there is one, else the
    /// position of the cursor.
    pub fn shown_position(&self) -> (position: (usize, usize))
        requires
            self.wf(),
        ensures
            position == match self@.history.current_move() {
                Some(mv) if self@.status == Status::Play(Play::History) => mv.1,
                _ => self@.position,
            },
    {
        match self.current_status {
            Status::Play(Play::History) => match self.history.past_position() {
                Some(position) => position,
                None => self.current_position,
            },
            _ => self.current_position,
        }
    }
}

} // verus!
