use triversi::board::Board;
use triversi::history::{History, Record};
use triversi::player::Player;

fn board_with(marks: &[((usize, usize), Player)]) -> Board {
    let mut board = Board::try_new(5).unwrap();
    for (position, player) in marks {
        board.set_player(*position, Some(*player));
    }
    board
}

fn history_of_four_moves() -> History {
    let mut history = History::new(board_with(&[]));
    history.push((Player::One, (0, 0)), board_with(&[((0, 0), Player::One)]));
    history.push((Player::Two, (0, 4)), board_with(&[((0, 4), Player::Two)]));
    history.push((Player::Three, (4, 4)), board_with(&[((4, 4), Player::Three)]));
    history.push((Player::One, (1, 1)), board_with(&[((1, 1), Player::One)]));
    history
}

#[test]
fn a_new_record_is_empty() {
    let record = Record::new(8);
    assert_eq!(record.range(), 8);
    assert!(record.player_positions().is_empty());
}

#[test]
fn a_record_keeps_the_moves_in_order() {
    let mut record = Record::new(5);
    record.push((Player::One, (0, 0)));
    record.push((Player::Two, (0, 4)));
    assert_eq!(
        record.player_positions(),
        &vec![(Player::One, (0, 0)), (Player::Two, (0, 4))]
    );
    record.truncate(1);
    assert_eq!(record.player_positions(), &vec![(Player::One, (0, 0))]);
    record.init();
    assert!(record.player_positions().is_empty());
    assert_eq!(record.range(), 5);
}

#[test]
fn a_new_history_holds_the_opening() {
    let board = Board::try_new(6).unwrap();
    let history = History::new(board.clone());
    assert_eq!(history.current_turn(), 0);
    assert_eq!(history.last_turn(), 0);
    assert_eq!(history.board().board(), board.board());
    assert_eq!(history.past_player(), None);
    assert_eq!(history.past_position(), None);
    assert!(history.record().player_positions().is_empty());
    assert_eq!(history.record().range(), 6);
}

#[test]
fn push_appends_a_turn() {
    let history = history_of_four_moves();
    assert_eq!(history.current_turn(), 4);
    assert_eq!(history.last_turn(), 4);
    assert_eq!(history.record().player_positions().len(), 4);
    assert_eq!(history.past_player(), Some(Player::One));
    assert_eq!(history.past_position(), Some((1, 1)));
    assert_eq!(history.board().player((1, 1)), Some(Player::One));
}

#[test]
fn steps_stop_at_both_ends() {
    let mut history = history_of_four_moves();
    history.go_next();
    assert_eq!(history.current_turn(), 4);
    for expected in [3, 2, 1, 0, 0, 0] {
        history.go_prev();
        assert_eq!(history.current_turn(), expected);
    }
    assert_eq!(history.past_player(), None);
    assert_eq!(history.past_position(), None);
    for expected in [1, 2, 3, 4, 4] {
        history.go_next();
        assert_eq!(history.current_turn(), expected);
    }
}

#[test]
fn the_accessors_follow_the_current_turn() {
    let mut history = history_of_four_moves();
    history.go_prev();
    history.go_prev();
    assert_eq!(history.current_turn(), 2);
    assert_eq!(history.past_player(), Some(Player::Two));
    assert_eq!(history.past_position(), Some((0, 4)));
    assert_eq!(history.board().player((0, 4)), Some(Player::Two));
    assert_eq!(history.board().player((4, 4)), None);
    // stepping changes neither the record nor the number of turns
    assert_eq!(history.last_turn(), 4);
    assert_eq!(history.record().player_positions().len(), 4);
}

#[test]
fn back_then_forward_returns_to_the_same_board() {
    for turn in 1..=4 {
        let mut history = history_of_four_moves();
        for _ in turn..4 {
            history.go_prev();
        }
        assert_eq!(history.current_turn(), turn);
        let before = history.board().board().clone();
        history.go_prev();
        history.go_next();
        assert_eq!(history.current_turn(), turn);
        assert_eq!(history.board().board(), &before);
    }
}

#[test]
fn push_after_rewind_discards_the_future() {
    let mut history = history_of_four_moves();
    history.go_prev();
    history.go_prev();
    assert_eq!(history.current_turn(), 2);
    history.push((Player::Three, (2, 2)), board_with(&[((2, 2), Player::Three)]));
    // turns 0, 1, 2 and the new one: two more than the turn pushed from
    assert_eq!(history.current_turn(), 3);
    assert_eq!(history.last_turn(), 3);
    assert_eq!(
        history.record().player_positions(),
        &vec![(Player::One, (0, 0)), (Player::Two, (0, 4)), (Player::Three, (2, 2))]
    );
    assert_eq!(history.board().player((2, 2)), Some(Player::Three));
    history.go_next();
    assert_eq!(history.current_turn(), 3);
    history.go_prev();
    assert_eq!(history.board().player((0, 4)), Some(Player::Two));
}

#[test]
fn push_at_the_opening_discards_every_move() {
    let mut history = history_of_four_moves();
    for _ in 0..4 {
        history.go_prev();
    }
    history.push((Player::Two, (4, 4)), board_with(&[((4, 4), Player::Two)]));
    assert_eq!(history.current_turn(), 1);
    assert_eq!(history.last_turn(), 1);
    assert_eq!(history.record().player_positions(), &vec![(Player::Two, (4, 4))]);
}

#[test]
fn go_last_steps_to_the_end() {
    let mut history = history_of_four_moves();
    history.go_prev();
    history.go_prev();
    history.go_prev();
    history.go_last();
    assert_eq!(history.current_turn(), 4);
    assert_eq!(history.past_position(), Some((1, 1)));
}

#[test]
fn init_starts_a_new_history() {
    let mut history = history_of_four_moves();
    history.go_prev();
    history.init(Board::try_new(5).unwrap());
    assert_eq!(history.current_turn(), 0);
    assert_eq!(history.last_turn(), 0);
    assert!(history.record().player_positions().is_empty());
    assert_eq!(history.past_player(), None);
    assert_eq!(history.board().player((0, 0)), None);
}
