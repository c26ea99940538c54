use triversi::board::Board;
use triversi::error::TriversiError;
use triversi::logic_board::{AvailableList, LogicBoard};
use triversi::player::Player;

#[test]
fn a_logic_board_opens_like_a_board() {
    for range in [5, 6, 9, 14] {
        let logic = LogicBoard::try_new(range).unwrap();
        let board = Board::try_new(range).unwrap();
        assert_eq!(logic.board(), board.board());
        assert_eq!(logic.range(), range);
        assert_eq!(logic.cursor(), (0, 0));
        for player in [Player::One, Player::Two, Player::Three] {
            assert_eq!(logic.count().get(player), 4);
        }
    }
}

#[test]
fn a_logic_board_refuses_invalid_ranges() {
    for range in [0, 4, 7, 10] {
        assert!(matches!(LogicBoard::try_new(range), Err(TriversiError::InvalidBoardRange(r)) if r == range));
    }
}

#[test]
fn the_cursor_of_a_logic_board_moves() {
    let mut logic = LogicBoard::try_new(5).unwrap();
    logic.move_cursor_down();
    assert_eq!(logic.cursor(), (0, 1));
    logic.move_cursor_right();
    assert_eq!(logic.cursor(), (1, 1));
    logic.move_cursor_right();
    assert_eq!(logic.cursor(), (2, 2));
    logic.move_cursor_left();
    assert_eq!(logic.cursor(), (1, 2));
    logic.move_cursor_up();
    assert_eq!(logic.cursor(), (1, 1));
    logic.move_cursor_left();
    logic.move_cursor_left();
    assert_eq!(logic.cursor(), (0, 2));
    for _ in 0..10 {
        logic.move_cursor_down();
    }
    assert_eq!(logic.cursor(), (0, 4));
    for _ in 0..10 {
        logic.move_cursor_right();
    }
    assert_eq!(logic.cursor(), (4, 4));
    for _ in 0..10 {
        logic.move_cursor_up();
    }
    assert_eq!(logic.cursor(), (0, 0));
}

#[test]
fn a_logic_board_keeps_markers_and_cursor_apart() {
    let mut logic = LogicBoard::try_new(5).unwrap();
    logic.move_cursor_down();
    logic.set_player((0, 0), Some(Player::Two));
    assert_eq!(logic.player((0, 0)), Some(Player::Two));
    assert_eq!(logic.count().get(Player::Two), 5);
    assert_eq!(logic.cursor(), (0, 1));
    logic.init();
    assert_eq!(logic.player((0, 0)), None);
    assert_eq!(logic.count().get(Player::Two), 4);
    // the cursor stays where it is
    assert_eq!(logic.cursor(), (0, 1));
    assert_eq!(logic.logic().player((1, 2)), Some(Player::One));
}

#[test]
fn a_logic_board_computes_the_legal_moves() {
    let logic = LogicBoard::try_new(5).unwrap();
    let mut list = AvailableList::default();
    logic.update_available_list(&mut list);
    let mut keys = list.positions(Player::One);
    keys.sort();
    assert_eq!(keys, vec![(0, 0), (0, 4), (4, 4)]);
    let mut taken = list.get(Player::Two, (0, 4)).unwrap().clone();
    taken.sort();
    assert_eq!(taken, vec![(0, 2), (0, 3), (1, 4), (2, 4)]);
}
