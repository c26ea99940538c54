use triversi::error::TriversiError;
use triversi::board::Board;
use triversi::lattice_board::{
    block_of_position, draw, frame_block_at, position_of_block, stone_style, Bond, LatticeBlock,
    LatticeBoard, StoneStyle, MAX_DISTANCE,
};
use triversi::mark::PlayerMark;
use triversi::player::Player;

fn marks() -> PlayerMark {
    PlayerMark::new('1', '2', '3')
}

fn text(board: &LatticeBoard) -> Vec<String> {
    board.chars().iter().map(|row| row.iter().collect()).collect()
}

#[test]
fn distances_out_of_range_are_refused() {
    for distance in [0, 1, 11, 100] {
        assert!(matches!(
            LatticeBoard::try_new(5, distance, marks()),
            Err(TriversiError::InvalidBoardDistance(d)) if d == distance
        ));
        // the distance is looked at first
        assert!(matches!(
            LatticeBoard::try_new(7, distance, marks()),
            Err(TriversiError::InvalidBoardDistance(d)) if d == distance
        ));
    }
}

#[test]
fn invalid_ranges_are_refused_at_a_valid_distance() {
    for range in [0, 4, 7, 10] {
        assert!(matches!(
            LatticeBoard::try_new(range, 2, marks()),
            Err(TriversiError::InvalidBoardRange(r)) if r == range
        ));
    }
}

#[test]
fn the_drawing_has_the_size_of_the_board() {
    for range in [5, 6, 8] {
        for distance in 2..=MAX_DISTANCE {
            let board = LatticeBoard::try_new(range, distance, marks()).unwrap();
            assert_eq!(board.distance(), distance);
            assert_eq!(board.lattice_board().len(), distance * (range - 1) + 1);
            for row in board.lattice_board() {
                assert_eq!(row.len(), 2 * distance * (range - 1) + 1);
            }
        }
    }
}

#[test]
fn range_five_at_distance_two_without_frame() {
    let board = LatticeBoard::try_new(5, 2, marks()).unwrap();
    assert!(!board.frame_visibility());
    assert_eq!(
        text(&board),
        vec![
            "        .        ",
            "                 ",
            "      2   3      ",
            "                 ",
            "    3   1   2    ",
            "                 ",
            "  1   2   3   1  ",
            "                 ",
            ".   3   1   2   .",
        ]
    );
}

#[test]
fn range_five_at_distance_two_with_frame() {
    let mut board = LatticeBoard::try_new(5, 2, marks()).unwrap();
    board.toggle_frame_visibility();
    assert!(board.frame_visibility());
    assert_eq!(
        text(&board),
        vec![
            "                 ",
            "       / \\       ",
            "      2 - 3      ",
            "     / \\ / \\     ",
            "    3 - 1 - 2    ",
            "   / \\ / \\ / \\   ",
            "  1 - 2 - 3 - 1  ",
            " / \\ / \\ / \\ / \\ ",
            "  - 3 - 1 - 2 -  ",
        ]
    );
    board.toggle_frame_visibility();
    assert!(!board.frame_visibility());
}

#[test]
fn range_five_at_distance_three_with_frame() {
    let mut board = LatticeBoard::try_new(5, 3, marks()).unwrap();
    board.toggle_frame_visibility();
    assert_eq!(
        text(&board),
        vec![
            "                         ",
            "           / \\           ",
            "          /   \\          ",
            "         2 --- 3         ",
            "        / \\   / \\        ",
            "       /   \\ /   \\       ",
            "      3 --- 1 --- 2      ",
            "     / \\   / \\   / \\     ",
            "    /   \\ /   \\ /   \\    ",
            "   1 --- 2 --- 3 --- 1   ",
            "  / \\   / \\   / \\   / \\  ",
            " /   \\ /   \\ /   \\ /   \\ ",
            "  --- 3 --- 1 --- 2 ---  ",
        ]
    );
}

#[test]
fn range_six_at_distance_two_with_frame() {
    let mut board = LatticeBoard::try_new(6, 2, marks()).unwrap();
    board.toggle_frame_visibility();
    assert_eq!(
        text(&board),
        vec![
            "                     ",
            "         / \\         ",
            "          -          ",
            "       / \\ / \\       ",
            "      2 - 1 - 3      ",
            "     / \\ / \\ / \\     ",
            "    1 - 3 - 2 - 1    ",
            "   / \\ / \\ / \\ / \\   ",
            "    - 2 - 1 - 3 -    ",
            " / \\ / \\ / \\ / \\ / \\ ",
            "  -   - 3 - 2 -   -  ",
        ]
    );
}

#[test]
fn the_blocks_of_the_first_rows() {
    let board = LatticeBoard::try_new(5, 2, marks()).unwrap();
    let rows = board.lattice_board();
    for (bx, block) in rows[0].iter().enumerate() {
        if bx == 8 {
            assert_eq!(*block, LatticeBlock::Stone(None));
        } else {
            assert_eq!(*block, LatticeBlock::Background);
        }
    }
    assert_eq!(rows[1][7], LatticeBlock::Bond(Bond::LeftDown));
    assert_eq!(rows[1][9], LatticeBlock::Bond(Bond::RightDown));
    assert_eq!(rows[1][8], LatticeBlock::Background);
    assert_eq!(rows[2][6], LatticeBlock::Stone(Some(Player::Two)));
    assert_eq!(rows[2][7], LatticeBlock::Background);
    assert_eq!(rows[2][8], LatticeBlock::Bond(Bond::Horizontal));
    assert_eq!(rows[2][9], LatticeBlock::Background);
    assert_eq!(rows[2][10], LatticeBlock::Stone(Some(Player::Three)));
}

#[test]
fn blocks_become_characters() {
    let mut board = LatticeBoard::try_new(5, 2, PlayerMark::new('a', 'b', 'c')).unwrap();
    assert_eq!(board.block_to_char(LatticeBlock::Stone(Some(Player::One))), 'a');
    assert_eq!(board.block_to_char(LatticeBlock::Stone(Some(Player::Two))), 'b');
    assert_eq!(board.block_to_char(LatticeBlock::Stone(Some(Player::Three))), 'c');
    assert_eq!(board.block_to_char(LatticeBlock::Stone(None)), '.');
    assert_eq!(board.block_to_char(LatticeBlock::Bond(Bond::LeftDown)), ' ');
    assert_eq!(board.block_to_char(LatticeBlock::Bond(Bond::RightDown)), ' ');
    assert_eq!(board.block_to_char(LatticeBlock::Bond(Bond::Horizontal)), ' ');
    assert_eq!(board.block_to_char(LatticeBlock::Background), ' ');
    board.toggle_frame_visibility();
    assert_eq!(board.block_to_char(LatticeBlock::Stone(Some(Player::One))), 'a');
    assert_eq!(board.block_to_char(LatticeBlock::Stone(None)), ' ');
    assert_eq!(board.block_to_char(LatticeBlock::Bond(Bond::LeftDown)), '/');
    assert_eq!(board.block_to_char(LatticeBlock::Bond(Bond::RightDown)), '\\');
    assert_eq!(board.block_to_char(LatticeBlock::Bond(Bond::Horizontal)), '-');
    assert_eq!(board.block_to_char(LatticeBlock::Background), ' ');
    assert_eq!(board.player_mark(), PlayerMark::new('a', 'b', 'c'));
}

#[test]
fn zooming_changes_the_distance_within_its_bounds() {
    let mut board = LatticeBoard::try_new(5, 2, marks()).unwrap();
    board.zoom_out();
    assert_eq!(board.distance(), 2);
    board.zoom_in();
    assert_eq!(board.distance(), 3);
    let expected = LatticeBoard::try_new(5, 3, marks()).unwrap();
    assert_eq!(board.lattice_board(), expected.lattice_board());
    for _ in 0..20 {
        board.zoom_in();
    }
    assert_eq!(board.distance(), MAX_DISTANCE);
    assert_eq!(LatticeBoard::MAX_DISTANCE, MAX_DISTANCE);
    assert_eq!(board.lattice_board().len(), 41);
    for _ in 0..20 {
        board.zoom_out();
    }
    assert_eq!(board.distance(), 2);
    let expected = LatticeBoard::try_new(5, 2, marks()).unwrap();
    assert_eq!(board.lattice_board(), expected.lattice_board());
}

#[test]
fn set_player_changes_one_stone() {
    let mut board = LatticeBoard::try_new(5, 2, marks()).unwrap();
    board.set_player((0, 0), Some(Player::Three));
    board.set_player((4, 4), Some(Player::One));
    board.set_player((1, 2), None);
    assert_eq!(board.logic_board().player((0, 0)), Some(Player::Three));
    assert_eq!(board.logic_board().count().get(Player::Three), 5);
    assert_eq!(board.logic_board().count().get(Player::One), 4);
    assert_eq!(
        text(&board),
        vec![
            "        3        ",
            "                 ",
            "      2   3      ",
            "                 ",
            "    3   .   2    ",
            "                 ",
            "  1   2   3   1  ",
            "                 ",
            ".   3   1   2   1",
        ]
    );
    // a zoom keeps the markers
    board.zoom_in();
    board.zoom_out();
    assert_eq!(text(&board)[0], "        3        ");
    // the opening takes them back
    board.init();
    assert_eq!(text(&board)[0], "        .        ");
    assert_eq!(text(&board)[4], "    3   1   2    ");
}

#[test]
fn the_cursor_is_drawn_where_its_stone_stands() {
    let mut board = LatticeBoard::try_new(5, 3, marks()).unwrap();
    assert_eq!(board.cursor(), (12, 0));
    board.move_cursor_down();
    assert_eq!(board.cursor(), (9, 3));
    board.move_cursor_right();
    assert_eq!(board.cursor(), (15, 3));
    board.move_cursor_right();
    assert_eq!(board.cursor(), (18, 6));
    board.move_cursor_left();
    assert_eq!(board.cursor(), (12, 6));
    board.move_cursor_up();
    assert_eq!(board.cursor(), (15, 3));
    assert_eq!(board.logic_board().cursor(), (1, 1));
    let (bx, by) = board.cursor();
    assert_eq!(board.lattice_board()[by][bx], LatticeBlock::Stone(Some(Player::Three)));
    board.zoom_in();
    assert_eq!(board.cursor(), (20, 4));
}

#[test]
fn draw_gives_the_drawing_of_any_board() {
    let mut board = Board::try_new(5).unwrap();
    board.set_player((0, 0), Some(Player::Three));
    for distance in [2, 3, 7] {
        let mut lattice = LatticeBoard::try_new(5, distance, marks()).unwrap();
        lattice.set_player((0, 0), Some(Player::Three));
        assert_eq!(&draw(&board, distance), lattice.lattice_board());
    }
}

#[test]
fn stones_and_positions_belong_together() {
    for (range, distance) in [(5, 2), (5, 3), (6, 2), (8, 10)] {
        let height = distance * (range - 1) + 1;
        let width = 2 * distance * (range - 1) + 1;
        let mut stones = 0;
        for by in 0..height {
            for bx in 0..width {
                let block = frame_block_at(range, distance, bx, by);
                match position_of_block(range, distance, bx, by) {
                    Some(pos) => {
                        assert_eq!(block, LatticeBlock::Stone(None));
                        assert!(pos.0 <= pos.1 && pos.1 < range);
                        assert_eq!(block_of_position(range, distance, pos), (bx, by));
                        stones += 1;
                    }
                    None => assert_ne!(block, LatticeBlock::Stone(None)),
                }
            }
        }
        assert_eq!(stones, range * (range + 1) / 2);
        for y in 0..range {
            for x in 0..=y {
                let (bx, by) = block_of_position(range, distance, (x, y));
                assert_eq!(position_of_block(range, distance, bx, by), Some((x, y)));
            }
        }
    }
    assert_eq!(block_of_position(5, 3, (0, 0)), (12, 0));
    assert_eq!(block_of_position(5, 3, (2, 4)), (12, 12));
    assert_eq!(block_of_position(5, 3, (4, 4)), (24, 12));
}

#[test]
fn stones_are_styled_by_holder_and_cursor() {
    let plain = StoneStyle { color: None, strong: false, reversed: false };
    assert_eq!(stone_style(None, (1, 2), Player::One, (0, 0), true), plain);
    assert_eq!(
        stone_style(Some(Player::Two), (1, 2), Player::One, (0, 0), true),
        StoneStyle { color: Some(Player::Two), strong: false, reversed: false }
    );
    assert_eq!(
        stone_style(Some(Player::One), (1, 2), Player::One, (0, 0), true),
        StoneStyle { color: Some(Player::One), strong: true, reversed: false }
    );
    assert_eq!(
        stone_style(Some(Player::One), (1, 2), Player::One, (1, 2), true),
        StoneStyle { color: Some(Player::One), strong: true, reversed: true }
    );
    assert_eq!(
        stone_style(None, (1, 2), Player::Three, (1, 2), true),
        StoneStyle { color: None, strong: false, reversed: true }
    );
    // out of sight nothing is styled
    assert_eq!(stone_style(Some(Player::One), (1, 2), Player::One, (1, 2), false), plain);
}
