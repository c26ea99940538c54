use triversi::availables::Availables;
use triversi::board::Board;
use triversi::player::Player;
use triversi::position::Direction;

const PLAYERS: [Player; 3] = [Player::One, Player::Two, Player::Three];

fn sorted_copy(v: &Vec<(usize, usize)>) -> Vec<(usize, usize)> {
    let mut v = v.clone();
    v.sort();
    v
}

fn moves_of(board: &Board, player: Player) -> Vec<((usize, usize), Vec<(usize, usize)>)> {
    let mut availables = Availables::default();
    board.update_availables(&mut availables);
    let mut moves = Vec::new();
    for position in availables.positions(player) {
        moves.push((position, sorted_copy(availables.get(player, position).unwrap())));
    }
    moves.sort();
    moves
}

fn empty_board(range: usize) -> Board {
    let mut board = Board::try_new(range).unwrap();
    for y in 0..range {
        for x in 0..=y {
            board.set_player((x, y), None);
        }
    }
    board
}

#[test]
fn lines_on_the_opening_of_range_five() {
    let board = Board::try_new(5).unwrap();
    // down the left edge: Two, Three, then One
    assert_eq!(board.capture_line(Player::One, (0, 0), Direction::Down), vec![(0, 1), (0, 2)]);
    assert_eq!(board.capture_line(Player::Three, (0, 0), Direction::Down), vec![(0, 1)]);
    // the neighbour is the player's own marker
    assert_eq!(board.capture_line(Player::Two, (0, 0), Direction::Down), vec![]);
    // down the diagonal: Three, Two, One
    assert_eq!(board.capture_line(Player::One, (0, 0), Direction::RightDown), vec![(1, 1), (2, 2)]);
    assert_eq!(board.capture_line(Player::Two, (0, 0), Direction::RightDown), vec![(1, 1)]);
    assert_eq!(board.capture_line(Player::Three, (0, 0), Direction::RightDown), vec![]);
    // off the board at once
    assert_eq!(board.capture_line(Player::One, (0, 0), Direction::Left), vec![]);
    assert_eq!(board.capture_line(Player::One, (0, 0), Direction::Up), vec![]);
    assert_eq!(board.capture_line(Player::One, (0, 0), Direction::LeftUp), vec![]);
    assert_eq!(board.capture_line(Player::One, (0, 0), Direction::Right), vec![]);
}

#[test]
fn a_line_must_end_with_the_players_marker() {
    let mut board = empty_board(5);
    board.set_player((1, 4), Some(Player::Two));
    board.set_player((2, 4), Some(Player::Three));
    // the line runs into an empty position
    assert_eq!(board.capture_line(Player::One, (0, 4), Direction::Right), vec![]);
    board.set_player((3, 4), Some(Player::Two));
    board.set_player((4, 4), Some(Player::Three));
    // the line runs into the edge
    assert_eq!(board.capture_line(Player::One, (0, 4), Direction::Right), vec![]);
    // for Three the line is bounded at (2, 4)
    assert_eq!(board.capture_line(Player::Three, (0, 4), Direction::Right), vec![(1, 4)]);
}

#[test]
fn a_line_may_hold_markers_of_both_opponents() {
    let mut board = empty_board(5);
    board.set_player((1, 4), Some(Player::Two));
    board.set_player((2, 4), Some(Player::Three));
    board.set_player((3, 4), Some(Player::Two));
    board.set_player((4, 4), Some(Player::One));
    assert_eq!(
        board.capture_line(Player::One, (0, 4), Direction::Right),
        vec![(1, 4), (2, 4), (3, 4)]
    );
}

#[test]
fn lines_in_all_six_directions() {
    let mut board = empty_board(8);
    let target = (2, 4);
    for (neighbour, bound) in [
        ((1, 4), (0, 4)),
        ((3, 4), (4, 4)),
        ((2, 3), (2, 2)),
        ((2, 5), (2, 6)),
        ((1, 3), (0, 2)),
        ((3, 5), (4, 6)),
    ] {
        board.set_player(neighbour, Some(Player::Two));
        board.set_player(bound, Some(Player::One));
    }
    assert_eq!(board.capture_line(Player::One, target, Direction::Left), vec![(1, 4)]);
    assert_eq!(board.capture_line(Player::One, target, Direction::Right), vec![(3, 4)]);
    assert_eq!(board.capture_line(Player::One, target, Direction::Up), vec![(2, 3)]);
    assert_eq!(board.capture_line(Player::One, target, Direction::Down), vec![(2, 5)]);
    assert_eq!(board.capture_line(Player::One, target, Direction::LeftUp), vec![(1, 3)]);
    assert_eq!(board.capture_line(Player::One, target, Direction::RightDown), vec![(3, 5)]);
    let moves = moves_of(&board, Player::One);
    assert_eq!(
        moves,
        vec![((2, 4), vec![(1, 3), (1, 4), (2, 3), (2, 5), (3, 4), (3, 5)])]
    );
    // Two captures from beyond the markers of One, and Three has no marker at all
    assert_eq!(
        moves_of(&board, Player::Two),
        vec![((2, 7), vec![(2, 6)]), ((5, 7), vec![(4, 6)])]
    );
    assert!(moves_of(&board, Player::Three).is_empty());
}

#[test]
fn legal_moves_on_the_opening_of_range_five() {
    let board = Board::try_new(5).unwrap();
    assert_eq!(
        moves_of(&board, Player::One),
        vec![
            ((0, 0), vec![(0, 1), (0, 2), (1, 1), (2, 2)]),
            ((0, 4), vec![(1, 4)]),
            ((4, 4), vec![(3, 4)]),
        ]
    );
    assert_eq!(
        moves_of(&board, Player::Two),
        vec![
            ((0, 0), vec![(1, 1)]),
            ((0, 4), vec![(0, 2), (0, 3), (1, 4), (2, 4)]),
            ((4, 4), vec![(3, 3)]),
        ]
    );
    assert_eq!(
        moves_of(&board, Player::Three),
        vec![
            ((0, 0), vec![(0, 1)]),
            ((0, 4), vec![(0, 3)]),
            ((4, 4), vec![(2, 2), (2, 4), (3, 3), (3, 4)]),
        ]
    );
}

#[test]
fn legal_moves_on_the_opening_of_range_six() {
    let board = Board::try_new(6).unwrap();
    assert_eq!(
        moves_of(&board, Player::One),
        vec![
            ((0, 1), vec![(0, 2)]),
            ((0, 4), vec![(1, 4)]),
            ((1, 1), vec![(2, 2)]),
            ((1, 5), vec![(1, 3), (1, 4)]),
            ((4, 4), vec![(3, 4)]),
            ((4, 5), vec![(2, 3), (3, 4)]),
        ]
    );
    assert_eq!(
        moves_of(&board, Player::Two),
        vec![
            ((0, 1), vec![(1, 2)]),
            ((0, 4), vec![(0, 3)]),
            ((1, 1), vec![(1, 2), (1, 3)]),
            ((1, 5), vec![(2, 5)]),
            ((4, 4), vec![(2, 4), (3, 4)]),
            ((4, 5), vec![(3, 4)]),
        ]
    );
    assert_eq!(
        moves_of(&board, Player::Three),
        vec![
            ((0, 1), vec![(1, 2), (2, 3)]),
            ((0, 4), vec![(1, 4), (2, 4)]),
            ((1, 1), vec![(1, 2)]),
            ((1, 5), vec![(1, 4)]),
            ((4, 4), vec![(3, 3)]),
            ((4, 5), vec![(3, 5)]),
        ]
    );
}

#[test]
fn every_opening_has_a_move_for_every_player() {
    for range in [5, 6, 8, 9, 11, 12, 14, 15, 17, 18, 20] {
        let board = Board::try_new(range).unwrap();
        for player in PLAYERS {
            assert!(!moves_of(&board, player).is_empty());
        }
    }
}

#[test]
fn captures_are_markers_of_the_opponents() {
    for range in [5, 6, 8, 9, 14] {
        let board = Board::try_new(range).unwrap();
        for player in PLAYERS {
            for (position, captured) in moves_of(&board, player) {
                assert_eq!(board.player(position), None);
                assert!(!captured.is_empty());
                for q in captured {
                    let holder = board.player(q);
                    assert!(holder.is_some());
                    assert_ne!(holder, Some(player));
                }
            }
        }
    }
}

#[test]
fn the_index_is_rebuilt_in_full() {
    let board = Board::try_new(5).unwrap();
    let mut availables = Availables::default();
    // what the index held before does not survive
    availables.add_or_extend(Player::One, (1, 2), vec![(2, 2)]);
    availables.add_or_extend(Player::Two, (3, 3), vec![(2, 2)]);
    board.update_availables(&mut availables);
    assert!(!availables.contains_key(Player::One, (1, 2)));
    assert!(!availables.contains_key(Player::Two, (3, 3)));
    assert_eq!(availables.len(Player::One), 3);
    assert_eq!(availables.len(Player::Two), 3);
    assert_eq!(availables.len(Player::Three), 3);
}

#[test]
fn update_availables_of_leaves_the_other_players() {
    let board = Board::try_new(5).unwrap();
    let mut availables = Availables::default();
    availables.add_or_extend(Player::Two, (3, 3), vec![(2, 2)]);
    board.update_availables_of(Player::One, &mut availables);
    assert_eq!(availables.len(Player::One), 3);
    assert_eq!(availables.positions(Player::Two), vec![(3, 3)]);
    assert!(availables.is_empty(Player::Three));
}

#[test]
fn add_available_adds_one_direction() {
    let board = Board::try_new(5).unwrap();
    let mut availables = Availables::default();
    board.add_available(Player::One, (0, 0), Direction::Left, &mut availables);
    assert!(availables.is_empty(Player::One));
    board.add_available(Player::One, (0, 0), Direction::Down, &mut availables);
    assert_eq!(sorted_copy(availables.get(Player::One, (0, 0)).unwrap()), vec![(0, 1), (0, 2)]);
    board.add_available(Player::One, (0, 0), Direction::RightDown, &mut availables);
    assert_eq!(
        sorted_copy(availables.get(Player::One, (0, 0)).unwrap()),
        vec![(0, 1), (0, 2), (1, 1), (2, 2)]
    );
}

#[test]
fn add_available_around_skips_occupied_positions() {
    let board = Board::try_new(5).unwrap();
    let mut availables = Availables::default();
    board.add_available_around(Player::One, (1, 1), &mut availables);
    assert!(availables.is_empty(Player::One));
    board.add_available_around(Player::One, (4, 4), &mut availables);
    assert_eq!(availables.positions(Player::One), vec![(4, 4)]);
}

#[test]
fn place_flips_the_captured_markers() {
    let mut board = Board::try_new(5).unwrap();
    let mut availables = Availables::default();
    board.update_availables(&mut availables);
    let taken = availables.get(Player::One, (0, 0)).unwrap().clone();
    board.place(Player::One, (0, 0), &taken);
    for q in [(0, 0), (0, 1), (0, 2), (1, 1), (2, 2)] {
        assert_eq!(board.player(q), Some(Player::One));
    }
    // the rest is as it was
    assert_eq!(board.player((1, 3)), Some(Player::Two));
    assert_eq!(board.player((3, 4)), Some(Player::Two));
    assert_eq!(board.player((2, 3)), Some(Player::Three));
    assert_eq!(board.player((1, 4)), Some(Player::Three));
    assert_eq!(board.player((0, 4)), None);
    assert_eq!(board.player((4, 4)), None);
    // One gains the four captured markers and the one placed
    assert_eq!(board.count().get(Player::One), 9);
    assert_eq!(board.count().get(Player::Two), 2);
    assert_eq!(board.count().get(Player::Three), 2);
}

#[test]
fn a_placement_adds_one_marker_to_the_board() {
    for range in [5, 6, 8, 9] {
        for player in PLAYERS {
            let opening = Board::try_new(range).unwrap();
            for (position, captured) in moves_of(&opening, player) {
                let mut board = opening.clone();
                board.place(player, position, &captured);
                let n = captured.len() as u64;
                assert_eq!(board.count().get(player), 4 + n + 1);
                let others: u64 = PLAYERS
                    .iter()
                    .filter(|p| **p != player)
                    .map(|p| board.count().get(*p))
                    .sum();
                assert_eq!(others, 8 - n);
                let total: u64 = PLAYERS.iter().map(|p| board.count().get(*p)).sum();
                assert_eq!(total, 13);
            }
        }
    }
}
