use triversi::availables::Availables;
use triversi::player::Player;

fn sorted(v: &Vec<(usize, usize)>) -> Vec<(usize, usize)> {
    let mut v = v.clone();
    v.sort();
    v
}

#[test]
fn a_new_index_is_empty() {
    let availables = Availables::default();
    for player in [Player::One, Player::Two, Player::Three] {
        assert!(availables.is_empty(player));
        assert_eq!(availables.len(player), 0);
        assert!(!availables.contains_key(player, (0, 0)));
        assert!(availables.get(player, (0, 0)).is_none());
        assert!(availables.positions(player).is_empty());
    }
}

#[test]
fn add_or_extend_adds_a_position() {
    let mut availables = Availables::new();
    availables.add_or_extend(Player::Two, (1, 3), vec![(1, 2), (1, 1)]);
    assert!(availables.contains_key(Player::Two, (1, 3)));
    assert!(!availables.contains_key(Player::Two, (1, 2)));
    assert!(!availables.contains_key(Player::One, (1, 3)));
    assert!(!availables.contains_key(Player::Three, (1, 3)));
    assert_eq!(sorted(availables.get(Player::Two, (1, 3)).unwrap()), vec![(1, 1), (1, 2)]);
    assert!(!availables.is_empty(Player::Two));
    assert!(availables.is_empty(Player::One));
    assert_eq!(availables.len(Player::Two), 1);
}

#[test]
fn add_or_extend_extends_a_position() {
    let mut availables = Availables::new();
    availables.add_or_extend(Player::One, (0, 0), vec![(0, 1), (0, 2)]);
    availables.add_or_extend(Player::One, (0, 0), vec![(1, 1), (2, 2)]);
    assert_eq!(
        sorted(availables.get(Player::One, (0, 0)).unwrap()),
        vec![(0, 1), (0, 2), (1, 1), (2, 2)]
    );
    assert_eq!(availables.len(Player::One), 1);
}

#[test]
fn add_or_extend_keeps_each_capture_once() {
    let mut availables = Availables::new();
    availables.add_or_extend(Player::Three, (2, 2), vec![(1, 1), (1, 1), (2, 3)]);
    availables.add_or_extend(Player::Three, (2, 2), vec![(2, 3), (1, 1), (2, 4)]);
    assert_eq!(
        sorted(availables.get(Player::Three, (2, 2)).unwrap()),
        vec![(1, 1), (2, 3), (2, 4)]
    );
}

#[test]
fn add_or_extend_with_nothing_changes_nothing() {
    let mut availables = Availables::new();
    availables.add_or_extend(Player::One, (0, 0), vec![]);
    assert!(availables.is_empty(Player::One));
    assert!(!availables.contains_key(Player::One, (0, 0)));
    availables.add_or_extend(Player::One, (0, 0), vec![(0, 1)]);
    availables.add_or_extend(Player::One, (0, 0), vec![]);
    assert_eq!(sorted(availables.get(Player::One, (0, 0)).unwrap()), vec![(0, 1)]);
}

#[test]
fn positions_lists_the_keys() {
    let mut availables = Availables::new();
    availables.add_or_extend(Player::One, (0, 4), vec![(1, 4)]);
    availables.add_or_extend(Player::One, (0, 0), vec![(0, 1)]);
    availables.add_or_extend(Player::One, (0, 4), vec![(0, 3)]);
    assert_eq!(availables.positions(Player::One), vec![(0, 4), (0, 0)]);
    assert_eq!(availables.len(Player::One), 2);
}

#[test]
fn clear_empties_one_player() {
    let mut availables = Availables::new();
    availables.add_or_extend(Player::One, (0, 0), vec![(0, 1)]);
    availables.add_or_extend(Player::Two, (0, 0), vec![(1, 1)]);
    availables.clear(Player::One);
    assert!(availables.is_empty(Player::One));
    assert!(!availables.contains_key(Player::One, (0, 0)));
    assert_eq!(sorted(availables.get(Player::Two, (0, 0)).unwrap()), vec![(1, 1)]);
}
