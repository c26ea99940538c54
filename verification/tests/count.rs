use triversi::count::Count;
use triversi::player::Player;

#[test]
fn a_new_count_is_zero() {
    let count = Count::default();
    assert_eq!(count.get(Player::One), 0);
    assert_eq!(count.get(Player::Two), 0);
    assert_eq!(count.get(Player::Three), 0);
}

#[test]
fn increment_counts_one_player_only() {
    let mut count = Count::default();
    count.increment(Player::Two);
    count.increment(Player::Two);
    count.increment(Player::Three);
    assert_eq!(count.get(Player::One), 0);
    assert_eq!(count.get(Player::Two), 2);
    assert_eq!(count.get(Player::Three), 1);
}

#[test]
fn decrement_takes_one_back() {
    let mut count = Count::default();
    count.increment(Player::One);
    count.increment(Player::One);
    count.increment(Player::Three);
    count.decrement(Player::One);
    assert_eq!(count.get(Player::One), 1);
    assert_eq!(count.get(Player::Two), 0);
    assert_eq!(count.get(Player::Three), 1);
}

#[test]
fn reset_clears_every_player() {
    let mut count = Count::default();
    count.increment(Player::One);
    count.increment(Player::Two);
    count.increment(Player::Three);
    count.reset();
    assert_eq!(count.get(Player::One), 0);
    assert_eq!(count.get(Player::Two), 0);
    assert_eq!(count.get(Player::Three), 0);
}
