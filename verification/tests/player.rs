use triversi::player::Player;

#[test]
fn advance_follows_the_turn_order() {
    let mut player = Player::One;
    player.advance();
    assert_eq!(player, Player::Two);
    player.advance();
    assert_eq!(player, Player::Three);
    player.advance();
    assert_eq!(player, Player::One);
}

#[test]
fn three_advances_return_to_every_player() {
    for start in [Player::One, Player::Two, Player::Three] {
        let mut player = start;
        player.advance();
        assert_ne!(player, start);
        player.advance();
        assert_ne!(player, start);
        player.advance();
        assert_eq!(player, start);
    }
}

#[test]
fn index_counts_from_zero() {
    assert_eq!(Player::One.index(), 0);
    assert_eq!(Player::Two.index(), 1);
    assert_eq!(Player::Three.index(), 2);
}

#[test]
fn from_index_inverts_index() {
    assert_eq!(Player::from_index(0), Some(Player::One));
    assert_eq!(Player::from_index(1), Some(Player::Two));
    assert_eq!(Player::from_index(2), Some(Player::Three));
    assert_eq!(Player::from_index(3), None);
    assert_eq!(Player::from_index(usize::MAX), None);
}

#[test]
fn the_first_player_opens() {
    assert_eq!(Player::default(), Player::One);
}
