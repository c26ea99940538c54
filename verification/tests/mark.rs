use triversi::error::TriversiError;
use triversi::mark::PlayerMark;
use triversi::player::Player;

#[test]
fn marks_are_kept_in_the_order_of_the_players() {
    let marks = PlayerMark::new('a', 'b', 'c');
    assert_eq!(marks.convert(Player::One), 'a');
    assert_eq!(marks.convert(Player::Two), 'b');
    assert_eq!(marks.convert(Player::Three), 'c');
}

#[test]
fn marks_are_read_from_a_text() {
    let marks = PlayerMark::try_from("1,2,3".to_string()).unwrap();
    assert_eq!(marks, PlayerMark::new('1', '2', '3'));
    let marks = PlayerMark::try_from("x, ,#".to_string()).unwrap();
    assert_eq!(marks, PlayerMark::new('x', ' ', '#'));
}

#[test]
fn texts_that_name_no_marks_are_refused() {
    for text in [
        "", "1", "1,2", "1,2,", ",2,3", "1,,3", "1,2,3,", "1,2,3,4", "12,3,4", "1,23,4", "1,2,34",
        "1;2;3", "1,2;3", ",,,,,", "1,2,3 ", "é,2,3", "1,é,3", "1,2,é", "万,2,3",
    ] {
        match PlayerMark::try_from(text.to_string()) {
            Err(TriversiError::InvalidStringForPlayerMarks(s)) => assert_eq!(s, text),
            other => panic!("{:?} for {:?}", other, text),
        }
    }
}
