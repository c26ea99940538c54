use triversi::layout::{play_layout, play_layout_of_width, PlayLayout};
use triversi::names::PlayerNames;

#[test]
fn the_boxes_fill_the_screen() {
    let layout = play_layout_of_width(80, 24, 3, false);
    assert_eq!(
        layout,
        PlayLayout {
            guidance_height: 4,
            message_height: 3,
            board_height: 17,
            player_width: 9,
            position_width: 10,
            scroll_width: 10,
            zoom_width: 6,
            message_width: 45,
            board_width: 80,
            debug_width: 0,
        }
    );
}

#[test]
fn the_debug_box_takes_half_of_the_width() {
    let layout = play_layout_of_width(81, 30, 12, true);
    assert_eq!(layout.debug_width, 40);
    assert_eq!(layout.board_width, 41);
    assert_eq!(layout.board_height, 23);
    assert_eq!(layout.player_width, 18);
    assert_eq!(layout.message_width, 37);
}

#[test]
fn the_smallest_screen_that_fits() {
    let layout = play_layout_of_width(35, 7, 3, false);
    assert_eq!(layout.board_height, 0);
    assert_eq!(layout.message_width, 0);
    assert_eq!(layout.player_width, 9);
}

#[test]
fn names_are_measured_in_columns() {
    let names = PlayerNames::try_new("1,2,3").unwrap();
    let layout = play_layout(80, 24, &names, false).unwrap();
    assert_eq!(layout, play_layout_of_width(80, 24, 3, false));
    // a wide character takes two columns
    let names = PlayerNames::try_new("a万,bc,d").unwrap();
    let layout = play_layout(80, 24, &names, false).unwrap();
    assert_eq!(layout.player_width, 12);
    assert_eq!(layout.message_width, 42);
    // a character of ambiguous width counts as wide
    let names = PlayerNames::try_new("a±,b,c").unwrap();
    let layout = play_layout(80, 24, &names, true).unwrap();
    assert_eq!(layout.player_width, 11);
    assert_eq!(layout.debug_width, 40);
}

#[test]
fn screens_that_are_too_small_have_no_layout() {
    let names = PlayerNames::try_new("Ann,Bob,Cy").unwrap();
    // the names take eight columns
    assert!(play_layout(40, 7, &names, false).is_some());
    assert!(play_layout(40, 6, &names, false).is_none());
    assert!(play_layout(39, 7, &names, false).is_none());
    assert!(play_layout(0, 0, &names, true).is_none());
    assert!(play_layout(u16::MAX, u16::MAX, &names, true).is_some());
}
