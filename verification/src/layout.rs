//! How the screen is divided while the game is played.
//!
//! From top to bottom the screen shows a box with guidance, a row of small
//! boxes, and the board. The row holds the names of the players, the
//! position of the cursor, the scroll offset, the zoom and the message.
//! Beside the board there may be a box with information for debugging.

use crate::names::PlayerNames;
use crate::player::Player;
use unicode_width::UnicodeWidthStr;
use vstd::prelude::*;

verus! {

/// The height of the box with guidance.
pub const GUIDANCE_BOX_HEIGHT: u16 = 4;

/// The height of the row of small boxes.
pub const MESSAGE_BOX_HEIGHT: u16 = 3;

/// The width of the box with the position of the cursor.
pub const POSITION_BOX_WIDTH: u16 = 10;

/// The width of the box with the scroll offset.
pub const SCROLL_BOX_WIDTH: u16 = 10;

/// The width of the box with the zoom.
pub const ZOOM_BOX_WIDTH: u16 = 6;

/// What the box with the names of the players takes besides the names.
pub const PLAYER_BOX_MARGIN: u16 = 6;

/// The number of columns that a text takes on a terminal where the
/// characters of ambiguous width are wide.
pub uninterp spec fn cjk_width(text: Seq<char>) -> nat;

/// Counts the columns of `text` with `UnicodeWidthStr::width_cjk` of the
/// crate `unicode-width`. The count is taken on trust; all that is claimed
/// of it is that it depends on the characters of the text and on nothing
/// else.
#[verifier::external_body]
fn width_cjk(text: &str) -> (width: usize)
    ensures
        width == cjk_width(text@),
{
    UnicodeWidthStr::width_cjk(text)
}

/// The sizes of the boxes on the screen.
#[derive(Clone, Copy, Debug, PartialEq, Eq)]
pub struct PlayLayout {
    /// The height of the box with guidance.
    pub guidance_height: u16,
    /// The height of the row of small boxes.
    pub message_height: u16,
    /// The height of the board.
    pub board_height: u16,
    /// The width of the box with the names of the players.
    pub player_width: u16,
    /// The width of the box with the position of the cursor.
    pub position_width: u16,
    /// The width of the box with the scroll offset.
    pub scroll_width: u16,
    /// The width of the box with the zoom.
    pub zoom_width: u16,
    /// The width of the box with the message.
    pub message_width: u16,
    /// The width of the board.
    pub board_width: u16,
    /// The width of the box with information for debugging.
    pub debug_width: u16,
}

/// The number of columns that the names of the three players take
/// together.
pub open spec fn names_width(names: &PlayerNames) -> nat {
    cjk_width(names.spec_player_name(Player::One)) + cjk_width(
        names.spec_player_name(Player::Two),
    ) + cjk_width(names.spec_player_name(Player::Three))
}

/// Whether the boxes fit on a screen of `width` columns and `height` rows,
/// where the names of the players take `names` columns.
pub open spec fn fits(width: u16, height: u16, names: nat) -> bool {
    &&& height >= GUIDANCE_BOX_HEIGHT + MESSAGE_BOX_HEIGHT
    &&& width >= PLAYER_BOX_MARGIN + names + POSITION_BOX_WIDTH + SCROLL_BOX_WIDTH
        + ZOOM_BOX_WIDTH
}

/// The sizes of the boxes on a screen of `width` columns and `height`
/// rows, where the names of the players take `names` columns. The box for
/// debugging, where there is one, takes half of the width.
pub open spec fn layout_of(width: u16, height: u16, names: nat, debug: bool) -> PlayLayout {
    let debug_width = if debug {
        width / 2
    } else {
        0
    };
    PlayLayout {
        guidance_height: GUIDANCE_BOX_HEIGHT,
        message_height: MESSAGE_BOX_HEIGHT,
        board_height: (height - GUIDANCE_BOX_HEIGHT - MESSAGE_BOX_HEIGHT) as u16,
        player_width: (PLAYER_BOX_MARGIN + names) as u16,
        position_width: POSITION_BOX_WIDTH,
        scroll_width: SCROLL_BOX_WIDTH,
        zoom_width: ZOOM_BOX_WIDTH,
        message_width: (width - PLAYER_BOX_MARGIN - names - POSITION_BOX_WIDTH - SCROLL_BOX_WIDTH
            - ZOOM_BOX_WIDTH) as u16,
        board_width: (width - debug_width) as u16,
        debug_width,
    }
}

/// The sizes of the boxes on a screen on which they fit.
pub fn play_layout_of_width(width: u16, height: u16, names: usize, debug: bool) -> (layout:
    PlayLayout)
    requires
        fits(width, height, names as nat),
    ensures
        layout == layout_of(width, height, names as nat, debug),
        layout.guidance_height + layout.message_height + layout.board_height == height,
        layout.player_width + layout.position_width + layout.scroll_width + layout.zoom_width
            + layout.message_width == width,
        layout.board_width + layout.debug_width == width,
{
    let player_width = PLAYER_BOX_MARGIN + names as u16;
    let debug_width = if debug {
        width / 2
    } else {
        0
    };
    PlayLayout {
        guidance_height: GUIDANCE_BOX_HEIGHT,
        message_height: MESSAGE_BOX_HEIGHT,
        board_height: height - GUIDANCE_BOX_HEIGHT - MESSAGE_BOX_HEIGHT,
        player_width,
        position_width: POSITION_BOX_WIDTH,
        scroll_width: SCROLL_BOX_WIDTH,
        zoom_width: ZOOM_BOX_WIDTH,
        message_width: width - player_width - POSITION_BOX_WIDTH - SCROLL_BOX_WIDTH
            - ZOOM_BOX_WIDTH,
        board_width: width - debug_width,
        debug_width,
    }
}

/// The sizes of the boxes on a screen of `width` columns and `height`
/// rows for players of the given names; `None` where the boxes do not fit.
pub fn play_layout(width: u16, height: u16, names: &PlayerNames, debug: bool) -> (layout: Option<
    PlayLayout,
>)
    ensures
        layout == if fits(width, height, names_width(names)) {
            Some(layout_of(width, height, names_width(names), debug))
        } else {
            None
        },
{
    let one = width_cjk(names.player_name(Player::One));
    let two = width_cjk(names.player_name(Player::Two));
    let three = width_cjk(names.player_name(Player::Three));
    if one > 0xFFFF || two > 0xFFFF || three > 0xFFFF {
        return None;
    }
    let all = one + two + three;
    if height < GUIDANCE_BOX_HEIGHT + MESSAGE_BOX_HEIGHT {
        return None;
    }
    if all > 0xFFFF || (width as usize) < 32 + all {
        return None;
    }
    Some(play_layout_of_width(width, height, all, debug))
}

} // verus!
