//! How a button of the start screen looks under the pointer.

use vstd::prelude::*;

verus! {

/// The number of textures of a button: idle, hovered and pressed.
pub const BUTTON_TEXTURES: usize = 3;

/// The gray level of the text of a button that the pointer is not over.
pub const IDLE_TEXT_GRAY: u8 = 200;

/// Which of a button's textures is drawn: 2 while the pointer is pressed on
/// the button, else 1 while the pointer is over it, else 0.
pub fn texture_index(pointer_down: bool, hovered: bool) -> (index: usize)
    ensures
        index < BUTTON_TEXTURES,
        index == if pointer_down {
            2usize
        } else if hovered {
            1usize
        } else {
            0usize
        },
{
    if pointer_down {
        2
    } else if hovered {
        1
    } else {
        0
    }
}

/// The gray level of a button's text: black while the pointer is over the
/// button, else [`IDLE_TEXT_GRAY`].
pub fn text_gray(hovered: bool) -> (gray: u8)
    ensures
        gray == if hovered {
            0u8
        } else {
            IDLE_TEXT_GRAY
        },
{
    if hovered {
        0
    } else {
        IDLE_TEXT_GRAY
    }
}

} // verus!
