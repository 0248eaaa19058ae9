//! Where the red microphone marker is drawn and in which colour.

use vstd::prelude::*;

verus! {

/// Width of the overlay window in pixels.
pub const OVERLAY_WIDTH: i32 = 100;

/// `COLORREF` of the marker: red (`0x0000FF`) while a session runs, grey
/// otherwise.
pub const ACTIVE_COLOR: u32 = 0x0000FF;
pub const IDLE_COLOR: u32 = 0x808080;

/// Position and colour of the overlay.
#[derive(Clone, Copy, Debug, PartialEq, Eq)]
pub struct Placement {
    pub x: i32,
    pub y: i32,
    pub color: u32,
}

/// Below the text caret (screen coordinates of its bottom-left corner) when
/// there is one, else next to the mouse cursor; kept inside the screen width.
pub open spec fn spec_placement(caret: Option<(i32, i32)>, cursor: (i32, i32), screen_w: i32, active: bool) -> Placement {
    let (x0, y) = match caret {
        Some(p) => (p.0 as int, p.1 + 5),
        None => (cursor.0 + 10, cursor.1 + 20),
    };
    let x = if x0 + 100 > screen_w {
        screen_w - 100
    } else {
        x0
    };
    Placement {
        x: x as i32,
        y: y as i32,
        color: if active {
            ACTIVE_COLOR
        } else {
            IDLE_COLOR
        },
    }
}

pub fn overlay_placement(caret: Option<(i32, i32)>, cursor: (i32, i32), screen_w: i32, active: bool) -> (p: Placement)
    requires
        caret matches Some(c) ==> c.1 + 5 <= i32::MAX,
        caret is None ==> cursor.0 + 10 <= i32::MAX && cursor.1 + 20 <= i32::MAX,
        screen_w - 100 >= i32::MIN,
    ensures
        p == spec_placement(caret, cursor, screen_w, active),
        p.x + OVERLAY_WIDTH <= screen_w,
{
    let (x0, y) = match caret {
        Some(c) => (c.0, c.1 + 5),
        None => (cursor.0 + 10, cursor.1 + 20),
    };
    let x = if (x0 as i64) + 100 > screen_w as i64 {
        screen_w - 100
    } else {
        x0
    };
    Placement {
        x,
        y,
        color: if active {
            ACTIVE_COLOR
        } else {
            IDLE_COLOR
        },
    }
}

} // verus!
