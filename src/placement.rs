use vstd::prelude::*;

verus! {

/// A monitor's area in desktop coordinates.
#[derive(Clone, Copy, Debug, PartialEq, Eq, Structural)]
pub struct DisplayBounds {
    pub x: i32,
    pub y: i32,
    pub w: u32,
    pub h: u32,
}

/// The display whose bounds the menu is centered in: the configured one,
/// when there is one and it exists among `num_displays` displays.
pub fn target_display(display_index: Option<u8>, num_displays: i32) -> (r: Option<i32>)
    ensures
        r == (if display_index is Some && (display_index->0 as int) < num_displays {
            Some(display_index->0 as i32)
        } else {
            None::<i32>
        }),
{
    match display_index {
        Some(d) => {
            if (d as i32) < num_displays {
                Some(d as i32)
            } else {
                None
            }
        },
        None => None,
    }
}

/// The top-left corner that centers a `width` by `height` window on `bounds`.
pub fn centered_position(bounds: DisplayBounds, width: u64, height: u64) -> (r: (i64, i64))
    requires
        width < 0x1_0000_0000_0000,
        height < 0x1_0000_0000_0000,
    ensures
        r.0 == bounds.x + bounds.w / 2 - width / 2,
        r.1 == bounds.y + bounds.h / 2 - height / 2,
{
    let x: i64 = bounds.x as i64 + (bounds.w / 2) as i64 - (width / 2) as i64;
    let y: i64 = bounds.y as i64 + (bounds.h / 2) as i64 - (height / 2) as i64;
    (x, y)
}

/// Where the window moves, just before it hides, when the session ends: the
/// origin of the display it was shown on, when a display was configured and
/// a string was chosen; otherwise it stays.
pub fn handoff_position(chosen: bool, shown_on: Option<DisplayBounds>) -> (r: Option<(i32, i32)>)
    ensures
        r == (if chosen && shown_on is Some {
            Some((shown_on->0.x, shown_on->0.y))
        } else {
            None::<(i32, i32)>
        }),
{
    match shown_on {
        Some(b) => {
            if chosen {
                Some((b.x, b.y))
            } else {
                None
            }
        },
        None => None,
    }
}

} // verus!
