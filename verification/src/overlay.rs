//! Where the overlay is shown.

use vstd::prelude::*;

use crate::text::str_eq;

verus! {

/// Whether a text names a place of the overlay.
pub open spec fn is_position(s: Seq<char>) -> bool {
    s == "tl"@ || s == "tr"@ || s == "bl"@ || s == "br"@ || s == "lc"@ || s == "rc"@
}

/// Whether a text names a place of the overlay.
pub fn is_overlay_position(s: &str) -> (r: bool)
    ensures
        r == is_position(s@),
{
    str_eq(s, "tl") || str_eq(s, "tr") || str_eq(s, "bl") || str_eq(s, "br") || str_eq(s, "lc")
        || str_eq(s, "rc")
}

/// Whether a text says when the overlay is shown.
pub open spec fn is_visibility(s: Seq<char>) -> bool {
    s == "always"@ || s == "in_call"@
}

/// Whether a text says when the overlay is shown.
pub fn is_overlay_visibility(s: &str) -> (r: bool)
    ensures
        r == is_visibility(s@),
{
    str_eq(s, "always") || str_eq(s, "in_call")
}

/// A monitor or a window: its left upper corner and its size, in pixels.
#[derive(Debug, Clone, Copy, PartialEq, Eq, Structural)]
pub struct Area {
    pub x: i32,
    pub y: i32,
    pub width: u32,
    pub height: u32,
}

/// Half of a distance, rounded towards 0.
pub open spec fn half(d: int) -> int {
    if d >= 0 {
        d / 2
    } else {
        -((-d) / 2)
    }
}

/// The left upper corner of a window of the given size at a place on a
/// monitor.
pub open spec fn corner(
    preset: Seq<char>,
    monitor: Area,
    width: u32,
    height: u32,
    margin: u32,
) -> (int, int) {
    let left = monitor.x + margin;
    let right = monitor.x + monitor.width - width - margin;
    let top = monitor.y + margin;
    let bottom = monitor.y + monitor.height - height - margin;
    let middle = monitor.y + half(monitor.height - height);
    if preset == "tl"@ {
        (left, top)
    } else if preset == "bl"@ {
        (left, bottom)
    } else if preset == "br"@ {
        (right, bottom)
    } else if preset == "lc"@ {
        (left, middle)
    } else if preset == "rc"@ {
        (right, middle)
    } else {
        (right, top)
    }
}

/// Where the overlay goes. An unknown place is the right upper corner.
pub fn place(preset: &str, monitor: Area, width: u32, height: u32, margin: u32) -> (r: (i64, i64))
    ensures
        (r.0 as int, r.1 as int) == corner(preset@, monitor, width, height, margin),
{
    let left: i64 = monitor.x as i64 + margin as i64;
    let right: i64 = monitor.x as i64 + monitor.width as i64 - width as i64 - margin as i64;
    let top: i64 = monitor.y as i64 + margin as i64;
    let bottom: i64 = monitor.y as i64 + monitor.height as i64 - height as i64 - margin as i64;
    let middle: i64 = if monitor.height >= height {
        monitor.y as i64 + ((monitor.height - height) / 2) as i64
    } else {
        monitor.y as i64 - ((height - monitor.height) / 2) as i64
    };
    if str_eq(preset, "tl") {
        (left, top)
    } else if str_eq(preset, "bl") {
        (left, bottom)
    } else if str_eq(preset, "br") {
        (right, bottom)
    } else if str_eq(preset, "lc") {
        (left, middle)
    } else if str_eq(preset, "rc") {
        (right, middle)
    } else {
        (right, top)
    }
}

/// An overlay that fits on the monitor with its margins stays on it.
pub proof fn law_overlay_stays_on_monitor(
    preset: Seq<char>,
    monitor: Area,
    width: u32,
    height: u32,
    margin: u32,
)
    requires
        width + 2 * margin <= monitor.width,
        height + 2 * margin <= monitor.height,
    ensures
        ({
            let c = corner(preset, monitor, width, height, margin);
            &&& monitor.x + margin <= c.0 <= monitor.x + monitor.width - width - margin
            &&& monitor.y + margin <= c.1 <= monitor.y + monitor.height - height - margin
        }),
{
}

/// At the left the overlay is its margin away from the left edge of the
/// monitor, at the right from the right edge, and the same holds at the top and
/// at the bottom; in the middle there is as much room above as below.
pub proof fn law_overlay_keeps_its_margin(
    monitor: Area,
    width: u32,
    height: u32,
    margin: u32,
)
    ensures
        ({
            let right = monitor.x + monitor.width;
            let bottom = monitor.y + monitor.height;
            let tl = corner("tl"@, monitor, width, height, margin);
            let tr = corner("tr"@, monitor, width, height, margin);
            let bl = corner("bl"@, monitor, width, height, margin);
            let br = corner("br"@, monitor, width, height, margin);
            let lc = corner("lc"@, monitor, width, height, margin);
            let rc = corner("rc"@, monitor, width, height, margin);
            &&& tl.0 - monitor.x == margin && tl.1 - monitor.y == margin
            &&& right - (tr.0 + width) == margin && tr.1 - monitor.y == margin
            &&& bl.0 - monitor.x == margin && bottom - (bl.1 + height) == margin
            &&& right - (br.0 + width) == margin && bottom - (br.1 + height) == margin
            &&& lc.0 - monitor.x == margin && right - (rc.0 + width) == margin
            &&& lc.1 == rc.1
            &&& -1 <= (lc.1 - monitor.y) - (bottom - (lc.1 + height)) <= 1
        }),
{
    reveal_strlit("tl");
    reveal_strlit("tr");
    reveal_strlit("bl");
    reveal_strlit("br");
    reveal_strlit("lc");
    reveal_strlit("rc");
    assert("tl"@[0] == 't' && "tr"@[0] == 't' && "bl"@[0] == 'b' && "br"@[0] == 'b' && "lc"@[0]
        == 'l' && "rc"@[0] == 'r');
    assert("tl"@[1] == 'l' && "tr"@[1] == 'r' && "bl"@[1] == 'l' && "br"@[1] == 'r' && "lc"@[1]
        == 'c' && "rc"@[1] == 'c');
}

} // verus!
