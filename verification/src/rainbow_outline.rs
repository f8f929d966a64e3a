//! Rainbow outline: cells on the edge of the text block (any empty
//! neighbor) cycle their hue quickly with a brightness pulse, while
//! interior cells breathe slowly and desaturated.  The caller supplies a
//! 4-bit neighbor-occupancy mask: bit 0 up, bit 1 down, bit 2 left,
//! bit 3 right, a set bit meaning that neighbor is empty.

use vstd::prelude::*;

use crate::fixed::wave1000;
use crate::fixed::wave1000_spec;
use crate::styles::hsv_to_rgb;
use crate::styles::hsv_to_rgb_spec;

verus! {

/// A cell is an edge cell when any of its four neighbors is empty.
pub open spec fn is_edge_cell(neighbor_mask: u8) -> bool {
    neighbor_mask & 0b1111 != 0
}

/// Rainbow-outline cell color: fast hue cycling with a pulse on edge
/// cells, slow desaturated breathing inside.
pub open spec fn rainbow_outline_color_spec(t: int, neighbor_mask: u8) -> (int, int, int) {
    let tr = t % 3600000;
    if is_edge_cell(neighbor_mask) {
        let hue = (tr * 6 / 5) % 3600;
        let pulse0 = 500 + wave1000_spec(tr * 1261 / 1000) * 250 / 1000;
        let pulse = if pulse0 > 1000 {
            1000int
        } else {
            pulse0
        };
        hsv_to_rgb_spec(hue, 850, pulse)
    } else {
        let hue = (tr / 4) % 3600;
        let breath = 800 + wave1000_spec(tr * 630 / 1000) * 50 / 1000;
        hsv_to_rgb_spec(hue, 250, breath)
    }
}

/// Rainbow-outline color of one cell, from the neighbor-occupancy mask.
pub fn calculate_rainbow_outline_color_at(
    time_ms: u64,
    _row: usize,
    _col: usize,
    neighbor_mask: u8,
) -> (rgb: (u8, u8, u8))
    ensures
        (rgb.0 as int, rgb.1 as int, rgb.2 as int) == rainbow_outline_color_spec(
            time_ms as int,
            neighbor_mask,
        ),
{
    let tr: u64 = time_ms % 3600000;
    if neighbor_mask & 0b1111 != 0 {
        let hue: u32 = ((tr * 6 / 5) % 3600) as u32;
        let pulse0: u64 = 500 + (wave1000(tr * 1261 / 1000) as u64) * 250 / 1000;
        let pulse: u32 = if pulse0 > 1000 {
            1000
        } else {
            pulse0 as u32
        };
        hsv_to_rgb(hue, 850, pulse)
    } else {
        let hue: u32 = ((tr / 4) % 3600) as u32;
        let breath: u32 = (800 + (wave1000(tr * 630 / 1000) as u64) * 50 / 1000) as u32;
        hsv_to_rgb(hue, 250, breath)
    }
}

} // verus!
