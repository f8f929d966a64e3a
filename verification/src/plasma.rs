//! Plasma style: three sine fields over normalized coordinates and time,
//! summed and normalized; the hue is linear in the normalized sum, the
//! saturation grows toward the extremes of the range, and the value
//! carries a slow global breathing.  Stateless per cell.

use vstd::prelude::*;

use crate::fixed::abs_diff_spec;
use crate::fixed::wave1000;
use crate::fixed::wave1000_spec;
use crate::styles::hsv_to_rgb;
use crate::styles::hsv_to_rgb_spec;

verus! {

/// Normalized sum of the three sine fields, in thousandths (0..=1000).
/// Coordinates are normalized to thousandths of the terminal size; the
/// three fields have independent spatial frequencies and temporal rates,
/// the rates scaled by the clamped speed.
pub open spec fn plasma_field(t: int, row: int, col: int, w: int, h: int, speed: int) -> int {
    let tr = t % 3600000;
    let sc = if speed < 50 {
        50int
    } else if speed > 10000 {
        10000int
    } else {
        speed
    };
    let x = col * 1000 / w;
    let y = row * 1000 / h;
    let a1 = x * 4011 / 1000 + tr * 516 * sc / 1000000;
    let a2 = y * 2865 / 1000 + tr * 315 * sc / 1000000;
    let a3 = (x + y) * 5443 / 1000 + tr * 201 * sc / 1000000;
    (wave1000_spec(a1) + wave1000_spec(a2) + wave1000_spec(a3)) / 6
}

/// At time zero the three sine fields all sit at their zero crossing,
/// so the normalized sum is exactly the midpoint and the hue starts at
/// exactly 150 degrees, on any terminal size.
pub proof fn lemma_plasma_origin(w: int, h: int, speed: int)
    requires
        w >= 1,
        h >= 1,
    ensures
        plasma_field(0, 0, 0, w, h, speed) == 500,
{
    let tr = 0int % 3600000;
    let sc = if speed < 50 {
        50int
    } else if speed > 10000 {
        10000int
    } else {
        speed
    };
    assert(tr == 0);
    assert(0int * 1000 / w == 0);
    assert(0int * 1000 / h == 0);
    assert(tr * 516 * sc == 0) by (nonlinear_arith)
        requires
            tr == 0,
    ;
    assert(tr * 315 * sc == 0) by (nonlinear_arith)
        requires
            tr == 0,
    ;
    assert(tr * 201 * sc == 0) by (nonlinear_arith)
        requires
            tr == 0,
    ;
    assert(wave1000_spec(0) == 1000);
}

/// Plasma cell color; `(0, 0, 0)` on a degenerate (zero-sized) terminal.
pub open spec fn plasma_color_spec(t: int, row: int, col: int, w: int, h: int, speed: int) -> (
    int,
    int,
    int,
) {
    if w == 0 || h == 0 {
        (0int, 0int, 0int)
    } else {
        let tr = t % 3600000;
        let vn = plasma_field(t, row, col, w, h, speed);
        let hue = (vn * 3 + tr / 4) % 3600;
        let sat0 = 550 + abs_diff_spec(vn, 500) * 900 / 1000;
        let sat = if sat0 > 1000 {
            1000int
        } else {
            sat0
        };
        let breath = 920 + wave1000_spec(tr * 344 / 1000) * 50 / 1000;
        let v0 = (300 + vn * 700 / 1000) * breath / 1000;
        let val = if v0 > 1000 {
            1000int
        } else {
            v0
        };
        hsv_to_rgb_spec(hue, sat, val)
    }
}

/// Plasma color of one cell.  A degenerate terminal (zero width or
/// height) yields black instead of dividing by zero.
pub fn calculate_plasma_color_at(
    time_ms: u64,
    row: usize,
    col: usize,
    term_w: usize,
    term_h: usize,
    speed_milli: u32,
) -> (rgb: (u8, u8, u8))
    requires
        row <= 65535,
        col <= 65535,
        term_w <= 65535,
        term_h <= 65535,
    ensures
        (rgb.0 as int, rgb.1 as int, rgb.2 as int) == plasma_color_spec(
            time_ms as int,
            row as int,
            col as int,
            term_w as int,
            term_h as int,
            speed_milli as int,
        ),
{
    if term_w == 0 || term_h == 0 {
        return (0, 0, 0);
    }
    let tr: u64 = time_ms % 3600000;
    let sc: u64 = if speed_milli < 50 {
        50
    } else if speed_milli > 10000 {
        10000
    } else {
        speed_milli as u64
    };
    let x: u64 = (col as u64) * 1000 / (term_w as u64);
    let y: u64 = (row as u64) * 1000 / (term_h as u64);
    assert(tr * 516 * sc <= 18576000000000u64) by (nonlinear_arith)
        requires
            tr < 3600000,
            sc <= 10000,
    ;
    assert(tr * 315 * sc <= 11340000000000u64) by (nonlinear_arith)
        requires
            tr < 3600000,
            sc <= 10000,
    ;
    assert(tr * 201 * sc <= 7236000000000u64) by (nonlinear_arith)
        requires
            tr < 3600000,
            sc <= 10000,
    ;
    let a1: u64 = x * 4011 / 1000 + tr * 516 * sc / 1000000;
    let a2: u64 = y * 2865 / 1000 + tr * 315 * sc / 1000000;
    let a3: u64 = (x + y) * 5443 / 1000 + tr * 201 * sc / 1000000;
    let vn: u64 = ((wave1000(a1) + wave1000(a2) + wave1000(a3)) as u64) / 6;
    let hue: u32 = ((vn * 3 + tr / 4) % 3600) as u32;
    let d: u64 = if vn >= 500 {
        vn - 500
    } else {
        500 - vn
    };
    let sat0: u64 = 550 + d * 900 / 1000;
    let sat: u32 = if sat0 > 1000 {
        1000
    } else {
        sat0 as u32
    };
    let breath: u64 = 920 + (wave1000(tr * 344 / 1000) as u64) * 50 / 1000;
    assert((300 + vn * 700 / 1000) * breath <= 1020000000u64) by (nonlinear_arith)
        requires
            vn <= 1000,
            breath <= 1020,
    ;
    let v0: u64 = (300 + vn * 700 / 1000) * breath / 1000;
    let val: u32 = if v0 > 1000 {
        1000
    } else {
        v0 as u32
    };
    hsv_to_rgb(hue, sat, val)
}

} // verus!
