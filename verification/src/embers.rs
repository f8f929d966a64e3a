//! Embers: drifting glowing particles over a dim base.  This module maps
//! an ember's intensity and per-particle jitter onto a warm temperature
//! gradient, and colors the dim, slowly breathing background; particle
//! positions themselves are owned by the caller's update loop.

use vstd::prelude::*;

use crate::fixed::wave1000;
use crate::fixed::wave1000_spec;
use crate::styles::hsv_to_rgb;
use crate::styles::hsv_to_rgb_spec;

verus! {

/// Ember color from its base hue (tenth-degrees), intensity and jitter
/// (both in thousandths): hotter embers are more saturated and brighter,
/// and the hue shifts slightly with the jitter and with cooling.
pub open spec fn ember_color_spec(hue_base: int, intensity: int, jitter: int) -> (int, int, int) {
    let i = if intensity > 1000 {
        1000int
    } else {
        intensity
    };
    let j = if jitter > 1000 {
        1000int
    } else {
        jitter
    };
    let hue = (hue_base + j * 250 / 1000 + (1000 - i) * 100 / 1000) % 3600;
    let sat0 = 700 + i * 250 / 1000;
    let sat = if sat0 > 1000 {
        1000int
    } else {
        sat0
    };
    let val0 = 150 + i * 850 / 1000;
    let val = if val0 > 1000 {
        1000int
    } else {
        val0
    };
    hsv_to_rgb_spec(hue, sat, val)
}

/// Map an ember's intensity and jitter onto the warm temperature
/// gradient.
pub fn ember_color(hue_base: u32, intensity: u32, jitter: u32) -> (rgb: (u8, u8, u8))
    requires
        hue_base < 3600,
    ensures
        (rgb.0 as int, rgb.1 as int, rgb.2 as int) == ember_color_spec(
            hue_base as int,
            intensity as int,
            jitter as int,
        ),
{
    let i: u32 = if intensity > 1000 {
        1000
    } else {
        intensity
    };
    let j: u32 = if jitter > 1000 {
        1000
    } else {
        jitter
    };
    let hue: u32 = (hue_base + j * 250 / 1000 + (1000 - i) * 100 / 1000) % 3600;
    let sat0: u32 = 700 + i * 250 / 1000;
    let sat: u32 = if sat0 > 1000 {
        1000
    } else {
        sat0
    };
    let val0: u32 = 150 + i * 850 / 1000;
    let val: u32 = if val0 > 1000 {
        1000
    } else {
        val0
    };
    hsv_to_rgb(hue, sat, val)
}

/// The dim background glow behind the embers: a slow hue drift with a
/// faint breathing of the value.
pub open spec fn embers_base_color_spec(t: int) -> (int, int, int) {
    let tr = t % 3600000;
    let hue = (tr * 8 / 100) % 3600;
    let val = 80 + wave1000_spec(tr * 287 / 1000) * 20 / 1000;
    hsv_to_rgb_spec(hue, 180, val)
}

/// Background glow color for the embers style.
pub fn calculate_embers_color_at(time_ms: u64, _row: usize, _col: usize) -> (rgb: (u8, u8, u8))
    ensures
        (rgb.0 as int, rgb.1 as int, rgb.2 as int) == embers_base_color_spec(time_ms as int),
{
    let tr: u64 = time_ms % 3600000;
    let hue: u32 = ((tr * 8 / 100) % 3600) as u32;
    let val: u32 = (80 + (wave1000(tr * 287 / 1000) as u64) * 20 / 1000) as u32;
    hsv_to_rgb(hue, 180, val)
}

} // verus!
