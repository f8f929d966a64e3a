//! Pulse-rings style: concentric rings expand from a slowly drifting
//! center.  The radial distance, minus the expansion offset, is divided
//! into ring periods; the position within a period forms a symmetric
//! bell-shaped thickness envelope, and older (inner) rings fade linearly
//! with their age.  The hue cycles with time plus a small radial term.

use vstd::prelude::*;

use crate::fixed::abs_diff_spec;
use crate::fixed::gauss1000;
use crate::fixed::gauss1000_spec;
use crate::fixed::isqrt64;
use crate::fixed::sqrt_int;
use crate::fixed::wave1000;
use crate::fixed::wave1000_spec;
use crate::styles::hsv_to_rgb;
use crate::styles::hsv_to_rgb_spec;

verus! {

/// Ring thickness envelope in thousandths from the position inside one
/// ring period (`frac`, per-mille): maximal at the ring's center line,
/// falling off toward both edges.
pub open spec fn ring_envelope(frac: int) -> int {
    let centered = abs_diff_spec(frac, 500) * 2;
    let z = centered * centered * 10 / 3025;
    if z > 2000000 {
        0int
    } else {
        gauss1000_spec(z)
    }
}

fn ring_envelope_exec(frac: u64) -> (e: u64)
    requires
        frac <= 1000,
    ensures
        e == ring_envelope(frac as int),
        e <= 1000,
{
    let centered: u64 = (if frac >= 500 {
        frac - 500
    } else {
        500 - frac
    }) * 2;
    assert(centered * centered <= 1000000) by (nonlinear_arith)
        requires
            centered <= 1000,
    ;
    let z: u64 = centered * centered * 10 / 3025;
    if z > 2000000 {
        0
    } else {
        gauss1000(z)
    }
}

/// The drifting ring center, in milli-cells, as `(cx, cy)`.
pub open spec fn ring_center(ta: int, w: int, h: int) -> (int, int) {
    let cx = 320 * w + wave1000_spec(ta * 201 / 1000) * 180 * w / 1000000 * 1000;
    let cy = 280 * h + wave1000_spec(ta * 155 / 1000 + 745) * 220 * h / 1000000 * 1000;
    (cx, cy)
}

/// Ring intensity in thousandths at a radial distance (milli-cells) and
/// scaled time: the thickness envelope at the position inside the ring
/// period, faded linearly by the ring's age.
pub open spec fn ring_intensity(dist: int, ta: int) -> int {
    let base = dist + 910000000 - ta * 24 % 910000000;
    let phase = base / 6500;
    let frac = base % 6500 * 1000 / 6500;
    let env = ring_envelope(frac);
    let fade = if phase >= 140000 {
        let age = phase - 140000;
        if age * 60 / 1000 >= 1000 {
            0int
        } else {
            1000 - age * 60 / 1000
        }
    } else {
        1000int
    };
    env * fade / 1000
}

fn ring_intensity_exec(dist: u64, ta: u64) -> (inten: u64)
    requires
        ta <= 36000000,
        dist <= 4294967295,
    ensures
        inten == ring_intensity(dist as int, ta as int),
        inten <= 1000,
{
    let expand: u64 = ta * 24 % 910000000;
    let base: u64 = dist + 910000000 - expand;
    let phase: u64 = base / 6500;
    let frac: u64 = base % 6500 * 1000 / 6500;
    let env: u64 = ring_envelope_exec(frac);
    let fade: u64 = if phase >= 140000 {
        let age: u64 = phase - 140000;
        if age * 60 / 1000 >= 1000 {
            0
        } else {
            1000 - age * 60 / 1000
        }
    } else {
        1000
    };
    assert(env * fade <= 1000000) by (nonlinear_arith)
        requires
            env <= 1000,
            fade <= 1000,
    ;
    env * fade / 1000
}

/// Pulse-rings cell color; `(0, 0, 0)` on a degenerate terminal and on
/// cells where no ring contributes noticeable intensity.
pub open spec fn pulse_rings_color_spec(t: int, row: int, col: int, w: int, h: int, speed: int) -> (
    int,
    int,
    int,
) {
    if w == 0 || h == 0 {
        (0int, 0int, 0int)
    } else {
        let tr = t % 3600000;
        let sc = if speed < 50 {
            50int
        } else if speed > 10000 {
            10000int
        } else {
            speed
        };
        let ta = tr * sc / 1000;
        let c = ring_center(ta, w, h);
        let dx = abs_diff_spec(col * 1000 + 500, c.0);
        let dy = abs_diff_spec(row * 1000 + 400, c.1);
        let dist = sqrt_int(dx * dx + dy * dy);
        let inten = ring_intensity(dist, ta);
        if inten < 10 {
            (0int, 0int, 0int)
        } else {
            let hue = (ta / 2 + dist * 13 / 1000) % 3600;
            let sat0 = 550 + inten * 350 / 1000;
            let sat = if sat0 > 950 {
                950int
            } else {
                sat0
            };
            let br = 840 + wave1000_spec(ta * 458 / 1000) * 80 / 1000;
            let v0 = (150 + inten * 950 / 1000) * br / 1000;
            let val = if v0 > 1000 {
                1000int
            } else {
                v0
            };
            hsv_to_rgb_spec(hue, sat, val)
        }
    }
}

/// Pulse-rings color of one cell.  A degenerate terminal (zero width or
/// height) yields black instead of dividing by zero.
#[verifier::rlimit(100)]
#[verifier::spinoff_prover]
pub fn calculate_pulse_rings_color_at(
    time_ms: u64,
    row: usize,
    col: usize,
    term_w: usize,
    term_h: usize,
    speed_milli: u32,
) -> (rgb: (u8, u8, u8))
    requires
        row <= 65535,
        col <= 65535,
        term_w <= 65535,
        term_h <= 65535,
    ensures
        (rgb.0 as int, rgb.1 as int, rgb.2 as int) == pulse_rings_color_spec(
            time_ms as int,
            row as int,
            col as int,
            term_w as int,
            term_h as int,
            speed_milli as int,
        ),
{
    if term_w == 0 || term_h == 0 {
        return (0, 0, 0);
    }
    let tr: u64 = time_ms % 3600000;
    let sc: u64 = if speed_milli < 50 {
        50
    } else if speed_milli > 10000 {
        10000
    } else {
        speed_milli as u64
    };
    assert(tr * sc <= 36000000000u64) by (nonlinear_arith)
        requires
            tr < 3600000,
            sc <= 10000,
    ;
    let ta: u64 = tr * sc / 1000;
    let wv1: u64 = wave1000(ta * 201 / 1000) as u64;
    let wv2: u64 = wave1000(ta * 155 / 1000 + 745) as u64;
    assert(wv1 * 180 * (term_w as u64) <= 23592600000u64) by (nonlinear_arith)
        requires
            wv1 <= 2000,
            term_w <= 65535,
    ;
    assert(wv2 * 220 * (term_h as u64) <= 28835400000u64) by (nonlinear_arith)
        requires
            wv2 <= 2000,
            term_h <= 65535,
    ;
    let cx: u64 = 320 * (term_w as u64) + wv1 * 180 * (term_w as u64) / 1000000 * 1000;
    let cy: u64 = 280 * (term_h as u64) + wv2 * 220 * (term_h as u64) / 1000000 * 1000;
    let xm: u64 = (col as u64) * 1000 + 500;
    let ym: u64 = (row as u64) * 1000 + 400;
    let dx: u64 = if xm >= cx {
        xm - cx
    } else {
        cx - xm
    };
    let dy: u64 = if ym >= cy {
        ym - cy
    } else {
        cy - ym
    };
    assert(dx * dx <= 10000000000000000u64 && dy * dy <= 10000000000000000u64) by (
        nonlinear_arith
    )
        requires
            dx <= 100000000,
            dy <= 100000000,
    ;
    let dist: u64 = isqrt64(dx * dx + dy * dy);
    proof {
        crate::fixed::lemma_sqrt_int_unique(dx as int * dx as int + dy as int * dy as int, dist as int);
    }
    let inten: u64 = ring_intensity_exec(dist, ta);
    if inten < 10 {
        return (0, 0, 0);
    }
    let hue: u64 = (ta / 2 + dist * 13 / 1000) % 3600;
    let sat0: u64 = 550 + inten * 350 / 1000;
    let sat: u32 = if sat0 > 950 {
        950
    } else {
        sat0 as u32
    };
    let br: u64 = 840 + (wave1000(ta * 458 / 1000) as u64) * 80 / 1000;
    assert((150 + inten * 950 / 1000) * br <= 1100000000u64) by (nonlinear_arith)
        requires
            inten <= 1000,
            br <= 1000,
    ;
    let v0: u64 = (150 + inten * 950 / 1000) * br / 1000;
    let val: u32 = if v0 > 1000 {
        1000
    } else {
        v0 as u32
    };
    hsv_to_rgb(hue as u32, sat, val)
}

} // verus!
