//! Kaleidoscope style: the angle from the screen center is folded into
//! one of eight angular sectors, mirrored around each sector's center
//! line; the normalized angle combines with radial petal and shell waves
//! into hue, saturation and value, with a hard cut to black outside a
//! circular radius.

use vstd::prelude::*;

use crate::fixed::abs_diff_spec;
use crate::fixed::isqrt64;
use crate::fixed::lemma_sqrt_int_unique;
use crate::fixed::sqrt_int;
use crate::fixed::wave1000;
use crate::fixed::wave1000_spec;
use crate::styles::hsv_to_rgb;
use crate::styles::hsv_to_rgb_spec;

verus! {

/// Linear octant arctangent: maps a ratio in thousandths (0..=1000) to
/// an angle in tenth-degrees (0..=450).
pub open spec fn atan_octant(ratio: int) -> int {
    ratio * 450 / 1000
}

/// Angle of the vector `(±ax, ±ay)` (magnitudes with sign flags) from
/// the positive horizontal axis, in tenth-degrees `0..3600`, built from
/// the octant arctangent.
pub open spec fn angle_of(ax: int, ay: int, xneg: bool, yneg: bool) -> int {
    let base = if ax == 0 && ay == 0 {
        0int
    } else if ay <= ax {
        atan_octant(ay * 1000 / ax)
    } else {
        900 - atan_octant(ax * 1000 / ay)
    };
    if !xneg && !yneg {
        base
    } else if xneg && !yneg {
        1800 - base
    } else if xneg && yneg {
        1800 + base
    } else {
        (3600 - base) % 3600
    }
}

fn angle_of_exec(ax: u64, ay: u64, xneg: bool, yneg: bool) -> (ang: u64)
    requires
        ax <= 150000000,
        ay <= 150000000,
    ensures
        ang == angle_of(ax as int, ay as int, xneg, yneg),
        ang < 3600,
{
    let base: u64 = if ax == 0 && ay == 0 {
        0
    } else if ay <= ax {
        assert(ay as int * 1000 / ax as int <= 1000) by (nonlinear_arith)
            requires
                ay <= ax,
                ax >= 1,
        ;
        ay * 1000 / ax * 450 / 1000
    } else {
        assert(ax as int * 1000 / ay as int <= 1000) by (nonlinear_arith)
            requires
                ax < ay,
                ay >= 1,
        ;
        900 - ax * 1000 / ay * 450 / 1000
    };
    if !xneg && !yneg {
        base
    } else if xneg && !yneg {
        1800 - base
    } else if xneg && yneg {
        1800 + base
    } else {
        (3600 - base) % 3600
    }
}

/// Shade of a cell inside the circular cut, from the scaled time, the
/// radial distance (per-mille of half-size) and the angle from center.
pub open spec fn kaleidoscope_hsv(tk: int, r: int, ang: int) -> (int, int, int) {
    let folded0 = ang % 450;
    let folded = if folded0 > 225 {
        450 - folded0
    } else {
        folded0
    };
    let na = folded * 1000 / 225;
    let cl = (1000 - na) * (1000 - na) / 1000;
    let el = na * na / 1000 * na / 1000;
    let petals = wave1000_spec(r * 5501 / 1000 + tk * 1719 / 1000) / 2;
    let shell = wave1000_spec(r * 5443 / 1000 + tk * 2579 / 1000) / 2;
    let hue = ((tk * 400 / 1000) % 3600 + na * 1600 / 1000 + petals * 1200 / 1000 + shell * 900
        / 1000) % 3600;
    let sat_radius = if r * 800 / 1000 > 1000 {
        0int
    } else {
        1000 - r * 800 / 1000
    };
    let sat0 = 350 + (petals * 400 / 1000 + cl * 500 / 1000) * sat_radius / 1000000 * 1000;
    let sat = if sat0 > 950 {
        950int
    } else {
        sat0
    };
    let q = r * 909 / 1000;
    let fe = if q * q / 1000 >= 1000 {
        0int
    } else {
        1000 - q * q / 1000
    };
    let core = cl * 700 / 1000 + petals * 500 / 1000 + shell * 400 / 1000 + el * 250 / 1000;
    let v0 = (100 + core * 900 / 1000) * fe / 1000;
    let val = if v0 < 50 {
        50int
    } else if v0 > 1000 {
        1000int
    } else {
        v0
    };
    (hue, sat, val)
}

/// Full shade: the hue/saturation/value triple through the color model.
pub open spec fn kaleidoscope_shade(tk: int, r: int, ang: int) -> (int, int, int) {
    let hsv = kaleidoscope_hsv(tk, r, ang);
    hsv_to_rgb_spec(hsv.0, hsv.1, hsv.2)
}

#[verifier::rlimit(100)]
#[verifier::spinoff_prover]
fn kaleidoscope_hsv_exec(tk: u64, r: u64, ang: u64) -> (hsv: (u32, u32, u32))
    requires
        tk <= 36000000,
        r <= 1250,
        ang < 3600,
    ensures
        (hsv.0 as int, hsv.1 as int, hsv.2 as int) == kaleidoscope_hsv(tk as int, r as int, ang as int),
        hsv.0 < 3600,
        hsv.1 <= 1000,
        hsv.2 <= 1000,
{
    let folded0: u64 = ang % 450;
    let folded: u64 = if folded0 > 225 {
        450 - folded0
    } else {
        folded0
    };
    let na: u64 = folded * 1000 / 225;
    assert((1000 - na) * (1000 - na) <= 1000000 && na * na <= 1000000) by (nonlinear_arith)
        requires
            na <= 1000,
    ;
    let cl: u64 = (1000 - na) * (1000 - na) / 1000;
    assert(na * na / 1000 * na <= 1000000u64) by (nonlinear_arith)
        requires
            na <= 1000,
    ;
    let el: u64 = na * na / 1000 * na / 1000;
    let petals: u64 = (wave1000(r * 5501 / 1000 + tk * 1719 / 1000) / 2) as u64;
    let shell: u64 = (wave1000(r * 5443 / 1000 + tk * 2579 / 1000) / 2) as u64;
    let hue: u64 = ((tk * 400 / 1000) % 3600 + na * 1600 / 1000 + petals * 1200 / 1000 + shell
        * 900 / 1000) % 3600;
    let sat_radius: u64 = if r * 800 / 1000 > 1000 {
        0
    } else {
        1000 - r * 800 / 1000
    };
    assert((petals * 400 / 1000 + cl * 500 / 1000) * sat_radius <= 900000000u64) by (
        nonlinear_arith
    )
        requires
            petals <= 1000,
            cl <= 1000,
            sat_radius <= 1000,
    ;
    let sat0: u64 = 350 + (petals * 400 / 1000 + cl * 500 / 1000) * sat_radius / 1000000 * 1000;
    let sat: u32 = if sat0 > 950 {
        950
    } else {
        sat0 as u32
    };
    let q: u64 = r * 909 / 1000;
    assert(q * q <= 2000000) by (nonlinear_arith)
        requires
            q <= 1250,
    ;
    let fe: u64 = if q * q / 1000 >= 1000 {
        0
    } else {
        1000 - q * q / 1000
    };
    let core: u64 = cl * 700 / 1000 + petals * 500 / 1000 + shell * 400 / 1000 + el * 250 / 1000;
    assert((100 + core * 900 / 1000) * fe <= 1765000000u64) by (nonlinear_arith)
        requires
            core <= 1850,
            fe <= 1000,
    ;
    let v0: u64 = (100 + core * 900 / 1000) * fe / 1000;
    let val: u32 = if v0 < 50 {
        50
    } else if v0 > 1000 {
        1000
    } else {
        v0 as u32
    };
    (hue as u32, sat, val)
}

fn kaleidoscope_shade_exec(tk: u64, r: u64, ang: u64) -> (rgb: (u8, u8, u8))
    requires
        tk <= 36000000,
        r <= 1250,
        ang < 3600,
    ensures
        (rgb.0 as int, rgb.1 as int, rgb.2 as int) == kaleidoscope_shade(
            tk as int,
            r as int,
            ang as int,
        ),
{
    let (hue, sat, val) = kaleidoscope_hsv_exec(tk, r, ang);
    hsv_to_rgb(hue, sat, val)
}

/// Kaleidoscope cell color; black on a degenerate terminal and outside
/// the circular cut.
pub open spec fn kaleidoscope_color_spec(t: int, row: int, col: int, w: int, h: int, speed: int) -> (
    int,
    int,
    int,
) {
    if w == 0 || h == 0 {
        (0int, 0int, 0int)
    } else {
        let tr = t % 3600000;
        let sc = if speed < 50 {
            50int
        } else if speed > 10000 {
            10000int
        } else {
            speed
        };
        let tk = tr * sc / 1000;
        let xm = col * 1000 + 500;
        let cx = w * 500;
        let ym = row * 1000 + 200;
        let cy = h * 500;
        let ax = abs_diff_spec(xm, cx) * 2 / w;
        let ay = abs_diff_spec(ym, cy) * 2 / h;
        let r = sqrt_int(ax * ax + ay * ay);
        if r > 1250 {
            (0int, 0int, 0int)
        } else {
            kaleidoscope_shade(tk, r, angle_of(ax, ay, xm < cx, ym < cy))
        }
    }
}

/// Kaleidoscope color of one cell.  A degenerate terminal (zero width or
/// height) yields black instead of dividing by zero.
#[verifier::rlimit(100)]
#[verifier::spinoff_prover]
pub fn calculate_kaleidoscope_color_at(
    time_ms: u64,
    row: usize,
    col: usize,
    term_w: usize,
    term_h: usize,
    speed_milli: u32,
) -> (rgb: (u8, u8, u8))
    requires
        row <= 65535,
        col <= 65535,
        term_w <= 65535,
        term_h <= 65535,
    ensures
        (rgb.0 as int, rgb.1 as int, rgb.2 as int) == kaleidoscope_color_spec(
            time_ms as int,
            row as int,
            col as int,
            term_w as int,
            term_h as int,
            speed_milli as int,
        ),
{
    if term_w == 0 || term_h == 0 {
        return (0, 0, 0);
    }
    let tr: u64 = time_ms % 3600000;
    let sc: u64 = if speed_milli < 50 {
        50
    } else if speed_milli > 10000 {
        10000
    } else {
        speed_milli as u64
    };
    assert(tr * sc <= 36000000000u64) by (nonlinear_arith)
        requires
            tr < 3600000,
            sc <= 10000,
    ;
    let tk: u64 = tr * sc / 1000;
    let xm: u64 = (col as u64) * 1000 + 500;
    let cx: u64 = (term_w as u64) * 500;
    let ym: u64 = (row as u64) * 1000 + 200;
    let cy: u64 = (term_h as u64) * 500;
    let adx: u64 = if xm >= cx {
        xm - cx
    } else {
        cx - xm
    };
    let ady: u64 = if ym >= cy {
        ym - cy
    } else {
        cy - ym
    };
    let ax: u64 = adx * 2 / (term_w as u64);
    let ay: u64 = ady * 2 / (term_h as u64);
    assert(ax <= 150000000 && ay <= 150000000) by (nonlinear_arith)
        requires
            adx <= 65536000,
            ady <= 65536000,
            term_w >= 1,
            term_h >= 1,
            ax == adx as int * 2 / (term_w as int),
            ay == ady as int * 2 / (term_h as int),
    ;
    assert(ax * ax <= 22500000000000000u64 && ay * ay <= 22500000000000000u64) by (
        nonlinear_arith
    )
        requires
            ax <= 150000000,
            ay <= 150000000,
    ;
    let r: u64 = isqrt64(ax * ax + ay * ay);
    proof {
        lemma_sqrt_int_unique(ax as int * ax as int + ay as int * ay as int, r as int);
    }
    if r > 1250 {
        return (0, 0, 0);
    }
    let ang: u64 = angle_of_exec(ax, ay, xm < cx, ym < cy);
    kaleidoscope_shade_exec(tk, r, ang)
}

} // verus!
