//! Aurora style: three band centers drift along the row on independent
//! low-frequency waves; each contributes a bell-shaped falloff in the
//! normalized column, modulated by its own vertical undulation wave.  The
//! combined intensity is height-weighted (fainter toward the bottom) and
//! mapped to a teal-biased hue range with slow global hue drift and
//! breathing.

use vstd::prelude::*;

use crate::fixed::abs_diff_spec;
use crate::fixed::gauss1000;
use crate::fixed::gauss1000_spec;
use crate::fixed::wave1000;
use crate::fixed::wave1000_spec;
use crate::styles::hsv_to_rgb;
use crate::styles::hsv_to_rgb_spec;

verus! {

/// Bell-shaped band falloff in thousandths from the distance between the
/// normalized column and a band center (both per-mille): the falloff
/// argument grows with the square of the distance, and far distances cut
/// off to zero.
pub open spec fn aurora_band(d: int) -> int {
    let z = d * d * 10 / 968;
    if z > 2000000 {
        0int
    } else {
        gauss1000_spec(z)
    }
}

fn aurora_band_exec(d: u64) -> (b: u64)
    requires
        d <= 70000000,
    ensures
        b == aurora_band(d as int),
        b <= 1000,
{
    assert(d * d <= 4900000000000000u64) by (nonlinear_arith)
        requires
            d <= 70000000,
    ;
    let z: u64 = d * d * 10 / 968;
    if z > 2000000 {
        0
    } else {
        gauss1000(z)
    }
}

/// The three band mixes (band falloff times undulation, each in
/// thousandths) and the combined height-weighted level, as one tuple
/// `(m1, m2, m3, level)`.
#[verifier::opaque]
pub open spec fn aurora_mix(t: int, row: int, col: int, w: int, h: int, speed: int) -> (
    int,
    int,
    int,
    int,
) {
    let tr = t % 3600000;
    let sc = if speed < 50 {
        50int
    } else if speed > 10000 {
        10000int
    } else {
        speed
    };
    let ta = tr * sc / 4000;
    let x = col * 1000 / w;
    let y = row * 1000 / h;
    let c1 = (wave1000_spec(ta * 97 / 1000) / 2) * 1100 / 1000;
    let c2 = wave1000_spec(ta * 63 / 1000 + 974) / 2 + 50;
    let c3 = wave1000_spec(ta * 40 / 1000 + 1776) / 2 + 50;
    let b1 = aurora_band(abs_diff_spec(x + 50, c1));
    let b2 = aurora_band(abs_diff_spec(x + 50, c2));
    let b3 = aurora_band(abs_diff_spec(x + 50, c3));
    let u1 = wave1000_spec(x * 4584 / 1000 + ta * 1719 / 1000) / 2;
    let u2 = wave1000_spec(x * 3151 / 1000 + ta * 1261 / 1000) / 2;
    let u3 = wave1000_spec(x * 3725 / 1000 + ta * 974 / 1000) / 2;
    let m1 = b1 * u1 / 1000;
    let m2 = b2 * u2 / 1000;
    let m3 = b3 * u3 / 1000;
    let sg = y * 900 / 1000 + 100;
    let sgc = if sg > 1000 {
        1000int
    } else {
        sg
    };
    let i0 = (m1 + m2 * 900 / 1000 + m3 * 1100 / 1000) * 900 / 1000;
    let i1 = i0 * sgc / 1000;
    let i2 = if i1 * 1250 / 1000 > 1200 {
        1200int
    } else {
        i1 * 1250 / 1000
    };
    let i3 = if (i2 * 850 + 150000) / 1000 > 1000 {
        1000int
    } else {
        (i2 * 850 + 150000) / 1000
    };
    (m1, m2, m3, i3)
}

#[verifier::rlimit(100)]
#[verifier::spinoff_prover]
fn aurora_mix_exec(time_ms: u64, row: usize, col: usize, term_w: usize, term_h: usize, sc: u64) -> (m: (
    u64,
    u64,
    u64,
    u64,
))
    requires
        row <= 65535,
        col <= 65535,
        term_w >= 1,
        term_h >= 1,
        50 <= sc <= 10000,
    ensures
        (m.0 as int, m.1 as int, m.2 as int, m.3 as int) == aurora_mix(
            time_ms as int,
            row as int,
            col as int,
            term_w as int,
            term_h as int,
            sc as int,
        ),
        m.0 <= 1000,
        m.1 <= 1000,
        m.2 <= 1000,
        m.3 <= 1000,
{
    proof {
        reveal(aurora_mix);
    }
    let tr: u64 = time_ms % 3600000;
    assert(tr * sc <= 36000000000u64) by (nonlinear_arith)
        requires
            tr < 3600000,
            sc <= 10000,
    ;
    let ta: u64 = tr * sc / 4000;
    let x: u64 = (col as u64) * 1000 / (term_w as u64);
    let y: u64 = (row as u64) * 1000 / (term_h as u64);
    let c1: u64 = ((wave1000(ta * 97 / 1000) / 2) as u64) * 1100 / 1000;
    let c2: u64 = (wave1000(ta * 63 / 1000 + 974) / 2 + 50) as u64;
    let c3: u64 = (wave1000(ta * 40 / 1000 + 1776) / 2 + 50) as u64;
    let d1: u64 = if x + 50 >= c1 {
        x + 50 - c1
    } else {
        c1 - (x + 50)
    };
    let d2: u64 = if x + 50 >= c2 {
        x + 50 - c2
    } else {
        c2 - (x + 50)
    };
    let d3: u64 = if x + 50 >= c3 {
        x + 50 - c3
    } else {
        c3 - (x + 50)
    };
    let b1: u64 = aurora_band_exec(d1);
    let b2: u64 = aurora_band_exec(d2);
    let b3: u64 = aurora_band_exec(d3);
    let u1: u64 = (wave1000(x * 4584 / 1000 + ta * 1719 / 1000) / 2) as u64;
    let u2: u64 = (wave1000(x * 3151 / 1000 + ta * 1261 / 1000) / 2) as u64;
    let u3: u64 = (wave1000(x * 3725 / 1000 + ta * 974 / 1000) / 2) as u64;
    assert(b1 * u1 <= 1000000 && b2 * u2 <= 1000000 && b3 * u3 <= 1000000) by (nonlinear_arith)
        requires
            b1 <= 1000,
            b2 <= 1000,
            b3 <= 1000,
            u1 <= 1000,
            u2 <= 1000,
            u3 <= 1000,
    ;
    let m1: u64 = b1 * u1 / 1000;
    let m2: u64 = b2 * u2 / 1000;
    let m3: u64 = b3 * u3 / 1000;
    let sg: u64 = y * 900 / 1000 + 100;
    let sgc: u64 = if sg > 1000 {
        1000
    } else {
        sg
    };
    let i0: u64 = (m1 + m2 * 900 / 1000 + m3 * 1100 / 1000) * 900 / 1000;
    assert(i0 * sgc <= 2700000000u64) by (nonlinear_arith)
        requires
            i0 <= 2700,
            sgc <= 1000,
    ;
    let i1: u64 = i0 * sgc / 1000;
    let i2: u64 = if i1 * 1250 / 1000 > 1200 {
        1200
    } else {
        i1 * 1250 / 1000
    };
    let i3: u64 = if (i2 * 850 + 150000) / 1000 > 1000 {
        1000
    } else {
        (i2 * 850 + 150000) / 1000
    };
    (m1, m2, m3, i3)
}

/// Aurora cell color; `(0, 0, 0)` on a degenerate terminal.
pub open spec fn aurora_color_spec(t: int, row: int, col: int, w: int, h: int, speed: int) -> (
    int,
    int,
    int,
) {
    if w == 0 || h == 0 {
        (0int, 0int, 0int)
    } else {
        let tr = t % 3600000;
        let sc = if speed < 50 {
            50int
        } else if speed > 10000 {
            10000int
        } else {
            speed
        };
        let ta = tr * sc / 4000;
        let mix = aurora_mix(t, row, col, w, h, sc);
        let hue = (1700 + mix.0 * 250 / 1000 + mix.1 * 600 / 1000 + 3600 - mix.2 * 300 / 1000 + (ta
            * 150 / 1000) % 3600) % 3600;
        let sat0 = 350 + mix.3 * 550 / 1000;
        let sat = if sat0 > 820 {
            820int
        } else {
            sat0
        };
        let br = 840 + wave1000_spec(ta * 458 / 1000) * 80 / 1000;
        let v0 = mix.3 * br / 1000;
        let val = if v0 < 50 {
            50int
        } else if v0 > 1000 {
            1000int
        } else {
            v0
        };
        hsv_to_rgb_spec(hue, sat, val)
    }
}

/// Aurora color of one cell.  A degenerate terminal (zero width or
/// height) yields black instead of dividing by zero.
#[verifier::rlimit(60)]
pub fn calculate_aurora_color_at(
    time_ms: u64,
    row: usize,
    col: usize,
    term_w: usize,
    term_h: usize,
    speed_milli: u32,
) -> (rgb: (u8, u8, u8))
    requires
        row <= 65535,
        col <= 65535,
        term_w <= 65535,
        term_h <= 65535,
    ensures
        (rgb.0 as int, rgb.1 as int, rgb.2 as int) == aurora_color_spec(
            time_ms as int,
            row as int,
            col as int,
            term_w as int,
            term_h as int,
            speed_milli as int,
        ),
{
    if term_w == 0 || term_h == 0 {
        return (0, 0, 0);
    }
    let sc: u64 = if speed_milli < 50 {
        50
    } else if speed_milli > 10000 {
        10000
    } else {
        speed_milli as u64
    };
    let tr: u64 = time_ms % 3600000;
    assert(tr * sc <= 36000000000u64) by (nonlinear_arith)
        requires
            tr < 3600000,
            sc <= 10000,
    ;
    let ta: u64 = tr * sc / 4000;
    let (m1, m2, m3, lvl) = aurora_mix_exec(time_ms, row, col, term_w, term_h, sc);
    let hue: u64 = (1700 + m1 * 250 / 1000 + m2 * 600 / 1000 + 3600 - m3 * 300 / 1000 + (ta * 150
        / 1000) % 3600) % 3600;
    let sat0: u64 = 350 + lvl * 550 / 1000;
    let sat: u32 = if sat0 > 820 {
        820
    } else {
        sat0 as u32
    };
    let br: u64 = 840 + (wave1000(ta * 458 / 1000) as u64) * 80 / 1000;
    assert(lvl * br <= 1000000) by (nonlinear_arith)
        requires
            lvl <= 1000,
            br <= 1000,
    ;
    let v0: u64 = lvl * br / 1000;
    let val: u32 = if v0 < 50 {
        50
    } else if v0 > 1000 {
        1000
    } else {
        v0 as u32
    };
    hsv_to_rgb(hue as u32, sat, val)
}

} // verus!
