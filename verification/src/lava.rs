//! Lava style: coordinates are domain-warped by two low-frequency wave
//! pairs and fed into a four-octave product-of-waves fractal sum
//! (amplitude roughly halving, frequency roughly doubling per octave);
//! the normalized result is squared into a "heat" value that drives a
//! red-orange-yellow palette, whitening the hottest pockets, with a slow
//! global flicker on the value.

use vstd::prelude::*;

use crate::fixed::wave1000;
use crate::fixed::wave1000_spec;
use crate::styles::hsv_to_rgb;
use crate::styles::hsv_to_rgb_spec;

verus! {

/// One octave's contribution, shifted to `0..=2000`: the product of two
/// waves (each `0..=2000`) recentered so the mean sits at 1000.
pub open spec fn lava_octave_spec(wa: int, wb: int) -> int {
    (wa * wb + 2000000 - 1000 * wa - 1000 * wb) / 1000
}

fn lava_octave(wa: u32, wb: u32) -> (p: u64)
    requires
        wa <= 2000,
        wb <= 2000,
    ensures
        p == lava_octave_spec(wa as int, wb as int),
        p <= 2000,
{
    assert(wa as int * wb as int + 2000000 >= 1000 * wa + 1000 * wb) by (nonlinear_arith)
        requires
            wa <= 2000,
            wb <= 2000,
    ;
    assert(wa as int * wb as int <= 4000000) by (nonlinear_arith)
        requires
            wa <= 2000,
            wb <= 2000,
    ;
    assert(wa as int * wb as int + 2000000 - 1000 * wa - 1000 * wb <= 2000000) by (nonlinear_arith)
        requires
            wa <= 2000,
            wb <= 2000,
    ;
    let num: u64 = (wa as u64) * (wb as u64) + 2000000 - 1000 * (wa as u64) - 1000 * (wb as u64);
    num / 1000
}

/// Normalized fractal field in thousandths, built from four octaves over
/// the warped coordinates.
#[verifier::opaque]
pub open spec fn lava_field(t: int, row: int, col: int, w: int, h: int, speed: int) -> int {
    let tr = t % 3600000;
    let sc = if speed < 50 {
        50int
    } else if speed > 10000 {
        10000int
    } else {
        speed
    };
    let tl = tr * sc / 1000;
    let x = col * 1000 / w;
    let y = row * 1000 / h;
    let nx = x + (wave1000_spec(x * 3610 / 1000 + tl * 381 / 1000) + wave1000_spec(
        y * 4068 / 1000 + tl * 261 / 1000,
    )) * 150 / 1000;
    let ny = y + (wave1000_spec(x * 2407 / 1000 + tl * 160 / 1000) + wave1000_spec(
        y * 3266 / 1000 + tl * 321 / 1000,
    )) * 120 / 1000;
    let p1 = lava_octave_spec(
        wave1000_spec(nx * 2005 / 1000 + tl * 241 / 1000),
        wave1000_spec(ny * 2005 / 1000 + 900 + tl * 181 / 1000),
    );
    let p2 = lava_octave_spec(
        wave1000_spec(nx * 3810 / 1000 + tl * 241 / 1000),
        wave1000_spec(ny * 3810 / 1000 + 900 + tl * 181 / 1000),
    );
    let p3 = lava_octave_spec(
        wave1000_spec(nx * 7243 / 1000 + tl * 241 / 1000),
        wave1000_spec(ny * 7243 / 1000 + 900 + tl * 181 / 1000),
    );
    let p4 = lava_octave_spec(
        wave1000_spec(nx * 13762 / 1000 + tl * 241 / 1000),
        wave1000_spec(ny * 13762 / 1000 + 900 + tl * 181 / 1000),
    );
    let vs = (600 * p1 + 330 * p2 + 182 * p3 + 100 * p4) / 1000;
    let c = if vs / 2 < 106 {
        106int
    } else if vs / 2 > 1106 {
        1106int
    } else {
        vs / 2
    };
    c - 106
}

/// Lava cell color; `(0, 0, 0)` on a degenerate terminal.
pub open spec fn lava_color_spec(t: int, row: int, col: int, w: int, h: int, speed: int) -> (
    int,
    int,
    int,
) {
    if w == 0 || h == 0 {
        (0int, 0int, 0int)
    } else {
        let tr = t % 3600000;
        let sc = if speed < 50 {
            50int
        } else if speed > 10000 {
            10000int
        } else {
            speed
        };
        let tl = tr * sc / 1000;
        let x = col * 1000 / w;
        let vn = lava_field(t, row, col, w, h, sc);
        let heat = vn * vn / 1000;
        let hue = 100 + heat * 400 / 1000;
        let sat = 850 - heat * 250 / 1000;
        let fl = 920 + wave1000_spec(tl * 702 / 1000 + x * 5730 / 1000) * 40 / 1000;
        let v0 = (250 + heat * 900 / 1000) * fl / 1000;
        let val = if v0 < 50 {
            50int
        } else if v0 > 1000 {
            1000int
        } else {
            v0
        };
        hsv_to_rgb_spec(hue, sat, val)
    }
}

#[verifier::rlimit(100)]
#[verifier::spinoff_prover]
fn lava_field_exec(
    time_ms: u64,
    row: usize,
    col: usize,
    term_w: usize,
    term_h: usize,
    sc: u64,
) -> (vn: u64)
    requires
        row <= 65535,
        col <= 65535,
        term_w >= 1,
        term_h >= 1,
        50 <= sc <= 10000,
    ensures
        vn == lava_field(time_ms as int, row as int, col as int, term_w as int, term_h as int, sc as int),
        vn <= 1000,
{
    proof {
        reveal(lava_field);
    }
    let tr: u64 = time_ms % 3600000;
    assert(tr * sc <= 36000000000u64) by (nonlinear_arith)
        requires
            tr < 3600000,
            sc <= 10000,
    ;
    let tl: u64 = tr * sc / 1000;
    let x: u64 = (col as u64) * 1000 / (term_w as u64);
    let y: u64 = (row as u64) * 1000 / (term_h as u64);
    let nx: u64 = x + ((wave1000(x * 3610 / 1000 + tl * 381 / 1000) + wave1000(
        y * 4068 / 1000 + tl * 261 / 1000,
    )) as u64) * 150 / 1000;
    let ny: u64 = y + ((wave1000(x * 2407 / 1000 + tl * 160 / 1000) + wave1000(
        y * 3266 / 1000 + tl * 321 / 1000,
    )) as u64) * 120 / 1000;
    let p1: u64 = lava_octave(
        wave1000(nx * 2005 / 1000 + tl * 241 / 1000),
        wave1000(ny * 2005 / 1000 + 900 + tl * 181 / 1000),
    );
    let p2: u64 = lava_octave(
        wave1000(nx * 3810 / 1000 + tl * 241 / 1000),
        wave1000(ny * 3810 / 1000 + 900 + tl * 181 / 1000),
    );
    let p3: u64 = lava_octave(
        wave1000(nx * 7243 / 1000 + tl * 241 / 1000),
        wave1000(ny * 7243 / 1000 + 900 + tl * 181 / 1000),
    );
    let p4: u64 = lava_octave(
        wave1000(nx * 13762 / 1000 + tl * 241 / 1000),
        wave1000(ny * 13762 / 1000 + 900 + tl * 181 / 1000),
    );
    let vs: u64 = (600 * p1 + 330 * p2 + 182 * p3 + 100 * p4) / 1000;
    let c: u64 = if vs / 2 < 106 {
        106
    } else if vs / 2 > 1106 {
        1106
    } else {
        vs / 2
    };
    c - 106
}

/// Lava color of one cell.  A degenerate terminal (zero width or height)
/// yields black instead of dividing by zero.
#[verifier::rlimit(60)]
pub fn calculate_lava_color_at(
    time_ms: u64,
    row: usize,
    col: usize,
    term_w: usize,
    term_h: usize,
    speed_milli: u32,
) -> (rgb: (u8, u8, u8))
    requires
        row <= 65535,
        col <= 65535,
        term_w <= 65535,
        term_h <= 65535,
    ensures
        (rgb.0 as int, rgb.1 as int, rgb.2 as int) == lava_color_spec(
            time_ms as int,
            row as int,
            col as int,
            term_w as int,
            term_h as int,
            speed_milli as int,
        ),
{
    if term_w == 0 || term_h == 0 {
        return (0, 0, 0);
    }
    let sc: u64 = if speed_milli < 50 {
        50
    } else if speed_milli > 10000 {
        10000
    } else {
        speed_milli as u64
    };
    let tr: u64 = time_ms % 3600000;
    assert(tr * sc <= 36000000000u64) by (nonlinear_arith)
        requires
            tr < 3600000,
            sc <= 10000,
    ;
    let tl: u64 = tr * sc / 1000;
    let x: u64 = (col as u64) * 1000 / (term_w as u64);
    let vn: u64 = lava_field_exec(time_ms, row, col, term_w, term_h, sc);
    assert(vn * vn <= 1000000) by (nonlinear_arith)
        requires
            vn <= 1000,
    ;
    let heat: u64 = vn * vn / 1000;
    let hue: u32 = (100 + heat * 400 / 1000) as u32;
    let sat: u32 = (850 - heat * 250 / 1000) as u32;
    let fl: u64 = 920 + (wave1000(tl * 702 / 1000 + x * 5730 / 1000) as u64) * 40 / 1000;
    assert((250 + heat * 900 / 1000) * fl <= 1150000000u64) by (nonlinear_arith)
        requires
            heat <= 1000,
            fl <= 1000,
    ;
    let v0: u64 = (250 + heat * 900 / 1000) * fl / 1000;
    let val: u32 = if v0 < 50 {
        50
    } else if v0 > 1000 {
        1000
    } else {
        v0 as u32
    };
    hsv_to_rgb(hue, sat, val)
}

} // verus!
