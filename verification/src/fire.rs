//! Fire style: a vertical gradient biased toward the bottom, rippled by
//! two noise waves whose advance is skewed per column by a deterministic
//! pseudo-wind hash; the intensity selects a point on a three-segment
//! red/orange/yellow-white palette.

use vstd::prelude::*;

use crate::fixed::isqrt64;
use crate::fixed::lemma_sqrt_int_unique;
use crate::fixed::sqrt_int;
use crate::fixed::wave1000;
use crate::fixed::wave1000_spec;

verus! {

/// Per-column wind factor in thousandths (400..=1000), a pure hash of
/// the column index.
pub open spec fn fire_wind(col: int) -> int {
    400 + (col % 3600 * 1103515245 + 12345) % 1001 * 600 / 1000
}

/// Overall flame intensity of a cell, in thousandths.  The vertical
/// gradient term uses the square root of the normalized height from the
/// bottom, so brightness is biased toward the bottom rows.
pub open spec fn fire_intensity(t: int, row: int, col: int, base: int) -> int {
    let tr = t % 3600000;
    let cr = col % 3600;
    let factor = 700 + wave1000_spec(cr * 29) * 200 / 1000;
    let adv = tr * factor * 573 / 1000000;
    let n1 = wave1000_spec(row % 3600 * 103 + adv) / 2;
    let n2 = wave1000_spec(cr * 69 + adv * fire_wind(col) / 1000 + 900) / 2;
    let n = (n1 * 600 + n2 * 400) / 1000;
    250 + 750 * (base * n) / 1000000
}

/// The three-segment palette: deep red through orange to yellow-white as
/// the intensity rises.
pub open spec fn fire_palette(inten: int) -> (int, int, int) {
    if inten < 500 {
        let s = inten * 2;
        (180 + s * 75 / 1000, 20 + s * 60 / 1000, 0int)
    } else if inten < 850 {
        let s = (inten - 500) * 1000 / 350;
        (255int, 80 + s * 120 / 1000, 0int)
    } else {
        let s = (inten - 850) * 1000 / 150;
        (255int, 200 + s * 55 / 1000, s * 180 / 1000)
    }
}

/// Fire color of one cell; a zero-height terminal yields the documented
/// neutral flame color `(255, 80, 0)`.
pub open spec fn fire_color_spec(t: int, row: int, col: int, term_height: int) -> (int, int, int) {
    if term_height == 0 {
        (255int, 80int, 0int)
    } else {
        let hb = if row >= term_height {
            0int
        } else {
            1000 - row * 1000 / term_height
        };
        fire_palette(fire_intensity(t, row, col, sqrt1000(hb)))
    }
}

/// Square root of a fraction in thousandths, again in thousandths
/// (`sqrt1000(x) == isqrt(1000 * x)`).
pub open spec fn sqrt1000(x: int) -> int {
    sqrt_int(1000 * x)
}

fn fire_palette_exec(inten: u64) -> (rgb: (u8, u8, u8))
    requires
        inten <= 1000,
    ensures
        (rgb.0 as int, rgb.1 as int, rgb.2 as int) == fire_palette(inten as int),
{
    if inten < 500 {
        let s: u64 = inten * 2;
        ((180 + s * 75 / 1000) as u8, (20 + s * 60 / 1000) as u8, 0)
    } else if inten < 850 {
        let s: u64 = (inten - 500) * 1000 / 350;
        (255, (80 + s * 120 / 1000) as u8, 0)
    } else {
        let s: u64 = (inten - 850) * 1000 / 150;
        (255, (200 + s * 55 / 1000) as u8, (s * 180 / 1000) as u8)
    }
}

/// Square root in thousandths, executable form.
fn sqrt1000_exec(x: u64) -> (r: u64)
    requires
        x <= 1000,
    ensures
        r == sqrt1000(x as int),
        r <= 1000,
{
    let r = isqrt64(1000 * x);
    proof {
        lemma_sqrt_int_unique(1000 * x as int, r as int);
        assert(r * r <= 1000000 ==> r <= 1000) by (nonlinear_arith);
    }
    r
}

#[verifier::rlimit(100)]
#[verifier::spinoff_prover]
fn fire_intensity_exec(time_ms: u64, row: usize, col: usize, base: u64) -> (inten: u64)
    requires
        row <= 65535,
        base <= 1000,
    ensures
        inten == fire_intensity(time_ms as int, row as int, col as int, base as int),
        250 <= inten <= 1000,
{
    let tr: u64 = time_ms % 3600000;
    let cr: u64 = (col as u64) % 3600;
    let wind: u64 = 400 + (cr * 1103515245 + 12345) % 1001 * 600 / 1000;
    assert(wind == fire_wind(col as int));
    let factor: u64 = 700 + (wave1000(cr * 29) as u64) * 200 / 1000;
    assert(tr * factor <= 3960000000u64) by (nonlinear_arith)
        requires
            tr < 3600000,
            factor <= 1100,
    ;
    let adv: u64 = tr * factor * 573 / 1000000;
    assert(adv * wind <= 2269080000u64) by (nonlinear_arith)
        requires
            adv <= 2269080,
            wind <= 1000,
    ;
    let n1: u64 = (wave1000((row as u64) % 3600 * 103 + adv) as u64) / 2;
    let n2: u64 = (wave1000(cr * 69 + adv * wind / 1000 + 900) as u64) / 2;
    let n: u64 = (n1 * 600 + n2 * 400) / 1000;
    assert(base * n <= 1000000) by (nonlinear_arith)
        requires
            base <= 1000,
            n <= 1000,
    ;
    250 + 750 * (base * n) / 1000000
}

/// Fire color of one cell.  Deterministic in (time, row, col, height);
/// a zero-height terminal yields the documented neutral flame color.
#[verifier::rlimit(100)]
#[verifier::spinoff_prover]
pub fn calculate_fire_color_at(time_ms: u64, row: usize, col: usize, term_height: usize) -> (rgb: (
    u8,
    u8,
    u8,
))
    requires
        row <= 65535,
        term_height <= 65535,
    ensures
        (rgb.0 as int, rgb.1 as int, rgb.2 as int) == fire_color_spec(
            time_ms as int,
            row as int,
            col as int,
            term_height as int,
        ),
{
    if term_height == 0 {
        return (255, 80, 0);
    }
    let hb: u64 = if row >= term_height {
        0
    } else {
        assert((row as int) * 1000 / (term_height as int) <= 1000) by (nonlinear_arith)
            requires
                row < term_height,
                term_height >= 1,
        ;
        1000 - (row as u64) * 1000 / (term_height as u64)
    };
    let base: u64 = sqrt1000_exec(hb);
    let inten: u64 = fire_intensity_exec(time_ms, row, col, base);
    fire_palette_exec(inten)
}

} // verus!
