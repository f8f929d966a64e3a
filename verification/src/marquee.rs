//! Marquee style: a single bright band travels across the columns and
//! wraps around, with a flat core and a feathered falloff on either side
//! measured by shortest wrap-around distance; the background is a dim,
//! slowly hue-drifting fill, blended with the band by the feather
//! intensity.

use vstd::prelude::*;

use crate::fixed::abs_diff_spec;
use crate::styles::hsv_to_rgb;
use crate::styles::hsv_to_rgb_spec;

verus! {

/// Band intensity in thousandths from the wrapped distance to the band
/// center (both in milli-cells): 1000 inside the flat core, a squared
/// falloff across the feather, zero beyond.
pub open spec fn marquee_intensity(dx: int) -> int {
    if dx <= 1200 {
        1000int
    } else if dx <= 3700 {
        let tt = (dx - 1200) * 1000 / 2500;
        (1000 - tt) * (1000 - tt) / 1000
    } else {
        0int
    }
}

/// Shortest wrap-around distance between a column and the band center,
/// in milli-cells, both already reduced modulo the row width.
pub open spec fn marquee_wrap_dist(colm: int, band: int, wm: int) -> int {
    let d = abs_diff_spec(colm, band);
    if d > wm / 2 {
        wm - d
    } else {
        d
    }
}

/// Marquee cell color; the documented neutral gray on a zero-width
/// terminal.
pub open spec fn marquee_color_spec(t: int, col: int, term_width: int, speed: int) -> (
    int,
    int,
    int,
) {
    if term_width == 0 {
        (180int, 180int, 180int)
    } else {
        let tr = t % 3600000;
        let sc = if speed < 50 {
            50int
        } else if speed > 50000 {
            50000int
        } else {
            speed
        };
        let wm = term_width * 1000;
        let band = (tr * 4 * sc / 1000) % wm;
        let colm = (col * 1000) % wm;
        let inten = marquee_intensity(marquee_wrap_dist(colm, band, wm));
        let base_hue = (tr / 10) % 3600;
        let bg = hsv_to_rgb_spec(base_hue, 150, 180);
        if inten <= 1 {
            bg
        } else {
            let band_hue = (base_hue + tr * 6 / 5) % 3600;
            let fg = hsv_to_rgb_spec(band_hue, 750, 950);
            ((bg.0 * (1000 - inten) + fg.0 * inten) / 1000, (bg.1 * (1000 - inten) + fg.1 * inten)
                / 1000, (bg.2 * (1000 - inten) + fg.2 * inten) / 1000)
        }
    }
}

fn marquee_intensity_exec(dx: u64) -> (inten: u64)
    ensures
        inten == marquee_intensity(dx as int),
        inten <= 1000,
{
    if dx <= 1200 {
        1000
    } else if dx <= 3700 {
        let tt: u64 = (dx - 1200) * 1000 / 2500;
        assert((1000 - tt) * (1000 - tt) <= 1000000) by (nonlinear_arith)
            requires
                tt <= 1000,
        ;
        (1000 - tt) * (1000 - tt) / 1000
    } else {
        0
    }
}

/// Marquee color of one cell.  A zero-width terminal yields the
/// documented neutral gray instead of dividing by zero.
pub fn calculate_marquee_color_at(
    time_ms: u64,
    _row: usize,
    col: usize,
    term_width: usize,
    speed_milli: u32,
) -> (rgb: (u8, u8, u8))
    requires
        col <= 65535,
        term_width <= 65535,
    ensures
        (rgb.0 as int, rgb.1 as int, rgb.2 as int) == marquee_color_spec(
            time_ms as int,
            col as int,
            term_width as int,
            speed_milli as int,
        ),
{
    if term_width == 0 {
        return (180, 180, 180);
    }
    let tr: u64 = time_ms % 3600000;
    let sc: u64 = if speed_milli < 50 {
        50
    } else if speed_milli > 50000 {
        50000
    } else {
        speed_milli as u64
    };
    let wm: u64 = (term_width as u64) * 1000;
    assert(tr * 4 * sc <= 720000000000u64) by (nonlinear_arith)
        requires
            tr < 3600000,
            sc <= 50000,
    ;
    let band: u64 = (tr * 4 * sc / 1000) % wm;
    let colm: u64 = ((col as u64) * 1000) % wm;
    let d: u64 = if colm >= band {
        colm - band
    } else {
        band - colm
    };
    let dx: u64 = if d > wm / 2 {
        wm - d
    } else {
        d
    };
    let inten: u64 = marquee_intensity_exec(dx);
    let base_hue: u64 = (tr / 10) % 3600;
    let (br, bg, bb) = hsv_to_rgb(base_hue as u32, 150, 180);
    if inten <= 1 {
        return (br, bg, bb);
    }
    let band_hue: u64 = (base_hue + tr * 6 / 5) % 3600;
    let (fr, fg, fb) = hsv_to_rgb(band_hue as u32, 750, 950);
    proof {
        assert(br as int * (1000 - inten) + fr as int * inten <= 255000) by (nonlinear_arith)
            requires
                br <= 255,
                fr <= 255,
                0 <= inten <= 1000,
        ;
        assert(bg as int * (1000 - inten) + fg as int * inten <= 255000) by (nonlinear_arith)
            requires
                bg <= 255,
                fg <= 255,
                0 <= inten <= 1000,
        ;
        assert(bb as int * (1000 - inten) + fb as int * inten <= 255000) by (nonlinear_arith)
            requires
                bb <= 255,
                fb <= 255,
                0 <= inten <= 1000,
        ;
    }
    let r: u64 = ((br as u64) * (1000 - inten) + (fr as u64) * inten) / 1000;
    let g: u64 = ((bg as u64) * (1000 - inten) + (fg as u64) * inten) / 1000;
    let b: u64 = ((bb as u64) * (1000 - inten) + (fb as u64) * inten) / 1000;
    (r as u8, g as u8, b as u8)
}

} // verus!
