//! Comet style: three bright heads travel horizontally across distinct
//! row bands, each trailing a gradient that fades and shifts hue toward
//! the tail; a cell takes the color of the strongest contribution.

use vstd::prelude::*;

use crate::fixed::abs_diff_spec;
use crate::styles::hsv_to_rgb;
use crate::styles::hsv_to_rgb_spec;

verus! {

/// Tail length of every comet, in milli-cells.
pub open spec fn comet_tail() -> int {
    18000
}

/// Intensity (thousandths) and hue (tenth-degrees) contributed by comet
/// `i` to a cell, as `(intensity, hue)`; zero intensity when the cell is
/// outside the comet's row band or tail.
pub open spec fn comet_contrib(i: int, t: int, row: int, col: int, w: int, h: int, speed: int) -> (
    int,
    int,
) {
    let tr = t % 3600000;
    let sc = if speed < 50 {
        50int
    } else if speed > 20000 {
        20000int
    } else {
        speed
    };
    let band = if h > 0 {
        let b = i * h / 3;
        if b > h - 1 {
            h - 1
        } else {
            b
        }
    } else {
        0int
    };
    let dr = abs_diff_spec(row, band);
    if dr > 1 {
        (0int, 0int)
    } else {
        let head = (tr * 10 * sc / 1000 + i * w * 200) % (w * 1000 + comet_tail());
        let colm = col * 1000;
        if head < colm || head - colm > comet_tail() {
            (0int, 0int)
        } else {
            let dx = head - colm;
            let k = 1000 - dx / 18;
            let core = k * k / 1000;
            let inten = if dr == 0 {
                core
            } else {
                core / 2
            };
            let hue = (i * 900 + tr / 2 + 7200 - dx / 25) % 3600;
            (inten, hue)
        }
    }
}

fn comet_contrib_exec(i: u64, time_ms: u64, row: usize, col: usize, term_w: usize, term_h: usize, sc: u64) -> (c: (
    u64,
    u64,
))
    requires
        i <= 2,
        row <= 65535,
        col <= 65535,
        1 <= term_w <= 65535,
        term_h <= 65535,
        50 <= sc <= 20000,
    ensures
        (c.0 as int, c.1 as int) == comet_contrib(
            i as int,
            time_ms as int,
            row as int,
            col as int,
            term_w as int,
            term_h as int,
            sc as int,
        ),
        c.0 <= 1000,
        c.1 < 3600,
{
    let tr: u64 = time_ms % 3600000;
    let band: u64 = if term_h > 0 {
        let b: u64 = i * (term_h as u64) / 3;
        if b > (term_h as u64) - 1 {
            (term_h as u64) - 1
        } else {
            b
        }
    } else {
        0
    };
    let dr: u64 = if (row as u64) >= band {
        (row as u64) - band
    } else {
        band - (row as u64)
    };
    if dr > 1 {
        return (0, 0);
    }
    assert(tr * 10 * sc <= 720000000000u64) by (nonlinear_arith)
        requires
            tr < 3600000,
            sc <= 20000,
    ;
    assert(i * (term_w as u64) * 200 <= 26214000) by (nonlinear_arith)
        requires
            i <= 2,
            term_w <= 65535,
    ;
    let head: u64 = (tr * 10 * sc / 1000 + i * (term_w as u64) * 200) % ((term_w as u64) * 1000
        + 18000);
    let colm: u64 = (col as u64) * 1000;
    if head < colm || head - colm > 18000 {
        return (0, 0);
    }
    let dx: u64 = head - colm;
    let k: u64 = 1000 - dx / 18;
    assert(k * k <= 1000000) by (nonlinear_arith)
        requires
            k <= 1000,
    ;
    let core: u64 = k * k / 1000;
    let inten: u64 = if dr == 0 {
        core
    } else {
        core / 2
    };
    let hue: u64 = (i * 900 + tr / 2 + 7200 - dx / 25) % 3600;
    (inten, hue)
}

/// Comet cell color: the strongest of the three comets' contributions,
/// brighter and more saturated near the head; black where none reaches.
pub open spec fn comet_color_spec(t: int, row: int, col: int, w: int, h: int, speed: int) -> (
    int,
    int,
    int,
) {
    if w == 0 {
        (0int, 0int, 0int)
    } else {
        let c0 = comet_contrib(0, t, row, col, w, h, speed);
        let c1 = comet_contrib(1, t, row, col, w, h, speed);
        let c2 = comet_contrib(2, t, row, col, w, h, speed);
        let b01 = if c1.0 > c0.0 {
            c1
        } else {
            c0
        };
        let best = if c2.0 > b01.0 {
            c2
        } else {
            b01
        };
        if best.0 <= 0 {
            (0int, 0int, 0int)
        } else {
            let sat0 = 550 + best.0 * 400 / 1000;
            let sat = if sat0 > 1000 {
                1000int
            } else {
                sat0
            };
            let val0 = 250 + best.0 * 750 / 1000;
            let val = if val0 > 1000 {
                1000int
            } else {
                val0
            };
            hsv_to_rgb_spec(best.1, sat, val)
        }
    }
}

/// Comet color of one cell.  A zero-width terminal yields black instead
/// of dividing by zero.
pub fn calculate_comet_color_at(
    time_ms: u64,
    row: usize,
    col: usize,
    term_width: usize,
    term_height: usize,
    speed_milli: u32,
) -> (rgb: (u8, u8, u8))
    requires
        row <= 65535,
        col <= 65535,
        term_width <= 65535,
        term_height <= 65535,
    ensures
        (rgb.0 as int, rgb.1 as int, rgb.2 as int) == comet_color_spec(
            time_ms as int,
            row as int,
            col as int,
            term_width as int,
            term_height as int,
            speed_milli as int,
        ),
{
    if term_width == 0 {
        return (0, 0, 0);
    }
    let sc: u64 = if speed_milli < 50 {
        50
    } else if speed_milli > 20000 {
        20000
    } else {
        speed_milli as u64
    };
    let c0 = comet_contrib_exec(0, time_ms, row, col, term_width, term_height, sc);
    let c1 = comet_contrib_exec(1, time_ms, row, col, term_width, term_height, sc);
    let c2 = comet_contrib_exec(2, time_ms, row, col, term_width, term_height, sc);
    let b01: (u64, u64) = if c1.0 > c0.0 {
        c1
    } else {
        c0
    };
    let best: (u64, u64) = if c2.0 > b01.0 {
        c2
    } else {
        b01
    };
    if best.0 == 0 {
        return (0, 0, 0);
    }
    let sat0: u64 = 550 + best.0 * 400 / 1000;
    let sat: u32 = if sat0 > 1000 {
        1000
    } else {
        sat0 as u32
    };
    let val0: u64 = 250 + best.0 * 750 / 1000;
    let val: u32 = if val0 > 1000 {
        1000
    } else {
        val0 as u32
    };
    hsv_to_rgb(best.1 as u32, sat, val)
}

} // verus!
