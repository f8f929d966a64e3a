//! Matrix rain style.
//!
//! Each column carries a deterministic pseudo-random stream seeded from
//! the column index alone (an xorshift hash, kept as a pure function so
//! every frame reproduces the same drops without stored state).  The
//! stream fixes the column's fall speed, phase offset and trail length;
//! intensity is maximal at the drop's head and decays linearly over the
//! trail behind it, zero elsewhere, with an occasional deterministic
//! flicker frame.  Positions are in milli-rows (1000 = one row).

use vstd::prelude::*;

verus! {

/// One round of the xorshift generator on 32 bits.
pub open spec fn xorshift32_spec(x0: u32) -> u32 {
    let x1 = x0 ^ (x0 << 13);
    let x2 = x1 ^ (x1 >> 17);
    x2 ^ (x2 << 5)
}

/// One round of the xorshift generator, the per-column hash at the heart
/// of the style.
pub fn xorshift32(x: u32) -> (r: u32)
    ensures
        r == xorshift32_spec(x),
{
    let x1: u32 = x ^ (x << 13u32);
    let x2: u32 = x1 ^ (x1 >> 17u32);
    x2 ^ (x2 << 5u32)
}

/// A pseudo-random value in `0..=1000` derived from the hash.
pub open spec fn rnd1000_spec(x: u32) -> int {
    (xorshift32_spec(x) % 1001) as int
}

fn rnd1000(x: u32) -> (r: u32)
    ensures
        r == rnd1000_spec(x),
        r <= 1000,
{
    xorshift32(x) % 1001
}

/// The column seed: a multiplicative hash of the column index.
pub open spec fn column_seed_spec(col: int) -> u32 {
    (((col % 4294967296) * 747796405 + 2891336453) % 4294967296) as u32
}

fn column_seed(col: usize) -> (r: u32)
    ensures
        r == column_seed_spec(col as int),
{
    let c: u64 = (col as u64) % 4294967296;
    ((c * 747796405 + 2891336453) % 4294967296) as u32
}

/// Trail intensity in thousandths as a function of the distance behind
/// the head, both in milli-rows; only meaningful for `dist <= trail`.
pub open spec fn matrix_intensity(dist: int, trail: int) -> int {
    if dist < 800 {
        1000
    } else {
        (1000 - dist * 1000 / trail) * 850 / 1000 + 150
    }
}

/// Within the trail the intensity is maximal at the head and never
/// increases as the distance from the head grows.
pub proof fn lemma_matrix_intensity_monotone(d1: int, d2: int, trail: int)
    requires
        0 <= d1 <= d2 <= trail,
        8000 <= trail,
    ensures
        matrix_intensity(0, trail) == 1000,
        matrix_intensity(d2, trail) <= matrix_intensity(d1, trail),
        150 <= matrix_intensity(d2, trail) <= 1000,
{
    assert(d1 * 1000 / trail <= d2 * 1000 / trail) by (nonlinear_arith)
        requires
            0 <= d1 <= d2,
            trail >= 1,
    ;
    assert(d2 * 1000 / trail <= 1000) by (nonlinear_arith)
        requires
            0 <= d2 <= trail,
            trail >= 1,
    ;
    assert(d2 * 1000 / trail >= 0) by (nonlinear_arith)
        requires
            0 <= d2,
            trail >= 1,
    ;
    let k1 = 1000 - d1 * 1000 / trail;
    let k2 = 1000 - d2 * 1000 / trail;
    assert(k2 * 850 / 1000 <= k1 * 850 / 1000) by (nonlinear_arith)
        requires
            0 <= k2 <= k1 <= 1000,
    ;
    assert(k2 * 850 / 1000 <= 850) by (nonlinear_arith)
        requires
            0 <= k2 <= 1000,
    ;
}

/// The column parameters drawn from the hash stream: fall speed in
/// milli-rows per second, phase offset and trail length in milli-rows.
pub open spec fn matrix_speed(col: int) -> int {
    600 + rnd1000_spec(column_seed_spec(col))
}

pub open spec fn matrix_phase(col: int, term_height: int) -> int {
    rnd1000_spec(
        ((column_seed_spec(col) as int * 1664525 + 1013904223) % 4294967296) as u32,
    ) * term_height
}

pub open spec fn matrix_trail(col: int) -> int {
    8000 + rnd1000_spec(column_seed_spec(col) ^ 0x9E3779B9u32) * 16
}

/// Head position of the column's drop at a given time, in milli-rows,
/// cycling over the screen height plus the trail and a margin.
pub open spec fn matrix_head(t: int, col: int, term_height: int) -> int {
    let tr = t % 3600000;
    let cycle = term_height * 1000 + matrix_trail(col) + 5000;
    (tr * matrix_speed(col) / 1000 + matrix_phase(col, term_height)) % cycle
}

/// The green channel of a cell: the trail intensity scaled to 255, with
/// a deterministic flicker boost on occasional frames.
pub open spec fn matrix_green(t: int, row: int, col: int, term_height: int) -> int {
    let head = matrix_head(t, col, term_height);
    let trail = matrix_trail(col);
    let y = row * 1000;
    if y <= head && head <= y + trail {
        let inten = matrix_intensity(if y <= head { head - y } else { y - head }, trail);
        if ((t % 3600000) * 30 / 1000 + col % 4294967296) % 47 == 0 {
            let boosted = inten * 1250 * 255 / 1000000;
            if boosted > 255 {
                255
            } else {
                boosted
            }
        } else {
            inten * 255 / 1000
        }
    } else {
        0
    }
}

/// Full cell color: green scaled by intensity with a small equal
/// red/blue bleed; cells outside every trail are black.
pub open spec fn matrix_color_spec(t: int, row: int, col: int, term_height: int) -> (int, int, int) {
    let g = matrix_green(t, row, col, term_height);
    (g * 120 / 1000, g, g * 120 / 1000)
}

/// Matrix rain color of one cell.  Deterministic in (time, row, col,
/// height); cells outside every trail come back black, which the
/// renderer blanks out.
pub fn calculate_matrix_color_at(time_ms: u64, row: usize, col: usize, term_height: usize) -> (rgb: (
    u8,
    u8,
    u8,
))
    requires
        row <= 65535,
        term_height <= 65535,
    ensures
        (rgb.0 as int, rgb.1 as int, rgb.2 as int) == matrix_color_spec(
            time_ms as int,
            row as int,
            col as int,
            term_height as int,
        ),
{
    let tr: u64 = time_ms % 3600000;
    let seed: u32 = column_seed(col);
    let r1: u32 = rnd1000(seed);
    let r2: u32 = rnd1000((((seed as u64) * 1664525 + 1013904223) % 4294967296) as u32);
    let r3: u32 = rnd1000(seed ^ 0x9E3779B9u32);
    let speed: u64 = 600 + (r1 as u64);
    assert(r2 as int * term_height as int <= 65535000) by (nonlinear_arith)
        requires
            r2 <= 1000,
            term_height <= 65535,
    ;
    let phase: u64 = (r2 as u64) * (term_height as u64);
    let trail: u64 = 8000 + (r3 as u64) * 16;
    let cycle: u64 = (term_height as u64) * 1000 + trail + 5000;
    assert(tr as int * speed as int <= 5760000000) by (nonlinear_arith)
        requires
            tr < 3600000,
            speed <= 1600,
    ;
    let head: u64 = (tr * speed / 1000 + phase) % cycle;
    let y: u64 = (row as u64) * 1000;
    let g: u64 = if y <= head && head <= y + trail {
        let dist: u64 = if y <= head {
            head - y
        } else {
            y - head
        };
        let inten: u64 = if dist < 800 {
            1000
        } else {
            assert(dist as int * 1000 / trail as int <= 1000) by (nonlinear_arith)
                requires
                    dist <= trail,
                    trail >= 1,
            ;
            (1000 - dist * 1000 / trail) * 850 / 1000 + 150
        };
        proof {
            if dist >= 800 {
                assert((1000 - dist as int * 1000 / trail as int) * 850 / 1000 <= 850)
                    by (nonlinear_arith)
                    requires
                        0 <= 1000 - dist as int * 1000 / trail as int <= 1000,
                ;
            }
        }
        let colr: u64 = (col as u64) % 4294967296;
        if (tr * 30 / 1000 + colr) % 47 == 0 {
            let boosted: u64 = inten * 1250 * 255 / 1000000;
            if boosted > 255 {
                255
            } else {
                boosted
            }
        } else {
            inten * 255 / 1000
        }
    } else {
        0
    };
    let o: u64 = g * 120 / 1000;
    (o as u8, g as u8, o as u8)
}

} // verus!
