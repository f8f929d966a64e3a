//! Meteor rain: a particle subsystem.  Each meteor has a head position
//! integrated by constant velocity; a cell's contribution is found by
//! projecting the cell onto the meteor's direction (clamped to the tail)
//! and measuring the perpendicular distance (bell-shaped falloff).
//! Overlapping contributions are weighted-averaged, never summed
//! unclamped.  Positions are in milli-cells, velocities in milli-cells
//! per second, ages and lifetimes in milliseconds.

use vstd::prelude::*;

use crate::fixed::gauss1000;
use crate::fixed::gauss1000_spec;
use crate::fixed::isqrt64;
use crate::fixed::lemma_sqrt_int_unique;
use crate::fixed::sqrt_int;
use crate::fixed::wave1000;
use crate::fixed::wave1000_spec;
use crate::rng::rand1000;
use crate::rng::rand_below;
use crate::styles::hsv_to_rgb;
use crate::styles::hsv_to_rgb_spec;

verus! {

/// One meteor: head position, velocity, age and lifetime, hue, and tail
/// length in cells.
#[derive(Clone, Copy)]
pub struct Meteor {
    pub x: i64,
    pub y: i64,
    pub vx: u32,
    pub vy: u32,
    pub life: u32,
    pub age: u32,
    pub hue: u32,
    pub len: u32,
}

/// Bounds every meteor of the system satisfies; sampling and updating
/// rely on them for their arithmetic.
pub open spec fn meteor_bounded(m: Meteor) -> bool {
    &&& -100000000 <= m.x <= 100000000
    &&& -100000000 <= m.y <= 100000000
    &&& m.vx <= 1000000
    &&& m.vy <= 1000000
    &&& m.hue < 3600
    &&& 4 <= m.len <= 9
}

/// The cell vector relative to the meteor's head, in milli-cells:
/// `(col * 1000 + 300 - x, row * 1000 + 300 - y)`.
pub open spec fn meteor_rel(m: Meteor, row: int, col: int) -> (int, int) {
    (col * 1000 + 300 - m.x as int, row * 1000 + 300 - m.y as int)
}

/// A cell is outside a meteor's reach when the meteor does not move, or
/// the cell's projection onto the direction falls outside `[0, len]`, or
/// its perpendicular distance exceeds the 1.2-cell cutoff.
pub open spec fn meteor_outside(m: Meteor, row: int, col: int) -> bool {
    let c = meteor_rel(m, row, col);
    let dot = c.0 * (m.vx as int) + c.1 * (m.vy as int);
    let dl = sqrt_int((m.vx as int) * (m.vx as int) + (m.vy as int) * (m.vy as int));
    ||| dl == 0
    ||| dot < 0
    ||| dot / dl > (m.len as int) * 1000
    ||| c.0 * c.0 + c.1 * c.1 - (dot / dl) * (dot / dl) > 1440000
}

/// The weight (thousandths) with which a meteor lights a cell: the tail
/// envelope times the perpendicular falloff times a flicker; zero when
/// the cell is outside the meteor's reach.
#[verifier::opaque]
pub open spec fn meteor_weight(m: Meteor, t: int, row: int, col: int) -> int {
    if meteor_outside(m, row, col) {
        0int
    } else {
        let c = meteor_rel(m, row, col);
        let dot = c.0 * (m.vx as int) + c.1 * (m.vy as int);
        let dl = sqrt_int((m.vx as int) * (m.vx as int) + (m.vy as int) * (m.vy as int));
        let proj = dot / dl;
        let perp2 = c.0 * c.0 + c.1 * c.1 - proj * proj;
        let perp = sqrt_int(if perp2 < 0 {
            0int
        } else {
            perp2
        });
        let tt = proj / (m.len as int);
        let core = 1000 - (if tt > 1000 {
            1000int
        } else {
            tt
        });
        let fall = gauss1000_spec(perp * 1600 / 1000);
        let fl = 700 + wave1000_spec((t % 3600000) * 17190 / 1000 + m.hue as int) * 150 / 1000;
        let w = core * fall / 1000 * fl / 1000;
        if w < 20 {
            0int
        } else {
            w
        }
    }
}

/// The color a meteor contributes at a given tail position.
#[verifier::opaque]
pub open spec fn meteor_cell_rgb(m: Meteor, row: int, col: int, w: int) -> (int, int, int) {
    let c = meteor_rel(m, row, col);
    let dot = c.0 * (m.vx as int) + c.1 * (m.vy as int);
    let dl = sqrt_int((m.vx as int) * (m.vx as int) + (m.vy as int) * (m.vy as int));
    let proj = dot / dl;
    let tt0 = proj / (m.len as int);
    let tt = if tt0 > 1000 {
        1000int
    } else {
        tt0
    };
    let hue = (m.hue as int + tt * 400 / 1000) % 3600;
    let sat0 = 650 + (1000 - tt) * 250 / 1000;
    let sat = if sat0 > 950 {
        950int
    } else {
        sat0
    };
    let val0 = 250 + w * 900 / 1000;
    let val = if val0 > 1000 {
        1000int
    } else {
        val0
    };
    hsv_to_rgb_spec(hue, sat, val)
}

/// A cell outside a meteor's reach gets no weight from it.
pub proof fn lemma_outside_weight_zero(m: Meteor, t: int, row: int, col: int)
    ensures
        meteor_outside(m, row, col) ==> meteor_weight(m, t, row, col) == 0,
{
    reveal(meteor_weight);
}

/// Sum of the weights of the first `i` meteors at a cell.
pub open spec fn weight_sum(ms: Seq<Meteor>, t: int, row: int, col: int, i: int) -> int
    decreases i,
{
    if i <= 0 {
        0int
    } else {
        weight_sum(ms, t, row, col, i - 1) + meteor_weight(ms[i - 1], t, row, col)
    }
}

/// Weighted sum of one color channel (`0` red, `1` green, `2` blue)
/// over the first `i` meteors: each meteor contributes its per-cell
/// color scaled by its weight.
pub open spec fn chan_sum(ms: Seq<Meteor>, t: int, row: int, col: int, i: int, ch: int) -> int
    decreases i,
{
    if i <= 0 {
        0int
    } else {
        let w = meteor_weight(ms[i - 1], t, row, col);
        let rgb = meteor_cell_rgb(ms[i - 1], row, col, w);
        let c = if ch == 0 {
            rgb.0
        } else if ch == 1 {
            rgb.1
        } else {
            rgb.2
        };
        chan_sum(ms, t, row, col, i - 1, ch) + c * w
    }
}

/// When every term is non-negative, the weight sum dominates each term.
pub proof fn lemma_weight_sum_lower(ms: Seq<Meteor>, t: int, row: int, col: int, i: int, j: int)
    requires
        0 <= j < i,
        forall|k: int| 0 <= k < i ==> meteor_weight(ms[k], t, row, col) >= 0,
    ensures
        weight_sum(ms, t, row, col, i) >= meteor_weight(ms[j], t, row, col),
    decreases i,
{
    if j == i - 1 {
        lemma_weight_sum_nonneg(ms, t, row, col, i - 1);
    } else {
        lemma_weight_sum_lower(ms, t, row, col, i - 1, j);
    }
}

/// A sum of all-zero weights is zero.
pub proof fn lemma_weight_sum_zero(ms: Seq<Meteor>, t: int, row: int, col: int, i: int)
    requires
        forall|k: int| 0 <= k < i ==> meteor_weight(ms[k], t, row, col) == 0,
    ensures
        weight_sum(ms, t, row, col, i) == 0,
    decreases i,
{
    if i > 0 {
        lemma_weight_sum_zero(ms, t, row, col, i - 1);
    }
}

/// A sum of non-negative weights is non-negative.
pub proof fn lemma_weight_sum_nonneg(ms: Seq<Meteor>, t: int, row: int, col: int, i: int)
    requires
        forall|k: int| 0 <= k < i ==> meteor_weight(ms[k], t, row, col) >= 0,
    ensures
        weight_sum(ms, t, row, col, i) >= 0,
    decreases i,
{
    if i > 0 {
        lemma_weight_sum_nonneg(ms, t, row, col, i - 1);
    }
}

/// The size limit the meteor population is steered toward: the visible
/// area divided by 1200 cells per meteor, clamped into [2, 14].
pub open spec fn spawn_target(w: int, h: int) -> int {
    let t0 = w * h / 1200;
    if t0 < 2 {
        2int
    } else if t0 > 14 {
        14int
    } else {
        t0
    }
}

/// One integration step of a meteor: aged by `dt` milliseconds
/// (saturating) and advanced by its velocity.
pub open spec fn step_meteor(m: Meteor, dt: int) -> Meteor {
    let a = m.age + dt;
    Meteor {
        x: (m.x + (m.vx as int) * dt / 1000) as i64,
        y: (m.y + (m.vy as int) * dt / 1000) as i64,
        age: (if a > 4000000000 {
            4000000000int
        } else {
            a
        }) as u32,
        ..m
    }
}

/// Does a meteor survive the cull after one step: still within its
/// lifetime and inside the visible area with a ten-cell margin.
pub open spec fn keep_meteor(m: Meteor, dt: int, w: int, h: int) -> bool {
    let sx = m.x + (m.vx as int) * dt / 1000;
    let sy = m.y + (m.vy as int) * dt / 1000;
    &&& m.age + dt < m.life
    &&& sx < (w + 10) * 1000
    &&& sy < (h + 10) * 1000
    &&& sx <= 100000000
    &&& sy <= 100000000
}

/// The first `i` meteors after one step: each aged and advanced, the
/// expired or out-of-view ones dropped, order kept.
pub open spec fn cull_meteors(ms: Seq<Meteor>, dt: int, w: int, h: int, i: int) -> Seq<Meteor>
    decreases i,
{
    if i <= 0 {
        Seq::empty()
    } else {
        let rest = cull_meteors(ms, dt, w, h, i - 1);
        if keep_meteor(ms[i - 1], dt, w, h) {
            rest + seq![step_meteor(ms[i - 1], dt)]
        } else {
            rest
        }
    }
}

#[verifier::rlimit(100)]
#[verifier::spinoff_prover]
fn meteor_weight_exec(m: &Meteor, time_ms: u64, row: usize, col: usize) -> (w: u64)
    requires
        meteor_bounded(*m),
        row <= 65535,
        col <= 65535,
    ensures
        w == meteor_weight(*m, time_ms as int, row as int, col as int),
        w <= 1265,
{
    proof {
        reveal(meteor_weight);
    }
    let cx: i64 = (col as i64) * 1000 + 300 - m.x;
    let cy: i64 = (row as i64) * 1000 + 300 - m.y;
    proof {
        assert(m.vx as int * m.vx as int <= 1000000000000 && m.vy as int * m.vy as int
            <= 1000000000000) by (nonlinear_arith)
            requires
                0 <= m.vx <= 1000000,
                0 <= m.vy <= 1000000,
        ;
    }
    let dl2: u64 = (m.vx as u64) * (m.vx as u64) + (m.vy as u64) * (m.vy as u64);
    let dl: u64 = isqrt64(dl2);
    proof {
        lemma_sqrt_int_unique(m.vx as int * m.vx as int + m.vy as int * m.vy as int, dl as int);
        assert(dl as int * dl as int <= 2000000000000 ==> dl <= 1500000) by (nonlinear_arith);
    }
    if dl == 0 {
        return 0;
    }
    proof {
        assert(-200000000000000 <= cx * (m.vx as int) <= 200000000000000 && -200000000000000 <= cy
            * (m.vy as int) <= 200000000000000) by (nonlinear_arith)
            requires
                -200000000 <= cx <= 200000000,
                -200000000 <= cy <= 200000000,
                0 <= m.vx <= 1000000,
                0 <= m.vy <= 1000000,
        ;
    }
    let dot: i64 = cx * (m.vx as i64) + cy * (m.vy as i64);
    if dot < 0 {
        return 0;
    }
    let proj: u64 = (dot as u64) / dl;
    if proj > (m.len as u64) * 1000 {
        return 0;
    }
    assert(proj * proj <= 81000000) by (nonlinear_arith)
        requires
            proj <= 9000,
    ;
    proof {
        assert(cx * cx >= 0 && cy * cy >= 0) by (nonlinear_arith);
        assert(cx * cx <= 40000000000000000i64 && cy * cy <= 40000000000000000i64)
            by (nonlinear_arith)
            requires
                -200000000 <= cx <= 200000000,
                -200000000 <= cy <= 200000000,
        ;
    }
    let c2: u64 = ((cx * cx) as u64) + ((cy * cy) as u64);
    let p2: u64 = proj * proj;
    let perp2: u64 = if c2 > p2 {
        c2 - p2
    } else {
        0
    };
    if perp2 > 1440000 {
        return 0;
    }
    let perp: u64 = isqrt64(perp2);
    proof {
        lemma_sqrt_int_unique(perp2 as int, perp as int);
        assert(perp as int * perp as int <= 1440000 ==> perp <= 1200) by (nonlinear_arith);
    }
    let tt0: u64 = proj / (m.len as u64);
    let tt: u64 = if tt0 > 1000 {
        1000
    } else {
        tt0
    };
    let core: u64 = 1000 - tt;
    let fall: u64 = gauss1000(perp * 1600 / 1000);
    let tr: u64 = time_ms % 3600000;
    let fl: u64 = 700 + (wave1000(tr * 17190 / 1000 + (m.hue as u64)) as u64) * 150 / 1000;
    assert(core * fall <= 1000000) by (nonlinear_arith)
        requires
            core <= 1000,
            fall <= 1000,
    ;
    assert(core * fall / 1000 * fl <= 1265000) by (nonlinear_arith)
        requires
            core * fall / 1000 <= 1000,
            fl <= 1265,
    ;
    let w: u64 = core * fall / 1000 * fl / 1000;
    if w < 20 {
        0
    } else {
        w
    }
}

#[verifier::rlimit(60)]
fn meteor_cell_rgb_exec(m: &Meteor, row: usize, col: usize, w: u64) -> (rgb: (u8, u8, u8))
    requires
        meteor_bounded(*m),
        row <= 65535,
        col <= 65535,
        w <= 1265,
        !meteor_outside(*m, row as int, col as int),
    ensures
        (rgb.0 as int, rgb.1 as int, rgb.2 as int) == meteor_cell_rgb(
            *m,
            row as int,
            col as int,
            w as int,
        ),
{
    proof {
        reveal(meteor_weight);
        reveal(meteor_cell_rgb);
    }
    let cx: i64 = (col as i64) * 1000 + 300 - m.x;
    let cy: i64 = (row as i64) * 1000 + 300 - m.y;
    proof {
        assert(m.vx as int * m.vx as int <= 1000000000000 && m.vy as int * m.vy as int
            <= 1000000000000) by (nonlinear_arith)
            requires
                0 <= m.vx <= 1000000,
                0 <= m.vy <= 1000000,
        ;
    }
    let dl2: u64 = (m.vx as u64) * (m.vx as u64) + (m.vy as u64) * (m.vy as u64);
    let dl: u64 = isqrt64(dl2);
    proof {
        lemma_sqrt_int_unique(m.vx as int * m.vx as int + m.vy as int * m.vy as int, dl as int);
        assert(-200000000000000 <= cx * (m.vx as int) <= 200000000000000 && -200000000000000 <= cy
            * (m.vy as int) <= 200000000000000) by (nonlinear_arith)
            requires
                -200000000 <= cx <= 200000000,
                -200000000 <= cy <= 200000000,
                0 <= m.vx <= 1000000,
                0 <= m.vy <= 1000000,
        ;
    }
    let dot: i64 = cx * (m.vx as i64) + cy * (m.vy as i64);
    let proj: u64 = (dot as u64) / dl;
    let tt0: u64 = proj / (m.len as u64);
    let tt: u64 = if tt0 > 1000 {
        1000
    } else {
        tt0
    };
    let hue: u32 = (((m.hue as u64) + tt * 400 / 1000) % 3600) as u32;
    let sat0: u64 = 650 + (1000 - tt) * 250 / 1000;
    let sat: u32 = if sat0 > 950 {
        950
    } else {
        sat0 as u32
    };
    let val0: u64 = 250 + w * 900 / 1000;
    let val: u32 = if val0 > 1000 {
        1000
    } else {
        val0 as u32
    };
    hsv_to_rgb(hue, sat, val)
}

/// Accumulated color of one cell under all meteors: contributions are
/// weighted-averaged by their individual weights.  A cell outside every
/// meteor's directional projection range and perpendicular cutoff gets
/// `None`, however many meteors there are.
#[verifier::rlimit(100)]
#[verifier::spinoff_prover]
pub fn sample_cell_color(time_ms: u64, row: usize, col: usize, meteors: &Vec<Meteor>) -> (r: Option<
    (u8, u8, u8),
>)
    requires
        row <= 65535,
        col <= 65535,
        meteors@.len() <= 1000000,
        forall|i: int| 0 <= i < meteors@.len() ==> meteor_bounded(meteors@[i]),
    ensures
        (forall|i: int|
            0 <= i < meteors@.len() ==> meteor_outside(meteors@[i], row as int, col as int)) ==> r
            is None,
        weight_sum(meteors@, time_ms as int, row as int, col as int, meteors@.len() as int)
            >= 0,
        (r is None) <==> weight_sum(
            meteors@,
            time_ms as int,
            row as int,
            col as int,
            meteors@.len() as int,
        ) == 0,
        (exists|i: int|
            0 <= i < meteors@.len() && meteor_weight(
                meteors@[i],
                time_ms as int,
                row as int,
                col as int,
            ) > 0) ==> r is Some,
        ({
            let n = meteors@.len() as int;
            let ws = weight_sum(meteors@, time_ms as int, row as int, col as int, n);
            ws > 0 ==> r == Some(
                (
                    (chan_sum(meteors@, time_ms as int, row as int, col as int, n, 0) / ws) as u8,
                    (chan_sum(meteors@, time_ms as int, row as int, col as int, n, 1) / ws) as u8,
                    (chan_sum(meteors@, time_ms as int, row as int, col as int, n, 2) / ws) as u8,
                ),
            ) && 0 <= chan_sum(meteors@, time_ms as int, row as int, col as int, n, 0) / ws <= 255
                && 0 <= chan_sum(meteors@, time_ms as int, row as int, col as int, n, 1) / ws
                <= 255 && 0 <= chan_sum(meteors@, time_ms as int, row as int, col as int, n, 2)
                / ws <= 255
        }),
{
    let mut racc: u64 = 0;
    let mut gacc: u64 = 0;
    let mut bacc: u64 = 0;
    let mut wacc: u64 = 0;
    let mut i: usize = 0;
    while i < meteors.len()
        invariant
            i <= meteors@.len(),
            meteors@.len() <= 1000000,
            row <= 65535,
            col <= 65535,
            forall|j: int| 0 <= j < meteors@.len() ==> meteor_bounded(meteors@[j]),
            racc <= 255 * wacc,
            gacc <= 255 * wacc,
            bacc <= 255 * wacc,
            wacc <= 1265 * i,
            wacc == weight_sum(meteors@, time_ms as int, row as int, col as int, i as int),
            racc == chan_sum(meteors@, time_ms as int, row as int, col as int, i as int, 0),
            gacc == chan_sum(meteors@, time_ms as int, row as int, col as int, i as int, 1),
            bacc == chan_sum(meteors@, time_ms as int, row as int, col as int, i as int, 2),
            forall|j: int|
                0 <= j < i ==> meteor_weight(meteors@[j], time_ms as int, row as int, col as int)
                    >= 0,
        decreases meteors@.len() - i,
    {
        let m = &meteors[i];
        let w: u64 = meteor_weight_exec(m, time_ms, row, col);
        if w > 0 {
            proof {
                lemma_outside_weight_zero(
                    meteors@[i as int],
                    time_ms as int,
                    row as int,
                    col as int,
                );
            }
            let (cr, cg, cb) = meteor_cell_rgb_exec(m, row, col, w);
            proof {
                assert((cr as int) * w <= 322575 && (cg as int) * w <= 322575 && (cb as int) * w
                    <= 322575) by (nonlinear_arith)
                    requires
                        cr <= 255,
                        cg <= 255,
                        cb <= 255,
                        0 <= w <= 1265,
                ;
                assert(racc + (cr as int) * w <= 255 * (wacc + w) && gacc + (cg as int) * w <= 255
                    * (wacc + w) && bacc + (cb as int) * w <= 255 * (wacc + w))
                    by (nonlinear_arith)
                    requires
                        racc <= 255 * wacc,
                        gacc <= 255 * wacc,
                        bacc <= 255 * wacc,
                        cr <= 255,
                        cg <= 255,
                        cb <= 255,
                        w >= 0,
                ;
            }
            racc = racc + (cr as u64) * w;
            gacc = gacc + (cg as u64) * w;
            bacc = bacc + (cb as u64) * w;
            wacc = wacc + w;
        }
        i += 1;
    }
    proof {
        if exists|j: int|
            0 <= j < meteors@.len() && meteor_weight(
                meteors@[j],
                time_ms as int,
                row as int,
                col as int,
            ) > 0 {
            let j = choose|j: int|
                0 <= j < meteors@.len() && meteor_weight(
                    meteors@[j],
                    time_ms as int,
                    row as int,
                    col as int,
                ) > 0;
            lemma_weight_sum_lower(
                meteors@,
                time_ms as int,
                row as int,
                col as int,
                meteors@.len() as int,
                j,
            );
        }
        assert forall|j: int|
            0 <= j < meteors@.len() && meteor_outside(
                meteors@[j],
                row as int,
                col as int,
            ) implies meteor_weight(meteors@[j], time_ms as int, row as int, col as int) == 0 by {
            lemma_outside_weight_zero(meteors@[j], time_ms as int, row as int, col as int);
        }
        if forall|j: int|
            0 <= j < meteors@.len() ==> meteor_weight(
                meteors@[j],
                time_ms as int,
                row as int,
                col as int,
            ) == 0 {
            lemma_weight_sum_zero(
                meteors@,
                time_ms as int,
                row as int,
                col as int,
                meteors@.len() as int,
            );
        }
    }
    if wacc > 0 {
        proof {
            assert(racc / wacc <= 255 && gacc / wacc <= 255 && bacc / wacc <= 255)
                by (nonlinear_arith)
                requires
                    wacc >= 1,
                    racc <= 255 * wacc,
                    gacc <= 255 * wacc,
                    bacc <= 255 * wacc,
            ;
        }
        Some(((racc / wacc) as u8, (gacc / wacc) as u8, (bacc / wacc) as u8))
    } else {
        None
    }
}

/// A freshly spawned meteor: it starts above the view in the left part
/// of the screen, falls down-right at a speed scaled by the playback
/// speed, with a random hue and a tail of four to nine cells.
pub fn spawn_meteor(term_w: usize, term_h: usize, speed_milli: u32) -> (m: Meteor)
    requires
        term_w <= 65535,
        term_h <= 65535,
    ensures
        meteor_bounded(m),
        m.age == 0,
        -5000 <= m.y <= 0,
        0 <= m.x <= term_w * 400,
        m.vy == 22 * crate::fixed::clamp_spec(speed_milli as int, 50, 20000),
        m.vy >= 1100,
        (m.vy as int) * 850 / 1000 <= m.vx <= (m.vy as int) * 1150 / 1000,
        m.life == ((term_w + term_h) * 1000000 / (m.vy as int)) + 1000,
        m.life >= 1000,
        m.hue < 3600,
        4 <= m.len <= 9,
{
    let sc: u32 = if speed_milli < 50 {
        50
    } else if speed_milli > 20000 {
        20000
    } else {
        speed_milli
    };
    let base: u32 = 22 * sc;
    let r1: u32 = rand1000();
    proof {
        assert(base as int * (850 + r1 as int * 300 / 1000) <= 506000000) by (nonlinear_arith)
            requires
                base <= 440000,
                r1 <= 1000,
        ;
    }
    proof {
        let factor = 850 + r1 as int * 300 / 1000;
        assert(850 <= factor <= 1150);
        assert((base as int) * 850 / 1000 <= (base as int) * factor / 1000 <= (base as int) * 1150
            / 1000) by (nonlinear_arith)
            requires
                850 <= factor <= 1150,
                0 <= base,
        ;
    }
    let vx: u32 = (((base as u64) * ((850 + r1 * 300 / 1000) as u64)) / 1000) as u32;
    let r2: u32 = rand1000();
    proof {
        assert(r2 as int * ((term_w as int) * 400) <= 26214000000i64) by (nonlinear_arith)
            requires
                r2 <= 1000,
                term_w <= 65535,
        ;
    }
    proof {
        assert(r2 as int * ((term_w as int) * 400) / 1000 <= (term_w as int) * 400)
            by (nonlinear_arith)
            requires
                r2 <= 1000,
                0 <= term_w,
        ;
    }
    let x: i64 = (((r2 as u64) * ((term_w as u64) * 400) / 1000) as i64);
    let y: i64 = 0 - ((rand1000() * 5) as i64);
    proof {
        assert(((term_w as int) + (term_h as int)) * 1000000 / (base as int) <= 131070000000i64
            / 1100) by (nonlinear_arith)
            requires
                term_w <= 65535,
                term_h <= 65535,
                base >= 1100,
        ;
    }
    let life: u32 = ((((term_w as u64) + (term_h as u64)) * 1000000 / (base as u64)) + 1000) as u32;
    let hue: u32 = rand_below(3600);
    let len: u32 = 4 + rand_below(6);
    Meteor { x, y, vx, vy: base, life, age: 0, hue, len }
}

/// One simulation step: every meteor ages and advances by its velocity;
/// meteors that outlive their lifetime or leave the visible area (with a
/// ten-cell margin) are dropped; while the population is below the
/// area-scaled target, a spawn happens with bounded probability.
pub fn update_meteors(
    meteors: &mut Vec<Meteor>,
    dt_ms: u32,
    term_w: usize,
    term_h: usize,
    speed_milli: u32,
) -> (spawned: bool)
    requires
        term_w <= 65535,
        term_h <= 65535,
        forall|i: int| 0 <= i < old(meteors)@.len() ==> meteor_bounded(old(meteors)@[i]),
    ensures
        forall|i: int| 0 <= i < final(meteors)@.len() ==> meteor_bounded(final(meteors)@[i]),
        final(meteors)@.len() <= old(meteors)@.len() + 1,
        ({
            let d: int = if dt_ms > 10000 {
                10000int
            } else {
                dt_ms as int
            };
            let kept = cull_meteors(
                old(meteors)@,
                d,
                term_w as int,
                term_h as int,
                old(meteors)@.len() as int,
            );
            &&& final(meteors)@.subrange(0, kept.len() as int) == kept
            &&& (final(meteors)@ == kept || final(meteors)@.len() == kept.len() + 1)
            &&& (final(meteors)@.len() == kept.len() + 1 ==> kept.len() < spawn_target(
                term_w as int,
                term_h as int,
            ))
            &&& (spawned <==> final(meteors)@.len() == kept.len() + 1)
        }),
{
    let dt: u64 = if dt_ms > 10000 {
        10000
    } else {
        dt_ms as u64
    };
    let mut kept: Vec<Meteor> = Vec::new();
    let mut i: usize = 0;
    while i < meteors.len()
        invariant
            i <= meteors@.len(),
            term_w <= 65535,
            term_h <= 65535,
            dt <= 10000,
            meteors@ == old(meteors)@,
            dt == if dt_ms > 10000 {
                10000int
            } else {
                dt_ms as int
            },
            forall|j: int| 0 <= j < meteors@.len() ==> meteor_bounded(meteors@[j]),
            forall|j: int| 0 <= j < kept@.len() ==> meteor_bounded(kept@[j]),
            kept@.len() <= i,
            kept@ == cull_meteors(meteors@, dt as int, term_w as int, term_h as int, i as int),
        decreases meteors@.len() - i,
    {
        let m = meteors[i];
        let age2: u64 = (m.age as u64) + dt;
        proof {
            assert((m.vx as int) * (dt as int) <= 10000000000i64 && (m.vy as int) * (dt as int)
                <= 10000000000i64) by (nonlinear_arith)
                requires
                    0 <= m.vx <= 1000000,
                    0 <= m.vy <= 1000000,
                    0 <= dt <= 10000,
            ;
        }
        let mx: i64 = m.x + (((m.vx as u64) * dt / 1000) as i64);
        let my: i64 = m.y + (((m.vy as u64) * dt / 1000) as i64);
        if age2 < (m.life as u64) && mx < ((term_w as i64) + 10) * 1000 && my < ((term_h as i64)
            + 10) * 1000 && mx <= 100000000 && my <= 100000000 {
            let age3: u32 = if age2 > 4000000000u64 {
                4000000000u32
            } else {
                age2 as u32
            };
            kept.push(Meteor { x: mx, y: my, age: age3, ..m });
        }
        i += 1;
    }
    proof {
        assert((term_w as int) * (term_h as int) <= 4294836225i64) by (nonlinear_arith)
            requires
                term_w <= 65535,
                term_h <= 65535,
        ;
    }
    let area: u64 = (term_w as u64) * (term_h as u64);
    let t0: u64 = area / 1200;
    let target: u64 = if t0 < 2 {
        2
    } else if t0 > 14 {
        14
    } else {
        t0
    };
    let mut spawned = false;
    if (kept.len() as u64) < target {
        let sc: u32 = if speed_milli > 1000 {
            1000
        } else {
            speed_milli
        };
        let threshold: u32 = 250 * (1000 + sc) / 1000;
        if rand1000() < threshold {
            let m = spawn_meteor(term_w, term_h, speed_milli);
            kept.push(m);
            spawned = true;
        }
    }
    *meteors = kept;
    spawned
}

} // verus!
