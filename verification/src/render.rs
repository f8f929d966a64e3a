//! The frame compositor: walks one tokenized row, passes embedded
//! escape sequences through untouched, colors every printable character
//! through the active style, and pads with blanks where the previous
//! frame printed a longer row, so stale trailing content is erased.
//!
//! A frame is a list of paint instructions; the output layer turns each
//! instruction into the matching terminal bytes and writes the whole
//! frame in one operation.

use vstd::prelude::*;

use crate::aurora::aurora_color_spec;
use crate::aurora::calculate_aurora_color_at;
use crate::fire::calculate_fire_color_at;
use crate::fire::fire_color_spec;
use crate::lava::calculate_lava_color_at;
use crate::lava::lava_color_spec;
use crate::marquee::calculate_marquee_color_at;
use crate::marquee::marquee_color_spec;
use crate::matrix::calculate_matrix_color_at;
use crate::matrix::matrix_color_spec;
use crate::meteor_rain::Meteor;
use crate::meteor_rain::meteor_bounded;
use crate::meteor_rain::chan_sum;
use crate::meteor_rain::sample_cell_color;
use crate::meteor_rain::weight_sum;
use crate::plasma::calculate_plasma_color_at;
use crate::plasma::plasma_color_spec;
use crate::pulse_rings::calculate_pulse_rings_color_at;
use crate::pulse_rings::pulse_rings_color_spec;
use crate::styles::AnimationStyle;
use crate::styles::calculate_color;
use crate::styles::calculate_color_spec;

verus! {

/// One paint instruction of a composed row.
pub enum Paint {
    /// An embedded escape sequence, re-emitted verbatim; it advances no
    /// column counter.
    Escape(String),
    /// One visible character in a 24-bit color.
    Colored(u8, u8, u8, char),
    /// One blank cell (also used to erase stale trailing content).
    Blank,
}

/// How many printable characters a token row holds from position `i` on:
/// tokens with an empty escape and a non-NUL character.
pub open spec fn count_printable(tokens: Seq<(String, char)>, i: int) -> int
    decreases tokens.len() - i,
{
    if i < 0 || i >= tokens.len() {
        0int
    } else {
        let here: int = if tokens[i].0@.len() == 0 && tokens[i].1 as u32 != 0 {
            1int
        } else {
            0int
        };
        here + count_printable(tokens, i + 1)
    }
}

/// The number of printable characters is never negative and never more
/// than the tokens that remain.
pub proof fn lemma_count_printable_bounds(tokens: Seq<(String, char)>, i: int)
    ensures
        0 <= count_printable(tokens, i),
        i <= tokens.len() ==> count_printable(tokens, i) <= tokens.len() - i,
    decreases tokens.len() - i,
{
    if 0 <= i < tokens.len() {
        lemma_count_printable_bounds(tokens, i + 1);
    }
}

/// The stable per-cell identity the generic styles are driven by:
/// `row * width + column`, reduced so it always fits the position type.
pub open spec fn stable_cell_id(row: int, term_w: int, printed: int) -> int {
    (row * term_w + printed) % 1000000000
}

/// What `cell_color` returns for every style: the dedicated per-cell
/// functions for the styles that have one, the weighted meteor average
/// (black where nothing contributes), and the generic per-character
/// function on the stable cell identity for the rest.
pub open spec fn cell_color_spec(
    style: AnimationStyle,
    t: int,
    row: int,
    printed: int,
    w: int,
    h: int,
    speed: int,
    meteors: Seq<Meteor>,
) -> (int, int, int) {
    match style {
        AnimationStyle::Matrix => matrix_color_spec(t, row, printed, h),
        AnimationStyle::Fire => fire_color_spec(t, row, printed, h),
        AnimationStyle::Plasma => plasma_color_spec(t, row, printed, w, h, speed),
        AnimationStyle::Aurora => aurora_color_spec(t, row, printed, w, h, speed),
        AnimationStyle::Lava => lava_color_spec(t, row, printed, w, h, speed),
        AnimationStyle::PulseRings => pulse_rings_color_spec(t, row, printed, w, h, speed),
        AnimationStyle::Marquee => marquee_color_spec(t, printed, w, speed),
        AnimationStyle::MeteorRain => {
            let n = meteors.len() as int;
            let ws = weight_sum(meteors, t, row, printed, n);
            if ws > 0 {
                (
                    chan_sum(meteors, t, row, printed, n, 0) / ws,
                    chan_sum(meteors, t, row, printed, n, 1) / ws,
                    chan_sum(meteors, t, row, printed, n, 2) / ws,
                )
            } else {
                (0int, 0int, 0int)
            }
        },
        _ => calculate_color_spec(style, t, stable_cell_id(row, w, printed)),
    }
}

/// The color of one visible cell under the active style.  Styles with a
/// dedicated per-cell function dispatch to it; the simple styles use the
/// generic per-character function with a stable per-cell identity.  The
/// Fall style is rendered from its own simulation state and never takes
/// this path.
#[verifier::rlimit(100)]
#[verifier::spinoff_prover]
pub fn cell_color(
    style: &AnimationStyle,
    time_ms: u64,
    row: usize,
    printed: usize,
    term_w: usize,
    term_h: usize,
    speed_milli: u32,
    meteors: &Vec<Meteor>,
) -> (rgb: (u8, u8, u8))
    requires
        row <= 65535,
        printed <= 65535,
        term_w <= 65535,
        term_h <= 65535,
        meteors@.len() <= 1000000,
        forall|i: int| 0 <= i < meteors@.len() ==> meteor_bounded(meteors@[i]),
    ensures
        (rgb.0 as int, rgb.1 as int, rgb.2 as int) == cell_color_spec(
            *style,
            time_ms as int,
            row as int,
            printed as int,
            term_w as int,
            term_h as int,
            speed_milli as int,
            meteors@,
        ),
{
    match style {
        AnimationStyle::Matrix => calculate_matrix_color_at(time_ms, row, printed, term_h),
        AnimationStyle::Fire => calculate_fire_color_at(time_ms, row, printed, term_h),
        AnimationStyle::Plasma => calculate_plasma_color_at(
            time_ms,
            row,
            printed,
            term_w,
            term_h,
            speed_milli,
        ),
        AnimationStyle::Aurora => calculate_aurora_color_at(
            time_ms,
            row,
            printed,
            term_w,
            term_h,
            speed_milli,
        ),
        AnimationStyle::Lava => calculate_lava_color_at(
            time_ms,
            row,
            printed,
            term_w,
            term_h,
            speed_milli,
        ),
        AnimationStyle::PulseRings => calculate_pulse_rings_color_at(
            time_ms,
            row,
            printed,
            term_w,
            term_h,
            speed_milli,
        ),
        AnimationStyle::Marquee => calculate_marquee_color_at(
            time_ms,
            row,
            printed,
            term_w,
            speed_milli,
        ),
        AnimationStyle::MeteorRain => {
            match sample_cell_color(time_ms, row, printed, meteors) {
                Some(rgb) => rgb,
                None => (0, 0, 0),
            }
        },
        _ => {
            proof {
                assert((row as int) * (term_w as int) <= 4294836225i64) by (nonlinear_arith)
                    requires
                        row <= 65535,
                        term_w <= 65535,
                ;
            }
            let stable: u64 = ((row as u64) * (term_w as u64) + (printed as u64)) % 1000000000;
            calculate_color(style, time_ms, stable as usize)
        },
    }
}

/// The paint one visible character receives: its style color, except
/// that Matrix cells outside every trail are hidden as blanks.
pub open spec fn cell_paint(
    style: AnimationStyle,
    t: int,
    row: int,
    printed: int,
    w: int,
    h: int,
    speed: int,
    meteors: Seq<Meteor>,
    ch: char,
) -> Paint {
    let rgb = cell_color_spec(style, t, row, printed, w, h, speed, meteors);
    if style == AnimationStyle::Matrix && rgb == (0int, 0int, 0int) {
        Paint::Blank
    } else {
        Paint::Colored(rgb.0 as u8, rgb.1 as u8, rgb.2 as u8, ch)
    }
}

/// The paint instructions of a token row from position `j` on, with
/// `printed` columns already used: escapes pass through verbatim and
/// advance no column, NUL tokens and characters beyond the width are
/// dropped, every other character is painted in its style color.
pub open spec fn row_paints(
    tokens: Seq<(String, char)>,
    style: AnimationStyle,
    t: int,
    row: int,
    w: int,
    h: int,
    speed: int,
    meteors: Seq<Meteor>,
    j: int,
    printed: int,
) -> Seq<Paint>
    decreases tokens.len() - j,
{
    if j < 0 || j >= tokens.len() {
        Seq::empty()
    } else {
        let tok = tokens[j];
        if tok.0@.len() != 0 {
            seq![Paint::Escape(tok.0)] + row_paints(
                tokens,
                style,
                t,
                row,
                w,
                h,
                speed,
                meteors,
                j + 1,
                printed,
            )
        } else if tok.1 as u32 == 0 || printed >= w {
            row_paints(tokens, style, t, row, w, h, speed, meteors, j + 1, printed)
        } else {
            seq![cell_paint(style, t, row, printed, w, h, speed, meteors, tok.1)] + row_paints(
                tokens,
                style,
                t,
                row,
                w,
                h,
                speed,
                meteors,
                j + 1,
                printed + 1,
            )
        }
    }
}

/// The blanks that erase the tail the previous frame left behind.
pub open spec fn blank_tail(printed: int, prev_width: int) -> Seq<Paint> {
    if prev_width > printed {
        Seq::new((prev_width - printed) as nat, |k: int| Paint::Blank)
    } else {
        Seq::empty()
    }
}

/// Compose one row of the frame: escapes pass through without advancing
/// the column, each printable character up to the terminal width gets
/// its style color (Matrix cells outside every trail become blanks), and
/// where the previous frame printed a longer row, blanks erase the
/// leftover tail.  Returns the instructions and how many columns were
/// printed.
pub fn compose_row(
    tokens: &Vec<(String, char)>,
    style: &AnimationStyle,
    time_ms: u64,
    row: usize,
    term_w: usize,
    term_h: usize,
    speed_milli: u32,
    meteors: &Vec<Meteor>,
    prev_width: usize,
) -> (out: (Vec<Paint>, usize))
    requires
        row <= 65535,
        term_w <= 65535,
        term_h <= 65535,
        prev_width <= 65535,
        meteors@.len() <= 1000000,
        forall|i: int| 0 <= i < meteors@.len() ==> meteor_bounded(meteors@[i]),
    ensures
        out.1 <= term_w,
        out.1 == count_printable(tokens@, 0) || (out.1 == term_w && count_printable(tokens@, 0)
            >= term_w),
        out.0@ == row_paints(
            tokens@,
            *style,
            time_ms as int,
            row as int,
            term_w as int,
            term_h as int,
            speed_milli as int,
            meteors@,
            0,
            0,
        ) + blank_tail(out.1 as int, prev_width as int),
{
    let mut paints: Vec<Paint> = Vec::new();
    let mut printed: usize = 0;
    let mut j: usize = 0;
    let n = tokens.len();
    proof {
        lemma_count_printable_bounds(tokens@, 0);
    }
    while j < n
        invariant
            j <= n,
            n == tokens@.len(),
            row <= 65535,
            term_w <= 65535,
            term_h <= 65535,
            prev_width <= 65535,
            meteors@.len() <= 1000000,
            forall|i: int| 0 <= i < meteors@.len() ==> meteor_bounded(meteors@[i]),
            printed <= term_w,
            count_printable(tokens@, 0) == printed + count_printable(tokens@, j as int) || (printed
                == term_w && count_printable(tokens@, 0) >= term_w + count_printable(
                tokens@,
                j as int,
            )),
            row_paints(
                tokens@,
                *style,
                time_ms as int,
                row as int,
                term_w as int,
                term_h as int,
                speed_milli as int,
                meteors@,
                0,
                0,
            ) == paints@ + row_paints(
                tokens@,
                *style,
                time_ms as int,
                row as int,
                term_w as int,
                term_h as int,
                speed_milli as int,
                meteors@,
                j as int,
                printed as int,
            ),
        decreases n - j,
    {
        proof {
            lemma_count_printable_bounds(tokens@, j as int);
            lemma_count_printable_bounds(tokens@, j as int + 1);
        }
        let ghost paints0 = paints@;
        let tok = &tokens[j];
        if tok.0.unicode_len() != 0 {
            paints.push(Paint::Escape(tok.0.clone()));
            proof {
                assert(paints@ =~= paints0 + seq![Paint::Escape(tokens@[j as int].0)]);
            }
            j += 1;
            continue ;
        }
        let ch: char = tok.1;
        if (ch as u32) == 0 {
            j += 1;
            continue ;
        }
        if printed >= term_w {
            j += 1;
            continue ;
        }
        let (r, g, b) = cell_color(style, time_ms, row, printed, term_w, term_h, speed_milli, meteors);
        let hidden = match style {
            AnimationStyle::Matrix => r == 0 && g == 0 && b == 0,
            _ => false,
        };
        if hidden {
            paints.push(Paint::Blank);
        } else {
            paints.push(Paint::Colored(r, g, b, ch));
        }
        proof {
            assert(paints@ =~= paints0 + seq![
                cell_paint(
                    *style,
                    time_ms as int,
                    row as int,
                    printed as int,
                    term_w as int,
                    term_h as int,
                    speed_milli as int,
                    meteors@,
                    ch,
                ),
            ]);
        }
        printed += 1;
        j += 1;
    }
    // Erase the tail the previous frame left behind.
    let ghost full = paints@;
    let mut k: usize = printed;
    while k < prev_width
        invariant
            printed <= k,
            k <= prev_width || k == printed,
            paints@ == full + Seq::new((k - printed) as nat, |q: int| Paint::Blank),
        decreases prev_width - k,
    {
        paints.push(Paint::Blank);
        proof {
            assert(paints@ =~= full + Seq::new((k + 1 - printed) as nat, |q: int| Paint::Blank));
        }
        k += 1;
    }
    proof {
        assert(paints@ =~= full + blank_tail(printed as int, prev_width as int));
    }
    (paints, printed)
}

} // verus!
