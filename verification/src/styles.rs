//! Style registry and the generic per-character color function.
//!
//! `AnimationStyle` is the closed set of animation styles; a style is
//! resolved from a case-insensitive name or abbreviation, with unknown
//! names falling back to the default (`Neon`).  `hsv_to_rgb` is the color
//! model shared by nearly every style, and `calculate_color` is the
//! per-character function for the simple styles (Wave, Pulse, Neon, Glow).

use vstd::prelude::*;

use crate::fixed::abs_diff_spec;
use crate::fixed::wave1000;
use crate::fixed::wave1000_spec;

verus! {

/// Closed set of animation styles the engine can render.
#[derive(Debug, Clone, Copy, PartialEq, Eq, Structural)]
pub enum AnimationStyle {
    Wave,
    Pulse,
    Neon,
    Matrix,
    Fire,
    Fall,
    Marquee,
    Typing,
    Plasma,
    Glow,
    Aurora,
    Glitch,
    PulseRings,
    MeteorRain,
    Lava,
    EdgeGlow,
}

/// ASCII lowercasing of one character; other characters are untouched.
pub open spec fn lower_char(c: char) -> char {
    if 65 <= c as u8 && c as u8 <= 90 && c as u32 <= 127 {
        ((c as u8) + 32) as char
    } else {
        c
    }
}

/// ASCII lowercasing of a whole character sequence.
pub open spec fn lower_seq(s: Seq<char>) -> Seq<char> {
    s.map_values(|c: char| lower_char(c))
}

fn lower_char_exec(c: char) -> (r: char)
    ensures
        r == lower_char(c),
{
    let code: u32 = c as u32;
    if 65 <= code && code <= 90 {
        ((c as u8) + 32) as char
    } else {
        c
    }
}

/// True exactly when `s`, lowercased ASCII-wise, equals `t`.
pub(crate) fn eq_lower(s: &str, t: &str) -> (r: bool)
    ensures
        r == (lower_seq(s@) == t@),
{
    let n = s.unicode_len();
    if n != t.unicode_len() {
        assert(lower_seq(s@).len() == s@.len());
        return false;
    }
    let mut i: usize = 0;
    while i < n
        invariant
            n == s@.len(),
            n == t@.len(),
            i <= n,
            forall|j: int| 0 <= j < i ==> lower_char(s@[j]) == t@[j],
        decreases n - i,
    {
        let sc = lower_char_exec(s.get_char(i));
        let tc = t.get_char(i);
        if sc != tc {
            assert(lower_seq(s@)[i as int] != t@[i as int]);
            return false;
        }
        i += 1;
    }
    proof {
        assert(lower_seq(s@) =~= t@);
    }
    true
}

/// The style a name resolves to: case-insensitive, with legacy aliases,
/// and `Neon` for anything unrecognized.
pub open spec fn resolve_style(s: Seq<char>) -> AnimationStyle {
    let l = lower_seq(s);
    if l == "classic"@ || l == "c"@ {
        AnimationStyle::Neon
    } else if l == "wave"@ || l == "w"@ {
        AnimationStyle::Wave
    } else if l == "pulse"@ || l == "p"@ {
        AnimationStyle::Pulse
    } else if l == "neon"@ || l == "n"@ {
        AnimationStyle::Neon
    } else if l == "matrix"@ || l == "m"@ {
        AnimationStyle::Matrix
    } else if l == "fire"@ || l == "f"@ {
        AnimationStyle::Fire
    } else if l == "fall"@ || l == "stack"@ || l == "s"@ {
        AnimationStyle::Fall
    } else if l == "marquee"@ || l == "mq"@ {
        AnimationStyle::Marquee
    } else if l == "typing"@ || l == "type"@ || l == "t"@ {
        AnimationStyle::Typing
    } else if l == "plasma"@ || l == "ps"@ {
        AnimationStyle::Plasma
    } else if l == "glow"@ || l == "g"@ {
        AnimationStyle::Glow
    } else if l == "aurora"@ || l == "au"@ || l == "northern"@ {
        AnimationStyle::Aurora
    } else if l == "glitch"@ || l == "gl"@ {
        AnimationStyle::Glitch
    } else if l == "pulse-rings"@ || l == "pulserings"@ || l == "rings"@ || l == "pr"@ {
        AnimationStyle::PulseRings
    } else if l == "meteor-rain"@ || l == "meteorrain"@ || l == "meteor"@ || l == "meteors"@
        || l == "mr"@ {
        AnimationStyle::MeteorRain
    } else if l == "lava"@ || l == "lv"@ {
        AnimationStyle::Lava
    } else if l == "edge-glow"@ || l == "edgeglow"@ || l == "eg"@ {
        AnimationStyle::EdgeGlow
    } else {
        AnimationStyle::Neon
    }
}

impl AnimationStyle {
    /// Resolve a style from its name or abbreviation, case-insensitively;
    /// unknown names fall back to the default style (`Neon`).
    pub fn from_str(s: &str) -> (r: Self)
        ensures
            r == resolve_style(s@),
    {
        if eq_lower(s, "classic") || eq_lower(s, "c") {
            AnimationStyle::Neon
        } else if eq_lower(s, "wave") || eq_lower(s, "w") {
            AnimationStyle::Wave
        } else if eq_lower(s, "pulse") || eq_lower(s, "p") {
            AnimationStyle::Pulse
        } else if eq_lower(s, "neon") || eq_lower(s, "n") {
            AnimationStyle::Neon
        } else if eq_lower(s, "matrix") || eq_lower(s, "m") {
            AnimationStyle::Matrix
        } else if eq_lower(s, "fire") || eq_lower(s, "f") {
            AnimationStyle::Fire
        } else if eq_lower(s, "fall") || eq_lower(s, "stack") || eq_lower(s, "s") {
            AnimationStyle::Fall
        } else if eq_lower(s, "marquee") || eq_lower(s, "mq") {
            AnimationStyle::Marquee
        } else if eq_lower(s, "typing") || eq_lower(s, "type") || eq_lower(s, "t") {
            AnimationStyle::Typing
        } else if eq_lower(s, "plasma") || eq_lower(s, "ps") {
            AnimationStyle::Plasma
        } else if eq_lower(s, "glow") || eq_lower(s, "g") {
            AnimationStyle::Glow
        } else if eq_lower(s, "aurora") || eq_lower(s, "au") || eq_lower(s, "northern") {
            AnimationStyle::Aurora
        } else if eq_lower(s, "glitch") || eq_lower(s, "gl") {
            AnimationStyle::Glitch
        } else if eq_lower(s, "pulse-rings") || eq_lower(s, "pulserings") || eq_lower(s, "rings")
            || eq_lower(s, "pr") {
            AnimationStyle::PulseRings
        } else if eq_lower(s, "meteor-rain") || eq_lower(s, "meteorrain") || eq_lower(s, "meteor")
            || eq_lower(s, "meteors") || eq_lower(s, "mr") {
            AnimationStyle::MeteorRain
        } else if eq_lower(s, "lava") || eq_lower(s, "lv") {
            AnimationStyle::Lava
        } else if eq_lower(s, "edge-glow") || eq_lower(s, "edgeglow") || eq_lower(s, "eg") {
            AnimationStyle::EdgeGlow
        } else {
            AnimationStyle::Neon
        }
    }
}

/// Sector-based HSV to RGB conversion.  Hue is in tenth-degrees
/// (`0..3600`), saturation and value in thousandths (`0..=1000`); each
/// output channel lies in `0..=255`.
pub open spec fn hsv_to_rgb_spec(h: int, s: int, v: int) -> (int, int, int) {
    let c = v * s / 1000;
    let f = h % 1200;
    let x = c * (600 - abs_diff_spec(f, 600)) / 600;
    let m = v - c;
    let rp = if h < 600 {
        (c, x, 0int)
    } else if h < 1200 {
        (x, c, 0int)
    } else if h < 1800 {
        (0int, c, x)
    } else if h < 2400 {
        (0int, x, c)
    } else if h < 3000 {
        (x, 0int, c)
    } else {
        (c, 0int, x)
    };
    ((rp.0 + m) * 255 / 1000, (rp.1 + m) * 255 / 1000, (rp.2 + m) * 255 / 1000)
}

/// Every channel of the conversion stays in `0..=255` on the documented
/// input ranges.
pub proof fn lemma_hsv_to_rgb_in_range(h: int, s: int, v: int)
    requires
        0 <= h < 3600,
        0 <= s <= 1000,
        0 <= v <= 1000,
    ensures
        0 <= hsv_to_rgb_spec(h, s, v).0 <= 255,
        0 <= hsv_to_rgb_spec(h, s, v).1 <= 255,
        0 <= hsv_to_rgb_spec(h, s, v).2 <= 255,
{
    let c = v * s / 1000;
    assert(0 <= c <= v) by (nonlinear_arith)
        requires
            0 <= s <= 1000,
            0 <= v <= 1000,
            c == v * s / 1000,
    ;
    let f = h % 1200;
    let x = c * (600 - abs_diff_spec(f, 600)) / 600;
    assert(0 <= x <= c) by (nonlinear_arith)
        requires
            0 <= c <= 1000,
            0 <= 600 - abs_diff_spec(f, 600) <= 600,
            x == c * (600 - abs_diff_spec(f, 600)) / 600,
    ;
}

/// Pure red, green and blue come out exactly at hue 0, 120 and 240
/// degrees with full saturation and value.
pub proof fn lemma_hsv_to_rgb_primaries()
    ensures
        hsv_to_rgb_spec(0, 1000, 1000) == (255int, 0int, 0int),
        hsv_to_rgb_spec(1200, 1000, 1000) == (0int, 255int, 0int),
        hsv_to_rgb_spec(2400, 1000, 1000) == (0int, 0int, 255int),
{
    assert(1000 * 1000 / 1000 == 1000int);
    assert(abs_diff_spec(0int % 1200, 600) == 600);
    assert(abs_diff_spec(1200int % 1200, 600) == 600);
    assert(abs_diff_spec(2400int % 1200, 600) == 600);
    assert(1000 * (600 - 600) / 600 == 0int);
    assert((1000 + 0) * 255 / 1000 == 255int);
    assert((0 + 0) * 255 / 1000 == 0int);
}

/// HSV to RGB conversion.  Hue in tenth-degrees, saturation and value in
/// thousandths; no error cases, callers pre-clamp their inputs.
pub fn hsv_to_rgb(h: u32, s: u32, v: u32) -> (rgb: (u8, u8, u8))
    requires
        h < 3600,
        s <= 1000,
        v <= 1000,
    ensures
        (rgb.0 as int, rgb.1 as int, rgb.2 as int) == hsv_to_rgb_spec(h as int, s as int, v as int),
{
    proof {
        lemma_hsv_to_rgb_in_range(h as int, s as int, v as int);
    }
    let c: u32 = v * s / 1000;
    assert(c <= v) by (nonlinear_arith)
        requires
            s <= 1000,
            v <= 1000,
            c == v * s / 1000,
    ;
    let f: u32 = h % 1200;
    let d: u32 = if f >= 600 {
        f - 600
    } else {
        600 - f
    };
    let x: u32 = c * (600 - d) / 600;
    assert(x <= c) by (nonlinear_arith)
        requires
            c <= 1000,
            600 - d <= 600,
            x == c * (600 - d) / 600,
    ;
    let m: u32 = v - c;
    let (rp, gp, bp): (u32, u32, u32) = if h < 600 {
        (c, x, 0)
    } else if h < 1200 {
        (x, c, 0)
    } else if h < 1800 {
        (0, c, x)
    } else if h < 2400 {
        (0, x, c)
    } else if h < 3000 {
        (x, 0, c)
    } else {
        (c, 0, x)
    };
    let r: u32 = (rp + m) * 255 / 1000;
    let g: u32 = (gp + m) * 255 / 1000;
    let b: u32 = (bp + m) * 255 / 1000;
    (r as u8, g as u8, b as u8)
}


/// One hour in milliseconds: every style function is periodic in time
/// with (at most) this period, which keeps all phase arithmetic bounded.
pub open spec fn time_period() -> int {
    3600000
}

/// Wave style: a primary traveling sine over the character position sets
/// the brightness, a slower secondary sine forms an envelope, and the hue
/// drifts slowly with time.
pub open spec fn wave_color_spec(t: int, pos: int) -> (int, int, int) {
    let tr = t % time_period();
    let pr = pos % 3600;
    let wn = wave1000_spec(pr * 200 + tr * 1719 / 1000) / 2;
    let env = 750 + (wave1000_spec(pr * 57 + tr * 401 / 1000) / 2) * 250 / 1000;
    let v0 = 350 + wn * 650 / 1000;
    let v = v0 * env / 1000;
    let hue = (tr * 80 / 1000) % 3600;
    hsv_to_rgb_spec(hue, 650, if v > 1000 { 1000 } else { v })
}

/// Pulse style: hue cycles with a small per-position ripple, brightness
/// and saturation follow a traveling sine, a slow breathing scales the
/// value, and the brightest pulses blend toward a warm white.
pub open spec fn pulse_color_spec(t: int, pos: int) -> (int, int, int) {
    let tr = t % time_period();
    let pr = pos % 3600;
    let base = (tr / 4) % 3600;
    let ripp = wave1000_spec(pr * 20 + tr * 344 / 1000) * 60 / 1000;
    let hue = (base + 3540 + ripp) % 3600;
    let wn = wave1000_spec(pr * 57 + tr * 1261 / 1000) / 2;
    let val = 250 + wn * 750 / 1000;
    let sat = 550 + wn * 350 / 1000;
    let breath = 920 + wave1000_spec(tr * 516 / 1000) * 40 / 1000;
    let v2 = val * breath / 1000;
    let rgb = hsv_to_rgb_spec(hue, sat, if v2 > 1000 { 1000 } else { v2 });
    if val > 800 {
        let gm = (val - 800) * 5 * 180 / 1000;
        ((rgb.0 * (1000 - gm) + 230 * gm) / 1000, (rgb.1 * (1000 - gm) + 230 * gm) / 1000, (rgb.2
            * (1000 - gm) + 230 * gm) / 1000)
    } else {
        rgb
    }
}

/// Neon style: the hue swings around a slowly cycling base by at most ten
/// degrees, steered by a per-position sine times a time-varying
/// direction; the value breathes slightly and every channel is mixed five
/// percent toward mid gray.
pub open spec fn neon_color_spec(t: int, pos: int) -> (int, int, int) {
    let tr = t % time_period();
    let pr = pos % 3600;
    let base = (tr / 5) % 3600;
    let cent = wave1000_spec(pr * 46) / 2;
    let dir = wave1000_spec(tr * 516 / 1000);
    let shift = cent * dir + 1500000 - 1000 * cent - 500 * dir;
    let hue = (base + 3400 + shift / 5000) % 3600;
    let val = 787 + wave1000_spec(tr * 688 / 1000) * 33 / 1000;
    let rgb = hsv_to_rgb_spec(hue, 720, val);
    ((rgb.0 * 950 + 6400) / 1000, (rgb.1 * 950 + 6400) / 1000, (rgb.2 * 950 + 6400) / 1000)
}

/// Per-position hash used by the Glow style for a stable shimmer.
pub open spec fn glow_hash_spec(pr: u32) -> u32 {
    ((((pr as u64) * 2654435761) % 4294967296) as u32) ^ 0x9E3779B9u32
}

/// Glow style: a slow global breathing of the value with a slight hue
/// drift, plus a small per-position jitter from an integer hash.
pub open spec fn glow_color_spec(t: int, pos: int) -> (int, int, int) {
    let tr = t % time_period();
    let pr = pos % 3600;
    let base = (tr * 12 / 100) % 3600;
    let breath = 600 + wave1000_spec(tr * 516 / 1000) * 200 / 1000;
    let noise = glow_hash_spec(pr as u32) % 81;
    let bn = breath + noise;
    let v = (if bn < 90 { 90 } else if bn > 1040 { 1040 } else { bn }) - 40;
    let sat0 = 490 + (breath - 600) * 300 / 1000;
    let sat = if sat0 < 300 { 300 } else if sat0 > 950 { 950 } else { sat0 };
    hsv_to_rgb_spec(base, sat, v)
}

/// The generic per-character color: the simple styles compute their color
/// here from time and the stable per-cell position; styles with a
/// dedicated renderer report their documented placeholder color.
pub open spec fn calculate_color_spec(style: AnimationStyle, t: int, pos: int) -> (int, int, int) {
    match style {
        AnimationStyle::Wave => wave_color_spec(t, pos),
        AnimationStyle::Pulse => pulse_color_spec(t, pos),
        AnimationStyle::Neon => neon_color_spec(t, pos),
        AnimationStyle::Glow => glow_color_spec(t, pos),
        AnimationStyle::Matrix => (0int, 255int, 0int),
        AnimationStyle::Fire => (255int, 80int, 0int),
        AnimationStyle::Fall => (200int, 200int, 200int),
        AnimationStyle::Marquee => (160int, 160int, 160int),
        AnimationStyle::Typing => (200int, 200int, 200int),
        AnimationStyle::Plasma => (180int, 180int, 180int),
        AnimationStyle::Aurora => (160int, 190int, 255int),
        AnimationStyle::Glitch => (200int, 200int, 200int),
        AnimationStyle::PulseRings => (200int, 200int, 200int),
        AnimationStyle::MeteorRain => (180int, 180int, 180int),
        AnimationStyle::Lava => (255int, 80int, 20int),
        AnimationStyle::EdgeGlow => (200int, 200int, 200int),
    }
}

fn wave_color(time_ms: u64, char_pos: usize) -> (rgb: (u8, u8, u8))
    ensures
        (rgb.0 as int, rgb.1 as int, rgb.2 as int) == wave_color_spec(time_ms as int, char_pos as int),
{
    let tr: u64 = time_ms % 3600000;
    let pr: u64 = (char_pos as u64) % 3600;
    let wn: u32 = wave1000(pr * 200 + tr * 1719 / 1000) / 2;
    let env: u32 = 750 + (wave1000(pr * 57 + tr * 401 / 1000) / 2) * 250 / 1000;
    let v0: u32 = 350 + wn * 650 / 1000;
    assert(v0 * env <= 1000000) by (nonlinear_arith)
        requires
            v0 <= 1000,
            env <= 1000,
    ;
    let v: u32 = v0 * env / 1000;
    let hue: u32 = ((tr * 80 / 1000) % 3600) as u32;
    hsv_to_rgb(hue, 650, if v > 1000 { 1000 } else { v })
}

fn pulse_color(time_ms: u64, char_pos: usize) -> (rgb: (u8, u8, u8))
    ensures
        (rgb.0 as int, rgb.1 as int, rgb.2 as int) == pulse_color_spec(time_ms as int, char_pos as int),
{
    let tr: u64 = time_ms % 3600000;
    let pr: u64 = (char_pos as u64) % 3600;
    let base: u64 = (tr / 4) % 3600;
    let ripp: u32 = wave1000(pr * 20 + tr * 344 / 1000) * 60 / 1000;
    let hue: u32 = ((base as u32) + 3540 + ripp) % 3600;
    let wn: u32 = wave1000(pr * 57 + tr * 1261 / 1000) / 2;
    let val: u32 = 250 + wn * 750 / 1000;
    let sat: u32 = 550 + wn * 350 / 1000;
    let breath: u32 = 920 + wave1000(tr * 516 / 1000) * 40 / 1000;
    assert(val * breath <= 1000000) by (nonlinear_arith)
        requires
            val <= 1000,
            breath <= 1000,
    ;
    let v2: u32 = val * breath / 1000;
    let (r, g, b) = hsv_to_rgb(hue, sat, if v2 > 1000 { 1000 } else { v2 });
    if val > 800 {
        let gm: u32 = (val - 800) * 5 * 180 / 1000;
        assert(gm <= 180);
        assert((r as u32) * (1000 - gm) + 230 * gm <= 255000) by (nonlinear_arith)
            requires
                r as u32 <= 255,
                gm <= 180,
        ;
        assert((g as u32) * (1000 - gm) + 230 * gm <= 255000) by (nonlinear_arith)
            requires
                g as u32 <= 255,
                gm <= 180,
        ;
        assert((b as u32) * (1000 - gm) + 230 * gm <= 255000) by (nonlinear_arith)
            requires
                b as u32 <= 255,
                gm <= 180,
        ;
        let r2: u32 = ((r as u32) * (1000 - gm) + 230 * gm) / 1000;
        let g2: u32 = ((g as u32) * (1000 - gm) + 230 * gm) / 1000;
        let b2: u32 = ((b as u32) * (1000 - gm) + 230 * gm) / 1000;
        (r2 as u8, g2 as u8, b2 as u8)
    } else {
        (r, g, b)
    }
}

fn neon_color(time_ms: u64, char_pos: usize) -> (rgb: (u8, u8, u8))
    ensures
        (rgb.0 as int, rgb.1 as int, rgb.2 as int) == neon_color_spec(time_ms as int, char_pos as int),
{
    let tr: u64 = time_ms % 3600000;
    let pr: u64 = (char_pos as u64) % 3600;
    let base: u64 = (tr / 5) % 3600;
    let cent: u32 = wave1000(pr * 46) / 2;
    let dir: u32 = wave1000(tr * 516 / 1000);
    assert(cent * dir + 1500000 >= 1000 * cent + 500 * dir) by (nonlinear_arith)
        requires
            cent <= 1000,
            dir <= 2000,
    ;
    assert(cent * dir <= 2000000) by (nonlinear_arith)
        requires
            cent <= 1000,
            dir <= 2000,
    ;
    let shift: u32 = cent * dir + 1500000 - 1000 * cent - 500 * dir;
    let hue: u32 = ((base as u32) + 3400 + shift / 5000) % 3600;
    let val: u32 = 787 + wave1000(tr * 688 / 1000) * 33 / 1000;
    let (r, g, b) = hsv_to_rgb(hue, 720, val);
    let r2: u32 = ((r as u32) * 950 + 6400) / 1000;
    let g2: u32 = ((g as u32) * 950 + 6400) / 1000;
    let b2: u32 = ((b as u32) * 950 + 6400) / 1000;
    (r2 as u8, g2 as u8, b2 as u8)
}

fn glow_color(time_ms: u64, char_pos: usize) -> (rgb: (u8, u8, u8))
    ensures
        (rgb.0 as int, rgb.1 as int, rgb.2 as int) == glow_color_spec(time_ms as int, char_pos as int),
{
    let tr: u64 = time_ms % 3600000;
    let pr: u64 = (char_pos as u64) % 3600;
    let base: u32 = ((tr * 12 / 100) % 3600) as u32;
    let breath: u32 = 600 + wave1000(tr * 516 / 1000) * 200 / 1000;
    let hash: u32 = ((((pr as u32) as u64) * 2654435761 % 4294967296) as u32) ^ 0x9E3779B9u32;
    assert(hash == glow_hash_spec(pr as u32));
    let noise: u32 = hash % 81;
    let bn: u32 = breath + noise;
    let v: u32 = (if bn < 90 { 90 } else if bn > 1040 { 1040 } else { bn }) - 40;
    let sat0: u32 = 490 + (breath - 600) * 300 / 1000;
    let sat: u32 = if sat0 < 300 { 300 } else if sat0 > 950 { 950 } else { sat0 };
    hsv_to_rgb(base, sat, v)
}

/// Per-character color for the active style.  The simple styles (Wave,
/// Pulse, Neon, Glow) are pure functions of time and the stable per-cell
/// position; every other style has a dedicated renderer and reports its
/// documented placeholder color here.
pub fn calculate_color(style: &AnimationStyle, time_ms: u64, char_pos: usize) -> (rgb: (u8, u8, u8))
    ensures
        (rgb.0 as int, rgb.1 as int, rgb.2 as int) == calculate_color_spec(*style, time_ms as int, char_pos as int),
{
    match style {
        AnimationStyle::Wave => wave_color(time_ms, char_pos),
        AnimationStyle::Pulse => pulse_color(time_ms, char_pos),
        AnimationStyle::Neon => neon_color(time_ms, char_pos),
        AnimationStyle::Glow => glow_color(time_ms, char_pos),
        AnimationStyle::Matrix => (0, 255, 0),
        AnimationStyle::Fire => (255, 80, 0),
        AnimationStyle::Fall => (200, 200, 200),
        AnimationStyle::Marquee => (160, 160, 160),
        AnimationStyle::Typing => (200, 200, 200),
        AnimationStyle::Plasma => (180, 180, 180),
        AnimationStyle::Aurora => (160, 190, 255),
        AnimationStyle::Glitch => (200, 200, 200),
        AnimationStyle::PulseRings => (200, 200, 200),
        AnimationStyle::MeteorRain => (180, 180, 180),
        AnimationStyle::Lava => (255, 80, 20),
        AnimationStyle::EdgeGlow => (200, 200, 200),
    }
}

} // verus!
