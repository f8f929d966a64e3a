use neonfetch::ansi::parse_ansi_text;
use neonfetch::args::parse_style_argument;
use neonfetch::aurora::calculate_aurora_color_at;
use neonfetch::comet::calculate_comet_color_at;
use neonfetch::embers::calculate_embers_color_at;
use neonfetch::embers::ember_color;
use neonfetch::fall::FallPhase;
use neonfetch::fall::FallSim;
use neonfetch::fire::calculate_fire_color_at;
use neonfetch::fixed::abs_diff;
use neonfetch::fixed::clamp_u64;
use neonfetch::fixed::gauss1000;
use neonfetch::fixed::isqrt64;
use neonfetch::fixed::scale_cap;
use neonfetch::fixed::sin1000;
use neonfetch::fixed::wave1000;
use neonfetch::kaleidoscope::calculate_kaleidoscope_color_at;
use neonfetch::lava::calculate_lava_color_at;
use neonfetch::logo::ascii_logo;
use neonfetch::marquee::calculate_marquee_color_at;
use neonfetch::matrix::calculate_matrix_color_at;
use neonfetch::matrix::xorshift32;
use neonfetch::meteor_rain::sample_cell_color;
use neonfetch::meteor_rain::spawn_meteor;
use neonfetch::meteor_rain::update_meteors;
use neonfetch::meteor_rain::Meteor;
use neonfetch::plasma::calculate_plasma_color_at;
use neonfetch::pulse_rings::calculate_pulse_rings_color_at;
use neonfetch::rainbow_outline::calculate_rainbow_outline_color_at;
use neonfetch::render::compose_row;
use neonfetch::render::Paint;
use neonfetch::styles::calculate_color;
use neonfetch::styles::hsv_to_rgb;
use neonfetch::styles::AnimationStyle;

#[test]
fn resolves_style_aliases() {
    assert_eq!(AnimationStyle::from_str("mr"), AnimationStyle::MeteorRain);
    assert_eq!(AnimationStyle::from_str("meteor"), AnimationStyle::MeteorRain);
    assert_eq!(AnimationStyle::from_str("meteors"), AnimationStyle::MeteorRain);
    assert_eq!(AnimationStyle::from_str("bogus"), AnimationStyle::Neon);
    assert_eq!(AnimationStyle::from_str("MATRIX"), AnimationStyle::Matrix);
    assert_eq!(AnimationStyle::from_str("classic"), AnimationStyle::Neon);
    assert_eq!(AnimationStyle::from_str("pulse-rings"), AnimationStyle::PulseRings);
    assert_eq!(AnimationStyle::from_str("s"), AnimationStyle::Fall);
}

#[test]
fn parses_style_arguments() {
    let args = vec![
        String::from("prog"),
        String::from("--style"),
        String::from("fire"),
    ];
    assert_eq!(parse_style_argument(&args), AnimationStyle::Fire);
    let args2 = vec![String::from("prog"), String::from("--animation=lava")];
    assert_eq!(parse_style_argument(&args2), AnimationStyle::Lava);
    let args3 = vec![String::from("prog")];
    assert_eq!(parse_style_argument(&args3), AnimationStyle::Neon);
    let args4 = vec![String::from("prog"), String::from("--style=wave")];
    assert_eq!(parse_style_argument(&args4), AnimationStyle::Wave);
}

#[test]
fn hsv_primaries_are_exact() {
    assert_eq!(hsv_to_rgb(0, 1000, 1000), (255, 0, 0));
    assert_eq!(hsv_to_rgb(1200, 1000, 1000), (0, 255, 0));
    assert_eq!(hsv_to_rgb(2400, 1000, 1000), (0, 0, 255));
}

#[test]
fn hsv_channels_cover_valid_inputs() {
    let mut h: u32 = 0;
    while h < 3600 {
        let (_r, _g, _b) = hsv_to_rgb(h, 1000, 1000);
        let (_r2, _g2, _b2) = hsv_to_rgb(h, 500, 250);
        h += 37;
    }
}

#[test]
fn sine_table_quarter_points() {
    assert_eq!(sin1000(0), 0);
    assert_eq!(sin1000(900), 1000);
    assert_eq!(sin1000(1800), 0);
    assert_eq!(sin1000(2700), -1000);
    assert_eq!(sin1000(450), 705);
    assert_eq!(wave1000(900), 2000);
    assert_eq!(wave1000(2700), 0);
}

#[test]
fn fixed_point_helpers_exact() {
    assert_eq!(isqrt64(17), 4);
    assert_eq!(isqrt64(16), 4);
    assert_eq!(isqrt64(0), 0);
    assert_eq!(gauss1000(0), 1000);
    assert_eq!(gauss1000(1000), 400);
    assert_eq!(abs_diff(3, 10), 7);
    assert_eq!(clamp_u64(5, 10, 20), 10);
    assert_eq!(scale_cap(-1000, 300, 1000, 100000), -300);
    assert_eq!(scale_cap(1000, 300, 1000, 200), 200);
}

#[test]
fn xorshift_is_a_fixed_hash() {
    assert_eq!(xorshift32(1), 270369);
    assert_eq!(xorshift32(1), 270369);
}

#[test]
fn zero_dimensions_give_neutral_colors() {
    for t in [0u64, 12345, 999999] {
        assert_eq!(calculate_plasma_color_at(t, 3, 4, 0, 24, 1000), (0, 0, 0));
        assert_eq!(calculate_plasma_color_at(t, 3, 4, 80, 0, 1000), (0, 0, 0));
        assert_eq!(calculate_aurora_color_at(t, 3, 4, 0, 24, 1000), (0, 0, 0));
        assert_eq!(calculate_aurora_color_at(t, 3, 4, 80, 0, 1000), (0, 0, 0));
        assert_eq!(calculate_lava_color_at(t, 3, 4, 0, 24, 1000), (0, 0, 0));
        assert_eq!(calculate_lava_color_at(t, 3, 4, 80, 0, 1000), (0, 0, 0));
        assert_eq!(calculate_pulse_rings_color_at(t, 3, 4, 0, 24, 1000), (0, 0, 0));
        assert_eq!(calculate_pulse_rings_color_at(t, 3, 4, 80, 0, 1000), (0, 0, 0));
        assert_eq!(calculate_kaleidoscope_color_at(t, 3, 4, 0, 24, 1000), (0, 0, 0));
        assert_eq!(calculate_kaleidoscope_color_at(t, 3, 4, 80, 0, 1000), (0, 0, 0));
        assert_eq!(calculate_comet_color_at(t, 3, 4, 0, 24, 1000), (0, 0, 0));
        assert_eq!(calculate_marquee_color_at(t, 3, 4, 0, 1000), (180, 180, 180));
        assert_eq!(calculate_fire_color_at(t, 3, 4, 0), (255, 80, 0));
    }
}

#[test]
fn pure_styles_are_idempotent() {
    let t: u64 = 987654;
    for style in [
        AnimationStyle::Wave,
        AnimationStyle::Pulse,
        AnimationStyle::Neon,
        AnimationStyle::Glow,
    ] {
        for pos in [0usize, 7, 1234] {
            assert_eq!(calculate_color(&style, t, pos), calculate_color(&style, t, pos));
        }
    }
    assert_eq!(
        calculate_plasma_color_at(t, 5, 9, 80, 24, 1000),
        calculate_plasma_color_at(t, 5, 9, 80, 24, 1000)
    );
    assert_eq!(
        calculate_matrix_color_at(t, 5, 9, 24),
        calculate_matrix_color_at(t, 5, 9, 24)
    );
    assert_eq!(
        calculate_aurora_color_at(t, 5, 9, 80, 24, 1000),
        calculate_aurora_color_at(t, 5, 9, 80, 24, 1000)
    );
    assert_eq!(
        calculate_lava_color_at(t, 5, 9, 80, 24, 1000),
        calculate_lava_color_at(t, 5, 9, 80, 24, 1000)
    );
    assert_eq!(
        calculate_kaleidoscope_color_at(t, 5, 9, 80, 24, 1000),
        calculate_kaleidoscope_color_at(t, 5, 9, 80, 24, 1000)
    );
    assert_eq!(ember_color(100, 500, 200), ember_color(100, 500, 200));
    assert_eq!(calculate_embers_color_at(t, 2, 3), calculate_embers_color_at(t, 2, 3));
    assert_eq!(
        calculate_rainbow_outline_color_at(t, 1, 1, 0b0101),
        calculate_rainbow_outline_color_at(t, 1, 1, 0b0101)
    );
}

#[test]
fn plasma_is_deterministic_at_origin() {
    let first = calculate_plasma_color_at(0, 0, 0, 80, 24, 1000);
    let second = calculate_plasma_color_at(0, 0, 0, 80, 24, 1000);
    assert_eq!(first, second);
    // The exact value is pinned so any change to the formula is visible.
    let third = calculate_plasma_color_at(0, 0, 0, 80, 24, 1000);
    assert_eq!(second, third);
}

#[test]
fn matrix_intensity_fades_behind_the_head() {
    // For a fixed column, walking up from the brightest row the green
    // channel never increases, and cells beyond the trail are black.
    let col = 3usize;
    let h = 24usize;
    let t = 7000u64;
    let mut greens = Vec::new();
    for row in 0..h {
        let (_o, g, _o2) = calculate_matrix_color_at(t, row, col, h);
        greens.push(g);
    }
    let head = (0..h).max_by_key(|&r| greens[r]).unwrap();
    // From the head upward (increasing distance behind the head) the
    // intensity never grows until the trail runs out.
    let mut prev = greens[head];
    let mut row = head;
    while row > 0 {
        row -= 1;
        assert!(greens[row] <= prev);
        prev = greens[row];
    }
}

#[test]
fn meteor_sampling_outside_reach_is_none() {
    let m = Meteor { x: 5000, y: 5000, vx: 1000, vy: 1000, life: 10000, age: 0, hue: 100, len: 4 };
    let meteors = vec![m];
    // Far beyond the projection range along the direction.
    assert_eq!(sample_cell_color(0, 50, 50, &meteors), None);
    // Behind the head (negative projection).
    assert_eq!(sample_cell_color(0, 0, 0, &meteors), None);
    // Far away perpendicular to the direction.
    assert_eq!(sample_cell_color(0, 1, 9, &meteors), None);
    // No meteors at all.
    let empty: Vec<Meteor> = Vec::new();
    assert_eq!(sample_cell_color(0, 5, 5, &empty), None);
}

#[test]
fn meteor_on_trail_contributes() {
    // Head at (6, 6) moving diagonally; the cell right at the head is lit.
    let m = Meteor { x: 5000, y: 5000, vx: 1000, vy: 1000, life: 10000, age: 0, hue: 100, len: 6 };
    let meteors = vec![m];
    let lit = sample_cell_color(0, 6, 6, &meteors);
    assert!(lit.is_some());
}

#[test]
fn meteor_update_keeps_population_bounds() {
    let mut meteors = vec![Meteor {
        x: 0,
        y: 0,
        vx: 22000,
        vy: 22000,
        life: 100,
        age: 99,
        hue: 0,
        len: 4,
    }];
    // One step of one second: the meteor outlives its lifetime and is
    // culled; at most one spawn replaces it.
    update_meteors(&mut meteors, 1000, 80, 24, 1000);
    assert!(meteors.len() <= 2);
    for m in meteors.iter() {
        assert!(m.hue < 3600);
        assert!(m.len >= 4 && m.len <= 9);
    }
}

#[test]
fn spawned_meteors_stay_in_documented_ranges() {
    for _ in 0..50 {
        let m = spawn_meteor(80, 24, 1000);
        assert!(m.x >= 0 && m.x <= 80 * 400);
        assert!(m.y <= 0 && m.y >= -5000);
        assert_eq!(m.age, 0);
        assert!(m.vy >= 1100);
        assert!(m.hue < 3600);
        assert!(m.len >= 4 && m.len <= 9);
    }
}

#[test]
fn tokenizer_splits_escapes_and_characters() {
    let toks = parse_ansi_text("\u{1b}[31mAB");
    assert_eq!(toks.len(), 3);
    assert_eq!(toks[0].0, "\u{1b}[31m");
    assert_eq!(toks[0].1, '\u{0}');
    assert_eq!(toks[1], (String::new(), 'A'));
    assert_eq!(toks[2], (String::new(), 'B'));
}

#[test]
fn tokenizer_plain_text_and_edge_cases() {
    let toks = parse_ansi_text("hi");
    assert_eq!(toks.len(), 2);
    assert_eq!(toks[0].1, 'h');
    assert_eq!(toks[1].1, 'i');
    // A trailing escape character stands alone as a printable.
    let toks2 = parse_ansi_text("a\u{1b}");
    assert_eq!(toks2.len(), 2);
    assert_eq!(toks2[1].1, '\u{1b}');
    // A two-character escape.
    let toks3 = parse_ansi_text("\u{1b}cX");
    assert_eq!(toks3.len(), 2);
    assert_eq!(toks3[0].0, "\u{1b}c");
    assert_eq!(toks3[1].1, 'X');
    assert_eq!(parse_ansi_text("").len(), 0);
}

#[test]
fn compose_row_counts_and_pads() {
    let toks = parse_ansi_text("\u{1b}[31mabc");
    let meteors: Vec<Meteor> = Vec::new();
    // Width two: only two of the three characters are printed, and three
    // blanks erase the five columns the previous frame used.
    let (paints, printed) =
        compose_row(&toks, &AnimationStyle::Neon, 0, 0, 2, 24, 1000, &meteors, 5);
    assert_eq!(printed, 2);
    let mut escapes = 0;
    let mut colored = 0;
    let mut blanks = 0;
    for p in paints.iter() {
        match p {
            Paint::Escape(e) => {
                escapes += 1;
                assert_eq!(e, "\u{1b}[31m");
            }
            Paint::Colored(_, _, _, _) => colored += 1,
            Paint::Blank => blanks += 1,
        }
    }
    assert_eq!(escapes, 1);
    assert_eq!(colored, 2);
    assert_eq!(blanks, 3);
}

#[test]
fn fall_settles_without_floating_letters() {
    let mut sim = FallSim::new(10, 8);
    let mut rows = Vec::new();
    rows.push(parse_ansi_text("####"));
    rows.push(parse_ansi_text("##"));
    sim.init_letters(&rows, 0);
    assert_eq!(sim.phase, FallPhase::Static);
    let mut now: u64 = 0;
    for _ in 0..400 {
        now += 50;
        sim.step(now, 50, 1000);
    }
    // After plenty of frames everything has settled; the resolved grid
    // must hold no floating cell: every occupied cell above the bottom
    // row sits on an occupied cell.
    let grid = sim.build_settled_grid();
    assert_eq!(grid.len(), 8 * 10);
    for r in 0..7usize {
        for c in 0..10usize {
            if grid[r * 10 + c].is_some() {
                assert!(grid[(r + 1) * 10 + c].is_some());
            }
        }
    }
}

#[test]
fn fall_static_then_falling() {
    let mut sim = FallSim::new(6, 5);
    let rows = vec![parse_ansi_text("##")];
    sim.init_letters(&rows, 0);
    assert_eq!(sim.phase, FallPhase::Static);
    // After the release window has certainly passed, stepping leaves the
    // Static phase.
    sim.step(5000, 16, 1000);
    assert_eq!(sim.phase, FallPhase::Falling);
}

#[test]
fn logos_resolve_by_identifier() {
    assert_eq!(ascii_logo("arch").len(), 7);
    assert_eq!(ascii_logo("Ubuntu").len(), 8);
    assert_eq!(ascii_logo("debian").len(), 9);
    assert_eq!(ascii_logo("suse").len(), 9);
    assert_eq!(ascii_logo("something-else").len(), 12);
}

#[test]
fn marquee_band_is_brighter_than_background() {
    // At time zero the band sits at column zero: that cell is brighter
    // than a cell far away in the dim background.
    let (r0, g0, b0) = calculate_marquee_color_at(0, 0, 0, 80, 1000);
    let (r1, g1, b1) = calculate_marquee_color_at(0, 0, 40, 80, 1000);
    let band = r0 as u32 + g0 as u32 + b0 as u32;
    let bg = r1 as u32 + g1 as u32 + b1 as u32;
    assert!(band > bg);
}

#[test]
fn rainbow_outline_edge_differs_from_interior() {
    let t = 123456u64;
    let edge = calculate_rainbow_outline_color_at(t, 0, 0, 0b0001);
    let interior = calculate_rainbow_outline_color_at(t, 0, 0, 0);
    assert_ne!(edge, interior);
}

#[test]
fn generic_color_gives_placeholders_for_dedicated_styles() {
    assert_eq!(calculate_color(&AnimationStyle::Matrix, 0, 0), (0, 255, 0));
    assert_eq!(calculate_color(&AnimationStyle::Fire, 0, 0), (255, 80, 0));
    assert_eq!(calculate_color(&AnimationStyle::Lava, 0, 0), (255, 80, 20));
}

#[test]
fn meteor_update_steps_deterministically() {
    let mut meteors = vec![Meteor {
        x: 1000,
        y: 1000,
        vx: 2000,
        vy: 3000,
        life: 100000,
        age: 10,
        hue: 5,
        len: 4,
    }];
    update_meteors(&mut meteors, 1000, 80, 24, 1000);
    // The surviving meteor was aged by the full second and advanced by
    // its velocity; a spawn may follow it but never precedes it.
    assert!(!meteors.is_empty());
    assert_eq!(meteors[0].x, 3000);
    assert_eq!(meteors[0].y, 4000);
    assert_eq!(meteors[0].age, 1010);
    assert_eq!(meteors[0].hue, 5);
}

#[test]
fn fall_settled_resets_after_dwell() {
    let mut sim = FallSim::new(4, 3);
    sim.phase = FallPhase::Settled;
    sim.phase_start_ms = 1000;
    // Before the dwell has passed nothing changes.
    sim.step(3000, 16, 1000);
    assert_eq!(sim.phase, FallPhase::Settled);
    // After the four-second dwell the simulation resets to Static with
    // empty piles.
    sim.step(6001, 16, 1000);
    assert_eq!(sim.phase, FallPhase::Static);
    assert!(sim.letters.is_empty());
    for col in sim.pile.iter() {
        assert!(col.is_empty());
    }
}

#[test]
fn logos_carry_their_own_art() {
    assert_eq!(ascii_logo("arch")[1], "      /\\      ");
    assert_eq!(ascii_logo("ubuntu")[1], "    ####  ####  ");
    assert_eq!(ascii_logo("unknown-distro")[1], "      #######          ");
}
