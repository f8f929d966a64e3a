//! Fall style: a three-phase simulation.  Letters first stand at their
//! original grid position (Static), then released letters fall under
//! gravity with horizontal drift, wall bounce and restitution (Falling);
//! a letter landing slowly settles onto its column's pile with a tilt
//! leaning toward the locally lower side.  When no letters remain
//! airborne (Settled), the whole simulation resets after a dwell.
//!
//! Settled piles are rendered through a support-resolving placement: a
//! tilted unit may shift sideways, but only onto a cell whose cell
//! directly beneath is occupied — the placement walks the candidate
//! column back toward the column where the unit below it landed until a
//! supported cell is found, so no settled unit ever floats.
//!
//! Positions are in milli-cells, velocities in milli-cells per second,
//! times in milliseconds, tilts in thousandths of a cell.

use vstd::prelude::*;

use crate::rng::rand1000;

verus! {

/// A letter that is standing, falling or bouncing.
#[derive(Clone, Copy)]
pub struct FallingLetter {
    pub ch: char,
    pub orig_row: usize,
    pub orig_col: usize,
    pub x: i64,
    pub y: i64,
    pub vx: i64,
    pub vy: i64,
    pub release_ms: u64,
}

/// A unit resting in a column's pile, with its lean.
#[derive(Clone, Copy)]
pub struct SettledUnit {
    pub ch: char,
    pub tilt: i32,
}

/// The phase of the simulation.
#[derive(Clone, Copy, PartialEq, Eq, Structural, Debug)]
pub enum FallPhase {
    Static,
    Falling,
    Settled,
}

/// Bounds every airborne letter satisfies.
pub open spec fn letter_wf(l: FallingLetter, w: int) -> bool {
    &&& 0 <= l.x
    &&& l.x <= if w >= 1 {
        (w - 1) * 1000
    } else {
        0int
    }
    &&& -1000000 <= l.y <= 70000000
    &&& -100000 <= l.vx <= 100000
    &&& -20000000 <= l.vy <= 20000000
    &&& l.orig_row <= 65535
    &&& l.orig_col <= 65535
    &&& l.release_ms <= 0x1000000000000
}

/// Bounds every settled unit satisfies.
pub open spec fn unit_wf(u: SettledUnit) -> bool {
    -1610 <= u.tilt <= 1610
}

/// Bounds one pile column satisfies: no taller than the terminal, all
/// units well-formed.
pub open spec fn pile_col_wf(v: Vec<SettledUnit>, h: int) -> bool {
    v@.len() <= h && forall|k: int| 0 <= k < v@.len() ==> unit_wf(#[trigger] v@[k])
}

/// Total number of settled units in the first `i` pile columns.
pub open spec fn pile_units(p: Seq<Vec<SettledUnit>>, i: int) -> int
    decreases i,
{
    if i <= 0 {
        0int
    } else {
        pile_units(p, i - 1) + p[i - 1]@.len()
    }
}

/// Changing one column changes the total by that column's growth.
pub proof fn lemma_pile_units_update(
    p: Seq<Vec<SettledUnit>>,
    q: Seq<Vec<SettledUnit>>,
    col: int,
    n: int,
)
    requires
        0 <= col < n,
        forall|c: int| 0 <= c < n && c != col ==> p[c] == q[c],
    ensures
        pile_units(q, n) == pile_units(p, n) + q[col]@.len() - p[col]@.len(),
    decreases n,
{
    if col == n - 1 {
        lemma_pile_units_same(p, q, n - 1);
    } else {
        lemma_pile_units_update(p, q, col, n - 1);
    }
}

/// Totals agree when the first `i` columns agree.
pub proof fn lemma_pile_units_same(p: Seq<Vec<SettledUnit>>, q: Seq<Vec<SettledUnit>>, i: int)
    requires
        forall|c: int| 0 <= c < i ==> p[c] == q[c],
    ensures
        pile_units(p, i) == pile_units(q, i),
    decreases i,
{
    if i > 0 {
        lemma_pile_units_same(p, q, i - 1);
    }
}

/// Time values are capped so that phase arithmetic never overflows.
pub open spec fn clamp_now(now_ms: int) -> int {
    if now_ms > 0x1000000000000 {
        0x1000000000000int
    } else {
        now_ms
    }
}

/// The whole simulation state owned by the render loop.
pub struct FallSim {
    pub letters: Vec<FallingLetter>,
    pub pile: Vec<Vec<SettledUnit>>,
    pub phase: FallPhase,
    pub phase_start_ms: u64,
    pub term_w: usize,
    pub term_h: usize,
}

impl FallSim {
    /// Everything the simulation's arithmetic relies on.
    pub open spec fn wf(&self) -> bool {
        &&& self.term_w <= 65535
        &&& self.term_h <= 65535
        &&& self.term_w * self.term_h <= 100000000
        &&& self.pile@.len() == self.term_w
        &&& forall|c: int|
            0 <= c < self.pile@.len() ==> pile_col_wf(#[trigger] self.pile@[c], self.term_h as int)
        &&& forall|i: int| 0 <= i < self.letters@.len() ==> letter_wf(#[trigger] self.letters@[i], self.term_w as int)
        &&& self.letters@.len() <= 100000000
        &&& self.phase_start_ms <= 0x1000000000000
    }

    /// A fresh, empty simulation for a terminal of the given size.
    pub fn new(term_w: usize, term_h: usize) -> (sim: FallSim)
        requires
            term_w <= 65535,
            term_h <= 65535,
            term_w * term_h <= 100000000,
        ensures
            sim.wf(),
            sim.phase == FallPhase::Static,
            sim.letters@.len() == 0,
            sim.term_w == term_w,
            sim.term_h == term_h,
    {
        let mut pile: Vec<Vec<SettledUnit>> = Vec::new();
        let mut c: usize = 0;
        while c < term_w
            invariant
                c <= term_w,
                pile@.len() == c,
                forall|j: int| 0 <= j < pile@.len() ==> (#[trigger] pile@[j])@.len() == 0,
            decreases term_w - c,
        {
            pile.push(Vec::new());
            c += 1;
        }
        FallSim { letters: Vec::new(), pile, phase: FallPhase::Static, phase_start_ms: 0, term_w, term_h }
    }
}

/// A cell of the settled grid holds a unit's character or nothing; the
/// grid is stored flat, row-major.
pub open spec fn grid_at(g: Seq<Option<char>>, w: int, r: int, c: int) -> Option<char> {
    g[r * w + c]
}

/// The support invariant of a settled grid: every occupied cell above
/// the bottom row has an occupied cell directly beneath it.
pub open spec fn support_ok(g: Seq<Option<char>>, w: int, h: int) -> bool {
    forall|r: int, c: int|
        0 <= r < h - 1 && 0 <= c < w && (#[trigger] grid_at(g, w, r, c)) is Some ==> grid_at(
            g,
            w,
            r + 1,
            c,
        ) is Some
}

/// Distinct in-range cells have distinct flat indices.
proof fn lemma_grid_index_inj(w: int, r1: int, c1: int, r2: int, c2: int)
    by (nonlinear_arith)
    requires
        0 <= c1 < w,
        0 <= c2 < w,
        0 <= r1,
        0 <= r2,
        r1 * w + c1 == r2 * w + c2,
    ensures
        r1 == r2,
        c1 == c2,
{
}

proof fn lemma_grid_index_range(w: int, h: int, r: int, c: int)
    by (nonlinear_arith)
    requires
        0 <= c < w,
        0 <= r < h,
    ensures
        0 <= r * w + c < h * w,
        (r + 1) * w + c == r * w + c + w,
{
}

/// Placing a unit on a supported cell (or on the bottom row) keeps the
/// whole grid supported.
proof fn lemma_support_preserved(
    g: Seq<Option<char>>,
    w: int,
    h: int,
    row: int,
    c: int,
    ch: char,
)
    requires
        g.len() == h * w,
        support_ok(g, w, h),
        0 <= c < w,
        0 <= row < h,
        row == h - 1 || grid_at(g, w, row + 1, c) is Some,
    ensures
        support_ok(g.update(row * w + c, Some(ch)), w, h),
{
    let g2 = g.update(row * w + c, Some(ch));
    assert forall|r2: int, c2: int|
        0 <= r2 < h - 1 && 0 <= c2 < w && (#[trigger] grid_at(g2, w, r2, c2)) is Some implies grid_at(
        g2,
        w,
        r2 + 1,
        c2,
    ) is Some by {
        lemma_grid_index_range(w, h, r2, c2);
        lemma_grid_index_range(w, h, r2 + 1, c2);
        lemma_grid_index_range(w, h, row, c);
        if (r2 + 1) * w + c2 == row * w + c {
            assert(grid_at(g2, w, r2 + 1, c2) == Some(ch));
        } else if r2 * w + c2 == row * w + c {
            lemma_grid_index_inj(w, r2, c2, row, c);
            assert(grid_at(g, w, row + 1, c) is Some);
            assert(grid_at(g2, w, r2 + 1, c2) == grid_at(g, w, r2 + 1, c2));
        } else {
            assert(grid_at(g, w, r2, c2) == grid_at(g2, w, r2, c2));
            assert(grid_at(g, w, r2, c2) is Some);
            assert(grid_at(g, w, r2 + 1, c2) is Some);
            assert(grid_at(g2, w, r2 + 1, c2) == grid_at(g, w, r2 + 1, c2));
        }
    }
}

/// The bottom row of a settled grid reflects the first `upto` pile
/// columns: wherever such a column is non-empty its first unit's
/// character sits on the bottom row, and every other bottom cell is
/// still free.
pub open spec fn bottom_row_done(
    g: Seq<Option<char>>,
    pile: Seq<Vec<SettledUnit>>,
    w: int,
    h: int,
    upto: int,
) -> bool {
    forall|c2: int|
        0 <= c2 < w ==> #[trigger] grid_at(g, w, h - 1, c2) == (if c2 < upto && pile[c2]@.len()
            > 0 {
            Some(pile[c2]@[0].ch)
        } else {
            Option::<char>::None
        })
}

/// Placing a unit above the bottom row leaves the bottom row untouched.
proof fn lemma_bottom_preserved(
    g: Seq<Option<char>>,
    pile: Seq<Vec<SettledUnit>>,
    w: int,
    h: int,
    row: int,
    c: int,
    ch: char,
    upto: int,
)
    requires
        g.len() == h * w,
        bottom_row_done(g, pile, w, h, upto),
        0 <= c < w,
        0 <= row < h - 1,
    ensures
        bottom_row_done(g.update(row * w + c, Some(ch)), pile, w, h, upto),
{
    let g2 = g.update(row * w + c, Some(ch));
    assert forall|c2: int|
        0 <= c2 < w implies #[trigger] grid_at(g2, w, h - 1, c2) == (if c2 < upto && pile[c2]@.len()
        > 0 {
        Some(pile[c2]@[0].ch)
    } else {
        Option::<char>::None
    }) by {
        lemma_grid_index_range(w, h, h - 1, c2);
        lemma_grid_index_range(w, h, row, c);
        assert(grid_at(g, w, h - 1, c2) == (if c2 < upto && pile[c2]@.len() > 0 {
            Some(pile[c2]@[0].ch)
        } else {
            Option::<char>::None
        }));
        if (h - 1) * w + c2 == row * w + c {
            lemma_grid_index_inj(w, h - 1, c2, row, c);
        } else {
            assert(grid_at(g2, w, h - 1, c2) == grid_at(g, w, h - 1, c2));
        }
    }
}

/// Placing a column's first unit on the bottom row completes that
/// column's bottom cell.
proof fn lemma_bottom_set(
    g: Seq<Option<char>>,
    pile: Seq<Vec<SettledUnit>>,
    w: int,
    h: int,
    col: int,
)
    requires
        g.len() == h * w,
        h >= 1,
        bottom_row_done(g, pile, w, h, col),
        0 <= col < w,
        pile[col]@.len() > 0,
    ensures
        bottom_row_done(g.update((h - 1) * w + col, Some(pile[col]@[0].ch)), pile, w, h, col + 1),
{
    let g2 = g.update((h - 1) * w + col, Some(pile[col]@[0].ch));
    assert forall|c2: int|
        0 <= c2 < w implies #[trigger] grid_at(g2, w, h - 1, c2) == (if c2 < col + 1
        && pile[c2]@.len() > 0 {
        Some(pile[c2]@[0].ch)
    } else {
        Option::<char>::None
    }) by {
        lemma_grid_index_range(w, h, h - 1, c2);
        lemma_grid_index_range(w, h, h - 1, col);
        assert(grid_at(g, w, h - 1, c2) == (if c2 < col && pile[c2]@.len() > 0 {
            Some(pile[c2]@[0].ch)
        } else {
            Option::<char>::None
        }));
        if (h - 1) * w + c2 == (h - 1) * w + col {
            lemma_grid_index_inj(w, h - 1, c2, h - 1, col);
        } else {
            assert(grid_at(g2, w, h - 1, c2) == grid_at(g, w, h - 1, c2));
        }
    }
}

/// Is the cell beneath `(row, c)` free?
fn below_free(grid: &Vec<Option<char>>, w: usize, h: usize, row: usize, c: usize) -> (r: bool)
    requires
        grid@.len() == h * w,
        h * w <= 100000000,
        c < w,
        row + 1 < h,
    ensures
        r == (grid_at(grid@, w as int, row as int + 1, c as int) is None),
{
    proof {
        lemma_grid_index_range(w as int, h as int, row as int + 1, c as int);
    }
    let below: usize = (row + 1) * w + c;
    grid[below].is_none()
}

impl FallSim {
    /// Resolve the settled piles into a grid of characters, enforcing
    /// support: a tilted unit shifts at most two columns, walks back
    /// toward the column its supporting unit landed in until the cell
    /// beneath is occupied, and is dropped rather than left floating or
    /// overlapping.  In the result, every occupied cell above the bottom
    /// row sits on an occupied cell: settled letters never float.
    pub fn build_settled_grid(&self) -> (grid: Vec<Option<char>>)
        requires
            self.wf(),
        ensures
            grid@.len() == self.term_h * self.term_w,
            support_ok(grid@, self.term_w as int, self.term_h as int),
            self.term_h >= 1 ==> bottom_row_done(
                grid@,
                self.pile@,
                self.term_w as int,
                self.term_h as int,
                self.term_w as int,
            ),
    {
        let w = self.term_w;
        let h = self.term_h;
        proof {
            assert(h * w >= 0) by (nonlinear_arith);
            assert((h as int) * (w as int) <= 100000000) by (nonlinear_arith)
                requires
                    (w as int) * (h as int) <= 100000000,
            ;
        }
        let mut grid: Vec<Option<char>> = Vec::new();
        let total: usize = h * w;
        let mut k: usize = 0;
        while k < total
            invariant
                k <= total,
                grid@.len() == k,
                forall|j: int| 0 <= j < k ==> grid@[j] is None,
            decreases total - k,
        {
            grid.push(None);
            k += 1;
        }
        proof {
            assert forall|r: int, c: int|
                0 <= r < h - 1 && 0 <= c < w && (#[trigger] grid_at(
                    grid@,
                    w as int,
                    r,
                    c,
                )) is Some implies grid_at(grid@, w as int, r + 1, c) is Some by {
                lemma_grid_index_range(w as int, h as int, r, c);
            }
            assert(support_ok(grid@, w as int, h as int));
            if h >= 1 {
                assert forall|c2: int|
                    0 <= c2 < w implies #[trigger] grid_at(grid@, w as int, h as int - 1, c2)
                    == Option::<char>::None by {
                    lemma_grid_index_range(w as int, h as int, h as int - 1, c2);
                }
            }
        }
        if h == 0 {
            return grid;
        }
        let bottom: usize = h - 1;
        let mut col: usize = 0;
        while col < w
            invariant
                col <= w,
                w == self.term_w,
                h == self.term_h,
                h >= 1,
                h * w <= 100000000,
                bottom == h - 1,
                self.wf(),
                grid@.len() == h * w,
                support_ok(grid@, w as int, h as int),
                bottom_row_done(grid@, self.pile@, w as int, h as int, col as int),
            decreases w - col,
        {
            let stack = &self.pile[col];
            let hgt = stack.len();
            if hgt > 0 {
                // Level 0 always rests on the bottom row in its own column.
                proof {
                    lemma_grid_index_range(w as int, h as int, bottom as int, col as int);
                    lemma_support_preserved(
                        grid@,
                        w as int,
                        h as int,
                        bottom as int,
                        col as int,
                        stack[0].ch,
                    );
                    lemma_bottom_set(grid@, self.pile@, w as int, h as int, col as int);
                }
                let idx0: usize = bottom * w + col;
                grid.set(idx0, Some(stack[0].ch));
                let mut prev_col: usize = col;
                let mut level: usize = 1;
                let mut done: bool = false;
                while level < hgt && level <= bottom && !done
                    invariant
                        1 <= level <= hgt,
                        hgt == self.pile@[col as int]@.len(),
                        stack@ == self.pile@[col as int]@,
                        hgt <= 65535,
                        col < w,
                        w == self.term_w,
                        h == self.term_h,
                        h >= 1,
                        h * w <= 100000000,
                        bottom == h - 1,
                        self.wf(),
                        grid@.len() == h * w,
                        support_ok(grid@, w as int, h as int),
                        prev_col < w,
                        level <= bottom + 1,
                        bottom_row_done(grid@, self.pile@, w as int, h as int, col as int + 1),
                        !done && level - 1 <= bottom ==> grid_at(
                            grid@,
                            w as int,
                            bottom - (level - 1),
                            prev_col as int,
                        ) is Some,
                    decreases hgt - level,
                {
                    let row: usize = bottom - level;
                    let su = stack[level];
                    // The desired shift from the tilt, at most two columns.
                    let ta: u64 = if su.tilt >= 0 {
                        su.tilt as u64
                    } else {
                        (-su.tilt) as u64
                    };
                    let rel: u64 = (level as u64) * 1000 / (hgt as u64);
                    proof {
                        assert(rel < 1000) by (nonlinear_arith)
                            requires
                                rel == (level as int) * 1000 / (hgt as int),
                                level < hgt,
                                hgt >= 1,
                        ;
                        assert(ta * rel <= 1610000u64) by (nonlinear_arith)
                            requires
                                ta <= 1610,
                                rel <= 1000,
                        ;
                    }
                    let sh0: u64 = ta * rel * 13 / 10000000;
                    let sh: usize = if sh0 > 2 {
                        2
                    } else {
                        sh0 as usize
                    };
                    let mut tc: usize = if su.tilt >= 0 {
                        if col + sh >= w {
                            w - 1
                        } else {
                            col + sh
                        }
                    } else {
                        if col >= sh {
                            col - sh
                        } else {
                            0
                        }
                    };
                    // Walk back toward the supporting column until the
                    // cell beneath is occupied.
                    while tc != prev_col && below_free(&grid, w, h, row, tc)
                        invariant
                            tc < w,
                            prev_col < w,
                            row + 1 <= bottom < h,
                            h * w <= 100000000,
                            grid@.len() == h * w,
                            col < w,
                            w == self.term_w,
                            h == self.term_h,
                            bottom == h - 1,
                            grid@.len() == h * w,
                            support_ok(grid@, w as int, h as int),
                            bottom_row_done(grid@, self.pile@, w as int, h as int, col as int + 1),
                            grid_at(grid@, w as int, row as int + 1, prev_col as int) is Some,
                        decreases
                                if tc >= prev_col {
                                    tc - prev_col
                                } else {
                                    prev_col - tc
                                },
                    {
                        if tc > prev_col {
                            tc -= 1;
                        } else {
                            tc += 1;
                        }
                    }
                    // Here the cell beneath `tc` is occupied (at worst
                    // `tc == prev_col`, where the previous unit landed).
                    proof {
                        lemma_grid_index_range(w as int, h as int, row as int + 1, tc as int);
                        lemma_grid_index_range(w as int, h as int, row as int, tc as int);
                    }
                    let below: usize = (row + 1) * w + tc;
                    let here: usize = row * w + tc;
                    if grid[below].is_some() && grid[here].is_none() {
                        proof {
                            lemma_support_preserved(
                                grid@,
                                w as int,
                                h as int,
                                row as int,
                                tc as int,
                                su.ch,
                            );
                            lemma_bottom_preserved(
                                grid@,
                                self.pile@,
                                w as int,
                                h as int,
                                row as int,
                                tc as int,
                                su.ch,
                                col as int + 1,
                            );
                        }
                        grid.set(here, Some(su.ch));
                        prev_col = tc;
                    } else {
                        let below_p: usize = (row + 1) * w + prev_col;
                        let here_p: usize = row * w + prev_col;
                        proof {
                            lemma_grid_index_range(w as int, h as int, row as int, prev_col as int);
                        }
                        if grid[here_p].is_none() {
                            proof {
                                lemma_support_preserved(
                                    grid@,
                                    w as int,
                                    h as int,
                                    row as int,
                                    prev_col as int,
                                    su.ch,
                                );
                                lemma_bottom_preserved(
                                    grid@,
                                    self.pile@,
                                    w as int,
                                    h as int,
                                    row as int,
                                    prev_col as int,
                                    su.ch,
                                    col as int + 1,
                                );
                            }
                            grid.set(here_p, Some(su.ch));
                        } else {
                            // No free supported cell: drop the unit and
                            // stop stacking this column for the frame.
                            done = true;
                        }
                    }
                    level += 1;
                }
            }
            col += 1;
        }
        grid
    }
}


/// Copy one character.  Routing the character through this contract
/// keeps the container proofs below stable.
fn same_char(c: char) -> (r: char)
    ensures
        r == c,
{
    c
}

/// The printable characters of one tokenized row from token `j` on,
/// paired with the column each will occupy, starting at `col` and
/// capped at the terminal width.
pub open spec fn row_slots(row: Seq<(String, char)>, w: int, j: int, col: int) -> Seq<(char, int)>
    decreases row.len() - j,
{
    if j < 0 || j >= row.len() {
        Seq::empty()
    } else {
        let tok = row[j];
        if tok.0@.len() == 0 && tok.1 as u32 != 0 && col < w {
            seq![(tok.1, col)] + row_slots(row, w, j + 1, col + 1)
        } else {
            row_slots(row, w, j + 1, col)
        }
    }
}

/// At most one slot per column fits in a row.
pub proof fn lemma_row_slots_len(row: Seq<(String, char)>, w: int, j: int, col: int)
    ensures
        row_slots(row, w, j, col).len() + col <= w || row_slots(row, w, j, col).len() == 0,
        col >= w ==> row_slots(row, w, j, col).len() == 0,
    decreases row.len() - j,
{
    if 0 <= j < row.len() {
        lemma_row_slots_len(row, w, j + 1, col + 1);
        lemma_row_slots_len(row, w, j + 1, col);
    }
}

/// A freshly released letter carries its slot's character and position,
/// no vertical speed yet, a bounded initial drift, and a release time
/// inside the documented window for its row.
pub open spec fn letter_matches(l: FallingLetter, slot: (char, int), row_i: int, total_rows: int) -> bool {
    &&& l.ch == slot.0
    &&& l.orig_col == slot.1
    &&& l.orig_row == row_i
    &&& l.x == slot.1 * 1000
    &&& l.y == row_i * 1000
    &&& l.vy == 0
    &&& -1500 <= l.vx <= 1500
    &&& 500 <= l.release_ms <= 500 + (total_rows - 1 - row_i) * 35 + 400
}

/// Turn one tokenized row into falling letters appended to `letters`.
fn push_row_letters(
    letters: &mut Vec<FallingLetter>,
    row: &Vec<(String, char)>,
    row_i: usize,
    total_rows: usize,
    w: usize,
)
    requires
        w <= 65535,
        row_i < total_rows <= 65535,
        old(letters)@.len() + w <= 100000000,
        forall|i: int|
            0 <= i < old(letters)@.len() ==> letter_wf(#[trigger] old(letters)@[i], w as int),
    ensures
        final(letters)@.len() <= 100000000,
        forall|i: int|
            0 <= i < final(letters)@.len() ==> letter_wf(#[trigger] final(letters)@[i], w as int),
        final(letters)@.subrange(0, old(letters)@.len() as int) == old(letters)@,
        final(letters)@.len() == old(letters)@.len() + row_slots(row@, w as int, 0, 0).len(),
        final(letters)@.len() <= old(letters)@.len() + w,
        forall|k: int|
            old(letters)@.len() <= k < final(letters)@.len() ==> letter_matches(
                #[trigger] final(letters)@[k],
                row_slots(row@, w as int, 0, 0)[k - old(letters)@.len()],
                row_i as int,
                total_rows as int,
            ),
{
    let mut col_i: usize = 0;
    let mut j: usize = 0;
    proof {
        lemma_row_slots_len(row@, w as int, 0, 0);
    }
    while j < row.len()
        invariant
            j <= row@.len(),
            col_i <= w,
            row_i < total_rows <= 65535,
            w <= 65535,
            old(letters)@.len() + w <= 100000000,
            letters@.len() <= 100000000,
            forall|i: int| 0 <= i < letters@.len() ==> letter_wf(#[trigger] letters@[i], w as int),
            letters@.subrange(0, old(letters)@.len() as int) == old(letters)@,
            letters@.len() == old(letters)@.len() + (col_i as int),
            col_i as int <= row_slots(row@, w as int, 0, 0).len(),
            row_slots(row@, w as int, 0, 0) == row_slots(row@, w as int, 0, 0).subrange(
                0,
                col_i as int,
            ) + row_slots(row@, w as int, j as int, col_i as int),
            forall|k: int|
                old(letters)@.len() <= k < letters@.len() ==> letter_matches(
                    #[trigger] letters@[k],
                    row_slots(row@, w as int, 0, 0)[k - old(letters)@.len()],
                    row_i as int,
                    total_rows as int,
                ),
        decreases row@.len() - j,
    {
        let tok = &row[j];
        let ch: char = same_char(tok.1);
        let code: u32 = ch as u32;
        let printable: bool = tok.0.unicode_len() == 0 && code != 0;
        let ghost slots = row_slots(row@, w as int, 0, 0);
        if printable && col_i < w {
            let inv: u64 = ((total_rows - 1) - row_i) as u64;
            let jitter: u64 = (rand1000() as u64) * 400 / 1000;
            let release: u64 = 500 + inv * 35 + jitter;
            let vx: i64 = (rand1000() as i64) * 3 - 1500;
            let l = FallingLetter {
                ch,
                orig_row: row_i,
                orig_col: col_i,
                x: (col_i as i64) * 1000,
                y: (row_i as i64) * 1000,
                vx,
                vy: 0,
                release_ms: release,
            };
            proof {
                assert(letter_wf(l, w as int));
            }
            proof {
                assert(row_slots(row@, w as int, j as int, col_i as int) == seq![
                    (row@[j as int].1, col_i as int),
                ] + row_slots(row@, w as int, j as int + 1, col_i as int + 1));
                assert(slots == slots.subrange(0, col_i as int) + row_slots(
                    row@,
                    w as int,
                    j as int,
                    col_i as int,
                ));
                assert(slots.subrange(0, col_i as int).len() == col_i as int);
                assert(slots[col_i as int] == row_slots(
                    row@,
                    w as int,
                    j as int,
                    col_i as int,
                )[0]);
                assert(slots[col_i as int] == (ch, col_i as int));
                assert(slots =~= slots.subrange(0, col_i as int + 1) + row_slots(
                    row@,
                    w as int,
                    j as int + 1,
                    col_i as int + 1,
                ));
            }
            letters.push(l);
            col_i += 1;
        }
        j += 1;
    }
    proof {
        assert(row_slots(row@, w as int, j as int, col_i as int) =~= Seq::empty());
        assert(row_slots(row@, w as int, 0, 0) =~= row_slots(row@, w as int, 0, 0).subrange(
            0,
            col_i as int,
        ));
        assert(row_slots(row@, w as int, 0, 0).len() == col_i as int);
        assert(final(letters)@.subrange(0, old(letters)@.len() as int) =~= old(letters)@);
    }
}

/// Total printable slots in the first `i` rows of a tokenized grid.
pub open spec fn grid_slot_count(parsed: Seq<Vec<(String, char)>>, w: int, i: int) -> int
    decreases i,
{
    if i <= 0 {
        0int
    } else {
        grid_slot_count(parsed, w, i - 1) + row_slots(parsed[i - 1]@, w, 0, 0).len()
    }
}

/// What holds of every letter right after initialization, whatever the
/// random draws were.
pub open spec fn fresh_letter_ok(l: FallingLetter, total_rows: int) -> bool {
    &&& l.orig_row < total_rows
    &&& l.x == l.orig_col * 1000
    &&& l.y == l.orig_row * 1000
    &&& l.vy == 0
    &&& -1500 <= l.vx <= 1500
    &&& 500 <= l.release_ms <= 500 + (total_rows - 1 - l.orig_row) * 35 + 400
}

/// Is a letter released at the given time under the given phase?
pub open spec fn letter_released(l: FallingLetter, phase: FallPhase, phase_start: int, now: int) -> bool {
    phase != FallPhase::Static && now >= phase_start + l.release_ms
}

/// The flat cell a letter occupies on screen, if it is visible: its
/// original cell while it waits, its rounded current position once it
/// flies.
pub open spec fn letter_cell_index(
    l: FallingLetter,
    released: bool,
    w: int,
    h: int,
) -> Option<int> {
    if !released {
        if l.orig_row < h && l.orig_col < w {
            Some(l.orig_row * w + l.orig_col)
        } else {
            Option::<int>::None
        }
    } else {
        if l.y >= 0 && l.x >= 0 && (l.y + 500) / 1000 < h && (l.x + 500) / 1000 < w {
            Some(((l.y + 500) / 1000) * w + (l.x + 500) / 1000)
        } else {
            Option::<int>::None
        }
    }
}

/// The character and gray level a visible letter is drawn with.
pub open spec fn letter_paint(l: FallingLetter, released: bool, phase: FallPhase) -> (char, u8) {
    if released {
        (l.ch, 220u8)
    } else if phase == FallPhase::Static {
        (l.ch, 200u8)
    } else {
        (l.ch, 120u8)
    }
}

/// The base appearance of one settled-grid cell.
pub open spec fn base_cell(o: Option<char>) -> (char, u8) {
    match o {
        Some(c) => (c, 200u8),
        None => (' ', 0u8),
    }
}

/// The base appearance of the bottom cell of one pile column.
pub open spec fn pile_base(pile: Seq<Vec<SettledUnit>>, c: int) -> (char, u8) {
    if pile[c]@.len() > 0 {
        (pile[c]@[0].ch, 200u8)
    } else {
        (' ', 0u8)
    }
}

/// Letter `i` of the list is drawn on flat cell `k`.
pub open spec fn letter_at(
    letters: Seq<FallingLetter>,
    phase: FallPhase,
    ps: int,
    now: int,
    w: int,
    h: int,
    i: int,
    k: int,
) -> bool {
    letter_cell_index(letters[i], letter_released(letters[i], phase, ps, now), w, h) == Some(k)
}

/// Some letter among the first `upto` is drawn on flat cell `k`.
pub open spec fn covered_before(
    letters: Seq<FallingLetter>,
    phase: FallPhase,
    ps: int,
    now: int,
    w: int,
    h: int,
    k: int,
    upto: int,
) -> bool {
    exists|i: int| 0 <= i < upto && letter_at(letters, phase, ps, now, w, h, i, k)
}

/// The cell value equals the paint of some letter (among the first
/// `upto`) drawn on it.
pub open spec fn painted_before(
    letters: Seq<FallingLetter>,
    phase: FallPhase,
    ps: int,
    now: int,
    w: int,
    h: int,
    k: int,
    upto: int,
    cell: (char, u8),
) -> bool {
    exists|i: int|
        0 <= i < upto && letter_at(letters, phase, ps, now, w, h, i, k) && cell == letter_paint(
            letters[i],
            letter_released(letters[i], phase, ps, now),
            phase,
        )
}

/// A letter that is not visible changes nothing: the overlay
/// invariants carry over unchanged.
proof fn lemma_overlay_skip(
    letters: Seq<FallingLetter>,
    phase: FallPhase,
    ps: int,
    now: int,
    w: int,
    h: int,
    i: int,
    cells: Seq<(char, u8)>,
    base: Seq<(char, u8)>,
)
    requires
        0 <= i < letters.len(),
        letter_cell_index(letters[i], letter_released(letters[i], phase, ps, now), w, h) is None,
        forall|q: int|
            0 <= q < cells.len() && !covered_before(letters, phase, ps, now, w, h, q, i)
                ==> #[trigger] cells[q] == base[q],
        forall|q: int|
            0 <= q < cells.len() && covered_before(letters, phase, ps, now, w, h, q, i)
                ==> painted_before(letters, phase, ps, now, w, h, q, i, #[trigger] cells[q]),
    ensures
        forall|q: int|
            0 <= q < cells.len() && !covered_before(letters, phase, ps, now, w, h, q, i + 1)
                ==> #[trigger] cells[q] == base[q],
        forall|q: int|
            0 <= q < cells.len() && covered_before(letters, phase, ps, now, w, h, q, i + 1)
                ==> painted_before(letters, phase, ps, now, w, h, q, i + 1, #[trigger] cells[q]),
{
    assert forall|q: int|
        0 <= q < cells.len() && covered_before(letters, phase, ps, now, w, h, q, i + 1)
            implies painted_before(letters, phase, ps, now, w, h, q, i + 1, #[trigger] cells[q]) by {
        let j = choose|j: int| 0 <= j < i + 1 && letter_at(letters, phase, ps, now, w, h, j, q);
        assert(j < i);
        assert(covered_before(letters, phase, ps, now, w, h, q, i));
        let j2 = choose|j2: int|
            0 <= j2 < i && letter_at(letters, phase, ps, now, w, h, j2, q) && cells[q]
                == letter_paint(
                letters[j2],
                letter_released(letters[j2], phase, ps, now),
                phase,
            );
        assert(letter_at(letters, phase, ps, now, w, h, j2, q));
    }
    assert forall|q: int|
        0 <= q < cells.len() && !covered_before(letters, phase, ps, now, w, h, q, i + 1)
            implies #[trigger] cells[q] == base[q] by {
        assert(!covered_before(letters, phase, ps, now, w, h, q, i));
    }
}

/// Drawing a visible letter preserves the overlay invariants: the
/// written cell now carries that letter's paint, every other cell is
/// untouched.
proof fn lemma_overlay_write(
    letters: Seq<FallingLetter>,
    phase: FallPhase,
    ps: int,
    now: int,
    w: int,
    h: int,
    i: int,
    idx: int,
    cells: Seq<(char, u8)>,
    base: Seq<(char, u8)>,
)
    requires
        0 <= i < letters.len(),
        0 <= idx < cells.len(),
        letter_cell_index(letters[i], letter_released(letters[i], phase, ps, now), w, h) == Some(
            idx,
        ),
        forall|q: int|
            0 <= q < cells.len() && !covered_before(letters, phase, ps, now, w, h, q, i)
                ==> #[trigger] cells[q] == base[q],
        forall|q: int|
            0 <= q < cells.len() && covered_before(letters, phase, ps, now, w, h, q, i)
                ==> painted_before(letters, phase, ps, now, w, h, q, i, #[trigger] cells[q]),
    ensures
        ({
            let cells2 = cells.update(
                idx,
                letter_paint(letters[i], letter_released(letters[i], phase, ps, now), phase),
            );
            &&& (forall|q: int|
                0 <= q < cells2.len() && !covered_before(letters, phase, ps, now, w, h, q, i + 1)
                    ==> #[trigger] cells2[q] == base[q])
            &&& (forall|q: int|
                0 <= q < cells2.len() && covered_before(letters, phase, ps, now, w, h, q, i + 1)
                    ==> painted_before(letters, phase, ps, now, w, h, q, i + 1, #[trigger] cells2[q]))
        }),
{
    let cells2 = cells.update(
        idx,
        letter_paint(letters[i], letter_released(letters[i], phase, ps, now), phase),
    );
    assert(letter_at(letters, phase, ps, now, w, h, i, idx));
    assert forall|q: int|
        0 <= q < cells2.len() && covered_before(letters, phase, ps, now, w, h, q, i + 1)
            implies painted_before(letters, phase, ps, now, w, h, q, i + 1, #[trigger] cells2[q]) by {
        if q == idx {
            assert(letter_at(letters, phase, ps, now, w, h, i, q) && cells2[q] == letter_paint(
                letters[i],
                letter_released(letters[i], phase, ps, now),
                phase,
            ));
        } else {
            let j = choose|j: int| 0 <= j < i + 1 && letter_at(letters, phase, ps, now, w, h, j, q);
            assert(j < i);
            assert(covered_before(letters, phase, ps, now, w, h, q, i));
            let j2 = choose|j2: int|
                0 <= j2 < i && letter_at(letters, phase, ps, now, w, h, j2, q) && cells[q]
                    == letter_paint(
                    letters[j2],
                    letter_released(letters[j2], phase, ps, now),
                    phase,
                );
            assert(cells2[q] == cells[q]);
            assert(letter_at(letters, phase, ps, now, w, h, j2, q));
        }
    }
    assert forall|q: int|
        0 <= q < cells2.len() && !covered_before(letters, phase, ps, now, w, h, q, i + 1)
            implies #[trigger] cells2[q] == base[q] by {
        assert(!covered_before(letters, phase, ps, now, w, h, q, i));
        assert(q != idx);
        assert(cells2[q] == cells[q]);
    }
}

impl FallSim {
    /// Populate the letters from a tokenized text grid: every printable

    /// character inside the terminal becomes a letter at its original
    /// position, with a randomized release time biased so bottom rows
    /// release first, and a small random initial horizontal drift.
    pub fn init_letters(&mut self, parsed: &Vec<Vec<(String, char)>>, now_ms: u64)
        requires
            old(self).wf(),
        ensures
            final(self).wf(),
            final(self).term_w == old(self).term_w,
            final(self).term_h == old(self).term_h,
            final(self).pile == old(self).pile,
            final(self).phase == FallPhase::Static,
            final(self).phase_start_ms == clamp_now(now_ms as int),
            ({
                let rows: int = if parsed@.len() < old(self).term_h {
                    parsed@.len() as int
                } else {
                    old(self).term_h as int
                };
                final(self).letters@.len() == grid_slot_count(parsed@, old(self).term_w as int, rows)
            }),
            forall|k: int|
                0 <= k < final(self).letters@.len() ==> fresh_letter_ok(
                    #[trigger] final(self).letters@[k],
                    if parsed@.len() < old(self).term_h {
                        parsed@.len() as int
                    } else {
                        old(self).term_h as int
                    },
                ),
    {
        let w = self.term_w;
        let h = self.term_h;
        let mut letters: Vec<FallingLetter> = Vec::new();
        let total_rows: usize = if parsed.len() < h {
            parsed.len()
        } else {
            h
        };
        let mut row_i: usize = 0;
        while row_i < total_rows
            invariant
                row_i <= total_rows,
                total_rows <= h,
                h == self.term_h,
                w == self.term_w,
                h <= 65535,
                w <= 65535,
                self.wf(),
                total_rows <= parsed@.len(),
                letters@.len() <= (row_i as int) * (w as int),
                letters@.len() <= 100000000,
                letters@.len() == grid_slot_count(parsed@, w as int, row_i as int),
                forall|i: int| 0 <= i < letters@.len() ==> letter_wf(#[trigger] letters@[i], w as int),
                forall|k: int|
                    0 <= k < letters@.len() ==> fresh_letter_ok(
                        #[trigger] letters@[k],
                        total_rows as int,
                    ),
            decreases total_rows - row_i,
        {
            let row = &parsed[row_i];
            proof {
                assert((row_i as int) * (w as int) + w <= (h as int) * (w as int)
                    && (h as int) * (w as int) <= 100000000) by (nonlinear_arith)
                    requires
                        row_i + 1 <= h,
                        w <= 65535,
                        (w as int) * (h as int) <= 100000000,
                ;
            }
            let ghost before = letters@;
            push_row_letters(&mut letters, row, row_i, total_rows, w);
            proof {
                assert((row_i as int) * (w as int) + w == (row_i as int + 1) * (w as int))
                    by (nonlinear_arith);
                assert forall|k: int|
                    0 <= k < letters@.len() implies fresh_letter_ok(
                    #[trigger] letters@[k],
                    total_rows as int,
                ) by {
                    if k < before.len() {
                        assert(letters@[k] == letters@.subrange(0, before.len() as int)[k]);
                    } else {
                        assert(letter_matches(
                            letters@[k],
                            row_slots(row@, w as int, 0, 0)[k - before.len()],
                            row_i as int,
                            total_rows as int,
                        ));
                    }
                }
            }
            row_i += 1;
        }
        self.letters = letters;
        self.phase = FallPhase::Static;
        self.phase_start_ms = if now_ms > 0x1000000000000 {
            0x1000000000000
        } else {
            now_ms
        };
    }

    /// Advance the simulation by one frame.  In the Static phase the
    /// letters wait for their release times; in the Falling phase the
    /// released letters integrate gravity with drift, friction, wall
    /// bounce and restitution, and a slow ground contact settles the
    /// letter onto its column's pile with a tilt leaning toward the
    /// locally lower neighbor; once none are airborne the piles dwell
    /// and then the whole simulation resets.
    pub fn step(&mut self, now_ms: u64, dt_ms: u32, speed_milli: u32)
        requires
            old(self).wf(),
        ensures
            final(self).wf(),
            final(self).term_w == old(self).term_w,
            final(self).term_h == old(self).term_h,
            old(self).phase == FallPhase::Static ==> ({
                &&& final(self).letters == old(self).letters
                &&& final(self).pile == old(self).pile
                &&& final(self).phase_start_ms == old(self).phase_start_ms
                &&& (final(self).phase == FallPhase::Falling <==> exists|i: int|
                    0 <= i < old(self).letters@.len() && clamp_now(now_ms as int) >= old(self).phase_start_ms + old(self).letters@[i].release_ms)
                &&& (final(self).phase == FallPhase::Falling || final(self).phase
                    == FallPhase::Static)
            }),
            old(self).phase == FallPhase::Settled ==> ({
                if clamp_now(now_ms as int) > old(self).phase_start_ms + 4000 {
                    &&& final(self).phase == FallPhase::Static
                    &&& final(self).letters@.len() == 0
                    &&& final(self).phase_start_ms == clamp_now(now_ms as int)
                    &&& forall|c: int|
                        0 <= c < final(self).pile@.len() ==> (#[trigger] final(self).pile@[c])@.len() == 0
                } else {
                    *final(self) == *old(self)
                }
            }),
            old(self).phase == FallPhase::Falling ==> ({
                &&& final(self).letters@.len() <= old(self).letters@.len()
                &&& final(self).pile@.len() == old(self).pile@.len()
                &&& pile_units(old(self).pile@, old(self).pile@.len() as int) <= pile_units(
                    final(self).pile@,
                    final(self).pile@.len() as int,
                )
                &&& pile_units(final(self).pile@, final(self).pile@.len() as int) + final(self).letters@.len() <= pile_units(old(self).pile@, old(self).pile@.len() as int)
                    + old(self).letters@.len()
                &&& (old(self).term_w >= 1 && old(self).term_h >= 1 ==> ((final(self).phase
                    == FallPhase::Settled <==> final(self).letters@.len() == 0) && (final(self).phase == FallPhase::Settled || final(self).phase == FallPhase::Falling)))
            }),
    {
        let w = self.term_w;
        let h = self.term_h;
        let now: u64 = if now_ms > 0x1000000000000 {
            0x1000000000000
        } else {
            now_ms
        };
        match self.phase {
            FallPhase::Static => {
                let mut i: usize = 0;
                let mut any_released = false;
                while i < self.letters.len()
                    invariant
                        i <= self.letters@.len(),
                        self.wf(),
                        self == old(self),
                        now == clamp_now(now_ms as int),
                        any_released <==> exists|j: int|
                            0 <= j < i && now >= self.phase_start_ms + self.letters@[j].release_ms,
                    decreases self.letters@.len() - i,
                {
                    let l = self.letters[i];
                    if now >= self.phase_start_ms + l.release_ms {
                        any_released = true;
                    }
                    i += 1;
                }
                if any_released {
                    self.phase = FallPhase::Falling;
                }
            },
            FallPhase::Falling => {
                self.step_falling(now, dt_ms, speed_milli);
            },
            FallPhase::Settled => {
                if now > self.phase_start_ms && now - self.phase_start_ms > 4000 {
                    let mut pile: Vec<Vec<SettledUnit>> = Vec::new();
                    let mut c: usize = 0;
                    while c < w
                        invariant
                            c <= w,
                            pile@.len() == c,
                            forall|j2: int| 0 <= j2 < pile@.len() ==> (#[trigger] pile@[j2])@.len() == 0,
                        decreases w - c,
                    {
                        pile.push(Vec::new());
                        c += 1;
                    }
                    self.pile = pile;
                    self.letters = Vec::new();
                    self.phase = FallPhase::Static;
                    self.phase_start_ms = now;
                }
            },
        }
    }

    fn step_falling(&mut self, now: u64, dt_ms: u32, speed_milli: u32)
        requires
            old(self).wf(),
            old(self).phase == FallPhase::Falling,
            now <= 0x1000000000000,
        ensures
            final(self).wf(),
            final(self).term_w == old(self).term_w,
            final(self).term_h == old(self).term_h,
            old(self).term_w == 0 || old(self).term_h == 0 ==> *final(self) == *old(self),
            final(self).letters@.len() <= old(self).letters@.len(),
            final(self).pile@.len() == old(self).pile@.len(),
            ({
                let units_before = pile_units(old(self).pile@, old(self).pile@.len() as int);
                let units_after = pile_units(final(self).pile@, final(self).pile@.len() as int);
                units_before <= units_after && units_after + final(self).letters@.len()
                    <= units_before + old(self).letters@.len()
            }),
            old(self).term_w >= 1 && old(self).term_h >= 1 ==> ({
                &&& (final(self).phase == FallPhase::Settled <==> final(self).letters@.len() == 0)
                &&& (final(self).phase == FallPhase::Settled || final(self).phase
                    == FallPhase::Falling)
                &&& (final(self).phase == FallPhase::Settled ==> final(self).phase_start_ms == now)
                &&& (final(self).phase == FallPhase::Falling ==> final(self).phase_start_ms == old(self).phase_start_ms)
            }),
    {
        let w = self.term_w;
        let h = self.term_h;
        if w == 0 || h == 0 {
            return ;
        }
        let dt: u64 = if dt_ms > 1000 {
            1000
        } else {
            dt_ms as u64
        };
        let sc: u64 = if speed_milli < 50 {
            50
        } else if speed_milli > 20000 {
            20000
        } else {
            speed_milli as u64
        };
        let gravity: u64 = 55 * sc;
        let mut rem: Vec<FallingLetter> = Vec::new();
        let mut i: usize = 0;
        while i < self.letters.len()
            invariant
                i <= self.letters@.len(),
                self.wf(),
                1 <= w == self.term_w,
                1 <= h == self.term_h,
                now <= 0x1000000000000,
                dt <= 1000,
                gravity <= 1100000,
                rem@.len() <= i,
                forall|k: int| 0 <= k < rem@.len() ==> letter_wf(#[trigger] rem@[k], w as int),
                self.letters@ == old(self).letters@,
                self.phase == old(self).phase,
                self.phase_start_ms == old(self).phase_start_ms,
                self.pile@.len() == old(self).pile@.len(),
                pile_units(self.pile@, self.pile@.len() as int) >= pile_units(
                    old(self).pile@,
                    old(self).pile@.len() as int,
                ),
                pile_units(self.pile@, self.pile@.len() as int) + rem@.len() <= pile_units(
                    old(self).pile@,
                    old(self).pile@.len() as int,
                ) + i,
            decreases self.letters@.len() - i,
        {
            let mut l = self.letters[i];
            if now < self.phase_start_ms + l.release_ms {
                rem.push(l);
                i += 1;
                continue ;
            }
            // Horizontal drift with random perturbation and friction.
            let r: i64 = (rand1000() as i64) - 500;
            let dvx: i64 = crate::fixed::scale_cap(r, 6 * dt, 10000, 300);
            let vx1: i64 = l.vx + dvx;
            let dtc: u64 = if dt > 100 {
                100
            } else {
                dt
            };
            let vx2: i64 = crate::fixed::scale_cap(vx1, 1000 - dtc, 1000, 101000);
            l.vx = if vx2 > 100000 {
                100000
            } else if vx2 < -100000 {
                -100000
            } else {
                vx2
            };
            let dx: i64 = crate::fixed::scale_cap(l.vx, dt, 1000, 100000);
            let x1: i64 = l.x + dx;
            if x1 < 0 {
                l.x = 0;
                l.vx = 0 - crate::fixed::scale_cap(l.vx, 300, 1000, 100000);
            } else if x1 > ((w - 1) as i64) * 1000 {
                l.x = ((w - 1) as i64) * 1000;
                l.vx = 0 - crate::fixed::scale_cap(l.vx, 300, 1000, 100000);
            } else {
                l.x = x1;
            }
            // Gravity and vertical motion, with a terminal velocity.
            proof {
                assert(gravity * dt <= 1100000000u64) by (nonlinear_arith)
                    requires
                        gravity <= 1100000,
                        dt <= 1000,
                ;
            }
            let vy1: i64 = l.vy + ((gravity * dt / 1000) as i64);
            l.vy = if vy1 > 20000000 {
                20000000
            } else {
                vy1
            };
            let dy: i64 = crate::fixed::scale_cap(l.vy, dt, 1000, 20000000);
            let y1: i64 = l.y + dy;
            l.y = if y1 < -1000000 {
                -1000000
            } else {
                y1
            };
            let col_index: usize = {
                let ci: u64 = ((l.x + 500) as u64) / 1000;
                if ci >= (w as u64) {
                    w - 1
                } else {
                    ci as usize
                }
            };
            let colh: usize = self.pile[col_index].len();
            let ground: i64 = if colh < h {
                (((h - 1) - colh) as i64) * 1000
            } else {
                0
            };
            if l.y >= ground {
                if l.vy > 18000 {
                    // Bounce with restitution and horizontal energy loss.
                    l.y = ground;
                    l.vy = 0 - crate::fixed::scale_cap(l.vy, 250, 1000, 20000000);
                    l.vx = crate::fixed::scale_cap(l.vx, 600, 1000, 100000);
                    rem.push(l);
                } else {
                    // Settle into the pile with a tilt toward the
                    // locally lower neighbor.
                    l.y = ground;
                    self.settle(col_index, l.ch);
                }
            } else {
                rem.push(l);
            }
            i += 1;
        }
        self.letters = rem;
        if self.letters.len() == 0 {
            self.phase = FallPhase::Settled;
            self.phase_start_ms = now;
        }
    }

    /// Push one settled unit onto a column, computing its tilt from the
    /// asymmetry of the neighboring column heights: the unit leans
    /// toward the side that is lower, with magnitude compressed and
    /// jittered, and a quarter of the units settle vertically.
    fn settle(&mut self, col: usize, ch: char)
        requires
            old(self).wf(),
            col < old(self).term_w,
        ensures
            final(self).wf(),
            final(self).term_w == old(self).term_w,
            final(self).term_h == old(self).term_h,
            final(self).pile@.len() == old(self).pile@.len(),
            pile_units(old(self).pile@, old(self).pile@.len() as int) <= pile_units(
                final(self).pile@,
                final(self).pile@.len() as int,
            ) <= pile_units(old(self).pile@, old(self).pile@.len() as int) + 1,
            final(self).letters == old(self).letters,
            final(self).phase == old(self).phase,
            final(self).phase_start_ms == old(self).phase_start_ms,
    {
        let w = self.term_w;
        let h = self.term_h;
        let colh: usize = self.pile[col].len();
        if colh >= h {
            return ;
        }
        let ghost n_cols = self.pile@.len() as int;
        let prosp: usize = colh + 1;
        let lh: usize = if col > 0 {
            self.pile[col - 1].len()
        } else {
            prosp
        };
        let rh: usize = if col + 1 < w {
            self.pile[col + 1].len()
        } else {
            prosp
        };
        let diff_left: usize = if prosp > lh {
            prosp - lh
        } else {
            0
        };
        let diff_right: usize = if prosp > rh {
            prosp - rh
        } else {
            0
        };
        let mut dir: i32 = 0;
        let mut mag: usize = 0;
        if diff_left > 0 || diff_right > 0 {
            if diff_left == diff_right {
                dir = if rand1000() < 500 {
                    -1
                } else {
                    1
                };
                mag = diff_left;
            } else if diff_left > diff_right {
                dir = -1;
                mag = diff_left;
            } else {
                dir = 1;
                mag = diff_right;
            }
        }
        if rand1000() < 250 {
            dir = 0;
            mag = 0;
        }
        // Compress the magnitude and add a little jitter.
        let magm0: u64 = (mag as u64) * 400;
        let magm1: u64 = if magm0 > 1400 {
            1400
        } else {
            magm0
        };
        let jit: u64 = 850 + (rand1000() as u64) * 300 / 1000;
        proof {
            assert(magm1 * jit <= 1610000u64) by (nonlinear_arith)
                requires
                    magm1 <= 1400,
                    jit <= 1150,
            ;
        }
        let magm: u64 = magm1 * jit / 1000;
        let tilt: i32 = if dir < 0 {
            0 - (magm as i32)
        } else if dir > 0 {
            magm as i32
        } else {
            0
        };
        let ghost pile0 = self.pile@;
        let mut column = self.pile.remove(col);
        let ghost col0 = column@;
        column.push(SettledUnit { ch, tilt });
        self.pile.insert(col, column);
        proof {
            assert(self.pile@ =~= pile0.update(col as int, column));
            assert(pile_col_wf(pile0[col as int], self.term_h as int));
            assert(column@ == col0.push(SettledUnit { ch, tilt }));
            assert(pile_col_wf(column, self.term_h as int));
            assert forall|c2: int| 0 <= c2 < self.pile@.len() implies pile_col_wf(
                #[trigger] self.pile@[c2],
                self.term_h as int,
            ) by {
                if c2 != col {
                    assert(self.pile@[c2] == pile0[c2]);
                }
            }
            lemma_pile_units_update(pile0, self.pile@, col as int, n_cols);
        }
    }

    /// Resolve the whole frame into one flat row-major grid of
    /// characters with their gray levels: settled units, letters still
    /// standing at their original position, and letters in flight.
    pub fn render_cells(&self, now_ms: u64) -> (cells: Vec<(char, u8)>)
        requires
            self.wf(),
        ensures
            cells@.len() == self.term_h * self.term_w,
            forall|k: int|
                0 <= k < cells@.len() && covered_before(
                    self.letters@,
                    self.phase,
                    self.phase_start_ms as int,
                    clamp_now(now_ms as int),
                    self.term_w as int,
                    self.term_h as int,
                    k,
                    self.letters@.len() as int,
                ) ==> painted_before(
                    self.letters@,
                    self.phase,
                    self.phase_start_ms as int,
                    clamp_now(now_ms as int),
                    self.term_w as int,
                    self.term_h as int,
                    k,
                    self.letters@.len() as int,
                    #[trigger] cells@[k],
                ),
            self.term_h >= 1 ==> forall|c: int|
                0 <= c < self.term_w && !covered_before(
                    self.letters@,
                    self.phase,
                    self.phase_start_ms as int,
                    clamp_now(now_ms as int),
                    self.term_w as int,
                    self.term_h as int,
                    (self.term_h - 1) * self.term_w + c,
                    self.letters@.len() as int,
                ) ==> #[trigger] cells@[(self.term_h - 1) * self.term_w + c] == pile_base(
                self.pile@,
                c,
            ),
    {
        let w = self.term_w;
        let h = self.term_h;
        let grid = self.build_settled_grid();
        let mut cells: Vec<(char, u8)> = Vec::new();
        let mut k: usize = 0;
        let total = grid.len();
        while k < total
            invariant
                k <= total,
                total == grid@.len(),
                cells@.len() == k,
                forall|q: int| 0 <= q < k ==> #[trigger] cells@[q] == base_cell(grid@[q]),
            decreases total - k,
        {
            let cell: (char, u8) = match grid[k] {
                Some(c) => (c, 200),
                None => (' ', 0),
            };
            cells.push(cell);
            k += 1;
        }
        let ghost base = cells@;
        let now: u64 = if now_ms > 0x1000000000000 {
            0x1000000000000
        } else {
            now_ms
        };
        // Overlay the letters: unreleased ones stand at their original
        // cell, released ones fly at their current position.
        let mut i: usize = 0;
        while i < self.letters.len()
            invariant
                i <= self.letters@.len(),
                self.wf(),
                w == self.term_w,
                h == self.term_h,
                cells@.len() == self.term_h * self.term_w,
                base.len() == cells@.len(),
                now == clamp_now(now_ms as int),
                forall|q: int| 0 <= q < base.len() ==> #[trigger] base[q] == base_cell(grid@[q]),
                grid@.len() == (h as int) * (w as int),
                self.term_h >= 1 ==> bottom_row_done(
                    grid@,
                    self.pile@,
                    w as int,
                    h as int,
                    w as int,
                ),
                forall|q: int|
                    0 <= q < cells@.len() && !covered_before(
                        self.letters@,
                        self.phase,
                        self.phase_start_ms as int,
                        now as int,
                        w as int,
                        h as int,
                        q,
                        i as int,
                    ) ==> #[trigger] cells@[q] == base[q],
                forall|q: int|
                    0 <= q < cells@.len() && covered_before(
                        self.letters@,
                        self.phase,
                        self.phase_start_ms as int,
                        now as int,
                        w as int,
                        h as int,
                        q,
                        i as int,
                    ) ==> painted_before(
                        self.letters@,
                        self.phase,
                        self.phase_start_ms as int,
                        now as int,
                        w as int,
                        h as int,
                        q,
                        i as int,
                        #[trigger] cells@[q],
                    ),
            decreases self.letters@.len() - i,
        {
            let l = self.letters[i];
            let released = match self.phase {
                FallPhase::Static => false,
                _ => now >= self.phase_start_ms + l.release_ms,
            };
            let ghost rel = letter_released(self.letters@[i as int], self.phase, self.phase_start_ms as int, now as int);
            let ghost cells0 = cells@;
            if !released {
                if l.orig_row < h && l.orig_col < w {
                    proof {
                        assert((h as int) * (w as int) <= 100000000) by (nonlinear_arith)
                            requires
                                (w as int) * (h as int) <= 100000000,
                        ;
                        lemma_grid_index_range(w as int, h as int, l.orig_row as int, l.orig_col as int);
                    }
                    let idx: usize = l.orig_row * w + l.orig_col;
                    let shade: u8 = match self.phase {
                        FallPhase::Static => 200,
                        _ => 120,
                    };
                    proof {
                        lemma_overlay_write(
                            self.letters@,
                            self.phase,
                            self.phase_start_ms as int,
                            now as int,
                            w as int,
                            h as int,
                            i as int,
                            idx as int,
                            cells0,
                            base,
                        );
                    }
                    cells.set(idx, (l.ch, shade));
                    proof {
                        assert(cells@ =~= cells0.update(
                            idx as int,
                            letter_paint(self.letters@[i as int], rel, self.phase),
                        ));
                    }
                } else {
                    proof {
                        lemma_overlay_skip(
                            self.letters@,
                            self.phase,
                            self.phase_start_ms as int,
                            now as int,
                            w as int,
                            h as int,
                            i as int,
                            cells0,
                            base,
                        );
                    }
                }
            } else {
                if l.y >= 0 && l.x >= 0 && ((l.y + 500) as u64) / 1000 < (h as u64) && ((l.x + 500)
                    as u64) / 1000 < (w as u64) {
                    let ry: u64 = ((l.y + 500) as u64) / 1000;
                    let rx: u64 = ((l.x + 500) as u64) / 1000;
                    proof {
                        assert((h as int) * (w as int) <= 100000000) by (nonlinear_arith)
                            requires
                                (w as int) * (h as int) <= 100000000,
                        ;
                        lemma_grid_index_range(w as int, h as int, ry as int, rx as int);
                    }
                    let idx: usize = (ry as usize) * w + (rx as usize);
                    proof {
                        lemma_overlay_write(
                            self.letters@,
                            self.phase,
                            self.phase_start_ms as int,
                            now as int,
                            w as int,
                            h as int,
                            i as int,
                            idx as int,
                            cells0,
                            base,
                        );
                    }
                    cells.set(idx, (l.ch, 220));
                    proof {
                        assert(cells@ =~= cells0.update(
                            idx as int,
                            letter_paint(self.letters@[i as int], rel, self.phase),
                        ));
                    }
                } else {
                    proof {
                        lemma_overlay_skip(
                            self.letters@,
                            self.phase,
                            self.phase_start_ms as int,
                            now as int,
                            w as int,
                            h as int,
                            i as int,
                            cells0,
                            base,
                        );
                    }
                }
            }
            i += 1;
        }
        proof {
            if h >= 1 {
                assert forall|c: int|
                    0 <= c < w && !covered_before(
                        self.letters@,
                        self.phase,
                        self.phase_start_ms as int,
                        now as int,
                        w as int,
                        h as int,
                        (h as int - 1) * (w as int) + c,
                        self.letters@.len() as int,
                    ) implies #[trigger] cells@[(h as int - 1) * (w as int) + c] == pile_base(
                    self.pile@,
                    c,
                ) by {
                    lemma_grid_index_range(w as int, h as int, h as int - 1, c);
                    assert(grid_at(grid@, w as int, h as int - 1, c) == grid@[(h as int - 1) * (
                    w as int) + c]);
                    assert(cells@[(h as int - 1) * (w as int) + c] == base[(h as int - 1) * (
                    w as int) + c]);
                }
            }
        }
        cells
    }
}



} // verus!
