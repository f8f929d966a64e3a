//! Tokenizing text that may embed terminal escape sequences.
//!
//! A line is split into an ordered sequence of (escape-sequence, char)
//! pairs: a printable character carries an empty escape string, and an
//! escape sequence carries the NUL character.  The grammar, applied at
//! each position:
//!
//! - an ESC that ends the input stands alone as a printable character;
//! - ESC followed by a run of intermediate bytes (0x20..=0x2F) takes the
//!   run and the one character after it, if any;
//! - ESC `[` followed by one of `]`, `P`, `X`, `^`, `_` runs until just
//!   before the next BEL or ESC, or the end;
//! - ESC `[` followed by a run of parameter bytes (0x30..=0x3F) takes
//!   the run and the one character after it, if any;
//! - ESC followed by any other single character is a two-character
//!   escape;
//! - anything else is one printable character.

use vstd::prelude::*;

verus! {

/// Character class of ANSI intermediate bytes.
pub open spec fn is_intermediate(c: char) -> bool {
    0x20 <= c as u32 <= 0x2F
}

/// Character class of ANSI parameter bytes.
pub open spec fn is_param(c: char) -> bool {
    0x30 <= c as u32 <= 0x3F
}

/// Opens an ANSI string-like sequence after `ESC [`.
pub open spec fn is_string_opener(c: char) -> bool {
    c == ']' || c == 'P' || c == 'X' || c == '^' || c == '_'
}

/// Terminates an ANSI string-like sequence.
pub open spec fn is_string_terminator(c: char) -> bool {
    c as u32 == 0x07 || c as u32 == 0x1B
}

/// First position at or after `j` whose character leaves the class given
/// by `kind` (0: intermediate run, 1: parameter run, 2: string body),
/// or the end of the sequence.
pub open spec fn run_end(s: Seq<char>, j: int, kind: int) -> int
    decreases s.len() - j,
{
    if j < 0 || j >= s.len() {
        s.len() as int
    } else {
        let cont = if kind == 0 {
            is_intermediate(s[j])
        } else if kind == 1 {
            is_param(s[j])
        } else {
            !is_string_terminator(s[j])
        };
        if cont {
            run_end(s, j + 1, kind)
        } else {
            j
        }
    }
}

/// Length of the escape token starting at position `i`, where `s[i]` is
/// ESC and `i` is in range.
pub open spec fn esc_len(s: Seq<char>, i: int) -> int {
    if i + 1 >= s.len() {
        1int
    } else {
        let d = s[i + 1];
        if is_intermediate(d) {
            let e = run_end(s, i + 1, 0);
            if e < s.len() {
                e + 1 - i
            } else {
                e - i
            }
        } else if d == '[' {
            if i + 2 < s.len() && is_string_opener(s[i + 2]) {
                run_end(s, i + 3, 2) - i
            } else {
                let e = run_end(s, i + 2, 1);
                if e < s.len() {
                    e + 1 - i
                } else {
                    e - i
                }
            }
        } else {
            2int
        }
    }
}

/// How far the token starting at `i` reaches: at least one character,
/// and never past the end of the sequence.
pub open spec fn token_advance(s: Seq<char>, i: int) -> int {
    if s[i] as u32 == 0x1B && i + 1 < s.len() {
        let e = esc_len(s, i);
        if e < 1 {
            1int
        } else if i + e > s.len() {
            s.len() - i
        } else {
            e
        }
    } else {
        1int
    }
}

/// The token stream of `s` from position `i` on: each token is an
/// (escape, char) pair, the escape empty for printable characters and
/// the char NUL for escape sequences.
pub open spec fn tokenize(s: Seq<char>, i: int) -> Seq<(Seq<char>, char)>
    decreases s.len() - i,
{
    if i < 0 || i >= s.len() {
        Seq::empty()
    } else {
        let a = token_advance(s, i);
        let rest = tokenize(s, i + a);
        if s[i] as u32 == 0x1B && i + 1 < s.len() {
            seq![(s.subrange(i, i + a), '\u{0}')] + rest
        } else {
            seq![(Seq::<char>::empty(), s[i])] + rest
        }
    }
}

/// The view of an executable token list.
pub open spec fn view_tokens(v: Seq<(String, char)>) -> Seq<(Seq<char>, char)> {
    v.map_values(|p: (String, char)| (p.0@, p.1))
}

fn is_intermediate_exec(c: char) -> (r: bool)
    ensures
        r == is_intermediate(c),
{
    let u: u32 = c as u32;
    0x20 <= u && u <= 0x2F
}

fn is_param_exec(c: char) -> (r: bool)
    ensures
        r == is_param(c),
{
    let u: u32 = c as u32;
    0x30 <= u && u <= 0x3F
}

fn is_string_opener_exec(c: char) -> (r: bool)
    ensures
        r == is_string_opener(c),
{
    c == ']' || c == 'P' || c == 'X' || c == '^' || c == '_'
}

fn is_string_terminator_exec(c: char) -> (r: bool)
    ensures
        r == is_string_terminator(c),
{
    let u: u32 = c as u32;
    u == 0x07 || u == 0x1B
}

/// Find the end of a run of the given kind starting at `j`.
fn run_end_exec(s: &str, j: usize, kind: u8) -> (e: usize)
    requires
        j <= s@.len(),
        kind <= 2,
    ensures
        e == run_end(s@, j as int, kind as int),
        j <= e <= s@.len(),
{
    let n = s.unicode_len();
    let mut k = j;
    while k < n
        invariant
            j <= k <= n,
            n == s@.len(),
            kind <= 2,
            run_end(s@, j as int, kind as int) == run_end(s@, k as int, kind as int),
        decreases n - k,
    {
        let c = s.get_char(k);
        let cont = if kind == 0 {
            is_intermediate_exec(c)
        } else if kind == 1 {
            is_param_exec(c)
        } else {
            !is_string_terminator_exec(c)
        };
        if !cont {
            return k;
        }
        k += 1;
    }
    k
}

/// Copy the characters `s[from..to]` into a `String`.
fn copy_range(s: &str, from: usize, to: usize) -> (r: String)
    requires
        from <= to <= s@.len(),
    ensures
        r@ == s@.subrange(from as int, to as int),
{
    String::from_str(s.substring_char(from, to))
}

/// Split a line into its (escape-sequence, char) tokens: printable
/// characters carry an empty escape string, escape sequences carry the
/// NUL character and never count toward printed columns.
pub fn parse_ansi_text(text: &str) -> (r: Vec<(String, char)>)
    ensures
        view_tokens(r@) == tokenize(text@, 0),
{
    let n = text.unicode_len();
    let mut out: Vec<(String, char)> = Vec::new();
    let mut i: usize = 0;
    proof {
        assert(view_tokens(out@) =~= Seq::<(Seq<char>, char)>::empty());
    }
    while i < n
        invariant
            i <= n,
            n == text@.len(),
            tokenize(text@, 0) == view_tokens(out@) + tokenize(text@, i as int),
        decreases n - i,
    {
        let ghost out0 = out@;
        let c = text.get_char(i);
        let adv: usize;
        if (c as u32) == 0x1B && i + 1 < n {
            let d = text.get_char(i + 1);
            let e: usize = if is_intermediate_exec(d) {
                let e0 = run_end_exec(text, i + 1, 0);
                if e0 < n {
                    e0 + 1 - i
                } else {
                    e0 - i
                }
            } else if d == '[' {
                if i + 2 < n && is_string_opener_exec(text.get_char(i + 2)) {
                    run_end_exec(text, i + 3, 2) - i
                } else {
                    let e0 = run_end_exec(text, i + 2, 1);
                    if e0 < n {
                        e0 + 1 - i
                    } else {
                        e0 - i
                    }
                }
            } else {
                2
            };
            assert(e == esc_len(text@, i as int));
            assert(1 <= e && i + e <= n);
            adv = e;
            assert(adv == token_advance(text@, i as int));
            let tok = copy_range(text, i, i + e);
            out.push((tok, '\u{0}'));
            proof {
                assert(view_tokens(out@) =~= view_tokens(out0) + seq![
                    (text@.subrange(i as int, i as int + adv as int), '\u{0}'),
                ]);
            }
        } else {
            adv = 1;
            out.push((String::new(), c));
            proof {
                assert(view_tokens(out@) =~= view_tokens(out0) + seq![
                    (Seq::<char>::empty(), c),
                ]);
            }
        }
        i += adv;
    }
    out
}

} // verus!
