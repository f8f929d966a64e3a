//! Startup argument handling for the animation style.

use vstd::prelude::*;

use crate::styles::AnimationStyle;
use crate::styles::resolve_style;

verus! {

/// The style the argument list selects, scanning left to right: the
/// value after a `--style` or `--animation` flag, or the value attached
/// with `--style=` or `--animation=`; the default style where no flag
/// matches.
pub open spec fn style_argument(args: Seq<String>, i: int) -> AnimationStyle
    decreases args.len() - i,
{
    if i < 0 || i >= args.len() {
        AnimationStyle::Neon
    } else {
        let a = args[i]@;
        if (a == "--style"@ || a == "--animation"@) && i + 1 < args.len() {
            resolve_style(args[i + 1]@)
        } else if a.len() >= 8 && a.subrange(0, 8) == "--style="@ {
            resolve_style(a.subrange(8, a.len() as int))
        } else if a.len() >= 12 && a.subrange(0, 12) == "--animation="@ {
            resolve_style(a.subrange(12, a.len() as int))
        } else {
            style_argument(args, i + 1)
        }
    }
}

/// Does `s` start with the prefix `p`?
fn starts_with_exec(s: &str, p: &str) -> (r: bool)
    ensures
        r == (s@.len() >= p@.len() && s@.subrange(0, p@.len() as int) == p@),
{
    let n = s.unicode_len();
    let m = p.unicode_len();
    if n < m {
        assert(!(s@.len() >= p@.len()));
        return false;
    }
    let mut i: usize = 0;
    while i < m
        invariant
            i <= m,
            m <= n,
            n == s@.len(),
            m == p@.len(),
            forall|j: int| 0 <= j < i ==> s@[j] == p@[j],
        decreases m - i,
    {
        if s.get_char(i) != p.get_char(i) {
            assert(s@.subrange(0, p@.len() as int)[i as int] != p@[i as int]);
            return false;
        }
        i += 1;
    }
    proof {
        assert(s@.subrange(0, p@.len() as int) =~= p@);
    }
    true
}

/// Exact string equality.
fn str_eq(s: &str, t: &str) -> (r: bool)
    ensures
        r == (s@ == t@),
{
    let n = s.unicode_len();
    if n != t.unicode_len() {
        return false;
    }
    let mut i: usize = 0;
    while i < n
        invariant
            i <= n,
            n == s@.len(),
            n == t@.len(),
            forall|j: int| 0 <= j < i ==> s@[j] == t@[j],
        decreases n - i,
    {
        if s.get_char(i) != t.get_char(i) {
            return false;
        }
        i += 1;
    }
    proof {
        assert(s@ =~= t@);
    }
    true
}

/// Scan the argument list for the style selection; unknown or missing
/// selections fall back to the default style.
pub fn parse_style_argument(args: &Vec<String>) -> (r: AnimationStyle)
    ensures
        r == style_argument(args@, 0),
{
    let n = args.len();
    let mut i: usize = 0;
    while i < n
        invariant
            i <= n,
            n == args@.len(),
            style_argument(args@, 0) == style_argument(args@, i as int),
        decreases n - i,
    {
        let a: &String = &args[i];
        proof {
            reveal_strlit("--style=");
            reveal_strlit("--animation=");
        }
        if (str_eq(a.as_str(), "--style") || str_eq(a.as_str(), "--animation")) && i + 1 < n {
            return AnimationStyle::from_str(args[i + 1].as_str());
        }
        if starts_with_exec(a.as_str(), "--style=") {
            let rest = a.as_str().substring_char(8, a.as_str().unicode_len());
            return AnimationStyle::from_str(rest);
        }
        if starts_with_exec(a.as_str(), "--animation=") {
            let rest = a.as_str().substring_char(12, a.as_str().unicode_len());
            return AnimationStyle::from_str(rest);
        }
        i += 1;
    }
    AnimationStyle::Neon
}

} // verus!
