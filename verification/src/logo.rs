//! ASCII logos and their selection by distribution identifier.

use vstd::prelude::*;

use crate::styles::lower_seq;

verus! {

pub fn logo_arch() -> (r: Vec<&'static str>)
    ensures
        r@.len() == 7,
        r@[1] == "      /\\      ",
{
    let mut v: Vec<&'static str> = Vec::new();
    v.push("               ");
    v.push("      /\\      ");
    v.push("     /  \\     ");
    v.push("    / /\\ \\    ");
    v.push("   / ____ \\   ");
    v.push("  /_/    \\_\\  ");
    v.push("               ");
    v
}

pub fn logo_ubuntu() -> (r: Vec<&'static str>)
    ensures
        r@.len() == 8,
        r@[1] == "    ####  ####  ",
{
    let mut v: Vec<&'static str> = Vec::new();
    v.push("                ");
    v.push("    ####  ####  ");
    v.push("   #    ##    # ");
    v.push("   #  ######  # ");
    v.push("   #  ######  # ");
    v.push("   #    ##    # ");
    v.push("    ####  ####  ");
    v.push("                ");
    v
}

pub fn logo_debian() -> (r: Vec<&'static str>)
    ensures
        r@.len() == 9,
        r@[1] == "      ######     ",
{
    let mut v: Vec<&'static str> = Vec::new();
    v.push("                 ");
    v.push("      ######     ");
    v.push("    ##      #    ");
    v.push("   #   ####  #   ");
    v.push("   #  #    # #   ");
    v.push("   #   ####  #   ");
    v.push("    ##      #    ");
    v.push("      ######     ");
    v.push("                 ");
    v
}

pub fn logo_fedora() -> (r: Vec<&'static str>)
    ensures
        r@.len() == 8,
        r@[1] == "   #######    ",
{
    let mut v: Vec<&'static str> = Vec::new();
    v.push("              ");
    v.push("   #######    ");
    v.push("  #   #  ##   ");
    v.push("  #  ##  #    ");
    v.push("  # # #  #    ");
    v.push("  ##  #  #    ");
    v.push("    ######    ");
    v.push("              ");
    v
}

pub fn logo_manjaro() -> (r: Vec<&'static str>)
    ensures
        r@.len() == 8,
        r@[1] == "  ###########  ",
{
    let mut v: Vec<&'static str> = Vec::new();
    v.push("               ");
    v.push("  ###########  ");
    v.push("  ###########  ");
    v.push("  ####   ####  ");
    v.push("  ####   ####  ");
    v.push("  ####   ####  ");
    v.push("  ####   ####  ");
    v.push("               ");
    v
}

pub fn logo_gentoo() -> (r: Vec<&'static str>)
    ensures
        r@.len() == 8,
        r@[1] == "    #######     ",
{
    let mut v: Vec<&'static str> = Vec::new();
    v.push("                ");
    v.push("    #######     ");
    v.push("  ##   ##  ##   ");
    v.push("  #  ##  ## #   ");
    v.push("  #  #  ##  #   ");
    v.push("  ##  ##   ##   ");
    v.push("    #######     ");
    v.push("                ");
    v
}

pub fn logo_alpine() -> (r: Vec<&'static str>)
    ensures
        r@.len() == 9,
        r@[1] == "     /\\\\      ",
{
    let mut v: Vec<&'static str> = Vec::new();
    v.push("               ");
    v.push("     /\\\\      ");
    v.push("    / /\\\\     ");
    v.push("   / /  \\ \\    ");
    v.push("  /_/____\\_\\   ");
    v.push("  \\ \\    / /   ");
    v.push("   \\ \\__/ /    ");
    v.push("    \\____/     ");
    v.push("               ");
    v
}

pub fn logo_opensuse() -> (r: Vec<&'static str>)
    ensures
        r@.len() == 9,
        r@[1] == "    #########    ",
{
    let mut v: Vec<&'static str> = Vec::new();
    v.push("                 ");
    v.push("    #########    ");
    v.push("   #   ###   #   ");
    v.push("   #  #   #  #   ");
    v.push("   #  #   #  #   ");
    v.push("   #   ###   #   ");
    v.push("    #########    ");
    v.push("        #        ");
    v.push("                 ");
    v
}

pub fn logo_fallback() -> (r: Vec<&'static str>)
    ensures
        r@.len() == 12,
        r@[1] == "      #######          ",
{
    let mut v: Vec<&'static str> = Vec::new();
    v.push("       #####           ");
    v.push("      #######          ");
    v.push("      ##O#O##          ");
    v.push("      #######          ");
    v.push("    ###########        ");
    v.push("   #############       ");
    v.push("  ###############      ");
    v.push("  ################     ");
    v.push(" ###################   ");
    v.push("#####################  ");
    v.push("#####################  ");
    v.push("#####################  ");
    v
}

/// Which logo a distribution identifier selects; numbering follows the
/// order of the selection chain, with the fallback last.
pub open spec fn logo_choice(id: Seq<char>) -> int {
    let l = lower_seq(id);
    if l == "arch"@ {
        0int
    } else if l == "ubuntu"@ {
        1int
    } else if l == "debian"@ {
        2int
    } else if l == "fedora"@ {
        3int
    } else if l == "manjaro"@ {
        4int
    } else if l == "gentoo"@ {
        5int
    } else if l == "alpine"@ {
        6int
    } else if l == "opensuse"@ || l == "suse"@ {
        7int
    } else {
        8int
    }
}

/// A distinguishing line of each logo (the second row of its art), so
/// the selection can be told apart by content, not just by size.
pub open spec fn logo_marker(choice: int) -> &'static str {
    if choice == 0 {
        "      /\\      "
    } else if choice == 1 {
        "    ####  ####  "
    } else if choice == 2 {
        "      ######     "
    } else if choice == 3 {
        "   #######    "
    } else if choice == 4 {
        "  ###########  "
    } else if choice == 5 {
        "    #######     "
    } else if choice == 6 {
        "     /\\\\      "
    } else if choice == 7 {
        "    #########    "
    } else {
        "      #######          "
    }
}

/// The number of lines each logo has.
pub open spec fn logo_line_count(choice: int) -> int {
    if choice == 0 {
        7int
    } else if choice == 2 || choice == 6 || choice == 7 {
        9int
    } else if choice == 8 {
        12int
    } else {
        8int
    }
}

/// The logo for a detected distribution identifier (matched
/// case-insensitively): known identifiers get their own art, anything
/// else the generic fallback.
pub fn ascii_logo(distro_id: &str) -> (r: Vec<&'static str>)
    ensures
        r@.len() == logo_line_count(logo_choice(distro_id@)),
        r@[1] == logo_marker(logo_choice(distro_id@)),
{
    if crate::styles::eq_lower(distro_id, "arch") {
        logo_arch()
    } else if crate::styles::eq_lower(distro_id, "ubuntu") {
        logo_ubuntu()
    } else if crate::styles::eq_lower(distro_id, "debian") {
        logo_debian()
    } else if crate::styles::eq_lower(distro_id, "fedora") {
        logo_fedora()
    } else if crate::styles::eq_lower(distro_id, "manjaro") {
        logo_manjaro()
    } else if crate::styles::eq_lower(distro_id, "gentoo") {
        logo_gentoo()
    } else if crate::styles::eq_lower(distro_id, "alpine") {
        logo_alpine()
    } else if crate::styles::eq_lower(distro_id, "opensuse") || crate::styles::eq_lower(
        distro_id,
        "suse",
    ) {
        logo_opensuse()
    } else {
        logo_fallback()
    }
}

} // verus!
