//! The two formatters of a long listing: the permission string and the age
//! of a modification time.

use vstd::prelude::*;
use crate::text::{decimal, push_decimal};

verus! {

/// The three letters for one 3-bit permission group.
pub open spec fn triad(g: int) -> Seq<char> {
    if g == 0 {
        "---"@
    } else if g == 1 {
        "--x"@
    } else if g == 2 {
        "-w-"@
    } else if g == 3 {
        "-wx"@
    } else if g == 4 {
        "r--"@
    } else if g == 5 {
        "r-x"@
    } else if g == 6 {
        "rw-"@
    } else {
        "rwx"@
    }
}

/// The owner group of a mode (bits 6 to 8).
pub open spec fn owner_bits(mode: int) -> int {
    (mode / 64) % 8
}

/// The group group of a mode (bits 3 to 5).
pub open spec fn group_bits(mode: int) -> int {
    (mode / 8) % 8
}

/// The other group of a mode (bits 0 to 2).
pub open spec fn other_bits(mode: int) -> int {
    mode % 8
}

/// The nine-letter permission text of a mode: owner, group, other.
pub open spec fn perm_text(mode: int) -> Seq<char> {
    triad(owner_bits(mode)) + triad(group_bits(mode)) + triad(other_bits(mode))
}

fn triad_str(g: u32) -> (r: &'static str)
    requires
        g < 8,
    ensures
        r@ == triad(g as int),
{
    if g == 0 {
        "---"
    } else if g == 1 {
        "--x"
    } else if g == 2 {
        "-w-"
    } else if g == 3 {
        "-wx"
    } else if g == 4 {
        "r--"
    } else if g == 5 {
        "r-x"
    } else if g == 6 {
        "rw-"
    } else {
        "rwx"
    }
}

/// The permission string of `mode`; bits above the lowest nine are ignored.
pub fn perm_string(mode: u32) -> (r: String)
    ensures
        r@ == perm_text(mode as int),
{
    let user = (mode / 64) % 8;
    let group = (mode / 8) % 8;
    let other = mode % 8;
    let mut r = String::new();
    r.append(triad_str(user));
    r.append(triad_str(group));
    r.append(triad_str(other));
    assert(r@ =~= perm_text(mode as int));
    r
}

/// A mode whose three groups all hold the bits `m` has the permission text
/// of `m` three times over.
pub proof fn lemma_repeated_group(m: int)
    requires
        0 <= m < 8,
    ensures
        perm_text(m * 64 + m * 8 + m) == triad(m) + triad(m) + triad(m),
{
    assert(owner_bits(m * 64 + m * 8 + m) == m);
    assert(group_bits(m * 64 + m * 8 + m) == m);
    assert(other_bits(m * 64 + m * 8 + m) == m);
}

/// The seconds field of an age: elapsed seconds modulo a minute.
pub open spec fn age_secs(t: nat) -> nat {
    t % 60
}

/// The minutes field: whole minutes modulo an hour.
pub open spec fn age_mins(t: nat) -> nat {
    (t / 60) % 60
}

/// The hours field: whole hours modulo a day.
pub open spec fn age_hours(t: nat) -> nat {
    (t / 3600) % 24
}

/// The days field: whole days wrapped into a thirty-day pseudo-month.
pub open spec fn age_days(t: nat) -> nat {
    (t / 86400) % 30
}

/// The months field, taken from the already wrapped days field (so it is
/// always zero).
pub open spec fn age_months(t: nat) -> nat {
    (age_days(t) / 30) % 12
}

/// The years field: whole days divided by 365.
pub open spec fn age_years(t: nat) -> nat {
    (t / 86400) / 365
}

/// The age text for `t` elapsed seconds.
pub open spec fn age_text(t: nat) -> Seq<char> {
    "last mod "@ + decimal(age_years(t)) + "y "@ + decimal(age_months(t)) + "m "@
        + decimal(age_days(t)) + "d "@ + decimal(age_hours(t)) + "h "@
        + decimal(age_mins(t)) + "m "@ + decimal(age_secs(t)) + "s"@
}

/// The age string of a modification made `elapsed` seconds ago.
pub fn time_string(elapsed: u64) -> (r: String)
    ensures
        r@ == age_text(elapsed as nat),
{
    let secs = elapsed % 60;
    let mins = (elapsed / 60) % 60;
    let hours = (elapsed / 3600) % 24;
    let days = (elapsed / 86400) % 30;
    let months = (days / 30) % 12;
    let years = (elapsed / 86400) / 365;
    let mut r = String::new();
    r.append("last mod ");
    push_decimal(&mut r, years);
    r.append("y ");
    push_decimal(&mut r, months);
    r.append("m ");
    push_decimal(&mut r, days);
    r.append("d ");
    push_decimal(&mut r, hours);
    r.append("h ");
    push_decimal(&mut r, mins);
    r.append("m ");
    push_decimal(&mut r, secs);
    r.append("s");
    assert(r@ =~= age_text(elapsed as nat));
    r
}

} // verus!
