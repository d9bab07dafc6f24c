//! Human-scaled rendering of byte counts and byte rates.

use vstd::prelude::*;

verus! {

pub const KIB: u64 = 1024;
pub const MIB: u64 = 1048576;
pub const GIB: u64 = 1073741824;
pub const TIB: u64 = 1099511627776;

/// The character of a decimal digit.
pub open spec fn digit_char(d: nat) -> char {
    seq!['0', '1', '2', '3', '4', '5', '6', '7', '8', '9'][d as int]
}

/// Decimal rendering of a natural number, without leading zeros.
pub open spec fn decimal(n: nat) -> Seq<char>
    decreases n,
{
    if n < 10 {
        seq![digit_char(n)]
    } else {
        decimal(n / 10) + seq![digit_char(n % 10)]
    }
}

/// `b / unit` in tenths, rounded to the nearest tenth, ties to even.
pub open spec fn rounded_tenths(b: nat, unit: nat) -> nat
    recommends
        unit > 0,
{
    let q = (b * 10) / unit;
    let r = (b * 10) % unit;
    if 2 * r > unit || (2 * r == unit && q % 2 == 1) {
        q + 1
    } else {
        q
    }
}

/// `b / unit` with one decimal place.
pub open spec fn one_decimal(b: nat, unit: nat) -> Seq<char> {
    let t = rounded_tenths(b, unit);
    decimal(t / 10) + seq!['.'] + decimal(t % 10)
}

/// The human-scaled text of a byte count: the largest binary unit that does
/// not exceed it, with one decimal place; plain bytes below one KB.
pub open spec fn human_bytes(b: nat) -> Seq<char> {
    if b >= TIB {
        one_decimal(b, TIB as nat) + seq![' ', 'T', 'B']
    } else if b >= GIB {
        one_decimal(b, GIB as nat) + seq![' ', 'G', 'B']
    } else if b >= MIB {
        one_decimal(b, MIB as nat) + seq![' ', 'M', 'B']
    } else if b >= KIB {
        one_decimal(b, KIB as nat) + seq![' ', 'K', 'B']
    } else {
        decimal(b) + seq![' ', 'B']
    }
}

/// The human-scaled text of a byte rate given in whole bytes per second.
pub open spec fn human_rate(bps: nat) -> Seq<char> {
    human_bytes(bps) + seq!['/', 's']
}

fn digit_str(d: u128) -> (r: &'static str)
    requires
        d < 10,
    ensures
        r@ == seq![digit_char(d as nat)],
{
    proof {
        reveal_strlit("0");
        reveal_strlit("1");
        reveal_strlit("2");
        reveal_strlit("3");
        reveal_strlit("4");
        reveal_strlit("5");
        reveal_strlit("6");
        reveal_strlit("7");
        reveal_strlit("8");
        reveal_strlit("9");
    }
    let r = match d {
        0 => "0",
        1 => "1",
        2 => "2",
        3 => "3",
        4 => "4",
        5 => "5",
        6 => "6",
        7 => "7",
        8 => "8",
        _ => "9",
    };
    assert(r@ =~= seq![digit_char(d as nat)]);
    r
}

/// Appends the decimal digits of `n` to `s`.
pub fn push_decimal(s: &mut String, n: u128)
    ensures
        final(s)@ == old(s)@ + decimal(n as nat),
    decreases n,
{
    if n >= 10 {
        push_decimal(s, n / 10);
    }
    s.append(digit_str(n % 10));
    proof {
        if n >= 10 {
            assert(final(s)@ =~= old(s)@ + decimal(n as nat));
        } else {
            assert(final(s)@ =~= old(s)@ + decimal(n as nat));
        }
    }
}

/// Appends `b / unit` with one decimal place to `s`.
fn push_one_decimal(s: &mut String, b: u64, unit: u64)
    requires
        1024 <= unit <= TIB,
    ensures
        final(s)@ == old(s)@ + one_decimal(b as nat, unit as nat),
{
    let x: u128 = (b as u128) * 10;
    let u: u128 = unit as u128;
    let q: u128 = x / u;
    let r: u128 = x % u;
    let t: u128 = if 2 * r > u || (2 * r == u && q % 2 == 1) {
        q + 1
    } else {
        q
    };
    assert(t == rounded_tenths(b as nat, unit as nat));
    push_decimal(s, t / 10);
    s.append(".");
    proof {
        reveal_strlit(".");
    }
    push_decimal(s, t % 10);
    assert(final(s)@ =~= old(s)@ + one_decimal(b as nat, unit as nat));
}

/// Renders a byte count in the largest binary unit (B, KB, MB, GB, TB) that
/// does not exceed it, with one decimal place above plain bytes.
pub fn bytes_to_human(b: u64) -> (r: String)
    ensures
        r@ == human_bytes(b as nat),
{
    let mut s = String::new();
    proof {
        reveal_strlit(" TB");
        reveal_strlit(" GB");
        reveal_strlit(" MB");
        reveal_strlit(" KB");
        reveal_strlit(" B");
    }
    if b >= TIB {
        push_one_decimal(&mut s, b, TIB);
        s.append(" TB");
    } else if b >= GIB {
        push_one_decimal(&mut s, b, GIB);
        s.append(" GB");
    } else if b >= MIB {
        push_one_decimal(&mut s, b, MIB);
        s.append(" MB");
    } else if b >= KIB {
        push_one_decimal(&mut s, b, KIB);
        s.append(" KB");
    } else {
        push_decimal(&mut s, b as u128);
        s.append(" B");
    }
    assert(s@ =~= human_bytes(b as nat));
    s
}

/// Renders a byte rate, in whole bytes per second, as a human-scaled count
/// followed by "/s".
pub fn bytes_per_sec_human(bps: u64) -> (r: String)
    ensures
        r@ == human_rate(bps as nat),
{
    let mut s = bytes_to_human(bps);
    s.append("/s");
    proof {
        reveal_strlit("/s");
    }
    assert(s@ =~= human_rate(bps as nat));
    s
}

} // verus!
