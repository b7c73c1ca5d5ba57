//! Decimal rendering of counters and scaled quantities for alert details.
//!
//! Percentages are carried as tenths of a percent and printed with one
//! decimal place; byte and rate quantities are scaled to hundredths of a
//! GiB or MiB and printed with two decimal places.

use vstd::prelude::*;
use vstd::string::StringExecFns;

verus! {

/// The decimal digit character for `d` (meaningful for `0 <= d <= 9`).
pub open spec fn spec_digit(d: int) -> char {
    if d == 0 {
        '0'
    } else if d == 1 {
        '1'
    } else if d == 2 {
        '2'
    } else if d == 3 {
        '3'
    } else if d == 4 {
        '4'
    } else if d == 5 {
        '5'
    } else if d == 6 {
        '6'
    } else if d == 7 {
        '7'
    } else if d == 8 {
        '8'
    } else {
        '9'
    }
}

/// The usual base-10 rendering of a nonnegative integer, no leading zeros.
pub open spec fn spec_dec(n: int) -> Seq<char>
    decreases n,
{
    if n < 10 {
        seq![spec_digit(n)]
    } else {
        spec_dec(n / 10).push(spec_digit(n % 10))
    }
}

/// A quantity counted in tenths, rendered with one decimal place.
pub open spec fn spec_tenths(t: int) -> Seq<char> {
    spec_dec(t / 10) + seq!['.'] + seq![spec_digit(t % 10)]
}

/// A quantity counted in hundredths, rendered with two decimal places.
pub open spec fn spec_hundredths(h: int) -> Seq<char> {
    spec_dec(h / 100) + seq!['.'] + seq![spec_digit((h / 10) % 10), spec_digit(h % 10)]
}

/// Hundredths of a GiB in `bytes`, rounded toward zero.
pub open spec fn gib_hundredths(bytes: int) -> int {
    bytes * 100 / 0x40000000
}

/// Hundredths of a MiB in `v`, rounded toward zero.
pub open spec fn mib_hundredths(v: int) -> int {
    v * 100 / 0x100000
}

fn digit_str(d: u64) -> (s: &'static str)
    requires
        d < 10,
    ensures
        s@ == seq![spec_digit(d as int)],
{
    proof {
        reveal_strlit("0");
        reveal_strlit("1");
        reveal_strlit("2");
        reveal_strlit("3");
        reveal_strlit("4");
        reveal_strlit("5");
        reveal_strlit("6");
        reveal_strlit("7");
        reveal_strlit("8");
        reveal_strlit("9");
    }
    if d == 0 {
        proof { assert("0"@ =~= seq![spec_digit(0)]); }
        "0"
    } else if d == 1 {
        proof { assert("1"@ =~= seq![spec_digit(1)]); }
        "1"
    } else if d == 2 {
        proof { assert("2"@ =~= seq![spec_digit(2)]); }
        "2"
    } else if d == 3 {
        proof { assert("3"@ =~= seq![spec_digit(3)]); }
        "3"
    } else if d == 4 {
        proof { assert("4"@ =~= seq![spec_digit(4)]); }
        "4"
    } else if d == 5 {
        proof { assert("5"@ =~= seq![spec_digit(5)]); }
        "5"
    } else if d == 6 {
        proof { assert("6"@ =~= seq![spec_digit(6)]); }
        "6"
    } else if d == 7 {
        proof { assert("7"@ =~= seq![spec_digit(7)]); }
        "7"
    } else if d == 8 {
        proof { assert("8"@ =~= seq![spec_digit(8)]); }
        "8"
    } else {
        proof { assert("9"@ =~= seq![spec_digit(9)]); }
        "9"
    }
}

/// Base-10 rendering of `n`.
pub fn dec_u64(n: u64) -> (s: String)
    ensures
        s@ == spec_dec(n as int),
    decreases n,
{
    if n < 10 {
        digit_str(n).to_owned()
    } else {
        let mut s = dec_u64(n / 10);
        s.append(digit_str(n % 10));
        proof {
            assert(s@ =~= spec_dec(n as int));
        }
        s
    }
}

/// One-decimal-place rendering of a quantity counted in tenths.
pub fn tenths_string(t: u64) -> (s: String)
    ensures
        s@ == spec_tenths(t as int),
{
    proof {
        reveal_strlit(".");
    }
    let mut s = dec_u64(t / 10);
    s.append(".");
    s.append(digit_str(t % 10));
    proof {
        assert(s@ =~= spec_tenths(t as int));
    }
    s
}

/// Two-decimal-place rendering of a quantity counted in hundredths.
pub fn hundredths_string(h: u64) -> (s: String)
    ensures
        s@ == spec_hundredths(h as int),
{
    proof {
        reveal_strlit(".");
    }
    let mut s = dec_u64(h / 100);
    s.append(".");
    s.append(digit_str((h / 10) % 10));
    s.append(digit_str(h % 10));
    proof {
        assert(s@ =~= spec_hundredths(h as int));
    }
    s
}

/// `bytes` scaled to hundredths of a GiB.
pub fn gib_hundredths_u64(bytes: u64) -> (h: u64)
    ensures
        h == gib_hundredths(bytes as int),
{
    let wide: u128 = bytes as u128 * 100 / 0x40000000;
    proof {
        assert(wide <= u64::MAX as u128) by (nonlinear_arith)
            requires wide == bytes as u128 * 100 / 0x40000000, bytes <= u64::MAX;
    }
    wide as u64
}

/// A rate in bytes per second, scaled to hundredths of a MiB.
pub fn mib_hundredths_u128(v: u128) -> (h: u64)
    requires
        v < 0x20000000000000000,
    ensures
        h == mib_hundredths(v as int),
{
    let wide: u128 = v * 100 / 0x100000;
    proof {
        assert(wide <= u64::MAX as u128) by (nonlinear_arith)
            requires wide == v * 100 / 0x100000, v < 0x20000000000000000;
    }
    wide as u64
}

} // verus!
