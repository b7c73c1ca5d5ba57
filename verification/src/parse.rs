//! Parsing of unsigned counters out of text the collaborators hand over:
//! whole-string decimal and hexadecimal numbers, exactly specified.

use vstd::prelude::*;
use vstd::string::StrSliceExecFns;

verus! {

/// Whether `c` is a decimal digit.
pub open spec fn is_digit(c: char) -> bool {
    48 <= c as int <= 57
}

/// The value of a decimal digit.
pub open spec fn digit_val(c: char) -> int {
    c as int - 48
}

/// Whether every character of `s` is a decimal digit.
pub open spec fn all_digits(s: Seq<char>) -> bool {
    forall|i: int| 0 <= i < s.len() ==> is_digit(#[trigger] s[i])
}

/// The number a digit string denotes, most significant digit first.
pub open spec fn spec_dec_val(s: Seq<char>) -> int
    decreases s.len(),
{
    if s.len() == 0 {
        0
    } else {
        spec_dec_val(s.drop_last()) * 10 + digit_val(s.last())
    }
}

/// A digit string denotes a nonnegative number.
proof fn lemma_dec_val_nonneg(s: Seq<char>)
    requires
        all_digits(s),
    ensures
        spec_dec_val(s) >= 0,
    decreases s.len(),
{
    if s.len() > 0 {
        assert(is_digit(s[s.len() - 1]));
        assert(all_digits(s.drop_last()));
        lemma_dec_val_nonneg(s.drop_last());
    }
}

/// Extending a digit string to the right never shrinks its value.
proof fn lemma_dec_val_prefix(s: Seq<char>, i: int)
    requires
        all_digits(s),
        0 <= i <= s.len(),
    ensures
        spec_dec_val(s.take(i)) <= spec_dec_val(s),
    decreases s.len() - i,
{
    if i < s.len() {
        assert(all_digits(s.take(i)));
        lemma_dec_val_nonneg(s.take(i));
        assert(s.take(i + 1).drop_last() =~= s.take(i));
        assert(s.take(i + 1).last() == s[i]);
        assert(is_digit(s[i]));
        assert(spec_dec_val(s.take(i)) <= spec_dec_val(s.take(i + 1)));
        lemma_dec_val_prefix(s, i + 1);
        assert(s.take(s.len() as int) =~= s);
    } else {
        assert(s.take(i) =~= s);
    }
}

/// Parse a whole string as an unsigned decimal number: every character
/// must be a digit, the string nonempty, and the value must fit in `u64`;
/// exactly otherwise the result is `None`.
pub fn parse_u64_dec(s: &str) -> (r: Option<u64>)
    ensures
        match r {
            Some(v) => s@.len() > 0 && all_digits(s@) && v as int == spec_dec_val(s@),
            None => s@.len() == 0 || !all_digits(s@) || spec_dec_val(s@) > u64::MAX,
        },
{
    let n = s.unicode_len();
    if n == 0 {
        return None;
    }
    let mut acc: u64 = 0;
    let mut i: usize = 0;
    while i < n
        invariant
            0 < n == s@.len(),
            i <= n,
            all_digits(s@.take(i as int)),
            acc as int == spec_dec_val(s@.take(i as int)),
        decreases n - i,
    {
        let c = s.get_char(i);
        let code = c as u32;
        if code < 48 || code > 57 {
            proof {
                assert(!is_digit(s@[i as int]));
            }
            return None;
        }
        let digit = (code - 48) as u64;
        let wide: u128 = acc as u128 * 10 + digit as u128;
        proof {
            assert(s@.take(i + 1).drop_last() =~= s@.take(i as int));
            assert(s@.take(i + 1).last() == s@[i as int]);
        }
        if wide > u64::MAX as u128 {
            proof {
                assert(spec_dec_val(s@.take(i + 1)) > u64::MAX);
                if all_digits(s@) {
                    lemma_dec_val_prefix(s@, i + 1);
                }
            }
            return None;
        }
        acc = wide as u64;
        i = i + 1;
    }
    proof {
        assert(s@.take(n as int) =~= s@);
    }
    Some(acc)
}

/// Parse a whole string as a `u32`, as `parse_u64_dec` does.
pub fn parse_u32_dec(s: &str) -> (r: Option<u32>)
    ensures
        match r {
            Some(v) => s@.len() > 0 && all_digits(s@) && v as int == spec_dec_val(s@),
            None => s@.len() == 0 || !all_digits(s@) || spec_dec_val(s@) > u32::MAX,
        },
{
    match parse_u64_dec(s) {
        Some(v) => if v <= u32::MAX as u64 {
            Some(v as u32)
        } else {
            proof {
                if s@.len() > 0 && all_digits(s@) {
                    lemma_dec_val_prefix(s@, s@.len() as int);
                }
            }
            None
        },
        None => {
            proof {
                if !(s@.len() == 0 || !all_digits(s@)) {
                    assert(spec_dec_val(s@) > u64::MAX);
                }
            }
            None
        }
    }
}

/// Whether `c` is a hexadecimal digit, either case.
pub open spec fn is_hex_digit(c: char) -> bool {
    48 <= c as int <= 57 || 97 <= c as int <= 102 || 65 <= c as int <= 70
}

/// The value of a hexadecimal digit, either case.
pub open spec fn hex_digit_val(c: char) -> int {
    if 48 <= c as int <= 57 {
        c as int - 48
    } else if 97 <= c as int <= 102 {
        c as int - 87
    } else {
        c as int - 55
    }
}

/// Whether every character of `s` is a hexadecimal digit.
pub open spec fn all_hex_digits(s: Seq<char>) -> bool {
    forall|i: int| 0 <= i < s.len() ==> is_hex_digit(#[trigger] s[i])
}

/// The number a hexadecimal digit string denotes.
pub open spec fn spec_hex_val(s: Seq<char>) -> int
    decreases s.len(),
{
    if s.len() == 0 {
        0
    } else {
        spec_hex_val(s.drop_last()) * 16 + hex_digit_val(s.last())
    }
}

proof fn lemma_hex_val_nonneg(s: Seq<char>)
    requires
        all_hex_digits(s),
    ensures
        spec_hex_val(s) >= 0,
    decreases s.len(),
{
    if s.len() > 0 {
        assert(is_hex_digit(s[s.len() - 1]));
        assert(all_hex_digits(s.drop_last()));
        lemma_hex_val_nonneg(s.drop_last());
    }
}

proof fn lemma_hex_val_prefix(s: Seq<char>, i: int)
    requires
        all_hex_digits(s),
        0 <= i <= s.len(),
    ensures
        spec_hex_val(s.take(i)) <= spec_hex_val(s),
    decreases s.len() - i,
{
    if i < s.len() {
        assert(all_hex_digits(s.take(i)));
        lemma_hex_val_nonneg(s.take(i));
        assert(s.take(i + 1).drop_last() =~= s.take(i));
        assert(s.take(i + 1).last() == s[i]);
        assert(is_hex_digit(s[i]));
        assert(spec_hex_val(s.take(i)) <= spec_hex_val(s.take(i + 1)));
        lemma_hex_val_prefix(s, i + 1);
        assert(s.take(s.len() as int) =~= s);
    } else {
        assert(s.take(i) =~= s);
    }
}

/// Parse a whole string as an unsigned hexadecimal number fitting `u16`,
/// accepting either letter case; exactly otherwise the result is `None`.
pub fn parse_u16_hex(s: &str) -> (r: Option<u16>)
    ensures
        match r {
            Some(v) => s@.len() > 0 && all_hex_digits(s@) && v as int == spec_hex_val(s@),
            None => s@.len() == 0 || !all_hex_digits(s@) || spec_hex_val(s@) > u16::MAX,
        },
{
    let n = s.unicode_len();
    if n == 0 {
        return None;
    }
    let mut acc: u32 = 0;
    let mut i: usize = 0;
    while i < n
        invariant
            0 < n == s@.len(),
            i <= n,
            all_hex_digits(s@.take(i as int)),
            acc as int == spec_hex_val(s@.take(i as int)),
            acc <= u16::MAX,
        decreases n - i,
    {
        let c = s.get_char(i);
        let code = c as u32;
        let digit: u32;
        if 48 <= code && code <= 57 {
            digit = code - 48;
        } else if 97 <= code && code <= 102 {
            digit = code - 87;
        } else if 65 <= code && code <= 70 {
            digit = code - 55;
        } else {
            proof {
                assert(!is_hex_digit(s@[i as int]));
            }
            return None;
        }
        let wide: u32 = acc * 16 + digit;
        proof {
            assert(s@.take(i + 1).drop_last() =~= s@.take(i as int));
            assert(s@.take(i + 1).last() == s@[i as int]);
        }
        if wide > u16::MAX as u32 {
            proof {
                assert(spec_hex_val(s@.take(i + 1)) > u16::MAX);
                if all_hex_digits(s@) {
                    lemma_hex_val_prefix(s@, i + 1);
                }
            }
            return None;
        }
        acc = wide;
        i = i + 1;
    }
    proof {
        assert(s@.take(n as int) =~= s@);
    }
    Some(acc as u16)
}

} // verus!
