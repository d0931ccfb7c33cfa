//! Decimal text of integers: exact parsing and rendering, with the value of
//! a digit string defined once and used by both directions.

use vstd::prelude::*;
use crate::strings::{push_char, to_chars};

verus! {

/// Why decimal integer parsing failed.
#[derive(Debug, Clone, Copy, PartialEq, Eq, Structural)]
pub enum NumError {
    /// The text is empty.
    Empty,
    /// A character is not a decimal digit (an all-sign text counts too).
    InvalidDigit,
    /// The value does not fit in the requested integer type.
    Overflow,
}

/// `c` is a decimal digit.
pub open spec fn is_dec_digit(c: char) -> bool {
    48 <= c as u32 <= 57
}

/// Every character of `s` is a decimal digit.
pub open spec fn all_digits(s: Seq<char>) -> bool {
    forall|i: int| 0 <= i < s.len() ==> is_dec_digit(s[i])
}

/// The value of a digit string, most significant digit first.
pub open spec fn digits_val(s: Seq<char>) -> int
    decreases s.len(),
{
    if s.len() == 0 {
        0
    } else {
        digits_val(s.drop_last()) * 10 + (s.last() as u32 - 48)
    }
}

/// Ten to the `n`.
pub open spec fn pow10(n: nat) -> int
    decreases n,
{
    if n == 0 {
        1
    } else {
        10 * pow10((n - 1) as nat)
    }
}

/// A digit string's value is bounded by the power of ten of its length, and
/// from below by the power of ten of one less when its first digit is not 0.
pub proof fn lemma_digits_val_bounds(s: Seq<char>)
    requires
        all_digits(s),
    ensures
        0 <= digits_val(s) < pow10(s.len()),
        s.len() > 0 && s[0] as u32 != 48 ==> digits_val(s) >= pow10((s.len() - 1) as nat),
    decreases s.len(),
{
    if s.len() > 0 {
        let pre = s.drop_last();
        assert(all_digits(pre));
        lemma_digits_val_bounds(pre);
        let d = s.last() as u32 - 48;
        assert(0 <= d <= 9);
        assert(digits_val(s) == digits_val(pre) * 10 + d);
        assert(digits_val(pre) * 10 + d < pow10(pre.len()) * 10) by (nonlinear_arith)
            requires
                digits_val(pre) < pow10(pre.len()),
                0 <= d <= 9,
        ;
        assert(pow10(s.len()) == 10 * pow10(pre.len()));
        assert(digits_val(pre) * 10 >= 0) by (nonlinear_arith)
            requires
                digits_val(pre) >= 0,
        ;
        if s.len() > 1 && s[0] as u32 != 48 {
            assert(pre[0] == s[0]);
            assert(digits_val(pre) >= pow10((pre.len() - 1) as nat));
            assert(digits_val(pre) * 10 >= pow10((pre.len() - 1) as nat) * 10)
                by (nonlinear_arith)
                requires
                    digits_val(pre) >= pow10((pre.len() - 1) as nat),
            ;
        }
        if s.len() == 1 && s[0] as u32 != 48 {
            assert(s.last() == s[0]);
            assert(d >= 1);
        }
    }
}

/// The sign and digits of a decimal text: a leading `+` or `-` is allowed,
/// the rest must be one or more digits.
pub open spec fn spec_parse_int(s: Seq<char>) -> Result<int, NumError> {
    if s.len() == 0 {
        Err(NumError::Empty)
    } else {
        let neg = s[0] == '-';
        let digs = if s[0] == '-' || s[0] == '+' {
            s.drop_first()
        } else {
            s
        };
        if digs.len() == 0 {
            Err(NumError::InvalidDigit)
        } else if !all_digits(digs) {
            Err(NumError::InvalidDigit)
        } else if neg {
            Ok(-digits_val(digs))
        } else {
            Ok(digits_val(digs))
        }
    }
}

/// The decimal value of `s` as an `i64`.
pub open spec fn spec_parse_i64(s: Seq<char>) -> Result<i64, NumError> {
    match spec_parse_int(s) {
        Err(e) => Err(e),
        Ok(v) => if i64::MIN <= v <= i64::MAX {
            Ok(v as i64)
        } else {
            Err(NumError::Overflow)
        },
    }
}

/// The decimal value of `s` as an `i32`.
pub open spec fn spec_parse_i32(s: Seq<char>) -> Result<i32, NumError> {
    match spec_parse_int(s) {
        Err(e) => Err(e),
        Ok(v) => if i32::MIN <= v <= i32::MAX {
            Ok(v as i32)
        } else {
            Err(NumError::Overflow)
        },
    }
}

/// Parse sign and magnitude; a magnitude above `u64::MAX` is reported as an
/// overflow before the requested width is even considered.
fn parse_decimal(s: &str) -> (r: Result<(bool, u64), NumError>)
    ensures
        match r {
            Ok(p) => spec_parse_int(s@) == Ok::<int, NumError>(
                if p.0 {
                    -(p.1 as int)
                } else {
                    p.1 as int
                },
            ),
            Err(e) => match e {
                NumError::Overflow => {
                    &&& spec_parse_int(s@) matches Ok(v)
                    &&& (v >= pow10(19) || v <= -pow10(19))
                },
                _ => spec_parse_int(s@) == Err::<int, NumError>(e),
            },
        },
{
    let chars = to_chars(s);
    if chars.len() == 0 {
        return Err(NumError::Empty);
    }
    let first = chars[0];
    let neg = first == '-';
    let start: usize = if first == '-' || first == '+' {
        1
    } else {
        0
    };
    let ghost digs = if start == 1 {
        s@.drop_first()
    } else {
        s@
    };
    proof {
        assert(digs =~= s@.subrange(start as int, s@.len() as int));
    }
    if chars.len() == start {
        return Err(NumError::InvalidDigit);
    }
    // check that everything from `start` on is a digit
    let mut i: usize = start;
    while i < chars.len()
        invariant
            start <= i <= chars.len(),
            chars@ == s@,
            start <= s@.len(),
            s@.len() > 0,
            (start == 1) <==> (s@[0] == '-' || s@[0] == '+'),
            neg == (s@[0] == '-'),
            digs == s@.subrange(start as int, s@.len() as int),
            forall|k: int| start <= k < i ==> is_dec_digit(s@[k]),
        decreases chars.len() - i,
    {
        let c = chars[i];
        let u = c as u32;
        if u < 48 || u > 57 {
            proof {
                assert(digs[i - start] == s@[i as int]);
                assert(!all_digits(digs));
            }
            return Err(NumError::InvalidDigit);
        }
        i += 1;
    }
    proof {
        assert forall|k: int| 0 <= k < digs.len() implies is_dec_digit(digs[k]) by {
            assert(digs[k] == s@[k + start]);
        }
        assert(all_digits(digs));
    }
    // skip leading zeros
    let mut z: usize = start;
    while z < chars.len() && chars[z] as u32 == 48
        invariant
            start <= z <= chars.len(),
            chars@ == s@,
            start <= s@.len(),
            digs == s@.subrange(start as int, s@.len() as int),
            forall|k: int| start <= k < z ==> s@[k] as u32 == 48,
        decreases chars.len() - z,
    {
        z += 1;
    }
    let ghost sig = s@.subrange(z as int, s@.len() as int);
    proof {
        lemma_zeros_prefix(digs, (z - start) as int);
        assert(sig =~= digs.subrange((z - start) as int, digs.len() as int));
        assert(digits_val(digs) == digits_val(sig));
        assert(all_digits(sig));
    }
    let m = chars.len() - z;
    if m > 19 {
        proof {
            lemma_digits_val_bounds(sig);
            assert(sig[0] == s@[z as int]);
            if z < chars.len() {
                assert(!(chars[z as int] as u32 == 48));
            }
            lemma_pow10_mono(19, (sig.len() - 1) as nat);
            assert(digits_val(sig) >= pow10(19));
            assert(digits_val(digs) >= pow10(19));
        }
        return Err(NumError::Overflow);
    }
    // accumulate at most 19 significant digits: the value stays below 10^19
    let mut acc: u64 = 0;
    let mut j: usize = z;
    while j < chars.len()
        invariant
            z <= j <= chars.len(),
            chars@ == s@,
            z <= s@.len(),
            m == s@.len() - z,
            m <= 19,
            sig == s@.subrange(z as int, s@.len() as int),
            all_digits(sig),
            acc as int == digits_val(sig.subrange(0, j - z)),
            (acc as int) < pow10((j - z) as nat),
        decreases chars.len() - j,
    {
        let c = chars[j];
        let u = c as u32;
        proof {
            assert(sig[j - z] == s@[j as int]);
            assert(is_dec_digit(sig[j - z]));
        }
        let d = (u - 48) as u64;
        proof {
            lemma_pow10_mono((j - z) as nat, 18);
            lemma_pow10_19();
            assert(acc as int * 10 + d < pow10(19)) by (nonlinear_arith)
                requires
                    (acc as int) < pow10(18 as nat),
                    d <= 9,
                    pow10(19) == 10 * pow10(18 as nat),
                    acc >= 0,
            ;
        }
        acc = acc * 10 + d;
        proof {
            let pre = sig.subrange(0, j - z + 1);
            assert(pre.drop_last() =~= sig.subrange(0, j - z));
            assert(pre.last() == sig[j - z]);
            assert(acc as int == digits_val(pre));
        }
        j += 1;
    }
    proof {
        assert(sig.subrange(0, m as int) =~= sig);
        assert(acc as int == digits_val(digs));
        if neg {
            assert(spec_parse_int(s@) == Ok::<int, NumError>(-digits_val(digs)));
        } else {
            assert(spec_parse_int(s@) == Ok::<int, NumError>(digits_val(digs)));
        }
    }
    Ok((neg, acc))
}

/// Dropping leading `'0'` digits keeps the value.
proof fn lemma_zeros_prefix(s: Seq<char>, k: int)
    requires
        0 <= k <= s.len(),
        forall|i: int| 0 <= i < k ==> s[i] as u32 == 48,
    ensures
        digits_val(s.subrange(k, s.len() as int)) == digits_val(s),
    decreases s.len(),
{
    if k > 0 && s.len() > 0 {
        if k == s.len() {
            lemma_zeros_all(s);
            assert(s.subrange(k, s.len() as int) =~= Seq::<char>::empty());
        } else {
            let pre = s.drop_last();
            lemma_zeros_prefix(pre, k);
            assert(s.subrange(k, s.len() as int).drop_last() =~= pre.subrange(k, pre.len() as int));
            assert(s.subrange(k, s.len() as int).last() == s.last());
        }
    } else {
        assert(s.subrange(0, s.len() as int) =~= s);
    }
}

/// A string of only `'0'` digits has value 0.
proof fn lemma_zeros_all(s: Seq<char>)
    requires
        forall|i: int| 0 <= i < s.len() ==> s[i] as u32 == 48,
    ensures
        digits_val(s) == 0,
    decreases s.len(),
{
    if s.len() > 0 {
        lemma_zeros_all(s.drop_last());
    }
}

/// Powers of ten are positive.
pub proof fn lemma_pow10_pos(n: nat)
    ensures
        pow10(n) >= 1,
    decreases n,
{
    if n > 0 {
        lemma_pow10_pos((n - 1) as nat);
    }
}

/// Powers of ten grow with the exponent.
pub proof fn lemma_pow10_mono(a: nat, b: nat)
    requires
        a <= b,
    ensures
        pow10(a) <= pow10(b),
        pow10(a) >= 1,
    decreases b,
{
    lemma_pow10_pos(a);
    if a < b {
        lemma_pow10_mono(a, (b - 1) as nat);
        assert(pow10(b) == 10 * pow10((b - 1) as nat));
    }
}

/// The value of the twentieth power of ten, and that it exceeds both `i64`
/// bounds and stays within `u64`.
pub proof fn lemma_pow10_19()
    ensures
        pow10(19) == 10_000_000_000_000_000_000,
        pow10(18 as nat) == 1_000_000_000_000_000_000,
{
    assert(pow10(0) == 1);
    assert(pow10(1) == 10);
    assert(pow10(2) == 100);
    assert(pow10(3) == 1000);
    assert(pow10(4) == 10000);
    assert(pow10(5) == 100000);
    assert(pow10(6) == 1000000);
    assert(pow10(7) == 10000000);
    assert(pow10(8) == 100000000);
    assert(pow10(9) == 1000000000);
    assert(pow10(10) == 10000000000);
    assert(pow10(11) == 100000000000);
    assert(pow10(12) == 1000000000000);
    assert(pow10(13) == 10000000000000);
    assert(pow10(14) == 100000000000000);
    assert(pow10(15) == 1000000000000000);
    assert(pow10(16) == 10000000000000000);
    assert(pow10(17) == 100000000000000000);
    assert(pow10(18 as nat) == 1000000000000000000);
    assert(pow10(19) == 10000000000000000000);
}

/// Parse a decimal `i64`, exactly as [`spec_parse_i64`] says.
pub fn parse_i64(s: &str) -> (r: Result<i64, NumError>)
    ensures
        r == spec_parse_i64(s@),
{
    match parse_decimal(s) {
        Err(e) => {
            proof {
                if e is Overflow {
                    lemma_pow10_19();
                }
            }
            Err(e)
        },
        Ok((neg, mag)) => {
            if !neg {
                if mag <= i64::MAX as u64 {
                    Ok(mag as i64)
                } else {
                    Err(NumError::Overflow)
                }
            } else {
                if mag <= 9_223_372_036_854_775_808u64 {
                    if mag == 9_223_372_036_854_775_808u64 {
                        Ok(i64::MIN)
                    } else {
                        Ok(-(mag as i64))
                    }
                } else {
                    Err(NumError::Overflow)
                }
            }
        },
    }
}

/// Parse a decimal `i32`, exactly as [`spec_parse_i32`] says.
pub fn parse_i32(s: &str) -> (r: Result<i32, NumError>)
    ensures
        r == spec_parse_i32(s@),
{
    match parse_decimal(s) {
        Err(e) => {
            proof {
                if e is Overflow {
                    lemma_pow10_19();
                }
            }
            Err(e)
        },
        Ok((neg, mag)) => {
            if !neg {
                if mag <= i32::MAX as u64 {
                    Ok(mag as i32)
                } else {
                    Err(NumError::Overflow)
                }
            } else {
                if mag <= 2_147_483_648u64 {
                    if mag == 2_147_483_648u64 {
                        Ok(i32::MIN)
                    } else {
                        Ok(-(mag as i32))
                    }
                } else {
                    Err(NumError::Overflow)
                }
            }
        },
    }
}

/// The decimal rendering of a nonnegative value.
pub open spec fn spec_nat_str(n: int) -> Seq<char>
    decreases n,
{
    if n < 10 {
        seq![spec_digit_char(n)]
    } else {
        spec_nat_str(n / 10).push(spec_digit_char(n % 10))
    }
}

/// The decimal rendering of a value of either sign.
pub open spec fn spec_int_str(n: int) -> Seq<char> {
    if n < 0 {
        seq!['-'] + spec_nat_str(-n)
    } else {
        spec_nat_str(n)
    }
}

/// The character of one digit value.
pub open spec fn spec_digit_char(d: int) -> char {
    if d == 0 {
        '0'
    } else if d == 1 {
        '1'
    } else if d == 2 {
        '2'
    } else if d == 3 {
        '3'
    } else if d == 4 {
        '4'
    } else if d == 5 {
        '5'
    } else if d == 6 {
        '6'
    } else if d == 7 {
        '7'
    } else if d == 8 {
        '8'
    } else {
        '9'
    }
}

fn digit_char(d: u64) -> (c: char)
    requires
        d < 10,
    ensures
        c == spec_digit_char(d as int),
{
    if d == 0 {
        '0'
    } else if d == 1 {
        '1'
    } else if d == 2 {
        '2'
    } else if d == 3 {
        '3'
    } else if d == 4 {
        '4'
    } else if d == 5 {
        '5'
    } else if d == 6 {
        '6'
    } else if d == 7 {
        '7'
    } else if d == 8 {
        '8'
    } else {
        '9'
    }
}

/// Render a `u64` in decimal, exactly as [`spec_nat_str`] says.
pub fn u64_to_string(n: u64) -> (s: String)
    ensures
        s@ == spec_nat_str(n as int),
    decreases n,
{
    if n < 10 {
        let mut s = String::new();
        push_char(&mut s, digit_char(n));
        proof {
            assert(s@ =~= seq![spec_digit_char(n as int)]);
        }
        s
    } else {
        proof {
            assert(n / 10 < n) by (nonlinear_arith)
                requires
                    n >= 10,
            ;
        }
        let mut s = u64_to_string(n / 10);
        push_char(&mut s, digit_char(n % 10));
        s
    }
}

/// Render an `i64` in decimal, exactly as [`spec_int_str`] says.
pub fn i64_to_string(n: i64) -> (s: String)
    ensures
        s@ == spec_int_str(n as int),
{
    if n >= 0 {
        u64_to_string(n as u64)
    } else {
        let mag: u64 = (-(n as i128)) as u64;
        let mut s = String::new();
        push_char(&mut s, '-');
        let tail = u64_to_string(mag);
        let r = s.concat(tail.as_str());
        proof {
            assert(r@ =~= seq!['-'] + spec_nat_str(-(n as int)));
        }
        r
    }
}

/// Render an `i32` in decimal, exactly as [`spec_int_str`] says.
pub fn i32_to_string(n: i32) -> (s: String)
    ensures
        s@ == spec_int_str(n as int),
{
    i64_to_string(n as i64)
}

} // verus!
