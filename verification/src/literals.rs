//! Parsing of integer literal digits.
//!
//! The digits of a literal (after its `0x`/`0b` prefix, if any) may contain
//! `_` separators. A literal that parses to a value representable in a
//! signed 64-bit integer yields that value; anything else (an invalid digit,
//! no digit at all, or overflow) yields a caller-chosen placeholder value.
//! The placeholder fallback is a documented incompleteness of this stage, not
//! an error path: see the abstraction stage's contract.

use vstd::prelude::*;

verus! {

/// The numeric value of one digit byte, or an out-of-range marker (`99`) for
/// a byte that is no digit in any supported radix.
pub open spec fn digit_value(b: u8) -> int {
    if 48 <= b <= 57 {
        b - 48
    } else if 97 <= b <= 102 {
        b - 97 + 10
    } else if 65 <= b <= 70 {
        b - 65 + 10
    } else {
        99
    }
}

/// `b` is a digit of the given radix.
pub open spec fn is_radix_digit(b: u8, radix: int) -> bool {
    digit_value(b) < radix
}

/// Every byte is a digit of the radix or a `_` separator.
pub open spec fn digits_ok(s: Seq<u8>, radix: int) -> bool {
    forall|i: int| 0 <= i < s.len() ==> s[i] == 95 || is_radix_digit(#[trigger] s[i], radix)
}

/// At least one byte is not a `_` separator.
pub open spec fn has_digit(s: Seq<u8>) -> bool {
    exists|i: int| 0 <= i < s.len() && s[i] != 95
}

/// The value of the digit string, `_` separators skipped, read in the given
/// radix. Meaningful when `digits_ok` holds.
pub open spec fn digits_value(s: Seq<u8>, radix: int) -> int
    decreases s.len(),
{
    if s.len() == 0 {
        0
    } else if s.last() == 95 {
        digits_value(s.drop_last(), radix)
    } else {
        digits_value(s.drop_last(), radix) * radix + digit_value(s.last())
    }
}

/// What a whole literal digit string abstracts to: its value when it is a
/// well-formed literal that fits an `i64`, and the placeholder otherwise.
pub open spec fn int_literal(s: Seq<u8>, radix: int, placeholder: i64) -> i64 {
    if digits_ok(s, radix) && has_digit(s) && digits_value(s, radix) <= i64::MAX {
        digits_value(s, radix) as i64
    } else {
        placeholder
    }
}

/// A well-formed digit string has a non-negative value.
proof fn lemma_digits_value_nonneg(s: Seq<u8>, radix: int)
    requires
        digits_ok(s, radix),
        radix >= 2,
    ensures
        digits_value(s, radix) >= 0,
    decreases s.len(),
{
    if s.len() > 0 {
        assert(digits_ok(s.drop_last(), radix));
        lemma_digits_value_nonneg(s.drop_last(), radix);
        if s.last() != 95 {
            assert(digit_value(s.last()) >= 0);
            assert(digits_value(s.drop_last(), radix) * radix >= 0) by (nonlinear_arith)
                requires
                    digits_value(s.drop_last(), radix) >= 0,
                    radix >= 2,
            ;
        }
    }
}

/// Extending a well-formed digit string never decreases its value.
proof fn lemma_digits_value_take(s: Seq<u8>, radix: int, i: int)
    requires
        digits_ok(s, radix),
        radix >= 2,
        0 <= i <= s.len(),
    ensures
        digits_value(s.take(i), radix) <= digits_value(s, radix),
    decreases s.len(),
{
    if i < s.len() {
        assert(digits_ok(s.drop_last(), radix));
        assert(s.drop_last().take(i) =~= s.take(i));
        lemma_digits_value_take(s.drop_last(), radix, i);
        lemma_digits_value_nonneg(s.drop_last(), radix);
        if s.last() != 95 {
            let h = digits_value(s.drop_last(), radix);
            assert(h * radix + digit_value(s.last()) >= h) by (nonlinear_arith)
                requires
                    h >= 0,
                    radix >= 2,
                    digit_value(s.last()) >= 0,
            ;
        }
    } else {
        assert(s.take(i) =~= s);
    }
}

/// Parse the digits of an integer literal, falling back to `placeholder` for
/// anything that is not a plain integer representable in an `i64`.
pub fn parse_int_literal(digits: &[u8], radix: u8, placeholder: i64) -> (r: i64)
    requires
        radix == 2 || radix == 10 || radix == 16,
    ensures
        r == int_literal(digits@, radix as int, placeholder),
{
    let r64: i64 = radix as i64;
    let mut acc: i64 = 0;
    let mut saw_digit = false;
    let mut i: usize = 0;
    while i < digits.len()
        invariant
            radix == 2 || radix == 10 || radix == 16,
            r64 == radix as int,
            0 <= i <= digits@.len(),
            digits_ok(digits@.take(i as int), radix as int),
            saw_digit == has_digit(digits@.take(i as int)),
            0 <= acc <= i64::MAX,
            acc == digits_value(digits@.take(i as int), radix as int),
        decreases digits@.len() - i,
    {
        let b = digits[i];
        let ghost pre = digits@.take(i as int);
        let ghost cur = digits@.take(i as int + 1);
        proof {
            assert(cur.drop_last() =~= pre);
            assert(cur.last() == b);
        }
        if b == 95 {
            proof {
                assert(has_digit(cur) == has_digit(pre)) by {
                    if has_digit(pre) {
                        let w = choose|w: int| 0 <= w < pre.len() && pre[w] != 95;
                        assert(cur[w] != 95);
                    }
                    if has_digit(cur) {
                        let w = choose|w: int| 0 <= w < cur.len() && cur[w] != 95;
                        assert(pre[w] != 95);
                    }
                }
            }
            i += 1;
            continue ;
        }
        let d: i64 = if b >= 48 && b <= 57 {
            (b - 48) as i64
        } else if b >= 97 && b <= 102 {
            (b - 97) as i64 + 10
        } else if b >= 65 && b <= 70 {
            (b - 65) as i64 + 10
        } else {
            // Not a digit in any radix: the literal is malformed.
            proof {
                assert(!is_radix_digit(digits@[i as int], radix as int));
                assert(!digits_ok(digits@, radix as int));
            }
            return placeholder;
        };
        assert(d == digit_value(b));
        if d >= r64 {
            // A digit of a larger radix, e.g. `a` inside a decimal literal.
            proof {
                assert(!is_radix_digit(digits@[i as int], radix as int));
                assert(!digits_ok(digits@, radix as int));
            }
            return placeholder;
        }
        if acc > (i64::MAX - d) / r64 {
            // The value exceeds the 64-bit integer range.
            proof {
                let h = acc as int;
                let m = i64::MAX as int;
                assert(h * (radix as int) + d > m) by (nonlinear_arith)
                    requires
                        h > (m - d) / (radix as int),
                        radix == 2 || radix == 10 || radix == 16,
                        0 <= d < radix as int,
                        0 <= h,
                        m == i64::MAX as int,
                ;
                assert(digits_value(cur, radix as int) > i64::MAX);
                if digits_ok(digits@, radix as int) {
                    lemma_digits_value_take(digits@, radix as int, i as int + 1);
                    assert(digits_value(digits@, radix as int) > i64::MAX);
                }
            }
            return placeholder;
        }
        proof {
            let h = acc as int;
            let m = i64::MAX as int;
            assert(h * (radix as int) + d <= m) by (nonlinear_arith)
                requires
                    h <= (m - d) / (radix as int),
                    radix == 2 || radix == 10 || radix == 16,
                    0 <= d < radix as int,
                    0 <= h,
                    m == i64::MAX as int,
            ;
        }
        acc = acc * r64 + d;
        saw_digit = true;
        i += 1;
    }
    proof {
        assert(digits@.take(i as int) =~= digits@);
    }
    if saw_digit {
        acc
    } else {
        placeholder
    }
}

} // verus!
