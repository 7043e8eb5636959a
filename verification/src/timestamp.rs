//! Expiry timestamps as decimal text.
//!
//! The value of the attribute is a Unix timestamp written in base 10: an
//! optional sign, then one or more ASCII digits, and nothing else. It must fit
//! a signed 32-bit integer.

use vstd::prelude::*;

verus! {

/// ASCII code of `+`.
pub const PLUS: u8 = 43;

/// ASCII code of `-`.
pub const MINUS: u8 = 45;

/// ASCII code of `0`.
pub const ZERO: u8 = 48;

/// ASCII code of `9`.
pub const NINE: u8 = 57;

/// True for the ASCII digits.
pub open spec fn is_digit(b: u8) -> bool {
    ZERO <= b <= NINE
}

/// True when every byte of `s` is an ASCII digit.
pub open spec fn all_digits(s: Seq<u8>) -> bool {
    forall|i: int| 0 <= i < s.len() ==> is_digit(#[trigger] s[i])
}

/// The number that a string of digits denotes in base 10.
pub open spec fn digits_value(s: Seq<u8>) -> int
    decreases s.len(),
{
    if s.len() == 0 {
        0
    } else {
        10 * digits_value(s.drop_last()) + (s.last() - ZERO)
    }
}

/// The integer that `s` denotes, if it is an optional sign followed by one or
/// more digits.
pub open spec fn parse_decimal(s: Seq<u8>) -> Option<int> {
    if s.len() > 0 && (s[0] == PLUS || s[0] == MINUS) {
        let digits = s.skip(1);
        if digits.len() > 0 && all_digits(digits) {
            Some(
                if s[0] == MINUS {
                    -digits_value(digits)
                } else {
                    digits_value(digits)
                },
            )
        } else {
            None
        }
    } else if s.len() > 0 && all_digits(s) {
        Some(digits_value(s))
    } else {
        None
    }
}

/// The timestamp that `s` denotes, if it denotes an integer that fits `i32`.
pub open spec fn timestamp_of(s: Seq<u8>) -> Option<i32> {
    match parse_decimal(s) {
        Some(v) => if i32::MIN <= v <= i32::MAX {
            Some(v as i32)
        } else {
            None
        },
        None => None,
    }
}

/// The digits of `n` in base 10, without leading zeros.
pub open spec fn digits_of(n: nat) -> Seq<u8>
    decreases n,
{
    if n < 10 {
        seq![(ZERO + n) as u8]
    } else {
        digits_of(n / 10).push((ZERO + n % 10) as u8)
    }
}

/// The integer `v` written in base 10, with `-` in front when it is negative.
pub open spec fn decimal_text(v: int) -> Seq<u8> {
    if v < 0 {
        seq![MINUS] + digits_of((-v) as nat)
    } else {
        digits_of(v as nat)
    }
}

/// Ten to the power `k`.
pub open spec fn pow10(k: nat) -> nat
    decreases k,
{
    if k == 0 {
        1
    } else {
        10 * pow10((k - 1) as nat)
    }
}

/// A string of digits denotes a number that is not negative.
pub proof fn lemma_digits_value_nonnegative(s: Seq<u8>)
    requires
        all_digits(s),
    ensures
        digits_value(s) >= 0,
    decreases s.len(),
{
    if s.len() > 0 {
        assert(is_digit(s[s.len() - 1]));
        assert forall|i: int| 0 <= i < s.drop_last().len() implies is_digit(
            #[trigger] s.drop_last()[i],
        ) by {
            assert(s.drop_last()[i] == s[i]);
        }
        lemma_digits_value_nonnegative(s.drop_last());
    }
}

/// More digits never denote a smaller number.
pub proof fn lemma_digits_value_prefix(s: Seq<u8>, k: int)
    requires
        all_digits(s),
        0 <= k <= s.len(),
    ensures
        digits_value(s.take(k)) <= digits_value(s),
    decreases s.len(),
{
    if k == s.len() {
        assert(s.take(k) =~= s);
    } else {
        let shorter = s.drop_last();
        assert(is_digit(s[s.len() - 1]));
        assert forall|i: int| 0 <= i < shorter.len() implies is_digit(#[trigger] shorter[i]) by {
            assert(shorter[i] == s[i]);
        }
        lemma_digits_value_prefix(shorter, k);
        lemma_digits_value_nonnegative(shorter);
        assert(shorter.take(k) =~= s.take(k));
    }
}

/// Reads a timestamp: an optional sign and one or more digits, within `i32`.
pub fn parse_timestamp(text: &[u8]) -> (r: Option<i32>)
    ensures
        r == timestamp_of(text@),
{
    let n = text.len();
    if n == 0 {
        return None;
    }
    let negative = text[0] == MINUS;
    let start: usize = if negative || text[0] == PLUS {
        1
    } else {
        0
    };
    let ghost digits = text@.subrange(start as int, n as int);
    proof {
        if start == 1 {
            assert(digits =~= text@.skip(1));
        } else {
            assert(digits =~= text@);
        }
    }
    if start == n {
        return None;
    }
    let mut acc: i64 = 0;
    let mut i: usize = start;
    while i < n
        invariant
            start <= i <= n,
            n == text@.len(),
            n > 0,
            start == 0 || start == 1,
            start == 1 <==> (text@[0] == PLUS || text@[0] == MINUS),
            start == 1 ==> digits == text@.skip(1),
            start == 0 ==> digits == text@,
            digits == text@.subrange(start as int, n as int),
            all_digits(digits.take(i - start)),
            acc == digits_value(digits.take(i - start)),
            0 <= acc <= 2147483648,
        decreases n - i,
    {
        let b = text[i];
        if b < ZERO || b > NINE {
            proof {
                assert(digits[i - start] == b);
                assert(!is_digit(digits[i - start]));
            }
            return None;
        }
        let next: i64 = acc * 10 + (b - ZERO) as i64;
        proof {
            let before = digits.take(i - start);
            let prefix = digits.take(i + 1 - start);
            assert(prefix.drop_last() =~= before);
            assert(prefix.last() == b);
            assert forall|j: int| 0 <= j < prefix.len() implies is_digit(#[trigger] prefix[j]) by {
                if j < before.len() {
                    assert(prefix[j] == before[j]);
                }
            }
            if next > 2147483648 && all_digits(digits) {
                lemma_digits_value_prefix(digits, i + 1 - start);
            }
        }
        if next > 2147483648 {
            return None;
        }
        acc = next;
        i = i + 1;
    }
    proof {
        assert(digits.take(n - start) =~= digits);
    }
    if negative {
        Some((0 - acc) as i32)
    } else if acc <= 2147483647 {
        Some(acc as i32)
    } else {
        None
    }
}

/// The digits of a number are digits, at least one, and denote the number.
pub proof fn lemma_digits_of(n: nat)
    ensures
        digits_of(n).len() >= 1,
        all_digits(digits_of(n)),
        digits_value(digits_of(n)) == n,
    decreases n,
{
    if n < 10 {
        let s = digits_of(n);
        assert(s.drop_last() =~= Seq::<u8>::empty());
        assert(digits_value(s.drop_last()) == 0);
    } else {
        lemma_digits_of(n / 10);
        let s = digits_of(n);
        let shorter = digits_of(n / 10);
        assert(s.drop_last() =~= shorter);
        assert forall|i: int| 0 <= i < s.len() implies is_digit(#[trigger] s[i]) by {
            if i < shorter.len() {
                assert(s[i] == shorter[i]);
            }
        }
    }
}

/// A number below ten to the power `k` has at most `k` digits.
pub proof fn lemma_digits_of_len(n: nat, k: nat)
    requires
        k >= 1,
        n < pow10(k),
    ensures
        digits_of(n).len() <= k,
    decreases k,
{
    if n >= 10 {
        assert(pow10(1) == 10) by {
            reveal_with_fuel(pow10, 2);
        }
        assert(k >= 2);
        lemma_digits_of_len(n / 10, (k - 1) as nat);
    }
}

/// Written in base 10 and read again, an integer is itself.
pub proof fn lemma_parse_decimal_text(v: int)
    ensures
        parse_decimal(decimal_text(v)) == Some(v),
{
    let s = decimal_text(v);
    if v < 0 {
        let digits = digits_of((-v) as nat);
        lemma_digits_of((-v) as nat);
        assert(s.skip(1) =~= digits);
        assert(s[0] == MINUS);
    } else {
        lemma_digits_of(v as nat);
        assert(is_digit(s[0]));
    }
}

/// The decimal text of a timestamp is short, ASCII and free of NUL, and reads
/// back as the timestamp.
pub proof fn lemma_timestamp_text(t: i32)
    ensures
        timestamp_of(decimal_text(t as int)) == Some(t),
        1 <= decimal_text(t as int).len() <= 11,
        forall|i: int|
            0 <= i < decimal_text(t as int).len() ==> 0 < #[trigger] decimal_text(t as int)[i]
                < 128,
{
    let v = t as int;
    let s = decimal_text(v);
    lemma_parse_decimal_text(v);
    assert(pow10(10) == 10000000000) by {
        reveal_with_fuel(pow10, 11);
    }
    if v < 0 {
        let digits = digits_of((-v) as nat);
        lemma_digits_of((-v) as nat);
        lemma_digits_of_len((-v) as nat, 10);
        assert forall|i: int| 0 <= i < s.len() implies 0 < #[trigger] s[i] < 128 by {
            if i > 0 {
                assert(s[i] == digits[i - 1]);
                assert(is_digit(digits[i - 1]));
            }
        }
    } else {
        lemma_digits_of(v as nat);
        lemma_digits_of_len(v as nat, 10);
        assert forall|i: int| 0 <= i < s.len() implies 0 < #[trigger] s[i] < 128 by {
            assert(is_digit(s[i]));
        }
    }
}

} // verus!
