//! The one-based indices that a face writes in decimal digits.

use vstd::prelude::*;
use vstd::string::*;

verus! {

/// May stand in front of the digits of a number.
pub const PLUS: u8 = 0x2b;

/// One of the ASCII digits `0` to `9`.
pub open spec fn is_digit(b: u8) -> bool {
    0x30 <= b <= 0x39
}

/// Every byte of `s` is a digit.
pub open spec fn all_digits(s: Seq<u8>) -> bool {
    forall|i: int| 0 <= i < s.len() ==> is_digit(#[trigger] s[i])
}

/// The number that the digits of `s` write in base ten.
pub open spec fn decimal_value(s: Seq<u8>) -> nat
    decreases s.len(),
{
    if s.len() == 0 {
        0
    } else {
        decimal_value(s.drop_last()) * 10 + (s.last() - 0x30) as nat
    }
}

/// The digits of a number: the text without the `+` that may lead it.
pub open spec fn digits_of(s: Seq<u8>) -> Seq<u8> {
    if s.len() > 0 && s[0] == PLUS {
        s.skip(1)
    } else {
        s
    }
}

/// The natural number that `s` writes: one or more digits, after at most one
/// `+`. Any other text, the empty one too, writes none.
pub open spec fn unsigned_of(s: Seq<u8>) -> Option<nat> {
    let digits = digits_of(s);
    if digits.len() > 0 && all_digits(digits) {
        Some(decimal_value(digits))
    } else {
        None
    }
}

/// The zero-based index that the one-based `s` stands for. There is none
/// where `s` writes no number, writes zero, or writes more than a `u32` holds.
pub open spec fn index_of(s: Seq<u8>) -> Option<u32> {
    match unsigned_of(s) {
        Some(n) => if 1 <= n <= u32::MAX {
            Some((n - 1) as u32)
        } else {
            None
        },
        None => None,
    }
}

/// More digits never write a smaller number.
pub proof fn lemma_decimal_value_grows(s: Seq<u8>, k: int)
    requires
        all_digits(s),
        0 <= k <= s.len(),
    ensures
        decimal_value(s.take(k)) <= decimal_value(s),
    decreases s.len(),
{
    if k == s.len() {
        assert(s.take(k) =~= s);
    } else {
        let front = s.drop_last();
        assert(front.take(k) =~= s.take(k));
        lemma_decimal_value_grows(front, k);
        assert(is_digit(s.last()));
    }
}

/// Reads a one-based index and hands back the zero-based one.
pub fn parse_index(s: &str) -> (index: Option<u32>)
    ensures
        index == index_of(s.spec_bytes()),
{
    let bytes = s.as_bytes();
    let n = bytes.len();
    let start: usize = if n > 0 && bytes[0] == PLUS {
        1
    } else {
        0
    };
    let ghost digits = digits_of(bytes@);
    assert(digits =~= bytes@.skip(start as int));
    if start == n {
        return None;
    }
    let mut value: u64 = 0;
    let mut i: usize = start;
    while i < n
        invariant
            bytes@ == s.spec_bytes(),
            n == bytes@.len(),
            digits == bytes@.skip(start as int),
            digits == digits_of(s.spec_bytes()),
            start <= i <= n,
            all_digits(digits.take(i - start)),
            value == decimal_value(digits.take(i - start)),
            value <= u32::MAX,
        decreases n - i,
    {
        let b = bytes[i];
        let ghost seen = digits.take(i - start);
        let ghost next = digits.take(i - start + 1);
        assert(next.drop_last() =~= seen);
        assert(next.last() == b);
        if b < 0x30 || b > 0x39 {
            assert(!is_digit(digits[i - start]));
            return None;
        }
        value = value * 10 + (b - 0x30) as u64;
        if value > u32::MAX as u64 {
            proof {
                if all_digits(digits) {
                    lemma_decimal_value_grows(digits, i - start + 1);
                }
            }
            return None;
        }
        i += 1;
    }
    assert(digits.take(i - start) =~= digits);
    if value == 0 {
        None
    } else {
        Some((value - 1) as u32)
    }
}

} // verus!
