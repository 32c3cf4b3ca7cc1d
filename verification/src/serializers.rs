//! Numbers carried as decimal text
//!
//! A 64-bit count is written as a text of decimal digits, so that no reader
//! with a narrower number type loses part of it. A text is read back as a
//! count when it is one or more decimal digits, with a `+` before them or
//! without, and the number they spell fits in 64 bits.

use crate::error::ErrorKind;
use crate::text::all_ascii;
use crate::text::ascii_text;
use crate::text::lemma_ascii_text_bytes;
use crate::text::string_of_ascii;
use vstd::prelude::*;
use vstd::string::StringSliceAdditionalSpecFns;
use vstd::utf8::encode_utf8;

verus! {

/// Whether the byte is one of the characters `0` to `9`
pub open spec fn is_digit(b: u8) -> bool {
    0x30 <= b <= 0x39
}

/// The number that a digit stands for; 0 for any other byte
pub open spec fn digit_value(b: u8) -> nat {
    if is_digit(b) {
        (b - 0x30) as nat
    } else {
        0
    }
}

/// Whether every byte is a decimal digit
pub open spec fn all_digits(digits: Seq<u8>) -> bool {
    forall|i: int| 0 <= i < digits.len() ==> is_digit(#[trigger] digits[i])
}

/// The number that the digits spell, the first digit counting most
pub open spec fn decimal_value(digits: Seq<u8>) -> nat
    decreases digits.len(),
{
    if digits.len() == 0 {
        0
    } else {
        decimal_value(digits.drop_last()) * 10 + digit_value(digits.last())
    }
}

/// The text without the `+` that may stand before the digits
pub open spec fn unsigned_part(text: Seq<u8>) -> Seq<u8> {
    if text.len() > 0 && text[0] == 0x2b {
        text.subrange(1, text.len() as int)
    } else {
        text
    }
}

/// The count that a text stands for, if it stands for one
pub open spec fn parsed_count(text: Seq<u8>) -> Option<u64> {
    let digits = unsigned_part(text);
    if digits.len() > 0 && all_digits(digits) && decimal_value(digits) <= u64::MAX {
        Some(decimal_value(digits) as u64)
    } else {
        None
    }
}

/// The digits of a number, without leading zeros; `0` for zero
pub open spec fn decimal_digits(n: nat) -> Seq<u8>
    decreases n,
{
    if n < 10 {
        seq![(0x30 + n) as u8]
    } else {
        decimal_digits(n / 10).push((0x30 + n % 10) as u8)
    }
}

/// The digits that are still to be written before those already written
pub open spec fn leading_digits(n: nat) -> Seq<u8> {
    if n == 0 {
        Seq::empty()
    } else {
        decimal_digits(n)
    }
}

/// A longer run of digits spells no smaller number than its beginning.
pub proof fn lemma_value_grows(digits: Seq<u8>, k: int)
    requires
        0 <= k <= digits.len(),
    ensures
        decimal_value(digits.subrange(0, k)) <= decimal_value(digits),
    decreases digits.len() - k,
{
    if k < digits.len() {
        lemma_value_grows(digits, k + 1);
        let longer = digits.subrange(0, k + 1);
        assert(longer.drop_last() =~= digits.subrange(0, k));
    } else {
        assert(digits.subrange(0, k) =~= digits);
    }
}

/// The digits of a number are digits, and they spell the number.
pub proof fn lemma_digits_spell(n: nat)
    ensures
        decimal_digits(n).len() > 0,
        all_digits(decimal_digits(n)),
        decimal_value(decimal_digits(n)) == n,
    decreases n,
{
    if n < 10 {
        let d = decimal_digits(n);
        assert(d.drop_last() =~= Seq::<u8>::empty());
        assert(decimal_value(d.drop_last()) == 0);
    } else {
        lemma_digits_spell(n / 10);
        let d = decimal_digits(n);
        assert(d.drop_last() =~= decimal_digits(n / 10));
        assert(d.last() == (0x30 + n % 10) as u8);
    }
}

/// The text written for a count is read back as that count.
pub proof fn lemma_count_round_trip(n: u64)
    ensures
        all_ascii(decimal_digits(n as nat)),
        parsed_count(encode_utf8(ascii_text(decimal_digits(n as nat)))) == Some(n),
{
    let digits = decimal_digits(n as nat);
    lemma_digits_spell(n as nat);
    assert(all_ascii(digits)) by {
        assert forall|i: int| 0 <= i < digits.len() implies #[trigger] digits[i] < 128 by {
            assert(is_digit(digits[i]));
        }
    }
    lemma_ascii_text_bytes(digits);
    assert(is_digit(digits[0]));
    assert(unsigned_part(digits) == digits);
}

/// Reads a count from its decimal text.
pub fn parse_u64(text: &str) -> (count: Result<u64, ErrorKind>)
    ensures
        count == match parsed_count(text.spec_bytes()) {
            Some(n) => Ok::<u64, ErrorKind>(n),
            None => Err(ErrorKind::MalformedCount),
        },
{
    let bytes = text.as_bytes();
    let start: usize = if bytes.len() > 0 && bytes[0] == 0x2b {
        1
    } else {
        0
    };
    let ghost digits = unsigned_part(bytes@);
    assert(digits == bytes@.subrange(start as int, bytes@.len() as int)) by {
        assert(bytes@ =~= bytes@.subrange(0, bytes@.len() as int));
    }
    if start == bytes.len() {
        return Err(ErrorKind::MalformedCount);
    }
    let mut value: u64 = 0;
    let mut i: usize = start;
    assert(digits.subrange(0, 0) =~= Seq::<u8>::empty());
    while i < bytes.len()
        invariant
            start <= i <= bytes.len(),
            bytes@ == text.spec_bytes(),
            digits == unsigned_part(bytes@),
            digits == bytes@.subrange(start as int, bytes@.len() as int),
            digits.len() > 0,
            all_digits(digits.subrange(0, i - start)),
            value == decimal_value(digits.subrange(0, i - start)),
        decreases bytes.len() - i,
    {
        let b = bytes[i];
        let ghost seen = digits.subrange(0, i - start + 1);
        proof {
            assert(digits[i - start] == b);
            assert(seen.drop_last() =~= digits.subrange(0, i - start));
            assert(seen.last() == b);
        }
        if b < 0x30 || b > 0x39 {
            assert(!is_digit(digits[i - start]));
            return Err(ErrorKind::MalformedCount);
        }
        let next = match value.checked_mul(10) {
            Some(tens) => tens.checked_add((b - 0x30) as u64),
            None => None,
        };
        match next {
            Some(v) => {
                value = v;
            },
            None => {
                proof {
                    assert(decimal_value(seen) > u64::MAX);
                    lemma_value_grows(digits, i - start + 1);
                }
                return Err(ErrorKind::MalformedCount);
            },
        }
        i += 1;
        proof {
            assert forall|j: int| 0 <= j < seen.len() implies is_digit(#[trigger] seen[j]) by {
                if j < seen.len() - 1 {
                    assert(digits.subrange(0, i - start - 1)[j] == seen[j]);
                }
            }
        }
    }
    assert(digits.subrange(0, i - start) =~= digits);
    Ok(value)
}

/// Writes a count as decimal text.
pub fn format_u64(count: u64) -> (text: String)
    ensures
        text@ == ascii_text(decimal_digits(count as nat)),
{
    let mut reversed: Vec<u8> = Vec::new();
    reversed.push(0x30 + (count % 10) as u8);
    let mut rest: u64 = count / 10;
    assert(decimal_digits(count as nat) =~= leading_digits(rest as nat) + Seq::new(
        reversed@.len(),
        |k: int| reversed@[reversed@.len() - 1 - k],
    ));
    while rest > 0
        invariant
            reversed@.len() > 0,
            decimal_digits(count as nat) == leading_digits(rest as nat) + Seq::new(
                reversed@.len(),
                |k: int| reversed@[reversed@.len() - 1 - k],
            ),
        decreases rest,
    {
        let ghost before = reversed@;
        reversed.push(0x30 + (rest % 10) as u8);
        let ghost digit = (0x30 + rest % 10) as u8;
        assert(decimal_digits(rest as nat) =~= leading_digits((rest / 10) as nat) + seq![digit]);
        rest = rest / 10;
        assert(seq![digit] + Seq::new(before.len(), |k: int| before[before.len() - 1 - k])
            =~= Seq::new(reversed@.len(), |k: int| reversed@[reversed@.len() - 1 - k]));
    }
    let mut digits: Vec<u8> = Vec::new();
    let mut i: usize = reversed.len();
    while i > 0
        invariant
            i <= reversed@.len(),
            digits@.len() == reversed@.len() - i,
            forall|k: int| 0 <= k < digits@.len() ==> digits@[k] == reversed@[reversed@.len() - 1 - k],
        decreases i,
    {
        i -= 1;
        digits.push(reversed[i]);
    }
    proof {
        assert(digits@ =~= decimal_digits(count as nat));
        lemma_count_round_trip(count);
    }
    string_of_ascii(digits.as_slice())
}

} // verus!
