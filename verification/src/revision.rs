//! Revisions as text.
//!
//! A revision travels as a canonical decimal: digits alone, without a leading zero. Its value is
//! bounded by the largest integer that every runtime on the wire holds exactly.

use crate::error::{RuntimeEventError, RuntimeEventResult};
use vstd::prelude::*;

verus! {

/// The largest revision: two to the power of 53, less one.
pub const MAX_SAFE_REVISION: u64 = 9_007_199_254_740_991;

/// The most digits that a revision has.
pub const MAX_REVISION_DIGITS: usize = 16;

/// An ASCII decimal digit.
pub open spec fn is_digit(c: char) -> bool {
    '0' <= c <= '9'
}

/// The number that a sequence of decimal digits writes.
pub open spec fn decimal_value(digits: Seq<char>) -> nat
    decreases digits.len(),
{
    if digits.len() == 0 {
        0
    } else {
        decimal_value(digits.drop_last()) * 10 + (digits.last() as nat - '0' as nat) as nat
    }
}

/// A decimal number with no digit too many.
pub open spec fn is_canonical_decimal(text: Seq<char>) -> bool {
    &&& text.len() > 0
    &&& forall|i: int| 0 <= i < text.len() ==> is_digit(#[trigger] text[i])
    &&& text.len() > 1 ==> text[0] != '0'
}

/// The revision that `text` writes, where it writes one: a canonical decimal within the bound,
/// and not zero where the revision has to be `positive`.
pub open spec fn revision_of(text: Seq<char>, positive: bool) -> Option<u64> {
    if is_canonical_decimal(text) && decimal_value(text) <= MAX_SAFE_REVISION && (positive
        ==> decimal_value(text) > 0) {
        Some(decimal_value(text) as u64)
    } else {
        None
    }
}

/// The power of ten.
spec fn ten_to(exponent: nat) -> nat
    decreases exponent,
{
    if exponent == 0 {
        1
    } else {
        10 * ten_to((exponent - 1) as nat)
    }
}

/// A sequence of decimal digits writes less than the power of ten for its length.
proof fn decimal_value_bound(digits: Seq<char>)
    requires
        forall|i: int| 0 <= i < digits.len() ==> is_digit(#[trigger] digits[i]),
    ensures
        decimal_value(digits) < ten_to(digits.len()),
    decreases digits.len(),
{
    if digits.len() > 0 {
        assert forall|i: int| 0 <= i < digits.drop_last().len() implies is_digit(
            #[trigger] digits.drop_last()[i],
        ) by {
            assert(digits.drop_last()[i] == digits[i]);
        }
        decimal_value_bound(digits.drop_last());
        assert(is_digit(digits[digits.len() - 1]));
    }
}

/// Powers of ten grow with the exponent.
proof fn ten_to_is_monotone(small: nat, large: nat)
    requires
        small <= large,
    ensures
        0 < ten_to(small) <= ten_to(large),
    decreases large,
{
    if small < large {
        ten_to_is_monotone(small, (large - 1) as nat);
    } else if small > 0 {
        ten_to_is_monotone((small - 1) as nat, (small - 1) as nat);
    }
}

/// A decimal number that does not begin with zero writes at least the power of ten for the digits
/// after its first.
proof fn decimal_value_floor(digits: Seq<char>)
    requires
        digits.len() > 0,
        digits[0] != '0',
        forall|i: int| 0 <= i < digits.len() ==> is_digit(#[trigger] digits[i]),
    ensures
        decimal_value(digits) >= ten_to((digits.len() - 1) as nat),
    decreases digits.len(),
{
    let front = digits.drop_last();
    assert(is_digit(digits[digits.len() - 1]));
    if front.len() > 0 {
        assert forall|i: int| 0 <= i < front.len() implies is_digit(#[trigger] front[i]) by {
            assert(front[i] == digits[i]);
        }
        assert(front[0] == digits[0]);
        decimal_value_floor(front);
    }
}

/// A canonical decimal with too many digits writes no revision.
proof fn long_decimals_are_beyond_the_bound(text: Seq<char>)
    requires
        is_canonical_decimal(text),
        text.len() > MAX_REVISION_DIGITS,
    ensures
        decimal_value(text) > MAX_SAFE_REVISION,
{
    decimal_value_floor(text);
    ten_to_is_monotone(16, (text.len() - 1) as nat);
    reveal_with_fuel(ten_to, 17);
}

/// Reads the revision that `text` writes. Refuses text that writes none.
pub fn parse_revision(text: &str, positive: bool) -> (result: RuntimeEventResult<u64>)
    ensures
        result matches Ok(revision) ==> revision_of(text@, positive) == Some(revision),
        result matches Err(error) ==> revision_of(text@, positive) is None
            && error == RuntimeEventError::InvalidRevision,
{
    if !text.is_ascii() {
        proof {
            if is_canonical_decimal(text@) {
                crate::text::ascii_by_range(text@);
            }
        }
        return Err(RuntimeEventError::InvalidRevision);
    }
    proof {
        vstd::utf8::is_ascii_chars_encode_utf8(text@);
    }
    let bytes = text.as_bytes();
    if bytes.len() == 0 || bytes.len() > MAX_REVISION_DIGITS {
        proof {
            if is_canonical_decimal(text@) {
                long_decimals_are_beyond_the_bound(text@);
            }
        }
        return Err(RuntimeEventError::InvalidRevision);
    }
    assert(text@[0] as u8 == bytes@[0]);
    // `0` to `9` are 0x30 to 0x39.
    if bytes.len() > 1 && bytes[0] == 0x30 {
        return Err(RuntimeEventError::InvalidRevision);
    }
    let mut value: u64 = 0;
    let mut at: usize = 0;
    assert(text@.take(0) =~= Seq::<char>::empty());
    while at < bytes.len()
        invariant
            at <= bytes@.len(),
            bytes@.len() <= MAX_REVISION_DIGITS,
            bytes@.len() == text@.len(),
            vstd::utf8::is_ascii_chars(text@),
            forall|i: int| 0 <= i < text@.len() ==> text@[i] as u8 == #[trigger] bytes@[i],
            forall|i: int| 0 <= i < at ==> is_digit(#[trigger] text@[i]),
            value == decimal_value(text@.take(at as int)),
        decreases bytes.len() - at,
    {
        let b = bytes[at];
        assert(text@[at as int] as u8 == b);
        if b < 0x30 || b > 0x39 {
            assert(!is_digit(text@[at as int]));
            return Err(RuntimeEventError::InvalidRevision);
        }
        proof {
            let read = text@.take(at as int);
            let longer = text@.take(at + 1);
            assert(longer.drop_last() =~= read);
            assert forall|i: int| 0 <= i < read.len() implies is_digit(#[trigger] read[i]) by {
                assert(read[i] == text@[i]);
            }
            decimal_value_bound(read);
            ten_to_is_monotone(at as nat, 15);
            reveal_with_fuel(ten_to, 17);
        }
        value = value * 10 + (b - 0x30) as u64;
        at += 1;
    }
    assert(text@.take(at as int) =~= text@);
    if value > MAX_SAFE_REVISION || (positive && value == 0) {
        Err(RuntimeEventError::InvalidRevision)
    } else {
        Ok(value)
    }
}

/// The digit for a number below ten.
pub open spec fn digit_of(number: nat) -> char {
    (number + '0' as nat) as char
}

/// The canonical decimal of a number.
pub open spec fn decimal_text(number: nat) -> Seq<char>
    decreases number,
{
    if number < 10 {
        seq![digit_of(number)]
    } else {
        decimal_text(number / 10).push(digit_of(number % 10))
    }
}

/// The decimal of a number is canonical and writes the number. It has a leading zero only for zero.
proof fn decimal_text_writes_its_number(number: nat)
    ensures
        is_canonical_decimal(decimal_text(number)),
        decimal_value(decimal_text(number)) == number,
        number > 0 ==> decimal_text(number)[0] != '0',
    decreases number,
{
    let text = decimal_text(number);
    if number < 10 {
        assert(text.drop_last() =~= Seq::<char>::empty());
        assert(decimal_value(text.drop_last()) == 0);
        assert(text.last() as nat == number + '0' as nat);
    } else {
        let front = decimal_text(number / 10);
        decimal_text_writes_its_number(number / 10);
        assert(text.drop_last() =~= front);
        assert forall|i: int| 0 <= i < text.len() implies is_digit(#[trigger] text[i]) by {
            if i < front.len() {
                assert(text[i] == front[i]);
            }
        }
        assert(text[0] == front[0]);
    }
}

/// Canonical decimals that write the same number are the same text.
pub proof fn canonical_decimal_is_decimal_text(text: Seq<char>)
    requires
        is_canonical_decimal(text),
    ensures
        text == decimal_text(decimal_value(text)),
        text.len() > 1 ==> decimal_value(text) >= 10,
        text[0] != '0' ==> decimal_value(text) > 0,
    decreases text.len(),
{
    let front = text.drop_last();
    let last = text.last();
    assert(is_digit(text[text.len() - 1]));
    if text.len() == 1 {
        assert(front =~= Seq::<char>::empty());
        assert(decimal_value(front) == 0);
        assert(text =~= seq![last]);
    } else {
        assert forall|i: int| 0 <= i < front.len() implies is_digit(#[trigger] front[i]) by {
            assert(front[i] == text[i]);
        }
        assert(front[0] == text[0]);
        canonical_decimal_is_decimal_text(front);
        assert(text =~= front.push(last));
    }
}

/// Revisions survive the wire: the canonical decimal of a revision within the bound is read back as
/// that revision, unless it is zero and has to be positive.
pub proof fn revisions_read_back(revision: u64, positive: bool)
    requires
        revision <= MAX_SAFE_REVISION,
        positive ==> revision > 0,
    ensures
        revision_of(decimal_text(revision as nat), positive) == Some(revision),
{
    decimal_text_writes_its_number(revision as nat);
}

/// A revision is written in one way: text that is read as a revision is its canonical decimal.
pub proof fn revisions_are_canonical(text: Seq<char>, positive: bool)
    requires
        revision_of(text, positive) is Some,
    ensures
        text == decimal_text(revision_of(text, positive)->0 as nat),
        revision_of(text, positive)->0 <= MAX_SAFE_REVISION,
        positive ==> revision_of(text, positive)->0 > 0,
{
    canonical_decimal_is_decimal_text(text);
}

} // verus!
