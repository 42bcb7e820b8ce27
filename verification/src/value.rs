//! Typed readings of the byte strings a document holds: words, numbers,
//! booleans and text.
use vstd::prelude::*;
use vstd::string::StringSliceAdditionalSpecFns;
use vstd::utf8::{decode_utf8, valid_utf8};

verus! {

/// Whether two byte strings are the same.
pub fn same_bytes(left: &[u8], right: &[u8]) -> (same: bool)
    ensures
        same == (left@ == right@),
{
    if left.len() != right.len() {
        return false;
    }
    let mut i: usize = 0;
    while i < left.len()
        invariant
            i <= left.len(),
            left.len() == right.len(),
            forall|k: int| 0 <= k < i ==> left@[k] == right@[k],
        decreases left.len() - i,
    {
        if left[i] != right[i] {
            return false;
        }
        i += 1;
    }
    assert(left@ =~= right@);
    true
}

/// Whether `bytes` spell `word`.
pub fn is_word(bytes: &[u8], word: &str) -> (same: bool)
    ensures
        same == (bytes@ == word.spec_bytes()),
{
    same_bytes(bytes, word.as_bytes())
}

/// An ASCII decimal digit.
pub open spec fn is_digit(byte: u8) -> bool {
    48 <= byte <= 57
}

/// Whether every byte of `digits` is a decimal digit.
pub open spec fn all_digits(digits: Seq<u8>) -> bool {
    forall|i: int| 0 <= i < digits.len() ==> is_digit(#[trigger] digits[i])
}

/// The number that a string of decimal digits writes, most significant
/// digit first.
pub open spec fn decimal_value(digits: Seq<u8>) -> nat
    decreases digits.len(),
{
    if digits.len() == 0 {
        0
    } else {
        (decimal_value(digits.drop_last()) * 10 + (digits.last() - 48)) as nat
    }
}

/// The digits of a number as written: what follows one optional `+`.
pub open spec fn unsigned_digits(bytes: Seq<u8>) -> Seq<u8> {
    if bytes.len() > 0 && bytes[0] == 43 {
        bytes.drop_first()
    } else {
        bytes
    }
}

/// The unsigned 32-bit number that `bytes` write in decimal: an optional
/// `+`, then one or more digits and nothing else, with a value that fits.
pub open spec fn parsed_u32(bytes: Seq<u8>) -> Option<u32> {
    let digits = unsigned_digits(bytes);
    if digits.len() > 0 && all_digits(digits) && decimal_value(digits) <= u32::MAX {
        Some(decimal_value(digits) as u32)
    } else {
        None
    }
}

/// A longer string of digits writes no smaller number than its beginning.
pub proof fn lemma_decimal_value_grows(digits: Seq<u8>, shorter: int)
    requires
        0 <= shorter <= digits.len(),
        all_digits(digits),
    ensures
        decimal_value(digits.take(shorter)) <= decimal_value(digits),
    decreases digits.len() - shorter,
{
    if shorter == digits.len() {
        assert(digits.take(shorter) =~= digits);
    } else {
        let front = digits.drop_last();
        assert(front.take(shorter) =~= digits.take(shorter));
        assert(is_digit(digits[digits.len() - 1]));
        assert forall|i: int| 0 <= i < front.len() implies is_digit(#[trigger] front[i]) by {
            assert(front[i] == digits[i]);
        }
        lemma_decimal_value_grows(front, shorter);
    }
}

/// Reads an unsigned 32-bit decimal number.
pub fn parse_u32(bytes: &[u8]) -> (number: Option<u32>)
    ensures
        number == parsed_u32(bytes@),
{
    let n = bytes.len();
    let start: usize = if n > 0 && bytes[0] == 43u8 {
        1
    } else {
        0
    };
    if start == n {
        return None;
    }
    let ghost digits = unsigned_digits(bytes@);
    assert(digits =~= bytes@.subrange(start as int, n as int));
    let mut value: u64 = 0;
    let mut i: usize = start;
    assert(digits.take(0) =~= Seq::<u8>::empty());
    while i < n
        invariant
            start <= i <= n,
            n == bytes@.len(),
            digits == unsigned_digits(bytes@),
            digits.len() == n - start,
            forall|k: int| 0 <= k < digits.len() ==> digits[k] == bytes@[start + k],
            all_digits(digits.take(i - start)),
            value == decimal_value(digits.take(i - start)),
            value <= u32::MAX,
        decreases n - i,
    {
        let byte = bytes[i];
        if byte < 48u8 || byte > 57u8 {
            assert(!is_digit(digits[i - start]));
            return None;
        }
        let ghost seen = digits.take(i - start + 1);
        assert(seen.drop_last() =~= digits.take(i - start));
        assert(seen.last() == byte);
        assert forall|k: int| 0 <= k < seen.len() implies is_digit(#[trigger] seen[k]) by {
            if k < i - start {
                assert(digits.take(i - start)[k] == seen[k]);
            }
        }
        value = value * 10 + (byte - 48u8) as u64;
        if value > 0xffff_ffffu64 {
            proof {
                if all_digits(digits) {
                    lemma_decimal_value_grows(digits, i - start + 1);
                }
            }
            return None;
        }
        i += 1;
    }
    assert(digits.take(n - start) =~= digits);
    Some(value as u32)
}

/// The boolean that `bytes` spell: `true` or `false`, in exactly these
/// letters.
pub open spec fn parsed_bool(bytes: Seq<u8>) -> Option<bool> {
    if bytes == "true".spec_bytes() {
        Some(true)
    } else if bytes == "false".spec_bytes() {
        Some(false)
    } else {
        None
    }
}

/// Reads a boolean.
pub fn parse_bool(bytes: &[u8]) -> (flag: Option<bool>)
    ensures
        flag == parsed_bool(bytes@),
{
    if is_word(bytes, "true") {
        Some(true)
    } else if is_word(bytes, "false") {
        Some(false)
    } else {
        None
    }
}

/// A plus or a minus sign.
pub open spec fn is_sign(byte: u8) -> bool {
    byte == 43 || byte == 45
}

/// An ASCII letter in lower case; any other byte as it is.
pub open spec fn lower(byte: u8) -> u8 {
    if 65 <= byte <= 90 {
        (byte + 32) as u8
    } else {
        byte
    }
}

/// A byte string with its ASCII letters in lower case.
pub open spec fn lowered(bytes: Seq<u8>) -> Seq<u8> {
    bytes.map_values(|byte: u8| lower(byte))
}

/// The index behind the run of digits that starts at `from`.
pub open spec fn digit_run(bytes: Seq<u8>, from: int) -> int
    decreases bytes.len() - from,
{
    if 0 <= from < bytes.len() && is_digit(bytes[from]) {
        digit_run(bytes, from + 1)
    } else {
        from
    }
}

/// Where the exponent's digits start, for an exponent whose letter is at
/// `at`: behind the letter and one optional sign.
pub open spec fn exponent_start(bytes: Seq<u8>, at: int) -> int {
    if at + 1 < bytes.len() && is_sign(bytes[at + 1]) {
        at + 2
    } else {
        at + 1
    }
}

/// Whether `bytes` write a decimal number without a sign: digits with at
/// most one point among them, at least one digit in all, and then either
/// nothing or an exponent, which is the letter `e` in either case, an
/// optional sign and at least one digit.
pub open spec fn is_decimal_number(bytes: Seq<u8>) -> bool {
    let whole_end = digit_run(bytes, 0);
    let pointed = whole_end < bytes.len() && bytes[whole_end] == 46;
    let mantissa_end = if pointed {
        digit_run(bytes, whole_end + 1)
    } else {
        whole_end
    };
    let digits = if pointed {
        mantissa_end - 1
    } else {
        mantissa_end
    };
    &&& digits >= 1
    &&& mantissa_end == bytes.len() || {
        &&& lower(bytes[mantissa_end]) == 101
        &&& digit_run(bytes, exponent_start(bytes, mantissa_end)) > exponent_start(
            bytes,
            mantissa_end,
        )
        &&& digit_run(bytes, exponent_start(bytes, mantissa_end)) == bytes.len()
    }
}

/// What follows one optional sign.
pub open spec fn unsigned_part(bytes: Seq<u8>) -> Seq<u8> {
    if bytes.len() > 0 && is_sign(bytes[0]) {
        bytes.drop_first()
    } else {
        bytes
    }
}

/// Whether `bytes` write a floating-point number: an optional sign, then a
/// decimal number or, in any mix of cases, one of the words `inf`,
/// `infinity` and `nan`.
pub open spec fn is_float_text(bytes: Seq<u8>) -> bool {
    let body = unsigned_part(bytes);
    ||| is_decimal_number(body)
    ||| lowered(body) == "inf".spec_bytes()
    ||| lowered(body) == "infinity".spec_bytes()
    ||| lowered(body) == "nan".spec_bytes()
}

/// Whether `bytes` spell `word` when case is ignored in `bytes`.
pub fn is_word_in_any_case(bytes: &[u8], word: &str) -> (same: bool)
    ensures
        same == (lowered(bytes@) == word.spec_bytes()),
{
    let letters = word.as_bytes();
    if bytes.len() != letters.len() {
        return false;
    }
    let mut i: usize = 0;
    while i < bytes.len()
        invariant
            i <= bytes.len(),
            bytes.len() == letters.len(),
            letters@ == word.spec_bytes(),
            forall|k: int| 0 <= k < i ==> lower(bytes@[k]) == letters@[k],
        decreases bytes.len() - i,
    {
        let byte = bytes[i];
        let low: u8 = if 65u8 <= byte && byte <= 90u8 {
            byte + 32u8
        } else {
            byte
        };
        if low != letters[i] {
            assert(lowered(bytes@)[i as int] != letters@[i as int]);
            return false;
        }
        i += 1;
    }
    assert(lowered(bytes@) =~= letters@);
    true
}

/// Finds the end of the run of digits that starts at `from`.
pub fn skip_digits(bytes: &[u8], from: usize) -> (end: usize)
    ensures
        end == digit_run(bytes@, from as int),
        from <= end,
        from <= bytes@.len() ==> end <= bytes@.len(),
{
    let mut i: usize = from;
    while i < bytes.len() && 48u8 <= bytes[i] && bytes[i] <= 57u8
        invariant
            from <= i,
            from <= bytes@.len() ==> i <= bytes@.len(),
            digit_run(bytes@, from as int) == digit_run(bytes@, i as int),
        decreases bytes.len() - i,
    {
        i += 1;
    }
    i
}

/// Whether `bytes` write a decimal number without a sign.
pub fn is_decimal(bytes: &[u8]) -> (yes: bool)
    ensures
        yes == is_decimal_number(bytes@),
{
    let len = bytes.len();
    let whole_end = skip_digits(bytes, 0);
    let pointed = whole_end < len && bytes[whole_end] == 46u8;
    let mantissa_end = if pointed {
        skip_digits(bytes, whole_end + 1)
    } else {
        whole_end
    };
    let digits = if pointed {
        mantissa_end - 1
    } else {
        mantissa_end
    };
    if digits < 1 {
        return false;
    }
    if mantissa_end == len {
        return true;
    }
    let letter = bytes[mantissa_end];
    if letter != 101u8 && letter != 69u8 {
        return false;
    }
    let start = if mantissa_end + 1 < len && (bytes[mantissa_end + 1] == 43u8 || bytes[mantissa_end
        + 1] == 45u8) {
        mantissa_end + 2
    } else {
        mantissa_end + 1
    };
    let end = skip_digits(bytes, start);
    end > start && end == len
}

/// Whether `bytes` write a floating-point number.
pub fn is_float(bytes: &[u8]) -> (yes: bool)
    ensures
        yes == is_float_text(bytes@),
{
    let len = bytes.len();
    let signed = len > 0 && (bytes[0] == 43u8 || bytes[0] == 45u8);
    let body = if signed {
        vstd::slice::slice_subrange(bytes, 1, len)
    } else {
        bytes
    };
    assert(body@ =~= unsigned_part(bytes@));
    is_decimal(body) || is_word_in_any_case(body, "inf") || is_word_in_any_case(body, "infinity")
        || is_word_in_any_case(body, "nan")
}

/// The text that `bytes` encode in UTF-8, if they do.
pub open spec fn utf8_text(bytes: Seq<u8>) -> Option<Seq<char>> {
    if valid_utf8(bytes) {
        Some(decode_utf8(bytes))
    } else {
        None
    }
}

/// The characters of an optional string.
pub open spec fn text_view(text: Option<String>) -> Option<Seq<char>> {
    match text {
        Some(text) => Some(text@),
        None => None,
    }
}

/// The characters of an optional string slice.
pub open spec fn str_view(text: Option<&str>) -> Option<Seq<char>> {
    match text {
        Some(text) => Some(text@),
        None => None,
    }
}

/// `std::str::from_utf8`: the text that the bytes encode when they are
/// valid UTF-8, nothing when they are not.
#[verifier::external_body]
fn str_of_utf8(bytes: &[u8]) -> (text: Option<&str>)
    ensures
        str_view(text) == utf8_text(bytes@),
{
    std::str::from_utf8(bytes).ok()
}

/// Reads UTF-8 text into a string of its own.
pub fn text_of_utf8(bytes: &[u8]) -> (text: Option<String>)
    ensures
        text_view(text) == utf8_text(bytes@),
{
    match str_of_utf8(bytes) {
        Some(text) => Some(text.to_owned()),
        None => None,
    }
}

} // verus!
