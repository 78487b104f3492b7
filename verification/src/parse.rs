//! Reading numbers and flags from text.
//!
//! A text is read as its UTF-8 bytes. Whole numbers are an optional `+`
//! followed by decimal digits. Decimal numbers are an optional sign, digits,
//! and optionally a point with one to three more digits; they are read in
//! thousandths.

use vstd::prelude::*;
use vstd::slice::slice_subrange;
use vstd::string::StringSliceAdditionalSpecFns;
use vstd::utf8::encode_utf8;
use crate::text::same_text;

verus! {

/// Whether a byte is a decimal digit.
pub open spec fn is_digit(byte: u8) -> bool {
    48 <= byte <= 57
}

/// Whether every byte is a decimal digit.
pub open spec fn all_digits(s: Seq<u8>) -> bool {
    forall|i: int| 0 <= i < s.len() ==> is_digit(#[trigger] s[i])
}

/// The number that a sequence of digits writes.
pub open spec fn digits_value(s: Seq<u8>) -> nat
    decreases s.len(),
{
    if s.len() == 0 {
        0
    } else {
        digits_value(s.drop_last()) * 10 + (s.last() - 48) as nat
    }
}

/// The number written by `s`, if `s` is one or more digits and the number is
/// at most `max`.
pub open spec fn number_of(s: Seq<u8>, max: nat) -> Option<nat> {
    if s.len() > 0 && all_digits(s) && digits_value(s) <= max {
        Some(digits_value(s))
    } else {
        None
    }
}

/// `s` without a leading `+`.
pub open spec fn without_plus(s: Seq<u8>) -> Seq<u8> {
    if s.len() > 0 && s[0] == 43 {
        s.drop_first()
    } else {
        s
    }
}

/// The whole number written by a text, if it is one and at most `max`.
pub open spec fn unsigned_of(text: Seq<char>, max: nat) -> Option<nat> {
    number_of(without_plus(encode_utf8(text)), max)
}

/// The flag written by a text: `true` or `false`.
pub open spec fn flag_of(text: Seq<char>) -> Option<bool> {
    if text == "true"@ {
        Some(true)
    } else if text == "false"@ {
        Some(false)
    } else {
        None
    }
}

/// A longer run of digits writes no smaller number.
pub proof fn lemma_digits_value_grows(s: Seq<u8>, k: int)
    requires
        0 <= k <= s.len(),
    ensures
        digits_value(s.take(k)) <= digits_value(s),
    decreases s.len() - k,
{
    if k < s.len() {
        lemma_digits_value_grows(s, k + 1);
        assert(s.take(k + 1).drop_last() =~= s.take(k));
    } else {
        assert(s.take(k) =~= s);
    }
}

/// Reads `bytes` as a run of digits.
pub fn parse_digits(bytes: &[u8], max: u64) -> (number: Option<u64>)
    ensures
        match number {
            Some(n) => number_of(bytes@, max as nat) == Some(n as nat),
            None => number_of(bytes@, max as nat) is None,
        },
{
    let n: usize = bytes.len();
    if n == 0 {
        return None;
    }
    let mut value: u64 = 0;
    let mut i: usize = 0;
    while i < n
        invariant
            n == bytes@.len(),
            i <= n,
            all_digits(bytes@.take(i as int)),
            value == digits_value(bytes@.take(i as int)),
            value <= max,
        decreases n - i,
    {
        let byte: u8 = bytes[i];
        if byte < 48 || byte > 57 {
            assert(!is_digit(bytes@[i as int]));
            return None;
        }
        let digit: u64 = (byte - 48) as u64;
        proof {
            assert(bytes@.take(i as int + 1).drop_last() =~= bytes@.take(i as int));
            assert(digits_value(bytes@.take(i as int + 1)) == value * 10 + digit);
        }
        if digit > max || value > (max - digit) / 10 {
            proof {
                if all_digits(bytes@) {
                    lemma_digits_value_grows(bytes@, i as int + 1);
                }
            }
            return None;
        }
        value = value * 10 + digit;
        proof {
            assert forall|j: int| 0 <= j < i + 1 implies is_digit(
                #[trigger] bytes@.take(i as int + 1)[j],
            ) by {
                if j < i {
                    assert(bytes@.take(i as int)[j] == bytes@[j]);
                }
            }
        }
        i = i + 1;
    }
    assert(bytes@.take(n as int) =~= bytes@);
    Some(value)
}

/// Reads a text as a whole number of at most `max`.
pub fn parse_unsigned(text: &str, max: u64) -> (number: Option<u64>)
    ensures
        match number {
            Some(n) => unsigned_of(text@, max as nat) == Some(n as nat),
            None => unsigned_of(text@, max as nat) is None,
        },
{
    let bytes: &[u8] = text.as_bytes();
    if bytes.len() > 0 && bytes[0] == 43 {
        let digits: &[u8] = slice_subrange(bytes, 1, bytes.len());
        assert(digits@ =~= bytes@.drop_first());
        parse_digits(digits, max)
    } else {
        parse_digits(bytes, max)
    }
}

/// Reads a text as a flag.
pub fn parse_flag(text: &str) -> (flag: Option<bool>)
    ensures
        flag == flag_of(text@),
{
    if same_text(text, "true") {
        Some(true)
    } else if same_text(text, "false") {
        Some(false)
    } else {
        None
    }
}

/// How many digits follow the point in `s`: one, two or three where the
/// point stands that far from the end, else none.
pub open spec fn decimals_in(s: Seq<u8>) -> int {
    let n = s.len() as int;
    if n >= 2 && s[n - 2] == 46 {
        1
    } else if n >= 3 && s[n - 3] == 46 {
        2
    } else if n >= 4 && s[n - 4] == 46 {
        3
    } else {
        0
    }
}

/// The digits before the point.
pub open spec fn whole_part(s: Seq<u8>) -> Seq<u8> {
    if decimals_in(s) == 0 {
        s
    } else {
        s.take(s.len() - decimals_in(s) - 1)
    }
}

/// The digits behind the point.
pub open spec fn decimal_part(s: Seq<u8>) -> Seq<u8> {
    s.skip(s.len() - decimals_in(s))
}

/// What one unit of the last decimal is worth in thousandths.
pub open spec fn decimal_scale(decimals: int) -> nat {
    if decimals == 1 {
        100
    } else if decimals == 2 {
        10
    } else {
        1
    }
}

/// The unsigned decimal number written by `s`, in thousandths: one or more
/// digits, optionally followed by a point and one to three digits.
pub open spec fn magnitude_of(s: Seq<u8>) -> Option<nat> {
    if whole_part(s).len() > 0 && all_digits(whole_part(s)) && all_digits(decimal_part(s)) {
        Some(
            digits_value(whole_part(s)) * 1000 + digits_value(decimal_part(s)) * decimal_scale(
                decimals_in(s),
            ),
        )
    } else {
        None
    }
}

/// Whether `s` begins with a sign.
pub open spec fn has_sign(s: Seq<u8>) -> bool {
    s.len() > 0 && (s[0] == 43 || s[0] == 45)
}

/// The decimal number written by a text, in thousandths, if the text is an
/// optional sign and an unsigned decimal number of at most `i64::MAX`
/// thousandths.
pub open spec fn thousandths_of(text: Seq<char>) -> Option<int> {
    let s = encode_utf8(text);
    let body = if has_sign(s) {
        s.drop_first()
    } else {
        s
    };
    match magnitude_of(body) {
        Some(m) => if m <= i64::MAX {
            if has_sign(s) && s[0] == 45 {
                Some(-(m as int))
            } else {
                Some(m as int)
            }
        } else {
            None
        },
        None => None,
    }
}

/// A run of at most three digits writes a number below one thousand.
proof fn lemma_three_digits(s: Seq<u8>)
    requires
        s.len() <= 3,
        all_digits(s),
    ensures
        s.len() == 1 ==> digits_value(s) <= 9,
        s.len() == 2 ==> digits_value(s) <= 99,
        digits_value(s) <= 999,
    decreases s.len(),
{
    if s.len() > 0 {
        let rest = s.drop_last();
        assert forall|i: int| 0 <= i < rest.len() implies is_digit(#[trigger] rest[i]) by {
            assert(rest[i] == s[i]);
        }
        lemma_three_digits(rest);
        assert(is_digit(s[s.len() - 1]));
    }
}

/// Reads unsigned decimal text in thousandths.
fn parse_magnitude(bytes: &[u8]) -> (magnitude: Option<u64>)
    ensures
        match magnitude {
            Some(m) => magnitude_of(bytes@) == Some(m as nat) && m <= i64::MAX,
            None => match magnitude_of(bytes@) {
                Some(m) => m > i64::MAX,
                None => true,
            },
        },
{
    let n: usize = bytes.len();
    let decimals: usize = if n >= 2 && bytes[n - 2] == 46 {
        1
    } else if n >= 3 && bytes[n - 3] == 46 {
        2
    } else if n >= 4 && bytes[n - 4] == 46 {
        3
    } else {
        0
    };
    let whole: &[u8] = if decimals == 0 {
        bytes
    } else {
        slice_subrange(bytes, 0, n - decimals - 1)
    };
    let fraction: &[u8] = slice_subrange(bytes, n - decimals, n);
    assert(decimals == decimals_in(bytes@));
    assert(whole@ =~= whole_part(bytes@));
    assert(fraction@ =~= decimal_part(bytes@));
    let units: u64 = match parse_digits(whole, 9_223_372_036_854_775) {
        Some(units) => units,
        None => {
            return None;
        },
    };
    let thousandths: u64 = if decimals == 0 {
        assert(fraction@ =~= Seq::<u8>::empty());
        0
    } else {
        let scale: u64 = if decimals == 1 {
            100
        } else if decimals == 2 {
            10
        } else {
            1
        };
        match parse_digits(fraction, 999) {
            Some(value) => {
                proof {
                    lemma_three_digits(fraction@);
                }
                value * scale
            },
            None => {
                proof {
                    if all_digits(fraction@) {
                        lemma_three_digits(fraction@);
                    }
                }
                return None;
            },
        }
    };
    let magnitude: u64 = units * 1000 + thousandths;
    if magnitude > 9_223_372_036_854_775_807 {
        None
    } else {
        Some(magnitude)
    }
}

/// Reads a text as a decimal number, in thousandths.
pub fn parse_thousandths(text: &str) -> (number: Option<i64>)
    ensures
        match number {
            Some(n) => thousandths_of(text@) == Some(n as int),
            None => thousandths_of(text@) is None,
        },
{
    let bytes: &[u8] = text.as_bytes();
    let signed: bool = bytes.len() > 0 && (bytes[0] == 43 || bytes[0] == 45);
    let negative: bool = signed && bytes[0] == 45;
    let body: &[u8] = if signed {
        slice_subrange(bytes, 1, bytes.len())
    } else {
        bytes
    };
    assert(signed ==> body@ =~= bytes@.drop_first());
    match parse_magnitude(body) {
        Some(m) => if negative {
            Some(-(m as i64))
        } else {
            Some(m as i64)
        },
        None => None,
    }
}

} // verus!
