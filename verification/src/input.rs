//! Validation of the terminal prompts' input: the case-insensitive
//! boolean answer, and the discard index bounded by the hand size.

use vstd::prelude::*;

verus! {

/// ASCII lower-casing of one byte.
pub open spec fn spec_ascii_lower(c: u8) -> u8 {
    if 65 <= c <= 90 {
        (c + 32) as u8
    } else {
        c
    }
}

/// The bytes spell `true`, in any casing.
pub open spec fn is_true_token(s: Seq<u8>) -> bool {
    &&& s.len() == 4
    &&& spec_ascii_lower(s[0]) == 116
    &&& spec_ascii_lower(s[1]) == 114
    &&& spec_ascii_lower(s[2]) == 117
    &&& spec_ascii_lower(s[3]) == 101
}

/// The bytes spell `false`, in any casing.
pub open spec fn is_false_token(s: Seq<u8>) -> bool {
    &&& s.len() == 5
    &&& spec_ascii_lower(s[0]) == 102
    &&& spec_ascii_lower(s[1]) == 97
    &&& spec_ascii_lower(s[2]) == 108
    &&& spec_ascii_lower(s[3]) == 115
    &&& spec_ascii_lower(s[4]) == 101
}

/// The byte is an ASCII decimal digit.
pub open spec fn is_ascii_digit(c: u8) -> bool {
    48 <= c <= 57
}

/// Every byte is an ASCII decimal digit.
pub open spec fn all_ascii_digits(s: Seq<u8>) -> bool {
    forall|i: int| 0 <= i < s.len() ==> is_ascii_digit(#[trigger] s[i])
}

/// The number that a string of decimal digits denotes.
pub open spec fn digits_value(s: Seq<u8>) -> int
    recommends
        all_ascii_digits(s),
    decreases s.len(),
{
    if s.len() == 0 {
        0
    } else {
        digits_value(s.drop_last()) * 10 + (s.last() - 48)
    }
}

/// The bytes denote a valid discard index for a hand of the given size:
/// nonempty, digits only, and a value below the hand size.
pub open spec fn is_valid_discard(s: Seq<u8>, hand_size: int) -> bool {
    &&& s.len() > 0
    &&& all_ascii_digits(s)
    &&& digits_value(s) < hand_size
}

/// ASCII lower-casing of one byte.
fn ascii_lower(c: u8) -> (r: u8)
    ensures
        r == spec_ascii_lower(c),
{
    if c >= 65 && c <= 90 {
        c + 32
    } else {
        c
    }
}

/// Reads a boolean answer: `Some(true)` for `true` and `Some(false)` for
/// `false`, both case-insensitively; `None` for anything else.
pub fn parse_bool_token(s: &[u8]) -> (r: Option<bool>)
    ensures
        r == Some(true) <==> is_true_token(s@),
        r == Some(false) <==> is_false_token(s@),
        r is None <==> !is_true_token(s@) && !is_false_token(s@),
{
    if s.len() == 4 {
        if ascii_lower(s[0]) == 116 && ascii_lower(s[1]) == 114 && ascii_lower(s[2]) == 117
            && ascii_lower(s[3]) == 101 {
            Some(true)
        } else {
            None
        }
    } else if s.len() == 5 {
        if ascii_lower(s[0]) == 102 && ascii_lower(s[1]) == 97 && ascii_lower(s[2]) == 108
            && ascii_lower(s[3]) == 115 && ascii_lower(s[4]) == 101 {
            Some(false)
        } else {
            None
        }
    } else {
        None
    }
}

/// Reads a decimal number of at most 255 from the bytes: `None` exactly
/// when the bytes are empty, hold a non-digit, or denote a larger number.
pub fn parse_u8_decimal(s: &[u8]) -> (r: Option<u8>)
    ensures
        match r {
            Some(v) => {
                &&& s@.len() > 0
                &&& all_ascii_digits(s@)
                &&& v as int == digits_value(s@)
            },
            None => s@.len() == 0 || !all_ascii_digits(s@) || digits_value(s@) > 255,
        },
{
    if s.len() == 0 {
        return None;
    }
    let mut acc: u16 = 0;
    let mut overflow: bool = false;
    let mut i: usize = 0;
    while i < s.len()
        invariant
            0 < s@.len(),
            i <= s@.len(),
            forall|j: int| 0 <= j < i ==> is_ascii_digit(#[trigger] s@[j]),
            !overflow ==> acc <= 255 && acc as int == digits_value(s@.take(i as int)),
            overflow ==> digits_value(s@.take(i as int)) > 255,
        decreases s@.len() - i,
    {
        let c = s[i];
        if c < 48 || c > 57 {
            proof {
                assert(!is_ascii_digit(s@[i as int]));
            }
            return None;
        }
        proof {
            assert(s@.take(i as int + 1).drop_last() =~= s@.take(i as int));
            assert(s@.take(i as int + 1).last() == s@[i as int]);
        }
        if overflow {
            proof {
                assert(is_ascii_digit(s@[i as int]));
                assert(digits_value(s@.take(i as int + 1)) > 255);
            }
        } else {
            acc = acc * 10 + (c - 48) as u16;
            if acc > 255 {
                overflow = true;
            }
        }
        i = i + 1;
    }
    proof {
        assert(s@.take(s@.len() as int) =~= s@);
    }
    if overflow {
        None
    } else {
        Some(acc as u8)
    }
}

/// Reads a discard choice for a hand of `hand_size` cards: the denoted
/// index when the bytes are a decimal number below `hand_size`, and
/// `None` otherwise — in particular for the out-of-range answer equal to
/// the hand size itself.
pub fn parse_discard_choice(s: &[u8], hand_size: u8) -> (r: Option<u8>)
    ensures
        match r {
            Some(v) => {
                &&& is_valid_discard(s@, hand_size as int)
                &&& v as int == digits_value(s@)
            },
            None => !is_valid_discard(s@, hand_size as int),
        },
{
    match parse_u8_decimal(s) {
        Some(v) => {
            if v < hand_size {
                Some(v)
            } else {
                None
            }
        },
        None => None,
    }
}

} // verus!
