//! Fixed-width hexadecimal fields.
//!
//! Identifiers are written as two or four hex digits, in the database and in
//! the attributes of a device alike. A field is decoded only where all of its
//! digits are present and valid.

use vstd::prelude::*;

verus! {

/// Whether a byte is an ASCII hex digit, in either case.
pub open spec fn is_hex_digit(b: u8) -> bool {
    (0x30 <= b <= 0x39) || (0x61 <= b <= 0x66) || (0x41 <= b <= 0x46)
}

/// The value of a hex digit.
pub open spec fn hex_digit_value(b: u8) -> int {
    if 0x30 <= b <= 0x39 {
        b - 0x30
    } else if 0x61 <= b <= 0x66 {
        b - 0x61 + 10
    } else {
        b - 0x41 + 10
    }
}

/// The byte that a sequence of exactly two hex digits denotes.
pub open spec fn hex_byte(s: Seq<u8>) -> Option<u8> {
    if s.len() == 2 && is_hex_digit(s[0]) && is_hex_digit(s[1]) {
        Some((16 * hex_digit_value(s[0]) + hex_digit_value(s[1])) as u8)
    } else {
        None
    }
}

/// The word that a sequence of exactly four hex digits denotes.
pub open spec fn hex_word(s: Seq<u8>) -> Option<u16> {
    if s.len() == 4 && is_hex_digit(s[0]) && is_hex_digit(s[1]) && is_hex_digit(s[2])
        && is_hex_digit(s[3]) {
        Some(
            (4096 * hex_digit_value(s[0]) + 256 * hex_digit_value(s[1]) + 16 * hex_digit_value(s[2])
                + hex_digit_value(s[3])) as u16,
        )
    } else {
        None
    }
}

/// The byte that the field of two hex digits at the start of `s` denotes.
pub open spec fn leading_byte(s: Seq<u8>) -> Option<u8> {
    if s.len() >= 2 {
        hex_byte(s.take(2))
    } else {
        None
    }
}

/// The word that the field of four hex digits at the start of `s` denotes.
pub open spec fn leading_word(s: Seq<u8>) -> Option<u16> {
    if s.len() >= 4 {
        hex_word(s.take(4))
    } else {
        None
    }
}

/// Decodes one hex digit.
pub fn hex_digit(b: u8) -> (value: Option<u8>)
    ensures
        value is Some <==> is_hex_digit(b),
        value matches Some(v) ==> v == hex_digit_value(b) && v < 16,
{
    if 0x30 <= b && b <= 0x39 {
        Some(b - 0x30)
    } else if 0x61 <= b && b <= 0x66 {
        Some(b - 0x61 + 10)
    } else if 0x41 <= b && b <= 0x46 {
        Some(b - 0x41 + 10)
    } else {
        None
    }
}

/// The byte that the field of two hex digits at position `at` of `text`
/// denotes.
pub open spec fn byte_at(text: Seq<u8>, at: int) -> Option<u8> {
    if 0 <= at <= text.len() {
        leading_byte(text.skip(at))
    } else {
        None
    }
}

/// The word that the field of four hex digits at position `at` of `text`
/// denotes.
pub open spec fn word_at(text: Seq<u8>, at: int) -> Option<u16> {
    if 0 <= at <= text.len() {
        leading_word(text.skip(at))
    } else {
        None
    }
}

/// Decodes the two hex digits that start at `at`. Returns `None` where the
/// text ends before the second digit or a byte of the field is no hex digit.
pub fn parse_hex_byte(text: &[u8], at: usize) -> (value: Option<u8>)
    ensures
        value == byte_at(text@, at as int),
{
    if at > text.len() || text.len() - at < 2 {
        return None;
    }
    proof {
        let field = text@.skip(at as int).take(2);
        assert(field[0] == text@[at as int]);
        assert(field[1] == text@[at + 1]);
    }
    let high = match hex_digit(text[at]) {
        Some(v) => v,
        None => {
            return None;
        },
    };
    let low = match hex_digit(text[at + 1]) {
        Some(v) => v,
        None => {
            return None;
        },
    };
    Some(high * 16 + low)
}

/// Decodes the four hex digits that start at `at`. Returns `None` where the
/// text ends before the fourth digit or a byte of the field is no hex digit.
pub fn parse_hex_word(text: &[u8], at: usize) -> (value: Option<u16>)
    ensures
        value == word_at(text@, at as int),
{
    if at > text.len() || text.len() - at < 4 {
        return None;
    }
    proof {
        let field = text@.skip(at as int).take(4);
        assert(field[0] == text@[at as int]);
        assert(field[1] == text@[at + 1]);
        assert(field[2] == text@[at + 2]);
        assert(field[3] == text@[at + 3]);
    }
    let d0 = match hex_digit(text[at]) {
        Some(v) => v,
        None => {
            return None;
        },
    };
    let d1 = match hex_digit(text[at + 1]) {
        Some(v) => v,
        None => {
            return None;
        },
    };
    let d2 = match hex_digit(text[at + 2]) {
        Some(v) => v,
        None => {
            return None;
        },
    };
    let d3 = match hex_digit(text[at + 3]) {
        Some(v) => v,
        None => {
            return None;
        },
    };
    Some((d0 as u16) * 4096 + (d1 as u16) * 256 + (d2 as u16) * 16 + (d3 as u16))
}

} // verus!
