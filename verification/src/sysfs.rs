//! Decoding the attributes that sysfs shows of a PCI device.
//!
//! An identifier is shown as `0x` and a fixed number of hex digits, a flag as
//! `0` or anything else, the NUMA node as a decimal number. White space
//! around a value, such as the newline that ends it, is not part of it.

use vstd::prelude::*;
use vstd::string::{StringExecFns, StringSliceAdditionalSpecFns};
use vstd::utf8::encode_utf8;
use crate::error::Error;
use crate::extra::{basename_spec, find_basename, SEPARATOR};
use crate::text::slice_str;
use crate::hex::{hex_byte, hex_digit, hex_word, is_hex_digit, parse_hex_byte, parse_hex_word};
use crate::ids::{trim, trim_span, Span};

verus! {

/// The class code of a device: its class, its subclass and its programming
/// interface.
#[derive(Clone, Copy, Debug, PartialEq, Eq, Structural)]
pub struct ClassCode {
    pub class: u8,
    pub subclass: u8,
    pub prog_if: u8,
}

/// The texts of the attributes of a device, as they were read; `None` for
/// an attribute that could not be read.
#[derive(Clone, Debug, Default)]
pub struct Attributes {
    pub class: Option<String>,
    pub vendor: Option<String>,
    pub device: Option<String>,
    pub subsystem_vendor: Option<String>,
    pub subsystem_device: Option<String>,
    pub revision: Option<String>,
    pub numa_node: Option<String>,
    pub enable: Option<String>,
    pub d3cold_allowed: Option<String>,
}

/// A device to look at: how it was asked for, and its attributes.
#[derive(Clone, Debug, Default)]
pub struct Source {
    pub path: String,
    pub attributes: Attributes,
}

/// The bytes of the text of an attribute.
pub open spec fn bytes_of(attribute: Option<String>) -> Option<Seq<u8>> {
    match attribute {
        Some(text) => Some(encode_utf8(text@)),
        None => None,
    }
}

/// Whether every byte of `s` is a hex digit.
pub open spec fn all_hex(s: Seq<u8>) -> bool {
    forall|i: int| 0 <= i < s.len() ==> is_hex_digit(#[trigger] s[i])
}

/// The digits of an attribute that is shown in hex: the value is `0x`
/// followed by exactly `width` hex digits.
pub open spec fn hex_digits_of(text: Seq<u8>, width: int) -> Option<Seq<u8>> {
    let value = trim(text);
    if value.len() == width + 2 && value[0] == 0x30 && value[1] == 0x78 && all_hex(value.skip(2)) {
        Some(value.skip(2))
    } else {
        None
    }
}

/// The class code that the attribute `class` shows.
pub open spec fn class_code_of(text: Seq<u8>) -> Option<ClassCode> {
    match hex_digits_of(text, 6) {
        Some(digits) => Some(
            ClassCode {
                class: hex_byte(digits.subrange(0, 2))->0,
                subclass: hex_byte(digits.subrange(2, 4))->0,
                prog_if: hex_byte(digits.subrange(4, 6))->0,
            },
        ),
        None => None,
    }
}

/// The identifier that an attribute such as `vendor` or `device` shows.
pub open spec fn id_of(text: Seq<u8>) -> Option<u16> {
    match hex_digits_of(text, 4) {
        Some(digits) => hex_word(digits),
        None => None,
    }
}

/// The revision that the attribute `revision` shows.
pub open spec fn revision_of(text: Seq<u8>) -> Option<u8> {
    match hex_digits_of(text, 2) {
        Some(digits) => hex_byte(digits),
        None => None,
    }
}

/// What a flag such as `enable` shows: false for `0`, true for anything else.
pub open spec fn flag_of(text: Seq<u8>) -> bool {
    trim(text) != seq![0x30u8]
}

/// What a decoder returns for an optional value: the value, or the error
/// for a text that is not written as it should be.
pub open spec fn decoded<T>(value: Option<T>) -> Result<T, Error> {
    match value {
        Some(v) => Ok(v),
        None => Err(Error::Invalid),
    }
}

/// Finds the digits of an attribute that is shown in hex. Returns the span
/// of its `width` digits, or `None` where the value is not `0x` followed by
/// exactly `width` hex digits.
pub(crate) fn find_hex_digits(text: &[u8], width: usize) -> (digits: Option<Span>)
    requires
        width <= 16,
    ensures
        match digits {
            Some(span) => {
                &&& hex_digits_of(text@, width as int) == Some(span.of(text@))
                &&& 2 <= span.start
                &&& span.end == span.start + width
                &&& span.end <= text.len()
                &&& text@[span.start - 1] == 0x78
                &&& all_hex(span.of(text@))
                &&& span.end < text.len() ==> text@[span.end as int] < 0x80
            },
            None => hex_digits_of(text@, width as int) is None,
        },
{
    let value = trim_span(text, 0);
    proof {
        assert(text@.skip(0) =~= text@);
    }
    let ghost v = value.of(text@);
    if value.end - value.start != width + 2 {
        return None;
    }
    proof {
        assert(v[0] == text@[value.start as int]);
        assert(v[1] == text@[value.start + 1]);
    }
    if text[value.start] != 0x30 || text[value.start + 1] != 0x78 {
        return None;
    }
    let start = value.start + 2;
    let mut i: usize = start;
    while i < value.end
        invariant
            start <= i <= value.end <= text.len(),
            start == value.start + 2,
            value.end - value.start == width + 2,
            v == value.of(text@),
            v == trim(text@),
            forall|j: int| start <= j < i ==> is_hex_digit(#[trigger] text@[j]),
        decreases value.end - i,
    {
        if hex_digit(text[i]).is_none() {
            proof {
                let digits = v.skip(2);
                assert(digits.len() == width);
                assert(digits[i - start] == text@[i as int]);
                assert(!is_hex_digit(digits[i - start]));
                assert(!all_hex(digits));
            }
            return None;
        }
        i = i + 1;
    }
    let span = Span { start, end: value.end };
    proof {
        assert(v.skip(2) =~= span.of(text@));
        assert forall|j: int| 0 <= j < span.of(text@).len() implies is_hex_digit(
            #[trigger] span.of(text@)[j],
        ) by {
            assert(span.of(text@)[j] == text@[start + j]);
        }
    }
    Some(span)
}

/// Decodes the attribute `class`: `0x`, then two hex digits each for the
/// class, the subclass and the programming interface.
pub fn decode_class(text: &str) -> (code: Result<ClassCode, Error>)
    ensures
        code == decoded(class_code_of(text.spec_bytes())),
{
    let bytes = text.as_bytes();
    match find_hex_digits(bytes, 6) {
        Some(span) => {
            proof {
                let digits = span.of(bytes@);
                assert(bytes@.skip(span.start as int).take(2) =~= digits.subrange(0, 2));
                assert(bytes@.skip(span.start + 2).take(2) =~= digits.subrange(2, 4));
                assert(bytes@.skip(span.start + 4).take(2) =~= digits.subrange(4, 6));
                assert(is_hex_digit(digits[0]) && is_hex_digit(digits[1]));
                assert(is_hex_digit(digits[2]) && is_hex_digit(digits[3]));
                assert(is_hex_digit(digits[4]) && is_hex_digit(digits[5]));
            }
            let class = parse_hex_byte(bytes, span.start);
            let subclass = parse_hex_byte(bytes, span.start + 2);
            let prog_if = parse_hex_byte(bytes, span.start + 4);
            match (class, subclass, prog_if) {
                (Some(class), Some(subclass), Some(prog_if)) => Ok(
                    ClassCode { class, subclass, prog_if },
                ),
                _ => Err(Error::Invalid),
            }
        },
        None => Err(Error::Invalid),
    }
}

/// Decodes an attribute that shows an identifier, such as `vendor`,
/// `device`, `subsystem_vendor` or `subsystem_device`: `0x`, then four hex
/// digits.
pub fn decode_id(text: &str) -> (id: Result<u16, Error>)
    ensures
        id == decoded(id_of(text.spec_bytes())),
{
    let bytes = text.as_bytes();
    match find_hex_digits(bytes, 4) {
        Some(span) => {
            proof {
                let digits = span.of(bytes@);
                assert(bytes@.skip(span.start as int).take(4) =~= digits);
                assert(is_hex_digit(digits[0]) && is_hex_digit(digits[1]));
                assert(is_hex_digit(digits[2]) && is_hex_digit(digits[3]));
            }
            match parse_hex_word(bytes, span.start) {
                Some(id) => Ok(id),
                None => Err(Error::Invalid),
            }
        },
        None => Err(Error::Invalid),
    }
}

/// Decodes the attribute `revision`: `0x`, then two hex digits.
pub fn decode_revision(text: &str) -> (revision: Result<u8, Error>)
    ensures
        revision == decoded(revision_of(text.spec_bytes())),
{
    let bytes = text.as_bytes();
    match find_hex_digits(bytes, 2) {
        Some(span) => {
            proof {
                let digits = span.of(bytes@);
                assert(bytes@.skip(span.start as int).take(2) =~= digits);
                assert(is_hex_digit(digits[0]) && is_hex_digit(digits[1]));
            }
            match parse_hex_byte(bytes, span.start) {
                Some(revision) => Ok(revision),
                None => Err(Error::Invalid),
            }
        },
        None => Err(Error::Invalid),
    }
}

/// Decodes a flag such as `enable` or `d3cold_allowed`: `0` is false, any
/// other value is true.
pub fn decode_flag(text: &str) -> (flag: bool)
    ensures
        flag == flag_of(text.spec_bytes()),
{
    let bytes = text.as_bytes();
    let value = trim_span(bytes, 0);
    proof {
        assert(bytes@.skip(0) =~= bytes@);
        let v = value.of(bytes@);
        if v.len() == 1 {
            assert(v[0] == bytes@[value.start as int]);
            if v[0] == 0x30 {
                assert(v =~= seq![0x30u8]);
            }
        }
    }
    !(value.end - value.start == 1 && bytes[value.start] == 0x30)
}

/// The byte that starts a negative number.
pub const MINUS: u8 = 0x2d;

/// Whether every byte of `s` is a decimal digit.
pub open spec fn all_digits(s: Seq<u8>) -> bool {
    forall|i: int| 0 <= i < s.len() ==> 0x30 <= #[trigger] s[i] <= 0x39
}

/// The number that a sequence of decimal digits denotes.
pub open spec fn decimal_value(s: Seq<u8>) -> nat
    decreases s.len(),
{
    if s.len() == 0 {
        0
    } else {
        10 * decimal_value(s.take(s.len() - 1)) + (s[s.len() - 1] - 0x30) as nat
    }
}

/// The number that a text denotes in decimal: digits, with or without a
/// minus sign before them.
pub open spec fn signed_decimal(s: Seq<u8>) -> Option<int> {
    if s.len() >= 2 && s[0] == MINUS && all_digits(s.skip(1)) {
        Some(-(decimal_value(s.skip(1)) as int))
    } else if s.len() >= 1 && all_digits(s) {
        Some(decimal_value(s) as int)
    } else {
        None
    }
}

/// What the attribute `numa_node` shows: a number of a NUMA node, or `-1`
/// for none.
pub open spec fn numa_node_of(text: Seq<u8>) -> Result<i32, Error> {
    match signed_decimal(trim(text)) {
        None => Err(Error::Invalid),
        Some(v) => if -0x8000_0000 <= v <= 0x7fff_ffff {
            Ok(v as i32)
        } else {
            Err(Error::Other)
        },
    }
}

/// Reads the decimal digits of `text` from `first` up to `end`. Returns the
/// number that they denote, or `0x8000_0001` for any greater number, or
/// `None` where a byte is no digit.
fn read_digits(text: &[u8], first: usize, end: usize) -> (value: Option<u64>)
    requires
        first <= end <= text.len(),
    ensures
        value is Some <==> all_digits(text@.subrange(first as int, end as int)),
        value matches Some(v) ==> v <= 0x8000_0001 && (v <= 0x8000_0000 ==> v == decimal_value(
            text@.subrange(first as int, end as int),
        )) && (v == 0x8000_0001 ==> decimal_value(text@.subrange(first as int, end as int))
            > 0x8000_0000),
{
    let mut value: u64 = 0;
    let mut i: usize = first;
    while i < end
        invariant
            first <= i <= end <= text.len(),
            all_digits(text@.subrange(first as int, i as int)),
            value <= 0x8000_0001,
            value <= 0x8000_0000 ==> value == decimal_value(text@.subrange(first as int, i as int)),
            value == 0x8000_0001 ==> decimal_value(text@.subrange(first as int, i as int))
                > 0x8000_0000,
        decreases end - i,
    {
        let b = text[i];
        if b < 0x30 || b > 0x39 {
            proof {
                assert(text@.subrange(first as int, end as int)[i - first] == b);
            }
            return None;
        }
        proof {
            let next = text@.subrange(first as int, i + 1);
            assert(next.take(next.len() - 1) =~= text@.subrange(first as int, i as int));
            assert(next[next.len() - 1] == b);
            assert forall|j: int| 0 <= j < next.len() implies 0x30 <= #[trigger] next[j]
                <= 0x39 by {
                if j < i - first {
                    assert(next[j] == text@.subrange(first as int, i as int)[j]);
                }
            }
        }
        if value <= 0x8000_0000 {
            value = value * 10 + (b - 0x30) as u64;
            if value > 0x8000_0000 {
                value = 0x8000_0001;
            }
        }
        i = i + 1;
    }
    Some(value)
}

/// Decodes the attribute `numa_node`: a decimal number, `-1` where the
/// device belongs to no node. A text that is no number is invalid; a number
/// that is out of the range of 32 bits is refused as out of range.
pub fn decode_numa_node(text: &str) -> (node: Result<i32, Error>)
    ensures
        node == numa_node_of(text.spec_bytes()),
{
    let bytes = text.as_bytes();
    let value = trim_span(bytes, 0);
    proof {
        assert(bytes@.skip(0) =~= bytes@);
    }
    let ghost v = value.of(bytes@);
    if value.end == value.start {
        return Err(Error::Invalid);
    }
    proof {
        assert(v[0] == bytes@[value.start as int]);
    }
    if bytes[value.start] == MINUS {
        proof {
            assert(v.skip(1) =~= bytes@.subrange(value.start + 1, value.end as int));
            assert(!all_digits(v));
        }
        if value.end - value.start < 2 {
            return Err(Error::Invalid);
        }
        match read_digits(bytes, value.start + 1, value.end) {
            None => Err(Error::Invalid),
            Some(magnitude) => if magnitude <= 0x8000_0000 {
                Ok((0 - magnitude as i64) as i32)
            } else {
                Err(Error::Other)
            },
        }
    } else {
        match read_digits(bytes, value.start, value.end) {
            None => Err(Error::Invalid),
            Some(magnitude) => if magnitude <= 0x7fff_ffff {
                Ok(magnitude as i32)
            } else {
                Err(Error::Other)
            },
        }
    }
}

/// The byte between the domain, the bus and the device of an address.
pub const COLON: u8 = 0x3a;

/// The byte before the function of an address.
pub const DOT: u8 = 0x2e;

/// Whether a path starts at the root.
pub open spec fn is_absolute(path: Seq<u8>) -> bool {
    path.len() > 0 && path[0] == SEPARATOR
}

/// Whether a path is an address in its short form: bus, device and
/// function, as in `00:02.0`, without a domain before them.
pub open spec fn is_short_address(path: Seq<u8>) -> bool {
    path.len() == 7 && path[2] == COLON && path[5] == DOT
}

/// The directory that sysfs keeps for a device, given by an absolute path,
/// by its address or by its address in the short form.
pub open spec fn device_path_of(path: Seq<char>) -> Seq<char> {
    let bytes = encode_utf8(path);
    if is_absolute(bytes) {
        path
    } else if is_short_address(bytes) {
        "/sys/bus/pci/devices/0000:"@ + path
    } else {
        "/sys/bus/pci/devices/"@ + path
    }
}

/// Whether a text starts with the domain that an address has by default,
/// `0000:`.
pub open spec fn has_default_domain(name: Seq<u8>) -> bool {
    name.len() >= 5 && name[0] == 0x30 && name[1] == 0x30 && name[2] == 0x30 && name[3] == 0x30
        && name[4] == COLON
}

/// The address of the device with this directory: the last component of the
/// path, without the domain where it is the default one.
pub open spec fn address_of(path: Seq<u8>) -> Seq<u8> {
    let name = basename_spec(path);
    if has_default_domain(name) {
        name.skip(5)
    } else {
        name
    }
}

/// Returns the directory that sysfs keeps for a device. An absolute path is
/// taken as it is; an address is looked for under `/sys/bus/pci/devices/`,
/// and an address in the short form, such as `00:02.0`, gets the domain
/// `0000` before it.
pub fn device_path(path: &str) -> (full: String)
    ensures
        full@ == device_path_of(path@),
{
    let bytes = path.as_bytes();
    if bytes.len() > 0 && bytes[0] == SEPARATOR {
        path.to_owned()
    } else if bytes.len() == 7 && bytes[2] == COLON && bytes[5] == DOT {
        let mut full = String::from_str("/sys/bus/pci/devices/0000:");
        full.append(path);
        full
    } else {
        let mut full = String::from_str("/sys/bus/pci/devices/");
        full.append(path);
        full
    }
}

/// Returns the address of the device with this directory: the last
/// component of the path, without the domain `0000:` where it starts with
/// it.
pub fn device_address(path: &str) -> (address: String)
    ensures
        encode_utf8(address@) == address_of(path.spec_bytes()),
{
    let bytes = path.as_bytes();
    let start = find_basename(bytes);
    let end = bytes.len();
    proof {
        let name = basename_spec(bytes@);
        assert(name =~= bytes@.subrange(start as int, end as int));
        if name.len() >= 5 {
            assert(name[0] == bytes@[start as int]);
            assert(name[1] == bytes@[start + 1]);
            assert(name[2] == bytes@[start + 2]);
            assert(name[3] == bytes@[start + 3]);
            assert(name[4] == bytes@[start + 4]);
            assert(name.skip(5) =~= bytes@.subrange(start + 5, end as int));
        }
    }
    let from = if end - start >= 5 && bytes[start] == 0x30 && bytes[start + 1] == 0x30
        && bytes[start + 2] == 0x30 && bytes[start + 3] == 0x30 && bytes[start + 4] == COLON {
        start + 5
    } else {
        start
    };
    slice_str(path, Span { start: from, end }).to_owned()
}

} // verus!
