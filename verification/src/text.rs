//! Cutting strings at byte positions.
//!
//! The database and the attributes of a device are scanned as bytes, while
//! names are handed out as strings. A string is cut at a byte position only
//! where no character is split; after an ASCII byte that is always so.

use vstd::prelude::*;
use vstd::utf8::{
    decode_utf8, encode_utf8, encode_utf8_decode_utf8, encode_utf8_valid_utf8, is_char_boundary,
    is_char_boundary_iff_not_is_continuation_byte, is_char_boundary_start_end_of_seq,
    is_continuation_byte, pop_first_scalar, valid_first_scalar, valid_utf8, valid_utf8_split,
};
use vstd::string::StringSliceAdditionalSpecFns;
use crate::ids::Span;

verus! {

/// In a text in UTF-8, a character starts after every ASCII byte.
pub proof fn lemma_boundary_after_ascii(bytes: Seq<u8>, i: int)
    requires
        valid_utf8(bytes),
        0 <= i < bytes.len(),
        bytes[i] < 0x80,
    ensures
        is_char_boundary(bytes, i + 1),
{
    is_char_boundary_iff_not_is_continuation_byte(bytes, i);
    if i + 1 == bytes.len() {
        is_char_boundary_start_end_of_seq(bytes);
    } else {
        valid_utf8_split(bytes, i);
        let from_i = bytes.subrange(i, bytes.len() as int);
        assert(from_i[0] == bytes[i]);
        assert(valid_first_scalar(from_i));
        let after = pop_first_scalar(from_i);
        assert(after =~= bytes.subrange(i + 1, bytes.len() as int));
        assert(valid_utf8(after));
        assert(valid_first_scalar(after));
        assert(after[0] == bytes[i + 1]);
        assert(!is_continuation_byte(bytes[i + 1]));
        is_char_boundary_iff_not_is_continuation_byte(bytes, i + 1);
    }
}

/// In a text in UTF-8, a character starts at every ASCII byte.
pub proof fn lemma_boundary_at_ascii(bytes: Seq<u8>, i: int)
    requires
        valid_utf8(bytes),
        0 <= i <= bytes.len(),
        i < bytes.len() ==> bytes[i] < 0x80,
    ensures
        is_char_boundary(bytes, i),
{
    if i == bytes.len() {
        is_char_boundary_start_end_of_seq(bytes);
    } else {
        is_char_boundary_iff_not_is_continuation_byte(bytes, i);
    }
}

/// A span that is set off in a text in UTF-8 splits no character.
pub proof fn lemma_span_boundaries(bytes: Seq<u8>, span: Span)
    requires
        valid_utf8(bytes),
        span.set_off_in(bytes),
    ensures
        is_char_boundary(bytes, span.start as int),
        is_char_boundary(bytes, span.end as int),
{
    lemma_boundary_at_ascii(bytes, span.end as int);
    if 0 < span.start < span.end {
        lemma_boundary_after_ascii(bytes, span.start - 1);
    }
}

/// Returns the part of `text` that the span covers.
pub(crate) fn slice_str<'a>(text: &'a str, span: Span) -> (part: &'a str)
    requires
        span.set_off_in(text.spec_bytes()),
    ensures
        part.spec_bytes() == span.of(text.spec_bytes()),
{
    proof {
        encode_utf8_valid_utf8(text@);
        lemma_span_boundaries(text.spec_bytes(), span);
    }
    let (head, _) = text.split_at(span.end);
    proof {
        let bytes = text.spec_bytes();
        let cut = bytes.subrange(0, span.end as int);
        assert(head.spec_bytes() == cut);
        encode_utf8_valid_utf8(head@);
        if 0 < span.start < span.end {
            assert(cut[span.start - 1] == bytes[span.start - 1]);
            lemma_boundary_after_ascii(cut, span.start - 1);
        } else {
            is_char_boundary_start_end_of_seq(cut);
        }
    }
    let (_, part) = head.split_at(span.start);
    proof {
        assert(part.spec_bytes() =~= span.of(text.spec_bytes()));
    }
    part
}

/// Returns the part of `text` that the span covers, as a string of its own.
pub(crate) fn cut_string(text: &str, span: Span) -> (part: String)
    requires
        span.set_off_in(text.spec_bytes()),
    ensures
        part@ == decode_utf8(span.of(text.spec_bytes())),
        encode_utf8(part@) == span.of(text.spec_bytes()),
{
    let part = slice_str(text, span).to_owned();
    proof {
        encode_utf8_decode_utf8(part@);
    }
    part
}

} // verus!
