//! Names from the database, as strings.
//!
//! These functions take the text of the database and identifiers as they are
//! written, in hex digits, and return names as strings. A name that the
//! database does not hold is the empty string; so is the name for an
//! identifier that is not written as it should be. No lookup fails.

use vstd::prelude::*;
use vstd::string::StringSliceAdditionalSpecFns;
use vstd::utf8::decode_utf8;
use crate::hex::{hex_byte, hex_word, parse_hex_byte, parse_hex_word};
use crate::scan::{first_match, is_answer, lookup, resolve_many, split_lines, Query};
use crate::text::cut_string;

verus! {

/// The text of an optional name.
pub open spec fn text_of(name: Option<Seq<u8>>) -> Option<Seq<char>> {
    match name {
        Some(n) => Some(decode_utf8(n)),
        None => None,
    }
}

/// A name if there is one, the empty name otherwise.
pub open spec fn name_or_empty(name: Option<Seq<char>>) -> Seq<char> {
    match name {
        Some(n) => n,
        None => Seq::empty(),
    }
}

/// The answer of a database to a query, as text: the name of the first entry
/// that answers the query, or `None` where no entry does.
pub open spec fn found_name(db: Seq<u8>, query: Query) -> Option<Seq<char>> {
    text_of(first_match(split_lines(db), query))
}

/// The name that a database gives to what an optional query asks for: the
/// empty name where there is no query or no answer.
pub open spec fn name_for(db: Seq<u8>, query: Option<Query>) -> Seq<char> {
    match query {
        Some(q) => name_or_empty(found_name(db, q)),
        None => Seq::empty(),
    }
}

/// The view of an optional string.
pub open spec fn view_of(name: Option<String>) -> Option<Seq<char>> {
    match name {
        Some(n) => Some(n@),
        None => None,
    }
}

/// The query for a vendor, given by the four hex digits of its identifier.
pub open spec fn vendor_query(vendor_id: Seq<u8>) -> Option<Query> {
    match hex_word(vendor_id) {
        Some(vendor) => Some(Query::Vendor(vendor)),
        None => None,
    }
}

/// The query for a device under any vendor, given by the four hex digits of
/// its identifier.
pub open spec fn device_query(device_id: Seq<u8>) -> Option<Query> {
    match hex_word(device_id) {
        Some(device) => Some(Query::Device(device)),
        None => None,
    }
}

/// The query for a device of a vendor, both given by the four hex digits of
/// their identifiers.
pub open spec fn vendor_device_query(vendor_id: Seq<u8>, device_id: Seq<u8>) -> Option<Query> {
    match (hex_word(vendor_id), hex_word(device_id)) {
        (Some(vendor), Some(device)) => Some(Query::VendorDevice(vendor, device)),
        _ => None,
    }
}

/// The query for a subsystem under any device, given by the four hex digits
/// of each of its two identifiers.
pub open spec fn subsystem_query(subvendor_id: Seq<u8>, subdevice_id: Seq<u8>) -> Option<Query> {
    match (hex_word(subvendor_id), hex_word(subdevice_id)) {
        (Some(subvendor), Some(subdevice)) => Some(Query::Subsystem(subvendor, subdevice)),
        _ => None,
    }
}

/// Decodes an identifier of exactly two hex digits.
pub fn parse_byte(id: &str) -> (value: Option<u8>)
    ensures
        value == hex_byte(id.spec_bytes()),
{
    let bytes = id.as_bytes();
    if bytes.len() != 2 {
        return None;
    }
    proof {
        assert(bytes@.skip(0).take(2) =~= bytes@);
    }
    parse_hex_byte(bytes, 0)
}

/// Decodes an identifier of exactly four hex digits.
pub fn parse_word(id: &str) -> (value: Option<u16>)
    ensures
        value == hex_word(id.spec_bytes()),
{
    let bytes = id.as_bytes();
    if bytes.len() != 4 {
        return None;
    }
    proof {
        assert(bytes@.skip(0).take(4) =~= bytes@);
    }
    parse_hex_word(bytes, 0)
}

/// Looks a name up in the text of a database. Returns the name of the first
/// entry that answers the query, or `None` where no entry does.
pub fn find_name(db: &str, query: Query) -> (name: Option<String>)
    ensures
        view_of(name) == found_name(db.spec_bytes(), query),
{
    match lookup(db.as_bytes(), query) {
        Some(span) => Some(cut_string(db, span)),
        None => None,
    }
}

/// Looks a name up in the text of a database. Returns the name of the first
/// entry that answers the query, or the empty string where there is no
/// query or no entry answers it.
pub fn name_of(db: &str, query: Option<Query>) -> (name: String)
    ensures
        name@ == name_for(db.spec_bytes(), query),
{
    match query {
        Some(q) => match find_name(db, q) {
            Some(name) => name,
            None => String::new(),
        },
        None => String::new(),
    }
}

/// Looks several names up in one pass over the text of a database. The
/// result holds, for each query in its place, what [`name_of`] returns for
/// it.
pub fn resolve_names(db: &str, queries: &Vec<Option<Query>>) -> (names: Vec<String>)
    ensures
        names.len() == queries.len(),
        forall|i: int|
            0 <= i < queries.len() ==> (#[trigger] names[i])@ == name_for(
                db.spec_bytes(),
                queries[i],
            ),
{
    let mut asked: Vec<Query> = Vec::new();
    let mut i: usize = 0;
    while i < queries.len()
        invariant
            i <= queries.len(),
            asked.len() == i,
            forall|j: int|
                0 <= j < i ==> (queries[j] matches Some(q) ==> #[trigger] asked[j] == q),
        decreases queries.len() - i,
    {
        match queries[i] {
            Some(q) => asked.push(q),
            None => asked.push(Query::Class(0)),
        }
        i = i + 1;
    }
    let spans = resolve_many(db.as_bytes(), asked.as_slice());
    let mut names: Vec<String> = Vec::new();
    let mut k: usize = 0;
    while k < queries.len()
        invariant
            k <= queries.len(),
            names.len() == k,
            spans.len() == queries.len(),
            asked.len() == queries.len(),
            forall|j: int|
                0 <= j < queries.len() ==> (queries[j] matches Some(q) ==> #[trigger] asked[j]
                    == q),
            forall|j: int|
                0 <= j < queries.len() ==> is_answer(
                    db.spec_bytes(),
                    asked@[j],
                    #[trigger] spans[j],
                ),
            forall|j: int|
                0 <= j < k ==> (#[trigger] names[j])@ == name_for(db.spec_bytes(), queries[j]),
        decreases queries.len() - k,
    {
        let ghost before = names@;
        let name = match (queries[k], spans[k]) {
            (Some(_), Some(span)) => cut_string(db, span),
            _ => String::new(),
        };
        proof {
            assert(is_answer(db.spec_bytes(), asked@[k as int], spans[k as int]));
            assert(queries[k as int] matches Some(q) ==> asked[k as int] == q);
            assert(name@ == name_for(db.spec_bytes(), queries[k as int]));
        }
        names.push(name);
        proof {
            assert forall|j: int| 0 <= j < k + 1 implies (#[trigger] names[j])@ == name_for(
                db.spec_bytes(),
                queries[j],
            ) by {
                if j < k {
                    assert(names[j] == before[j]);
                }
            }
        }
        k = k + 1;
    }
    names
}

/// Resolves the identifier of a vendor, written as four hex digits, to the
/// name that the database gives it. Returns the empty string where the
/// database holds no such vendor.
pub fn vendor_name(db: &str, vendor_id: &str) -> (name: String)
    ensures
        name@ == name_for(db.spec_bytes(), vendor_query(vendor_id.spec_bytes())),
{
    match parse_word(vendor_id) {
        Some(vendor) => name_of(db, Some(Query::Vendor(vendor))),
        None => name_of(db, None),
    }
}

/// Resolves the identifier of a device, written as four hex digits, to the
/// name of the first device with that identifier, whichever vendor it stands
/// under. Returns the empty string where the database holds no such device.
pub fn device_name(db: &str, device_id: &str) -> (name: String)
    ensures
        name@ == name_for(db.spec_bytes(), device_query(device_id.spec_bytes())),
{
    match parse_word(device_id) {
        Some(device) => name_of(db, Some(Query::Device(device))),
        None => name_of(db, None),
    }
}

/// Resolves the identifier of a device to the name that the database gives
/// it under its vendor. Returns the empty string where the database holds no
/// such device under that vendor.
pub fn vendor_device_name(db: &str, vendor_id: &str, device_id: &str) -> (name: String)
    ensures
        name@ == name_for(
            db.spec_bytes(),
            vendor_device_query(vendor_id.spec_bytes(), device_id.spec_bytes()),
        ),
{
    match (parse_word(vendor_id), parse_word(device_id)) {
        (Some(vendor), Some(device)) => name_of(db, Some(Query::VendorDevice(vendor, device))),
        _ => name_of(db, None),
    }
}

/// Resolves the two identifiers of a subsystem, written as four hex digits
/// each, to the name of the first subsystem with those identifiers. Returns
/// the empty string where the database holds no such subsystem.
pub fn subsystem_name(db: &str, subvendor_id: &str, subdevice_id: &str) -> (name: String)
    ensures
        name@ == name_for(
            db.spec_bytes(),
            subsystem_query(subvendor_id.spec_bytes(), subdevice_id.spec_bytes()),
        ),
{
    match (parse_word(subvendor_id), parse_word(subdevice_id)) {
        (Some(subvendor), Some(subdevice)) => name_of(
            db,
            Some(Query::Subsystem(subvendor, subdevice)),
        ),
        _ => name_of(db, None),
    }
}

} // verus!
