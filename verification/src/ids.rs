//! The line grammar of the `pci.ids` database.
//!
//! The database is a text of lines. A line's indentation gives its level: a
//! line without indentation names a vendor or, after the mark `C`, a class;
//! a line behind one tab names a device of the vendor above it or a subclass
//! of the class above it; a line behind two tabs names a subsystem of the
//! device above it or a programming interface of the subclass above it. So
//! what a line means depends on the lines before it. That dependency is the
//! [`Scope`], and reading a line is a step of a small state machine: from a
//! scope and a line to the entry that the line holds, if any, and to the
//! scope in which the next line is read.
//!
//! Blank lines, comments and lines that do not fit the grammar of their level
//! hold no entry and leave the scope as it is.

use vstd::prelude::*;
use crate::hex::{leading_byte, leading_word, parse_hex_byte, parse_hex_word};

verus! {

/// The byte that ends a line.
pub const NEWLINE: u8 = 0x0a;

/// The byte that indents a line by one level.
pub const TAB: u8 = 0x09;

/// The byte that starts a comment line.
pub const COMMENT_MARK: u8 = 0x23;

/// The byte that starts a class line.
pub const CLASS_MARK: u8 = 0x43;

/// Where in the hierarchy of the database a line is read: under which entry
/// the lines that are indented below it fall.
#[derive(Clone, Copy, Debug, PartialEq, Eq, Structural)]
pub enum Scope {
    /// Before the first entry.
    Seeking,
    /// Under the class with this code.
    Class(u8),
    /// Under a subclass, given by its class and its own code.
    Subclass(u8, u8),
    /// Under the vendor with this identifier.
    Vendor(u16),
    /// Under a device, given by its vendor and its own identifier.
    Device(u16, u16),
}

/// What an entry of the database names, with the entries above it in the
/// hierarchy.
#[derive(Clone, Copy, Debug, PartialEq, Eq, Structural)]
pub enum Key {
    /// A class.
    Class(u8),
    /// A subclass: class, subclass.
    Subclass(u8, u8),
    /// A programming interface: class, subclass, interface.
    ProgIf(u8, u8, u8),
    /// A vendor.
    Vendor(u16),
    /// A device: vendor, device.
    Device(u16, u16),
    /// A subsystem: vendor and device that it stands under, then its own
    /// vendor and device identifiers.
    Subsystem(u16, u16, u16, u16),
}

/// An entry of the database: a key and the name given to it.
pub struct Entry {
    pub key: Key,
    pub name: Seq<u8>,
}

/// A range of bytes in a text, from `start` up to but without `end`.
#[derive(Clone, Copy, Debug, PartialEq, Eq, Structural)]
pub struct Span {
    pub start: usize,
    pub end: usize,
}

/// An entry found in a text: its key, and where in the text its name stands.
#[derive(Clone, Copy, Debug, PartialEq, Eq, Structural)]
pub struct Found {
    pub key: Key,
    pub name: Span,
}

impl Key {
    /// The scope in which the lines after an entry with this key are read.
    /// An entry of the lowest level leaves the scope of its parent open.
    pub open spec fn spec_scope(self) -> Scope {
        match self {
            Key::Class(class) => Scope::Class(class),
            Key::Subclass(class, subclass) => Scope::Subclass(class, subclass),
            Key::ProgIf(class, subclass, _) => Scope::Subclass(class, subclass),
            Key::Vendor(vendor) => Scope::Vendor(vendor),
            Key::Device(vendor, device) => Scope::Device(vendor, device),
            Key::Subsystem(vendor, device, _, _) => Scope::Device(vendor, device),
        }
    }

    /// Returns the scope in which the lines after an entry with this key are
    /// read.
    pub fn scope(&self) -> (scope: Scope)
        ensures
            scope == self.spec_scope(),
    {
        match self {
            Key::Class(class) => Scope::Class(*class),
            Key::Subclass(class, subclass) => Scope::Subclass(*class, *subclass),
            Key::ProgIf(class, subclass, _) => Scope::Subclass(*class, *subclass),
            Key::Vendor(vendor) => Scope::Vendor(*vendor),
            Key::Device(vendor, device) => Scope::Device(*vendor, *device),
            Key::Subsystem(vendor, device, _, _) => Scope::Device(*vendor, *device),
        }
    }
}

impl Span {
    /// The bytes of `text` that the span covers.
    pub open spec fn of(self, text: Seq<u8>) -> Seq<u8> {
        text.subrange(self.start as int, self.end as int)
    }

    /// Whether the span lies in `text` and is set off from the bytes around
    /// it: directly before a span that is not empty and does not start the
    /// text, and directly after a span that does not end the text, stands an
    /// ASCII byte.
    pub open spec fn set_off_in(self, text: Seq<u8>) -> bool {
        &&& self.start <= self.end <= text.len()
        &&& 0 < self.start < self.end ==> text[self.start - 1] < 0x80
        &&& self.end < text.len() ==> text[self.end as int] < 0x80
    }
}

/// Whether a byte is ASCII white space: a blank, or one of the control
/// bytes from tab to carriage return.
pub open spec fn is_space(b: u8) -> bool {
    b == 0x20 || (0x09 <= b <= 0x0d)
}

/// `s` without the white space at its start.
pub open spec fn trim_start(s: Seq<u8>) -> Seq<u8>
    decreases s.len(),
{
    if s.len() > 0 && is_space(s[0]) {
        trim_start(s.skip(1))
    } else {
        s
    }
}

/// `s` without the white space at its end.
pub open spec fn trim_end(s: Seq<u8>) -> Seq<u8>
    decreases s.len(),
{
    if s.len() > 0 && is_space(s[s.len() - 1]) {
        trim_end(s.take(s.len() - 1))
    } else {
        s
    }
}

/// `s` without the white space at its start and at its end.
pub open spec fn trim(s: Seq<u8>) -> Seq<u8> {
    trim_end(trim_start(s))
}

/// The entry of a class line, of which `rest` is what follows the mark: the
/// code is the first token, two hex digits, and the name is the rest.
pub open spec fn class_line(rest: Seq<u8>) -> Option<Entry> {
    let body = trim_start(rest);
    match leading_byte(body) {
        Some(class) => Some(Entry { key: Key::Class(class), name: trim(body.skip(2)) }),
        None => None,
    }
}

/// The entry of a vendor line: four hex digits, then the name.
pub open spec fn vendor_line(line: Seq<u8>) -> Option<Entry> {
    match leading_word(line) {
        Some(vendor) => Some(Entry { key: Key::Vendor(vendor), name: trim(line.skip(4)) }),
        None => None,
    }
}

/// The entry of a subclass line under `class`, of which `body` is what
/// follows the tab: two hex digits, then the name.
pub open spec fn subclass_line(class: u8, body: Seq<u8>) -> Option<Entry> {
    match leading_byte(body) {
        Some(subclass) => Some(
            Entry { key: Key::Subclass(class, subclass), name: trim(body.skip(2)) },
        ),
        None => None,
    }
}

/// The entry of a device line under `vendor`, of which `body` is what
/// follows the tab: four hex digits, then the name.
pub open spec fn device_line(vendor: u16, body: Seq<u8>) -> Option<Entry> {
    match leading_word(body) {
        Some(device) => Some(Entry { key: Key::Device(vendor, device), name: trim(body.skip(4)) }),
        None => None,
    }
}

/// The entry of a line for a programming interface under a subclass, of
/// which `body` is what follows the two tabs: two hex digits, then the name.
pub open spec fn prog_if_line(class: u8, subclass: u8, body: Seq<u8>) -> Option<Entry> {
    match leading_byte(body) {
        Some(prog_if) => Some(
            Entry { key: Key::ProgIf(class, subclass, prog_if), name: trim(body.skip(2)) },
        ),
        None => None,
    }
}

/// The entry of a subsystem line under a device, of which `body` is what
/// follows the two tabs: the subsystem's vendor and device, four hex digits
/// each with white space between them, then the name.
pub open spec fn subsystem_line(vendor: u16, device: u16, body: Seq<u8>) -> Option<Entry> {
    match leading_word(body) {
        Some(subvendor) => {
            let rest = trim_start(body.skip(4));
            match leading_word(rest) {
                Some(subdevice) => Some(
                    Entry {
                        key: Key::Subsystem(vendor, device, subvendor, subdevice),
                        name: trim(rest.skip(4)),
                    },
                ),
                None => None,
            }
        },
        None => None,
    }
}

/// The entry of a line behind one tab, of which `body` is what follows the
/// tab. Under a class or one of its subclasses the line names a subclass,
/// under a vendor or one of its devices a device.
pub open spec fn child_line(scope: Scope, body: Seq<u8>) -> Option<Entry> {
    match scope {
        Scope::Seeking => None,
        Scope::Class(class) => subclass_line(class, body),
        Scope::Subclass(class, _) => subclass_line(class, body),
        Scope::Vendor(vendor) => device_line(vendor, body),
        Scope::Device(vendor, _) => device_line(vendor, body),
    }
}

/// The entry of a line behind two tabs, of which `body` is what follows the
/// tabs. Under a subclass the line names a programming interface, under a
/// device a subsystem; elsewhere it has no parent and holds no entry.
pub open spec fn grandchild_line(scope: Scope, body: Seq<u8>) -> Option<Entry> {
    match scope {
        Scope::Subclass(class, subclass) => prog_if_line(class, subclass, body),
        Scope::Device(vendor, device) => subsystem_line(vendor, device, body),
        _ => None,
    }
}

/// The entry that a line holds when it is read in `scope`, or `None` for a
/// line that is skipped: a blank line, a comment, or a line that does not
/// fit the grammar of its level.
pub open spec fn line_entry(scope: Scope, line: Seq<u8>) -> Option<Entry> {
    if line.len() == 0 || line[0] == COMMENT_MARK {
        None
    } else if line[0] == CLASS_MARK {
        class_line(line.skip(1))
    } else if line[0] == TAB {
        if line.len() >= 2 && line[1] == TAB {
            grandchild_line(scope, line.skip(2))
        } else {
            child_line(scope, line.skip(1))
        }
    } else {
        vendor_line(line)
    }
}

/// The scope in which the line after `line` is read. A line that is skipped
/// leaves the scope as it is.
pub open spec fn next_scope(scope: Scope, line: Seq<u8>) -> Scope {
    match line_entry(scope, line) {
        Some(entry) => entry.key.spec_scope(),
        None => scope,
    }
}

/// The entry that `found` stands for in `line`.
pub open spec fn found_entry(found: Option<Found>, line: Seq<u8>) -> Option<Entry> {
    match found {
        Some(f) => Some(Entry { key: f.key, name: f.name.of(line) }),
        None => None,
    }
}

/// Tests a byte for ASCII white space.
pub(crate) fn space(b: u8) -> (r: bool)
    ensures
        r == is_space(b),
{
    b == 0x20 || (0x09 <= b && b <= 0x0d)
}

/// Returns the position of the first byte at or after `from` that is no
/// white space, or the length of the text where only white space follows.
pub(crate) fn skip_spaces(text: &[u8], from: usize) -> (at: usize)
    requires
        from <= text.len(),
    ensures
        from <= at <= text.len(),
        text@.skip(at as int) == trim_start(text@.skip(from as int)),
        forall|i: int| from <= i < at ==> is_space(#[trigger] text@[i]),
        at < text.len() ==> !is_space(text@[at as int]),
{
    let mut at: usize = from;
    while at < text.len() && space(text[at])
        invariant
            from <= at <= text.len(),
            trim_start(text@.skip(at as int)) == trim_start(text@.skip(from as int)),
            forall|i: int| from <= i < at ==> is_space(#[trigger] text@[i]),
        decreases text.len() - at,
    {
        proof {
            assert(text@.skip(at as int).skip(1) =~= text@.skip(at + 1));
        }
        at = at + 1;
    }
    at
}

/// Returns the span of what follows `from` without the white space at its
/// start and at its end.
pub(crate) fn trim_span(text: &[u8], from: usize) -> (span: Span)
    requires
        from <= text.len(),
    ensures
        from <= span.start <= span.end <= text.len(),
        span.of(text@) == trim(text@.skip(from as int)),
        span.start > from ==> is_space(text@[span.start - 1]),
        span.end < text.len() ==> is_space(text@[span.end as int]),
{
    let start = skip_spaces(text, from);
    let mut end: usize = text.len();
    proof {
        assert(text@.skip(start as int) =~= text@.subrange(start as int, end as int));
    }
    while end > start && space(text[end - 1])
        invariant
            start <= end <= text.len(),
            trim_end(text@.subrange(start as int, end as int)) == trim(text@.skip(from as int)),
            end < text.len() ==> is_space(text@[end as int]),
        decreases end - start,
    {
        proof {
            let part = text@.subrange(start as int, end as int);
            assert(part.take(part.len() - 1) =~= text@.subrange(start as int, end - 1));
        }
        end = end - 1;
    }
    Span { start, end }
}

/// Reads one line in `scope`. Returns the entry that the line holds, with
/// its name as a span of the line, or `None` for a line that is skipped.
pub fn parse_line(scope: Scope, line: &[u8]) -> (found: Option<Found>)
    ensures
        found_entry(found, line@) == line_entry(scope, line@),
        found matches Some(f) ==> f.name.set_off_in(line@) && f.name.start > 0,
{
    if line.len() == 0 {
        return None;
    }
    let first = line[0];
    if first == COMMENT_MARK {
        None
    } else if first == CLASS_MARK {
        let at = skip_spaces(line, 1);
        match parse_hex_byte(line, at) {
            Some(class) => {
                let name = trim_span(line, at + 2);
                proof {
                    assert(line@.skip(at as int).skip(2) =~= line@.skip(at + 2));
                }
                Some(Found { key: Key::Class(class), name })
            },
            None => None,
        }
    } else if first == TAB {
        if line.len() >= 2 && line[1] == TAB {
            parse_grandchild(scope, line)
        } else {
            parse_child(scope, line)
        }
    } else {
        match parse_hex_word(line, 0) {
            Some(vendor) => {
                let name = trim_span(line, 4);
                proof {
                    assert(line@.skip(0) =~= line@);
                }
                Some(Found { key: Key::Vendor(vendor), name })
            },
            None => {
                proof {
                    assert(line@.skip(0) =~= line@);
                }
                None
            },
        }
    }
}

/// Reads a line behind one tab.
fn parse_child(scope: Scope, line: &[u8]) -> (found: Option<Found>)
    requires
        line.len() >= 1,
    ensures
        found_entry(found, line@) == child_line(scope, line@.skip(1)),
        found matches Some(f) ==> f.name.set_off_in(line@) && f.name.start > 0,
{
    match scope {
        Scope::Seeking => None,
        Scope::Class(class) => parse_subclass(class, line),
        Scope::Subclass(class, _) => parse_subclass(class, line),
        Scope::Vendor(vendor) => parse_device(vendor, line),
        Scope::Device(vendor, _) => parse_device(vendor, line),
    }
}

/// Reads a subclass line under `class`.
fn parse_subclass(class: u8, line: &[u8]) -> (found: Option<Found>)
    requires
        line.len() >= 1,
    ensures
        found_entry(found, line@) == subclass_line(class, line@.skip(1)),
        found matches Some(f) ==> f.name.set_off_in(line@) && f.name.start > 0,
{
    match parse_hex_byte(line, 1) {
        Some(subclass) => {
            let name = trim_span(line, 3);
            proof {
                assert(line@.skip(1).skip(2) =~= line@.skip(3));
            }
            Some(Found { key: Key::Subclass(class, subclass), name })
        },
        None => None,
    }
}

/// Reads a device line under `vendor`.
fn parse_device(vendor: u16, line: &[u8]) -> (found: Option<Found>)
    requires
        line.len() >= 1,
    ensures
        found_entry(found, line@) == device_line(vendor, line@.skip(1)),
        found matches Some(f) ==> f.name.set_off_in(line@) && f.name.start > 0,
{
    match parse_hex_word(line, 1) {
        Some(device) => {
            let name = trim_span(line, 5);
            proof {
                assert(line@.skip(1).skip(4) =~= line@.skip(5));
            }
            Some(Found { key: Key::Device(vendor, device), name })
        },
        None => None,
    }
}

/// Reads a line behind two tabs.
fn parse_grandchild(scope: Scope, line: &[u8]) -> (found: Option<Found>)
    requires
        line.len() >= 2,
    ensures
        found_entry(found, line@) == grandchild_line(scope, line@.skip(2)),
        found matches Some(f) ==> f.name.set_off_in(line@) && f.name.start > 0,
{
    match scope {
        Scope::Subclass(class, subclass) => {
            match parse_hex_byte(line, 2) {
                Some(prog_if) => {
                    let name = trim_span(line, 4);
                    proof {
                        assert(line@.skip(2).skip(2) =~= line@.skip(4));
                    }
                    Some(Found { key: Key::ProgIf(class, subclass, prog_if), name })
                },
                None => None,
            }
        },
        Scope::Device(vendor, device) => {
            let subvendor = match parse_hex_word(line, 2) {
                Some(v) => v,
                None => {
                    return None;
                },
            };
            let at = skip_spaces(line, 6);
            proof {
                assert(line@.skip(2).skip(4) =~= line@.skip(6));
            }
            let subdevice = match parse_hex_word(line, at) {
                Some(v) => v,
                None => {
                    return None;
                },
            };
            let name = trim_span(line, at + 4);
            proof {
                assert(line@.skip(at as int).skip(4) =~= line@.skip(at + 4));
            }
            Some(Found { key: Key::Subsystem(vendor, device, subvendor, subdevice), name })
        },
        _ => None,
    }
}

/// Reads one line in `scope` and returns the scope for the next line with
/// the entry that the line holds, if any. Feeding the lines of a database
/// through this function, one after the other and starting from
/// [`Scope::Seeking`], visits every entry of the database.
pub fn step(scope: Scope, line: &[u8]) -> (r: (Scope, Option<Found>))
    ensures
        r.0 == next_scope(scope, line@),
        found_entry(r.1, line@) == line_entry(scope, line@),
        r.1 matches Some(f) ==> f.name.set_off_in(line@) && f.name.start > 0,
{
    let found = parse_line(scope, line);
    match found {
        Some(f) => (f.key.scope(), found),
        None => (scope, found),
    }
}

} // verus!
