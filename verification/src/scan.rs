//! Looking names up in the text of a `pci.ids` database.
//!
//! The text is read as its sequence of lines. Reading the lines in order,
//! each in the scope that the lines before it have left, gives every line
//! its entry ([`entry_at`]). A query is answered by the first entry that it
//! matches ([`first_match`]): the scan is one pass from the top of the text
//! and stops at the first hit.

use vstd::prelude::*;
use vstd::slice::slice_subrange;
use crate::hex::leading_word;
use crate::ids::{
    found_entry, line_entry, next_scope, parse_line, Entry, Found, Key, Scope, Span, CLASS_MARK,
    NEWLINE, TAB,
};

verus! {

/// What to look for in the database.
#[derive(Clone, Copy, Debug, PartialEq, Eq, Structural)]
pub enum Query {
    /// The class with this code.
    Class(u8),
    /// The subclass with this code, under the class: class, subclass.
    Subclass(u8, u8),
    /// The programming interface under the subclass: class, subclass,
    /// interface.
    ProgIf(u8, u8, u8),
    /// The vendor with this identifier.
    Vendor(u16),
    /// The first device with this identifier, whichever vendor it stands
    /// under.
    Device(u16),
    /// The device under the vendor: vendor, device.
    VendorDevice(u16, u16),
    /// The first subsystem with these identifiers of its own, whichever
    /// device it stands under: subsystem vendor, subsystem device.
    Subsystem(u16, u16),
    /// The subsystem under the device: vendor, device, subsystem vendor,
    /// subsystem device.
    DeviceSubsystem(u16, u16, u16, u16),
}

impl Query {
    /// Whether an entry with this key answers the query.
    pub open spec fn matches(self, key: Key) -> bool {
        match self {
            Query::Class(class) => key == Key::Class(class),
            Query::Subclass(class, subclass) => key == Key::Subclass(class, subclass),
            Query::ProgIf(class, subclass, prog_if) => key == Key::ProgIf(class, subclass, prog_if),
            Query::Vendor(vendor) => key == Key::Vendor(vendor),
            Query::Device(device) => key matches Key::Device(_, d) && d == device,
            Query::VendorDevice(vendor, device) => key == Key::Device(vendor, device),
            Query::Subsystem(subvendor, subdevice) => key matches Key::Subsystem(_, _, sv, sd)
                && sv == subvendor && sd == subdevice,
            Query::DeviceSubsystem(vendor, device, subvendor, subdevice) => key == Key::Subsystem(
                vendor,
                device,
                subvendor,
                subdevice,
            ),
        }
    }

    /// Tests whether an entry with this key answers the query.
    pub fn accepts(&self, key: &Key) -> (r: bool)
        ensures
            r == self.matches(*key),
    {
        match (self, key) {
            (Query::Class(class), Key::Class(c)) => *class == *c,
            (Query::Subclass(class, subclass), Key::Subclass(c, s)) => *class == *c && *subclass
                == *s,
            (Query::ProgIf(class, subclass, prog_if), Key::ProgIf(c, s, p)) => *class == *c
                && *subclass == *s && *prog_if == *p,
            (Query::Vendor(vendor), Key::Vendor(v)) => *vendor == *v,
            (Query::Device(device), Key::Device(_, d)) => *device == *d,
            (Query::VendorDevice(vendor, device), Key::Device(v, d)) => *vendor == *v && *device
                == *d,
            (Query::Subsystem(subvendor, subdevice), Key::Subsystem(_, _, sv, sd)) => *subvendor
                == *sv && *subdevice == *sd,
            (
                Query::DeviceSubsystem(vendor, device, subvendor, subdevice),
                Key::Subsystem(v, d, sv, sd),
            ) => *vendor == *v && *device == *d && *subvendor == *sv && *subdevice == *sd,
            _ => false,
        }
    }
}

/// The length of the first line of a text: the number of bytes before its
/// first newline, or all of them where it holds none.
pub open spec fn line_len(text: Seq<u8>) -> nat
    decreases text.len(),
{
    if text.len() == 0 || text[0] == NEWLINE {
        0
    } else {
        1 + line_len(text.skip(1))
    }
}

/// The lines of a text, each without the newline that ends it. A text that
/// ends in a newline has no empty line after it.
pub open spec fn split_lines(text: Seq<u8>) -> Seq<Seq<u8>>
    decreases text.len(),
{
    if text.len() == 0 {
        Seq::empty()
    } else {
        let n = line_len(text) as int;
        if n >= text.len() {
            seq![text]
        } else {
            seq![text.take(n)] + split_lines(text.skip(n + 1))
        }
    }
}

/// The scope in which line `i` is read: the one that the lines before it
/// have left, starting from [`Scope::Seeking`].
pub open spec fn scope_at(lines: Seq<Seq<u8>>, i: int) -> Scope
    decreases i,
{
    if i <= 0 {
        Scope::Seeking
    } else {
        next_scope(scope_at(lines, i - 1), lines[i - 1])
    }
}

/// The entry that line `i` holds, if it holds one.
pub open spec fn entry_at(lines: Seq<Seq<u8>>, i: int) -> Option<Entry> {
    line_entry(scope_at(lines, i), lines[i])
}

/// Whether line `i` holds an entry that answers the query.
pub open spec fn is_hit(lines: Seq<Seq<u8>>, query: Query, i: int) -> bool {
    &&& 0 <= i < lines.len()
    &&& entry_at(lines, i) matches Some(entry)
    &&& query.matches(entry.key)
}

/// The name of the first entry at or after line `i` that answers the query.
pub open spec fn first_match_from(lines: Seq<Seq<u8>>, query: Query, i: int) -> Option<Seq<u8>>
    decreases lines.len() - i,
{
    if i < 0 || i >= lines.len() {
        None
    } else if is_hit(lines, query, i) {
        Some(entry_at(lines, i)->0.name)
    } else {
        first_match_from(lines, query, i + 1)
    }
}

/// The answer to a query: the name of the first entry that answers it, or
/// `None` where no entry does.
pub open spec fn first_match(lines: Seq<Seq<u8>>, query: Query) -> Option<Seq<u8>> {
    first_match_from(lines, query, 0)
}

/// The bytes that an optional span covers in `text`.
pub open spec fn span_bytes(span: Option<Span>, text: Seq<u8>) -> Option<Seq<u8>> {
    match span {
        Some(s) => Some(s.of(text)),
        None => None,
    }
}

/// The answer to a query is the name on the first line that answers it: if
/// there is an answer, some line holds it and no line before that line
/// answers the query; if there is none, no line answers the query.
pub proof fn lemma_first_match(lines: Seq<Seq<u8>>, query: Query)
    ensures
        match first_match(lines, query) {
            Some(name) => exists|i: int|
                {
                    &&& #[trigger] is_hit(lines, query, i)
                    &&& entry_at(lines, i)->0.name == name
                    &&& forall|j: int| 0 <= j < i ==> !is_hit(lines, query, j)
                },
            None => forall|i: int| !is_hit(lines, query, i),
        },
{
    lemma_first_match_from(lines, query, 0);
}

/// The name found from line `from` on is that of the first line at or after
/// `from` that answers the query.
proof fn lemma_first_match_from(lines: Seq<Seq<u8>>, query: Query, from: int)
    requires
        0 <= from,
    ensures
        match first_match_from(lines, query, from) {
            Some(name) => exists|i: int|
                {
                    &&& from <= i
                    &&& #[trigger] is_hit(lines, query, i)
                    &&& entry_at(lines, i)->0.name == name
                    &&& forall|j: int| from <= j < i ==> !is_hit(lines, query, j)
                },
            None => forall|i: int| from <= i ==> !is_hit(lines, query, i),
        },
    decreases lines.len() - from,
{
    if from >= lines.len() {
    } else if is_hit(lines, query, from) {
    } else {
        lemma_first_match_from(lines, query, from + 1);
        match first_match_from(lines, query, from + 1) {
            Some(name) => {
                let i = choose|i: int|
                    {
                        &&& from + 1 <= i
                        &&& #[trigger] is_hit(lines, query, i)
                        &&& entry_at(lines, i)->0.name == name
                        &&& forall|j: int| from + 1 <= j < i ==> !is_hit(lines, query, j)
                    };
                assert(forall|j: int| from <= j < i ==> !is_hit(lines, query, j));
            },
            None => {
                assert(forall|i: int| from <= i ==> !is_hit(lines, query, i));
            },
        }
    }
}

/// Returns the position at which the line that starts at `from` ends: that
/// of the next newline, or the length of the text where none follows.
pub(crate) fn line_end(text: &[u8], from: usize) -> (end: usize)
    requires
        from <= text.len(),
    ensures
        from <= end <= text.len(),
        end - from == line_len(text@.skip(from as int)),
        end < text.len() ==> text@[end as int] == NEWLINE,
{
    let mut end: usize = from;
    while end < text.len() && text[end] != NEWLINE
        invariant
            from <= end <= text.len(),
            line_len(text@.skip(from as int)) == (end - from) + line_len(text@.skip(end as int)),
        decreases text.len() - end,
    {
        proof {
            assert(text@.skip(end as int).skip(1) =~= text@.skip(end + 1));
        }
        end = end + 1;
    }
    end
}

/// What a scan has read so far: line `index` of the lines of `text` starts
/// at byte `pos`.
pub open spec fn at_line(text: Seq<u8>, pos: int, index: int) -> bool {
    &&& 0 <= pos <= text.len()
    &&& 0 <= index <= split_lines(text).len()
    &&& split_lines(text).skip(index) == split_lines(text.skip(pos))
}

/// Reading the line that starts at `pos` moves a scan to the next line.
proof fn lemma_next_line(text: Seq<u8>, pos: int, index: int, end: int)
    requires
        at_line(text, pos, index),
        pos < text.len(),
        end - pos == line_len(text.skip(pos)),
        pos <= end <= text.len(),
    ensures
        index < split_lines(text).len(),
        split_lines(text)[index] == text.subrange(pos, end),
        at_line(text, if end < text.len() { end + 1 } else { end }, index + 1),
{
    let lines = split_lines(text);
    let rest = text.skip(pos);
    let n = end - pos;
    let tail = lines.skip(index);
    assert(rest.len() == text.len() - pos);
    if n >= rest.len() {
        assert(tail == seq![rest]);
        assert(tail.len() == 1);
        assert(tail[0] == rest);
        assert(rest =~= text.subrange(pos, end));
        assert(text.skip(end).len() == 0);
        assert(split_lines(text.skip(end)) =~= Seq::<Seq<u8>>::empty());
        assert(lines.skip(index + 1) =~= tail.skip(1));
        assert(lines.skip(index + 1) =~= split_lines(text.skip(end)));
    } else {
        let more = split_lines(rest.skip(n + 1));
        assert(tail == seq![rest.take(n)] + more);
        assert(tail.len() == 1 + more.len());
        assert(tail[0] == rest.take(n));
        assert(rest.take(n) =~= text.subrange(pos, end));
        assert(rest.skip(n + 1) =~= text.skip(end + 1));
        assert(tail.skip(1) =~= more);
        assert(lines.skip(index + 1) =~= tail.skip(1));
        assert(lines.skip(index + 1) == split_lines(text.skip(end + 1)));
    }
}

/// Whether `name` is the answer to the query in the text of a database: the
/// span of the name of the first entry that answers the query, or `None`
/// where no entry does. The span is set off from the text around it, so that
/// it never splits a character of a text in UTF-8.
pub open spec fn is_answer(db: Seq<u8>, query: Query, name: Option<Span>) -> bool {
    &&& span_bytes(name, db) == first_match(split_lines(db), query)
    &&& name matches Some(span) ==> span.set_off_in(db)
}

/// What a scan that has read the lines before line `index` knows of one
/// query: either the span of its answer, or that no line read so far answers
/// it.
pub open spec fn answered_before(
    db: Seq<u8>,
    query: Query,
    name: Option<Span>,
    index: int,
) -> bool {
    let lines = split_lines(db);
    match name {
        Some(span) => span.set_off_in(db) && Some(span.of(db)) == first_match(lines, query),
        None => first_match(lines, query) == first_match_from(lines, query, index),
    }
}

/// A scan that has found nothing in the lines before a hit has its answer.
proof fn lemma_hit(db: Seq<u8>, query: Query, index: int, found: Found)
    requires
        answered_before(db, query, None, index),
        0 <= index < split_lines(db).len(),
        found_entry(Some(found), db) == entry_at(split_lines(db), index),
        found.name.set_off_in(db),
        query.matches(found.key),
    ensures
        is_answer(db, query, Some(found.name)),
        answered_before(db, query, Some(found.name), index + 1),
{
    assert(is_hit(split_lines(db), query, index));
}

/// A scan that has found nothing in the lines before a line that is no hit
/// has found nothing in the lines up to it.
proof fn lemma_miss(db: Seq<u8>, query: Query, name: Option<Span>, index: int)
    requires
        answered_before(db, query, name, index),
        0 <= index < split_lines(db).len(),
        !is_hit(split_lines(db), query, index),
    ensures
        answered_before(db, query, name, index + 1),
{
}

/// A scan that has read every line knows the answer.
proof fn lemma_end(db: Seq<u8>, query: Query, name: Option<Span>, index: int)
    requires
        answered_before(db, query, name, index),
        index >= split_lines(db).len(),
    ensures
        is_answer(db, query, name),
{
}

/// Reads the line of the database that starts at `pos`, in the scope that
/// the lines before it have left. Returns the position at which the next line
/// starts and the entry that the line holds, with its name as a span of the
/// database.
fn read_line(db: &[u8], pos: usize, scope: Scope, Ghost(index): Ghost<int>) -> (r: (
    usize,
    Option<Found>,
))
    requires
        at_line(db@, pos as int, index),
        pos < db.len(),
        scope == scope_at(split_lines(db@), index),
    ensures
        pos < r.0 <= db.len(),
        index < split_lines(db@).len(),
        at_line(db@, r.0 as int, index + 1),
        found_entry(r.1, db@) == entry_at(split_lines(db@), index),
        r.1 matches Some(found) ==> found.name.set_off_in(db@),
{
    let end = line_end(db, pos);
    let line = slice_subrange(db, pos, end);
    proof {
        lemma_next_line(db@, pos as int, index, end as int);
    }
    let next = if end < db.len() {
        end + 1
    } else {
        end
    };
    match parse_line(scope, line) {
        Some(found) => {
            let name = Span { start: pos + found.name.start, end: pos + found.name.end };
            proof {
                assert(found.name.of(line@) =~= name.of(db@));
            }
            (next, Some(Found { key: found.key, name }))
        },
        None => (next, None),
    }
}

/// Looks a name up in the text of a database. Returns the span of the name
/// of the first entry that answers the query, or `None` where the text holds
/// no such entry. The scan stops at the first hit.
pub fn lookup(db: &[u8], query: Query) -> (name: Option<Span>)
    ensures
        is_answer(db@, query, name),
{
    let ghost mut index: int = 0;
    let mut scope = Scope::Seeking;
    let mut pos: usize = 0;
    proof {
        assert(db@.skip(0) =~= db@);
        assert(split_lines(db@).skip(0) =~= split_lines(db@));
    }
    while pos < db.len()
        invariant
            at_line(db@, pos as int, index),
            scope == scope_at(split_lines(db@), index),
            answered_before(db@, query, None, index),
        decreases db.len() - pos,
    {
        let (next, entry) = read_line(db, pos, scope, Ghost(index));
        match entry {
            Some(found) => {
                if query.accepts(&found.key) {
                    proof {
                        lemma_hit(db@, query, index, found);
                    }
                    return Some(found.name);
                }
                scope = found.key.scope();
            },
            None => {},
        }
        proof {
            lemma_miss(db@, query, None, index);
            index = index + 1;
        }
        pos = next;
    }
    proof {
        assert(db@.skip(pos as int).len() == 0);
        assert(split_lines(db@).skip(index).len() == 0);
        lemma_end(db@, query, None, index);
    }
    None
}

/// Looks several names up in one pass over the text of a database. The
/// result holds, for each query in its place, what [`lookup`] returns for it.
/// The scan stops as soon as every query has its answer.
pub fn resolve_many(db: &[u8], queries: &[Query]) -> (names: Vec<Option<Span>>)
    ensures
        names.len() == queries.len(),
        forall|i: int| 0 <= i < queries.len() ==> is_answer(db@, queries[i], #[trigger] names[i]),
{
    let mut names: Vec<Option<Span>> = Vec::new();
    while names.len() < queries.len()
        invariant
            names.len() <= queries.len(),
            forall|i: int| 0 <= i < names.len() ==> #[trigger] names[i] is None,
        decreases queries.len() - names.len(),
    {
        names.push(None);
    }
    let ghost mut index: int = 0;
    let mut scope = Scope::Seeking;
    let mut pos: usize = 0;
    proof {
        assert(db@.skip(0) =~= db@);
        assert(split_lines(db@).skip(0) =~= split_lines(db@));
    }
    while pos < db.len()
        invariant
            at_line(db@, pos as int, index),
            scope == scope_at(split_lines(db@), index),
            names.len() == queries.len(),
            forall|i: int|
                0 <= i < queries.len() ==> answered_before(
                    db@,
                    queries[i],
                    #[trigger] names[i],
                    index,
                ),
        decreases db.len() - pos,
    {
        let (next, entry) = read_line(db, pos, scope, Ghost(index));
        match entry {
            Some(found) => {
                let complete = note_entry(db, queries, &mut names, found, Ghost(index));
                if complete {
                    proof {
                        assert forall|i: int| 0 <= i < queries.len() implies is_answer(
                            db@,
                            queries[i],
                            #[trigger] names[i],
                        ) by {
                            assert(names[i] is Some);
                        }
                    }
                    return names;
                }
                scope = found.key.scope();
            },
            None => {
                assert forall|i: int| 0 <= i < queries.len() implies answered_before(
                    db@,
                    queries[i],
                    #[trigger] names[i],
                    index + 1,
                ) by {
                    lemma_miss(db@, queries[i], names[i], index);
                }
            },
        }
        proof {
            index = index + 1;
        }
        pos = next;
    }
    proof {
        assert(db@.skip(pos as int).len() == 0);
        assert(split_lines(db@).skip(index).len() == 0);
        assert forall|i: int| 0 <= i < queries.len() implies is_answer(
            db@,
            queries[i],
            #[trigger] names[i],
        ) by {
            lemma_end(db@, queries[i], names[i], index);
        }
    }
    names
}

/// Gives the entry found on line `index` to every query that is still open
/// and that it answers. Returns whether every query has its answer then.
fn note_entry(
    db: &[u8],
    queries: &[Query],
    names: &mut Vec<Option<Span>>,
    found: Found,
    Ghost(index): Ghost<int>,
) -> (complete: bool)
    requires
        old(names).len() == queries.len(),
        0 <= index < split_lines(db@).len(),
        found_entry(Some(found), db@) == entry_at(split_lines(db@), index),
        found.name.set_off_in(db@),
        forall|i: int|
            0 <= i < queries.len() ==> answered_before(
                db@,
                queries[i],
                #[trigger] old(names)[i],
                index,
            ),
    ensures
        final(names).len() == queries.len(),
        forall|i: int|
            0 <= i < queries.len() ==> answered_before(
                db@,
                queries[i],
                #[trigger] final(names)[i],
                index + 1,
            ),
        complete ==> forall|i: int| 0 <= i < queries.len() ==> #[trigger] final(names)[i] is Some,
{
    let mut complete = true;
    let mut k: usize = 0;
    while k < queries.len()
        invariant
            k <= queries.len(),
            names.len() == queries.len(),
            0 <= index < split_lines(db@).len(),
            found_entry(Some(found), db@) == entry_at(split_lines(db@), index),
            found.name.set_off_in(db@),
            forall|i: int|
                0 <= i < k ==> answered_before(db@, queries[i], #[trigger] names[i], index + 1),
            forall|i: int|
                k <= i < queries.len() ==> answered_before(
                    db@,
                    queries[i],
                    #[trigger] names[i],
                    index,
                ),
            complete ==> forall|i: int| 0 <= i < k ==> #[trigger] names[i] is Some,
        decreases queries.len() - k,
    {
        if names[k].is_none() {
            if queries[k].accepts(&found.key) {
                proof {
                    lemma_hit(db@, queries[k as int], index, found);
                }
                names.set(k, Some(found.name));
            } else {
                proof {
                    lemma_miss(db@, queries[k as int], None, index);
                }
                complete = false;
            }
        }
        k = k + 1;
    }
    complete
}

/// A line that is skipped where it stands leaves the scopes of the other
/// lines as they are: of those before it, and of those after it, which move
/// down by one.
proof fn lemma_skipped_line_scopes(lines: Seq<Seq<u8>>, at: int, line: Seq<u8>, i: int)
    requires
        0 <= at <= lines.len(),
        line_entry(scope_at(lines, at), line) is None,
        0 <= i <= lines.len(),
    ensures
        i <= at ==> scope_at(lines.insert(at, line), i) == scope_at(lines, i),
        i >= at ==> scope_at(lines.insert(at, line), i + 1) == scope_at(lines, i),
    decreases i,
{
    let more = lines.insert(at, line);
    assert(more[at] == line);
    if i > 0 {
        lemma_skipped_line_scopes(lines, at, line, i - 1);
        if i <= at {
            assert(more[i - 1] == lines[i - 1]);
        } else {
            assert(more[i] == lines[i - 1]);
        }
    }
}

/// A line that is skipped where it stands leaves the hits of a query as they
/// are, but for their place.
proof fn lemma_skipped_line_hits(
    lines: Seq<Seq<u8>>,
    at: int,
    line: Seq<u8>,
    query: Query,
    i: int,
)
    requires
        0 <= at <= lines.len(),
        line_entry(scope_at(lines, at), line) is None,
        0 <= i < lines.len(),
    ensures
        !is_hit(lines.insert(at, line), query, at),
        i < at ==> entry_at(lines.insert(at, line), i) == entry_at(lines, i),
        i >= at ==> entry_at(lines.insert(at, line), i + 1) == entry_at(lines, i),
{
    let more = lines.insert(at, line);
    assert(more[at] == line);
    lemma_skipped_line_scopes(lines, at, line, at);
    lemma_skipped_line_scopes(lines, at, line, i);
    if i < at {
        assert(more[i] == lines[i]);
    } else {
        assert(more[i + 1] == lines[i]);
    }
}

/// A line that is skipped where it stands leaves what is found from any line
/// on as it is.
proof fn lemma_skipped_line_from(
    lines: Seq<Seq<u8>>,
    at: int,
    line: Seq<u8>,
    query: Query,
    i: int,
)
    requires
        0 <= at <= lines.len(),
        line_entry(scope_at(lines, at), line) is None,
        0 <= i <= lines.len(),
    ensures
        i <= at ==> first_match_from(lines.insert(at, line), query, i) == first_match_from(
            lines,
            query,
            i,
        ),
        i >= at ==> first_match_from(lines.insert(at, line), query, i + 1) == first_match_from(
            lines,
            query,
            i,
        ),
    decreases lines.len() - i,
{
    let more = lines.insert(at, line);
    assert(more.len() == lines.len() + 1);
    if i < lines.len() {
        lemma_skipped_line_from(lines, at, line, query, i + 1);
        lemma_skipped_line_hits(lines, at, line, query, i);
    }
    if i == at {
        if at < lines.len() {
            lemma_skipped_line_hits(lines, at, line, query, at);
        } else {
            lemma_skipped_line_scopes(lines, at, line, at);
            assert(more[at] == line);
        }
        assert(!is_hit(more, query, at));
    }
}

/// A line that holds no entry does not disturb a scan. Put such a line
/// anywhere into a database, be it blank, a comment or a line that does not
/// fit the grammar of its level in the scope in which it comes to stand: every
/// query has the answer that it had without the line.
pub proof fn lemma_skipped_line_changes_no_answer(
    lines: Seq<Seq<u8>>,
    at: int,
    line: Seq<u8>,
    query: Query,
)
    requires
        0 <= at <= lines.len(),
        line_entry(scope_at(lines, at), line) is None,
    ensures
        first_match(lines.insert(at, line), query) == first_match(lines, query),
{
    lemma_skipped_line_from(lines, at, line, query, 0);
}

/// A database without text answers no query: whoever could not read the
/// database and scans the empty text instead finds no name.
pub proof fn lemma_empty_database(query: Query)
    ensures
        first_match(split_lines(Seq::empty()), query) is None,
{
}

/// The first line of a text ends at its first newline, and nowhere else.
proof fn lemma_line_len(text: Seq<u8>, end: int)
    ensures
        line_len(text) <= text.len(),
        forall|i: int| 0 <= i < line_len(text) ==> #[trigger] text[i] != NEWLINE,
        line_len(text) < text.len() ==> text[line_len(text) as int] == NEWLINE,
        ({
            &&& 0 <= end <= text.len()
            &&& forall|i: int| 0 <= i < end ==> #[trigger] text[i] != NEWLINE
            &&& end < text.len() ==> text[end] == NEWLINE
        }) ==> end == line_len(text),
    decreases text.len(),
{
    if text.len() == 0 || text[0] == NEWLINE {
    } else {
        let rest = text.skip(1);
        lemma_line_len(rest, end - 1);
        assert forall|i: int| 0 <= i < line_len(text) implies #[trigger] text[i] != NEWLINE by {
            if i > 0 {
                assert(text[i] == rest[i - 1]);
            }
        }
        if 0 <= end <= text.len() && (forall|i: int| 0 <= i < end ==> #[trigger] text[i] != NEWLINE)
            && (end < text.len() ==> text[end] == NEWLINE) {
            assert(end > 0);
            assert forall|i: int| 0 <= i < end - 1 implies #[trigger] rest[i] != NEWLINE by {
                assert(rest[i] == text[i + 1]);
            }
        }
    }
}

/// The lines of two texts put together are the lines of the first and then
/// those of the second, where the first is empty or ends with a newline.
pub proof fn lemma_split_lines_concat(first: Seq<u8>, second: Seq<u8>)
    requires
        first.len() == 0 || first.last() == NEWLINE,
    ensures
        split_lines(first + second) == split_lines(first) + split_lines(second),
    decreases first.len(),
{
    let whole = first + second;
    if first.len() == 0 {
        assert(whole =~= second);
        assert(split_lines(first) + split_lines(second) =~= split_lines(second));
    } else {
        let n = line_len(first) as int;
        lemma_line_len(first, first.len() - 1);
        assert(n < first.len()) by {
            if n >= first.len() {
                assert(first[first.len() - 1] != NEWLINE);
            }
        }
        assert(line_len(whole) == n) by {
            assert forall|i: int| 0 <= i < n implies #[trigger] whole[i] != NEWLINE by {
                assert(whole[i] == first[i]);
            }
            assert(whole[n] == first[n]);
            lemma_line_len(whole, n);
        }
        let rest = first.skip(n + 1);
        assert(whole.take(n) =~= first.take(n));
        assert(whole.skip(n + 1) =~= rest + second);
        assert(rest.len() == 0 || rest.last() == NEWLINE) by {
            if rest.len() > 0 {
                assert(rest.last() == first.last());
            }
        }
        lemma_split_lines_concat(rest, second);
        assert(split_lines(whole) =~= split_lines(first) + split_lines(second));
    }
}

/// A line with its newline is a text of that one line.
pub proof fn lemma_split_single_line(line: Seq<u8>)
    requires
        forall|i: int| 0 <= i < line.len() ==> #[trigger] line[i] != NEWLINE,
    ensures
        split_lines(line.push(NEWLINE)) == seq![line],
{
    let text = line.push(NEWLINE);
    assert forall|i: int| 0 <= i < line.len() implies #[trigger] text[i] != NEWLINE by {
        assert(text[i] == line[i]);
    }
    assert(text[line.len() as int] == NEWLINE);
    lemma_line_len(text, line.len() as int);
    assert(text.take(line.len() as int) =~= line);
    assert(text.skip(line.len() as int + 1).len() == 0);
    assert(split_lines(text.skip(line.len() as int + 1)) =~= Seq::<Seq<u8>>::empty());
    assert(split_lines(text) =~= seq![line]);
}

/// A malformed line does not disturb the scan of a text. Put a line that
/// holds no entry in any scope between two lines of a database, or before its
/// first or after its last: every query has the answer that it had without
/// the line.
pub proof fn lemma_skipped_line_in_text(
    before: Seq<u8>,
    line: Seq<u8>,
    after: Seq<u8>,
    query: Query,
)
    requires
        before.len() == 0 || before.last() == NEWLINE,
        forall|i: int| 0 <= i < line.len() ==> #[trigger] line[i] != NEWLINE,
        forall|scope: Scope| #[trigger] line_entry(scope, line) is None,
    ensures
        first_match(split_lines(before + line.push(NEWLINE) + after), query) == first_match(
            split_lines(before + after),
            query,
        ),
{
    let head = split_lines(before);
    let tail = split_lines(after);
    let lines = split_lines(before + after);
    let text = before + line.push(NEWLINE) + after;
    lemma_split_lines_concat(before, after);
    lemma_split_lines_concat(before, line.push(NEWLINE) + after);
    lemma_split_lines_concat(line.push(NEWLINE), after);
    lemma_split_single_line(line);
    assert(text =~= before + (line.push(NEWLINE) + after));
    assert(split_lines(text) =~= lines.insert(head.len() as int, line));
    assert(line_entry(scope_at(lines, head.len() as int), line) is None);
    lemma_skipped_line_changes_no_answer(lines, head.len() as int, line, query);
}

/// A line without indentation that is no comment and no class line, and that
/// does not start with four hex digits, holds no entry in any scope: it is
/// skipped wherever it stands.
pub proof fn lemma_short_identifier_is_skipped(line: Seq<u8>)
    requires
        line.len() > 0,
        line[0] != CLASS_MARK,
        line[0] != TAB,
        leading_word(line) is None,
    ensures
        forall|scope: Scope| #[trigger] line_entry(scope, line) is None,
{
}

/// A line behind one tab that does not go on with four hex digits holds no
/// device: under a vendor or one of its devices it is skipped.
pub proof fn lemma_short_device_is_skipped(line: Seq<u8>, vendor: u16, device: u16)
    requires
        line.len() > 0,
        line[0] == TAB,
        line.len() < 2 || line[1] != TAB,
        leading_word(line.skip(1)) is None,
    ensures
        line_entry(Scope::Vendor(vendor), line) is None,
        line_entry(Scope::Device(vendor, device), line) is None,
{
}

} // verus!
