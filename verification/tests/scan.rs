use aparato::hex::{hex_digit, parse_hex_byte, parse_hex_word};
use aparato::ids::{parse_line, step, Found, Key, Scope, Span};
use aparato::scan::{lookup, resolve_many, Query};

const DB: &[u8] = b"# vendors\n\n8086  Intel Corporation\n\t1234  Test Device\n\t\t8086 5678  Test Subsystem\n\t1235  Other Device\n10de  NVIDIA Corporation\n\t1234  Card\nC 01  Mass storage controller\n\t06  SATA controller\n\t\t01  AHCI 1.0\nC 03  Display controller\n\t00  VGA compatible controller\n";

fn name(db: &[u8], query: Query) -> Option<&[u8]> {
    lookup(db, query).map(|span| &db[span.start..span.end])
}

#[test]
fn hex_digits_decode() {
    assert_eq!(hex_digit(b'0'), Some(0));
    assert_eq!(hex_digit(b'9'), Some(9));
    assert_eq!(hex_digit(b'a'), Some(10));
    assert_eq!(hex_digit(b'f'), Some(15));
    assert_eq!(hex_digit(b'A'), Some(10));
    assert_eq!(hex_digit(b'F'), Some(15));
    assert_eq!(hex_digit(b'g'), None);
    assert_eq!(hex_digit(b'/'), None);
    assert_eq!(hex_digit(b':'), None);
    assert_eq!(hex_digit(b'@'), None);
    assert_eq!(hex_digit(b'`'), None);
}

#[test]
fn hex_fields_decode() {
    assert_eq!(parse_hex_byte(b"xx7f", 2), Some(0x7f));
    assert_eq!(parse_hex_byte(b"7f", 0), Some(0x7f));
    assert_eq!(parse_hex_byte(b"7", 0), None);
    assert_eq!(parse_hex_byte(b"7f", 1), None);
    assert_eq!(parse_hex_byte(b"7f", 2), None);
    assert_eq!(parse_hex_byte(b"7f", 3), None);
    assert_eq!(parse_hex_byte(b"7f", usize::MAX), None);
    assert_eq!(parse_hex_word(b"1af4", 5), None);
    assert_eq!(parse_hex_word(b"1af4", 1), None);
    assert_eq!(parse_hex_byte(b"7g", 0), None);
    assert_eq!(parse_hex_word(b"1af4", 0), Some(0x1af4));
    assert_eq!(parse_hex_word(b"\t1AF4  x", 1), Some(0x1af4));
    assert_eq!(parse_hex_word(b"1af", 0), None);
    assert_eq!(parse_hex_word(b"1a 4", 0), None);
    assert_eq!(parse_hex_word(b"ffff", 0), Some(0xffff));
    assert_eq!(parse_hex_word(b"0000", 0), Some(0));
}

#[test]
fn names_are_trimmed() {
    assert_eq!(
        parse_line(Scope::Seeking, b"8086 \t Intel Corp \t \r"),
        Some(Found { key: Key::Vendor(0x8086), name: Span { start: 7, end: 17 } })
    );
    assert_eq!(
        parse_line(Scope::Seeking, b"8086   "),
        Some(Found { key: Key::Vendor(0x8086), name: Span { start: 7, end: 7 } })
    );
    assert_eq!(
        parse_line(Scope::Seeking, b"8086"),
        Some(Found { key: Key::Vendor(0x8086), name: Span { start: 4, end: 4 } })
    );
    assert_eq!(
        parse_line(Scope::Seeking, b"C  \t 0c\tSerial bus "),
        Some(Found { key: Key::Class(0x0c), name: Span { start: 8, end: 18 } })
    );
    assert_eq!(
        parse_line(Scope::Device(1, 2), b"\t\t1af4\t \t1100 Name"),
        Some(Found { key: Key::Subsystem(1, 2, 0x1af4, 0x1100), name: Span { start: 14, end: 18 } })
    );
}

#[test]
fn lines_hold_entries_by_their_level() {
    assert_eq!(
        parse_line(Scope::Seeking, b"8086  Intel Corporation"),
        Some(Found { key: Key::Vendor(0x8086), name: Span { start: 6, end: 23 } })
    );
    assert_eq!(
        parse_line(Scope::Vendor(0x8086), b"\t1234  Test Device"),
        Some(Found { key: Key::Device(0x8086, 0x1234), name: Span { start: 7, end: 18 } })
    );
    assert_eq!(
        parse_line(Scope::Device(0x8086, 0x1234), b"\t\t8086 5678  Test Subsystem"),
        Some(Found {
            key: Key::Subsystem(0x8086, 0x1234, 0x8086, 0x5678),
            name: Span { start: 13, end: 27 },
        })
    );
    assert_eq!(
        parse_line(Scope::Device(0x8086, 0x1234), b"C 03  Display controller"),
        Some(Found { key: Key::Class(0x03), name: Span { start: 6, end: 24 } })
    );
    assert_eq!(
        parse_line(Scope::Class(0x03), b"\t00  VGA"),
        Some(Found { key: Key::Subclass(0x03, 0x00), name: Span { start: 5, end: 8 } })
    );
    assert_eq!(
        parse_line(Scope::Subclass(0x03, 0x00), b"\t\t01  8514"),
        Some(Found { key: Key::ProgIf(0x03, 0x00, 0x01), name: Span { start: 6, end: 10 } })
    );
    assert_eq!(
        parse_line(Scope::Subclass(0x03, 0x00), b"\t80  Other"),
        Some(Found { key: Key::Subclass(0x03, 0x80), name: Span { start: 5, end: 10 } })
    );
    assert_eq!(
        parse_line(Scope::Device(0x8086, 0x1234), b"\t1235  Next"),
        Some(Found { key: Key::Device(0x8086, 0x1235), name: Span { start: 7, end: 11 } })
    );
}

#[test]
fn lines_that_do_not_fit_are_skipped() {
    assert_eq!(parse_line(Scope::Seeking, b""), None);
    assert_eq!(parse_line(Scope::Seeking, b"# comment"), None);
    assert_eq!(parse_line(Scope::Seeking, b"808"), None);
    assert_eq!(parse_line(Scope::Seeking, b"80g6  Name"), None);
    assert_eq!(parse_line(Scope::Seeking, b" 8086  Name"), None);
    assert_eq!(parse_line(Scope::Seeking, b"\t1234  Orphan"), None);
    assert_eq!(parse_line(Scope::Vendor(1), b"\t123  Short"), None);
    assert_eq!(parse_line(Scope::Vendor(1), b"\t\t8086 5678  No device above"), None);
    assert_eq!(parse_line(Scope::Class(1), b"\t\t01  No subclass above"), None);
    assert_eq!(parse_line(Scope::Device(1, 2), b"\t\t8086 567  Short"), None);
    assert_eq!(parse_line(Scope::Device(1, 2), b"\t\t8086"), None);
    assert_eq!(parse_line(Scope::Device(1, 2), b"\t\t\t8086 5678  Too deep"), None);
    assert_eq!(parse_line(Scope::Class(1), b"\t0"), None);
    assert_eq!(parse_line(Scope::Seeking, b"C"), None);
    assert_eq!(parse_line(Scope::Seeking, b"C 0"), None);
    assert_eq!(parse_line(Scope::Seeking, b"C zz  Name"), None);
    assert_eq!(parse_line(Scope::Seeking, b"\r"), None);
}

#[test]
fn step_moves_the_scope() {
    let (scope, found) = step(Scope::Seeking, b"8086  Intel");
    assert_eq!(scope, Scope::Vendor(0x8086));
    assert_eq!(found.map(|f| f.key), Some(Key::Vendor(0x8086)));
    let (scope, _) = step(scope, b"\t1234  Device");
    assert_eq!(scope, Scope::Device(0x8086, 0x1234));
    let (scope, found) = step(scope, b"\t\t1af4 1100  Subsystem");
    assert_eq!(scope, Scope::Device(0x8086, 0x1234));
    assert_eq!(found.map(|f| f.key), Some(Key::Subsystem(0x8086, 0x1234, 0x1af4, 0x1100)));
    let (scope, found) = step(scope, b"# comment");
    assert_eq!((scope, found), (Scope::Device(0x8086, 0x1234), None));
    let (scope, found) = step(scope, b"12");
    assert_eq!((scope, found), (Scope::Device(0x8086, 0x1234), None));
    let (scope, _) = step(scope, b"C 0c  Serial bus controller");
    assert_eq!(scope, Scope::Class(0x0c));
    let (scope, _) = step(scope, b"\t03  USB controller");
    assert_eq!(scope, Scope::Subclass(0x0c, 0x03));
    let (scope, found) = step(scope, b"\t\t30  XHCI");
    assert_eq!(scope, Scope::Subclass(0x0c, 0x03));
    assert_eq!(found.map(|f| f.key), Some(Key::ProgIf(0x0c, 0x03, 0x30)));
    assert_eq!(Key::Vendor(7).scope(), Scope::Vendor(7));
    assert_eq!(Key::ProgIf(1, 2, 3).scope(), Scope::Subclass(1, 2));
}

#[test]
fn lookup_finds_the_first_match() {
    assert_eq!(name(DB, Query::Vendor(0x8086)), Some(&b"Intel Corporation"[..]));
    assert_eq!(name(DB, Query::Vendor(0x10de)), Some(&b"NVIDIA Corporation"[..]));
    assert_eq!(name(DB, Query::Vendor(0x1234)), None);
    assert_eq!(name(DB, Query::Device(0x1234)), Some(&b"Test Device"[..]));
    assert_eq!(name(DB, Query::VendorDevice(0x10de, 0x1234)), Some(&b"Card"[..]));
    assert_eq!(name(DB, Query::VendorDevice(0x10de, 0x1235)), None);
    assert_eq!(name(DB, Query::Subsystem(0x8086, 0x5678)), Some(&b"Test Subsystem"[..]));
    assert_eq!(
        name(DB, Query::DeviceSubsystem(0x8086, 0x1234, 0x8086, 0x5678)),
        Some(&b"Test Subsystem"[..])
    );
    assert_eq!(name(DB, Query::DeviceSubsystem(0x8086, 0x1235, 0x8086, 0x5678)), None);
    assert_eq!(name(DB, Query::Class(0x01)), Some(&b"Mass storage controller"[..]));
    assert_eq!(name(DB, Query::Class(0x03)), Some(&b"Display controller"[..]));
    assert_eq!(name(DB, Query::Class(0x02)), None);
    assert_eq!(name(DB, Query::Subclass(0x01, 0x06)), Some(&b"SATA controller"[..]));
    assert_eq!(name(DB, Query::Subclass(0x03, 0x06)), None);
    assert_eq!(name(DB, Query::Subclass(0x03, 0x00)), Some(&b"VGA compatible controller"[..]));
    assert_eq!(name(DB, Query::ProgIf(0x01, 0x06, 0x01)), Some(&b"AHCI 1.0"[..]));
    assert_eq!(name(DB, Query::ProgIf(0x03, 0x00, 0x01)), None);
}

#[test]
fn lookup_on_odd_texts() {
    assert_eq!(lookup(b"", Query::Vendor(1)), None);
    assert_eq!(lookup(b"\n\n\n", Query::Vendor(1)), None);
    assert_eq!(name(b"0001", Query::Vendor(1)), Some(&b""[..]));
    assert_eq!(name(b"0001  No newline at the end", Query::Vendor(1)), Some(&b"No newline at the end"[..]));
    assert_eq!(name(b"0001  Windows\r\n\t0002  Line ends\r\n", Query::Device(2)), Some(&b"Line ends"[..]));
    assert_eq!(name(b"0001  First\n0001  Second\n", Query::Vendor(1)), Some(&b"First"[..]));
    assert_eq!(name(b"0001Tight", Query::Vendor(1)), Some(&b"Tight"[..]));
}

#[test]
fn a_device_line_under_a_class_is_no_device() {
    let db = b"C 01  Storage\n\t1234  Not a device\n";
    assert_eq!(lookup(db, Query::Device(0x1234)), None);
    assert_eq!(name(db, Query::Subclass(0x01, 0x12)), Some(&b"34  Not a device"[..]));
}

#[test]
fn skipped_lines_change_no_answer() {
    let with: &[u8] = b"8086  Intel Corporation\n80\n\n# note\n\t12\n\t1234  Test Device\n\t\t8086\n\t\t8086 5678  Test Subsystem\n";
    let without: &[u8] = b"8086  Intel Corporation\n\t1234  Test Device\n\t\t8086 5678  Test Subsystem\n";
    let queries = [
        Query::Vendor(0x8086),
        Query::Device(0x1234),
        Query::VendorDevice(0x8086, 0x1234),
        Query::Subsystem(0x8086, 0x5678),
        Query::DeviceSubsystem(0x8086, 0x1234, 0x8086, 0x5678),
        Query::Vendor(0x0080),
    ];
    for query in queries {
        assert_eq!(name(with, query), name(without, query));
    }
    assert_eq!(name(with, Query::Device(0x1234)), Some(&b"Test Device"[..]));
}

#[test]
fn resolve_many_is_lookup_for_each() {
    let queries = [
        Query::Subclass(0x03, 0x00),
        Query::Vendor(0x8086),
        Query::Vendor(0xffff),
        Query::Device(0x1234),
        Query::Vendor(0x8086),
        Query::ProgIf(0x01, 0x06, 0x01),
    ];
    let spans = resolve_many(DB, &queries);
    assert_eq!(spans.len(), queries.len());
    for (span, query) in spans.iter().zip(queries.iter()) {
        assert_eq!(*span, lookup(DB, *query));
    }
    assert_eq!(spans[2], None);
    assert_eq!(resolve_many(DB, &[]), Vec::new());
    assert_eq!(resolve_many(b"", &[Query::Vendor(1)]), vec![None]);
    let early = resolve_many(DB, &[Query::Vendor(0x8086)]);
    assert_eq!(early, vec![Some(Span { start: 17, end: 34 })]);
}

#[test]
fn queries_accept_keys() {
    assert!(Query::Device(2).accepts(&Key::Device(1, 2)));
    assert!(!Query::Device(1).accepts(&Key::Device(1, 2)));
    assert!(Query::VendorDevice(1, 2).accepts(&Key::Device(1, 2)));
    assert!(!Query::VendorDevice(2, 2).accepts(&Key::Device(1, 2)));
    assert!(Query::Subsystem(3, 4).accepts(&Key::Subsystem(1, 2, 3, 4)));
    assert!(!Query::Subsystem(1, 2).accepts(&Key::Subsystem(1, 2, 3, 4)));
    assert!(Query::DeviceSubsystem(1, 2, 3, 4).accepts(&Key::Subsystem(1, 2, 3, 4)));
    assert!(!Query::DeviceSubsystem(9, 2, 3, 4).accepts(&Key::Subsystem(1, 2, 3, 4)));
    assert!(Query::Class(1).accepts(&Key::Class(1)));
    assert!(!Query::Class(1).accepts(&Key::Subclass(1, 1)));
    assert!(Query::Subclass(1, 2).accepts(&Key::Subclass(1, 2)));
    assert!(Query::ProgIf(1, 2, 3).accepts(&Key::ProgIf(1, 2, 3)));
    assert!(!Query::Vendor(1).accepts(&Key::Device(1, 1)));
    assert!(Query::Vendor(1).accepts(&Key::Vendor(1)));
}
