//! The record of a PCI device as Linux shows it in sysfs.
//!
//! The record keeps every identifier as the hex digits that sysfs shows, and
//! beside each identifier the name that the `pci.ids` database gives it. It
//! is made from plain texts: whoever reads the attributes of the device and
//! the database hands their texts in.

use vstd::prelude::*;
use vstd::string::StringSliceAdditionalSpecFns;
use vstd::utf8::{decode_utf8, encode_utf8};
use crate::classes::DeviceClass;
use crate::hex::{hex_byte, hex_word};
use crate::ids::Span;
use crate::names::{
    name_for, parse_byte, parse_word, resolve_names, vendor_device_query, vendor_query, view_of,
};
use crate::scan::Query;
use crate::sysfs::{
    bytes_of, class_code_of, decode_class, decode_flag, device_path, device_path_of,
    find_hex_digits, flag_of, hex_digits_of, Attributes, Source,
};
use crate::text::cut_string;
use crate::traits::{Device, Fetch, Properties};

verus! {

/// The record of a PCI device.
#[derive(Debug)]
pub struct LinuxPCIDevice {
    class: String,
    class_name: String,
    subclass: String,
    subclass_name: String,
    prog_if: String,
    prog_if_name: String,
    vendor: String,
    vendor_name: String,
    device: String,
    device_name: String,
    subsystem_vendor: String,
    subsystem_device: String,
    subsystem_name: String,
    path: String,
    enabled: bool,
}

/// What a record holds.
pub struct LinuxPCIDeviceView {
    pub class: Seq<char>,
    pub class_name: Seq<char>,
    pub subclass: Seq<char>,
    pub subclass_name: Seq<char>,
    pub prog_if: Seq<char>,
    pub prog_if_name: Seq<char>,
    pub vendor: Seq<char>,
    pub vendor_name: Seq<char>,
    pub device: Seq<char>,
    pub device_name: Seq<char>,
    pub subsystem_vendor: Seq<char>,
    pub subsystem_device: Seq<char>,
    pub subsystem_name: Seq<char>,
    pub path: Seq<char>,
    pub enabled: bool,
}

impl View for LinuxPCIDevice {
    type V = LinuxPCIDeviceView;

    closed spec fn view(&self) -> LinuxPCIDeviceView {
        LinuxPCIDeviceView {
            class: self.class@,
            class_name: self.class_name@,
            subclass: self.subclass@,
            subclass_name: self.subclass_name@,
            prog_if: self.prog_if@,
            prog_if_name: self.prog_if_name@,
            vendor: self.vendor@,
            vendor_name: self.vendor_name@,
            device: self.device@,
            device_name: self.device_name@,
            subsystem_vendor: self.subsystem_vendor@,
            subsystem_device: self.subsystem_device@,
            subsystem_name: self.subsystem_name@,
            path: self.path@,
            enabled: self.enabled,
        }
    }
}

/// The record that holds nothing yet: every text is empty and the device
/// counts as not enabled.
pub open spec fn empty_record() -> LinuxPCIDeviceView {
    LinuxPCIDeviceView {
        class: Seq::empty(),
        class_name: Seq::empty(),
        subclass: Seq::empty(),
        subclass_name: Seq::empty(),
        prog_if: Seq::empty(),
        prog_if_name: Seq::empty(),
        vendor: Seq::empty(),
        vendor_name: Seq::empty(),
        device: Seq::empty(),
        device_name: Seq::empty(),
        subsystem_vendor: Seq::empty(),
        subsystem_device: Seq::empty(),
        subsystem_name: Seq::empty(),
        path: Seq::empty(),
        enabled: false,
    }
}

/// The four hex digits that an attribute shows for an identifier, as text.
pub open spec fn id_text(attribute: Seq<u8>) -> Option<Seq<char>> {
    match hex_digits_of(attribute, 4) {
        Some(digits) => Some(decode_utf8(digits)),
        None => None,
    }
}

/// The record after the text of the attribute `class` was taken in.
pub open spec fn with_class(record: LinuxPCIDeviceView, attribute: Seq<u8>) -> LinuxPCIDeviceView {
    match hex_digits_of(attribute, 6) {
        Some(digits) => LinuxPCIDeviceView {
            class: decode_utf8(digits.subrange(0, 2)),
            subclass: decode_utf8(digits.subrange(2, 4)),
            prog_if: decode_utf8(digits.subrange(4, 6)),
            ..record
        },
        None => record,
    }
}

/// The record after the text of the attribute `vendor` was taken in.
pub open spec fn with_vendor(record: LinuxPCIDeviceView, attribute: Seq<u8>) -> LinuxPCIDeviceView {
    match id_text(attribute) {
        Some(vendor) => LinuxPCIDeviceView { vendor, ..record },
        None => record,
    }
}

/// The record after the text of the attribute `device` was taken in.
pub open spec fn with_device(record: LinuxPCIDeviceView, attribute: Seq<u8>) -> LinuxPCIDeviceView {
    match id_text(attribute) {
        Some(device) => LinuxPCIDeviceView { device, ..record },
        None => record,
    }
}

/// The record after the text of the attribute `subsystem_vendor` was taken
/// in.
pub open spec fn with_subsystem_vendor(
    record: LinuxPCIDeviceView,
    attribute: Seq<u8>,
) -> LinuxPCIDeviceView {
    match id_text(attribute) {
        Some(subsystem_vendor) => LinuxPCIDeviceView { subsystem_vendor, ..record },
        None => record,
    }
}

/// The record after the text of the attribute `subsystem_device` was taken
/// in.
pub open spec fn with_subsystem_device(
    record: LinuxPCIDeviceView,
    attribute: Seq<u8>,
) -> LinuxPCIDeviceView {
    match id_text(attribute) {
        Some(subsystem_device) => LinuxPCIDeviceView { subsystem_device, ..record },
        None => record,
    }
}

/// The record after the text of the attribute `enable` was taken in.
pub open spec fn with_enabled(record: LinuxPCIDeviceView, attribute: Seq<u8>) -> LinuxPCIDeviceView {
    LinuxPCIDeviceView { enabled: flag_of(attribute), ..record }
}

/// The record after an attribute was taken in that may not have been read:
/// an attribute that was not read leaves the record as it is.
pub open spec fn with_attribute(
    record: LinuxPCIDeviceView,
    attribute: Option<Seq<u8>>,
    taken: spec_fn(LinuxPCIDeviceView, Seq<u8>) -> LinuxPCIDeviceView,
) -> LinuxPCIDeviceView {
    match attribute {
        Some(text) => taken(record, text),
        None => record,
    }
}

/// The query for the name of the class of a record.
pub open spec fn class_query(record: LinuxPCIDeviceView) -> Option<Query> {
    match hex_byte(encode_utf8(record.class)) {
        Some(class) => Some(Query::Class(class)),
        None => None,
    }
}

/// The query for the name of the subclass of a record.
pub open spec fn subclass_query(record: LinuxPCIDeviceView) -> Option<Query> {
    match (hex_byte(encode_utf8(record.class)), hex_byte(encode_utf8(record.subclass))) {
        (Some(class), Some(subclass)) => Some(Query::Subclass(class, subclass)),
        _ => None,
    }
}

/// The query for the name of the programming interface of a record.
pub open spec fn prog_if_query(record: LinuxPCIDeviceView) -> Option<Query> {
    match (
        hex_byte(encode_utf8(record.class)),
        hex_byte(encode_utf8(record.subclass)),
        hex_byte(encode_utf8(record.prog_if)),
    ) {
        (Some(class), Some(subclass), Some(prog_if)) => Some(
            Query::ProgIf(class, subclass, prog_if),
        ),
        _ => None,
    }
}

/// The query for the name of the subsystem of a record, under its device.
pub open spec fn device_subsystem_query(record: LinuxPCIDeviceView) -> Option<Query> {
    match (
        hex_word(encode_utf8(record.vendor)),
        hex_word(encode_utf8(record.device)),
        hex_word(encode_utf8(record.subsystem_vendor)),
        hex_word(encode_utf8(record.subsystem_device)),
    ) {
        (Some(vendor), Some(device), Some(subvendor), Some(subdevice)) => Some(
            Query::DeviceSubsystem(vendor, device, subvendor, subdevice),
        ),
        _ => None,
    }
}

/// The record after the names of its class, its subclass and its
/// programming interface were looked up in the database.
pub open spec fn with_class_names(record: LinuxPCIDeviceView, db: Seq<u8>) -> LinuxPCIDeviceView {
    LinuxPCIDeviceView {
        class_name: name_for(db, class_query(record)),
        subclass_name: name_for(db, subclass_query(record)),
        prog_if_name: name_for(db, prog_if_query(record)),
        ..record
    }
}

/// The record after all of its names were looked up in the database: a
/// device under its vendor, a subsystem under its device.
pub open spec fn with_names(record: LinuxPCIDeviceView, db: Seq<u8>) -> LinuxPCIDeviceView {
    LinuxPCIDeviceView {
        class_name: name_for(db, class_query(record)),
        subclass_name: name_for(db, subclass_query(record)),
        prog_if_name: name_for(db, prog_if_query(record)),
        vendor_name: name_for(db, vendor_query(encode_utf8(record.vendor))),
        device_name: name_for(
            db,
            vendor_device_query(encode_utf8(record.vendor), encode_utf8(record.device)),
        ),
        subsystem_name: name_for(db, device_subsystem_query(record)),
        ..record
    }
}

/// The record of the device that was asked for by `path`, made from the
/// texts of its attributes and the text of the database.
pub open spec fn record_of(path: Seq<char>, attributes: Attributes, db: Seq<u8>) -> LinuxPCIDeviceView {
    let r0 = LinuxPCIDeviceView { path: device_path_of(path), ..empty_record() };
    let r1 = with_attribute(r0, bytes_of(attributes.class), |r, t| with_class(r, t));
    let r2 = with_attribute(r1, bytes_of(attributes.vendor), |r, t| with_vendor(r, t));
    let r3 = with_attribute(r2, bytes_of(attributes.device), |r, t| with_device(r, t));
    let r4 = with_attribute(r3, bytes_of(attributes.enable), |r, t| with_enabled(r, t));
    let r5 = with_attribute(
        r4,
        bytes_of(attributes.subsystem_device),
        |r, t| with_subsystem_device(r, t),
    );
    let r6 = with_attribute(
        r5,
        bytes_of(attributes.subsystem_vendor),
        |r, t| with_subsystem_vendor(r, t),
    );
    with_names(r6, db)
}

/// Returns the four hex digits that an attribute shows for an identifier.
fn read_id(attribute: &str) -> (id: Option<String>)
    ensures
        view_of(id) == id_text(attribute.spec_bytes()),
{
    match find_hex_digits(attribute.as_bytes(), 4) {
        Some(span) => Some(cut_string(attribute, span)),
        None => None,
    }
}

impl Default for LinuxPCIDevice {
    fn default() -> (record: Self)
        ensures
            record@ == empty_record(),
    {
        LinuxPCIDevice {
            class: String::new(),
            class_name: String::new(),
            subclass: String::new(),
            subclass_name: String::new(),
            prog_if: String::new(),
            prog_if_name: String::new(),
            vendor: String::new(),
            vendor_name: String::new(),
            device: String::new(),
            device_name: String::new(),
            subsystem_vendor: String::new(),
            subsystem_device: String::new(),
            subsystem_name: String::new(),
            path: String::new(),
            enabled: false,
        }
    }
}

impl Properties for LinuxPCIDevice {
    fn set_path(&mut self, p: &str)
        ensures
            final(self)@ == (LinuxPCIDeviceView { path: device_path_of(p@), ..old(self)@ }),
    {
        self.path = device_path(p);
    }

    fn set_class(&mut self, attribute: &str)
        ensures
            final(self)@ == with_class(old(self)@, attribute.spec_bytes()),
    {
        let bytes = attribute.as_bytes();
        match find_hex_digits(bytes, 6) {
            Some(span) => {
                let start = span.start;
                proof {
                    let digits = span.of(bytes@);
                    assert forall|i: int| start <= i < span.end implies bytes@[i] < 0x80 by {
                        assert(digits[i - start] == bytes@[i]);
                    }
                    assert(digits.subrange(0, 2) =~= bytes@.subrange(start as int, start + 2));
                    assert(digits.subrange(2, 4) =~= bytes@.subrange(start + 2, start + 4));
                    assert(digits.subrange(4, 6) =~= bytes@.subrange(start + 4, start + 6));
                }
                self.class = cut_string(attribute, Span { start, end: start + 2 });
                self.subclass = cut_string(attribute, Span { start: start + 2, end: start + 4 });
                self.prog_if = cut_string(attribute, Span { start: start + 4, end: start + 6 });
            },
            None => {},
        }
    }

    fn set_vendor(&mut self, attribute: &str)
        ensures
            final(self)@ == with_vendor(old(self)@, attribute.spec_bytes()),
    {
        match read_id(attribute) {
            Some(id) => {
                self.vendor = id;
            },
            None => {},
        }
    }

    fn set_device(&mut self, attribute: &str)
        ensures
            final(self)@ == with_device(old(self)@, attribute.spec_bytes()),
    {
        match read_id(attribute) {
            Some(id) => {
                self.device = id;
            },
            None => {},
        }
    }

    fn set_enabled(&mut self, attribute: &str)
        ensures
            final(self)@ == with_enabled(old(self)@, attribute.spec_bytes()),
    {
        self.enabled = decode_flag(attribute);
    }

    fn set_subsystem_device(&mut self, attribute: &str)
        ensures
            final(self)@ == with_subsystem_device(old(self)@, attribute.spec_bytes()),
    {
        match read_id(attribute) {
            Some(id) => {
                self.subsystem_device = id;
            },
            None => {},
        }
    }

    fn set_subsystem_vendor(&mut self, attribute: &str)
        ensures
            final(self)@ == with_subsystem_vendor(old(self)@, attribute.spec_bytes()),
    {
        match read_id(attribute) {
            Some(id) => {
                self.subsystem_vendor = id;
            },
            None => {},
        }
    }

    fn set_class_properties(&mut self, pci_ids: &str)
        ensures
            final(self)@ == with_class_names(old(self)@, pci_ids.spec_bytes()),
    {
        let queries = self.queries();
        let mut names = resolve_names(pci_ids, &queries);
        names.truncate(3);
        self.prog_if_name = names.pop().unwrap();
        self.subclass_name = names.pop().unwrap();
        self.class_name = names.pop().unwrap();
    }
}

impl Device for LinuxPCIDevice {
    fn new(path: &str, attributes: &Attributes, pci_ids: &str) -> (record: Self)
        ensures
            record@ == record_of(path@, *attributes, pci_ids.spec_bytes()),
    {
        let mut record = LinuxPCIDevice::default();
        record.set_path(path);
        match &attributes.class {
            Some(text) => record.set_class(text.as_str()),
            None => {},
        }
        match &attributes.vendor {
            Some(text) => record.set_vendor(text.as_str()),
            None => {},
        }
        match &attributes.device {
            Some(text) => record.set_device(text.as_str()),
            None => {},
        }
        match &attributes.enable {
            Some(text) => record.set_enabled(text.as_str()),
            None => {},
        }
        match &attributes.subsystem_device {
            Some(text) => record.set_subsystem_device(text.as_str()),
            None => {},
        }
        match &attributes.subsystem_vendor {
            Some(text) => record.set_subsystem_vendor(text.as_str()),
            None => {},
        }
        record.set_names(pci_ids);
        record
    }

    fn path(&self) -> (path: String)
        ensures
            path@ == self@.path,
    {
        self.path.clone()
    }

    fn class(&self) -> (class: String)
        ensures
            class@ == self@.class,
    {
        self.class.clone()
    }

    fn subclass(&self) -> (subclass: String)
        ensures
            subclass@ == self@.subclass,
    {
        self.subclass.clone()
    }

    fn prog_if(&self) -> (prog_if: String)
        ensures
            prog_if@ == self@.prog_if,
    {
        self.prog_if.clone()
    }

    fn vendor(&self) -> (vendor: String)
        ensures
            vendor@ == self@.vendor,
    {
        self.vendor.clone()
    }

    fn device(&self) -> (device: String)
        ensures
            device@ == self@.device,
    {
        self.device.clone()
    }

    fn class_name(&self) -> (name: String)
        ensures
            name@ == self@.class_name,
    {
        self.class_name.clone()
    }

    fn subclass_name(&self) -> (name: String)
        ensures
            name@ == self@.subclass_name,
    {
        self.subclass_name.clone()
    }

    fn prog_if_name(&self) -> (name: String)
        ensures
            name@ == self@.prog_if_name,
    {
        self.prog_if_name.clone()
    }

    fn vendor_name(&self) -> (name: String)
        ensures
            name@ == self@.vendor_name,
    {
        self.vendor_name.clone()
    }

    fn device_name(&self) -> (name: String)
        ensures
            name@ == self@.device_name,
    {
        self.device_name.clone()
    }

    fn enabled(&self) -> (enabled: bool)
        ensures
            enabled == self@.enabled,
    {
        self.enabled
    }

    fn subsystem_name(&self) -> (name: String)
        ensures
            name@ == self@.subsystem_name,
    {
        self.subsystem_name.clone()
    }

    fn subsystem_vendor(&self) -> (id: String)
        ensures
            id@ == self@.subsystem_vendor,
    {
        self.subsystem_vendor.clone()
    }

    fn subsystem_device(&self) -> (id: String)
        ensures
            id@ == self@.subsystem_device,
    {
        self.subsystem_device.clone()
    }
}

/// How many records are made of `available` devices under a limit: all of
/// them where the limit is `None` or `Some(0)`, and never more than the
/// limit otherwise.
pub open spec fn fetch_limit(available: nat, maximum_devices: Option<u8>) -> nat {
    match maximum_devices {
        Some(m) => if m == 0 || available <= m {
            available
        } else {
            m as nat
        },
        None => available,
    }
}

/// Whether the attribute `class` of a device shows the given class.
pub open spec fn is_of_class(source: Source, class: DeviceClass) -> bool {
    match bytes_of(source.attributes.class) {
        Some(text) => class_code_of(text) matches Some(code) && code.class == class.spec_code(),
        None => false,
    }
}

/// The devices of the given class among `sources`, in their order.
pub open spec fn of_class(sources: Seq<Source>, class: DeviceClass) -> Seq<Source>
    decreases sources.len(),
{
    if sources.len() == 0 {
        Seq::empty()
    } else {
        let front = of_class(sources.take(sources.len() - 1), class);
        if is_of_class(sources[sources.len() - 1], class) {
            front.push(sources[sources.len() - 1])
        } else {
            front
        }
    }
}

/// The record of the device that a source describes.
pub open spec fn record_of_source(source: Source, db: Seq<u8>) -> LinuxPCIDeviceView {
    record_of(source.path@, source.attributes, db)
}

/// The devices of a class among the first of the sources are the first of
/// the devices of that class among all sources.
proof fn lemma_of_class_prefix(sources: Seq<Source>, class: DeviceClass, i: int)
    requires
        0 <= i <= sources.len(),
    ensures
        of_class(sources.take(i), class).len() <= of_class(sources, class).len(),
        forall|k: int|
            0 <= k < of_class(sources.take(i), class).len() ==> of_class(sources.take(i), class)[k]
                == of_class(sources, class)[k],
    decreases sources.len() - i,
{
    if i < sources.len() {
        lemma_of_class_prefix(sources, class, i + 1);
        let next = sources.take(i + 1);
        assert(next.take(next.len() - 1) =~= sources.take(i));
    } else {
        assert(sources.take(i) =~= sources);
    }
}

/// Tests whether the attribute `class` of a device shows the given class.
fn shows_class(source: &Source, class: &DeviceClass) -> (r: bool)
    ensures
        r == is_of_class(*source, *class),
{
    match &source.attributes.class {
        Some(text) => match decode_class(text.as_str()) {
            Ok(code) => code.class == class.code(),
            Err(_) => false,
        },
        None => false,
    }
}

impl Fetch for LinuxPCIDevice {
    fn fetch(sources: &Vec<Source>, pci_ids: &str, maximum_devices: Option<u8>) -> (devices: Vec<
        Self,
    >)
        ensures
            devices.len() == fetch_limit(sources.len() as nat, maximum_devices),
            forall|i: int|
                0 <= i < devices.len() ==> (#[trigger] devices[i])@ == record_of_source(
                    sources[i],
                    pci_ids.spec_bytes(),
                ),
    {
        let count = match maximum_devices {
            Some(m) => if m == 0 || sources.len() <= m as usize {
                sources.len()
            } else {
                m as usize
            },
            None => sources.len(),
        };
        let mut devices: Vec<Self> = Vec::new();
        let mut i: usize = 0;
        while i < count
            invariant
                i <= count <= sources.len(),
                devices.len() == i,
                forall|k: int|
                    0 <= k < i ==> (#[trigger] devices[k])@ == record_of_source(
                        sources[k],
                        pci_ids.spec_bytes(),
                    ),
            decreases count - i,
        {
            let source = &sources[i];
            let device = LinuxPCIDevice::new(source.path.as_str(), &source.attributes, pci_ids);
            devices.push(device);
            i = i + 1;
        }
        devices
    }

    fn fetch_by_class(
        sources: &Vec<Source>,
        pci_ids: &str,
        class: DeviceClass,
        maximum_devices: Option<u8>,
    ) -> (devices: Vec<Self>)
        ensures
            devices.len() == fetch_limit(of_class(sources@, class).len(), maximum_devices),
            forall|i: int|
                0 <= i < devices.len() ==> (#[trigger] devices[i])@ == record_of_source(
                    of_class(sources@, class)[i],
                    pci_ids.spec_bytes(),
                ),
    {
        let limit: usize = match maximum_devices {
            Some(m) => m as usize,
            None => 0,
        };
        let mut devices: Vec<Self> = Vec::new();
        let mut i: usize = 0;
        proof {
            assert(sources@.take(0) =~= Seq::<Source>::empty());
        }
        while i < sources.len() && (limit == 0 || devices.len() < limit)
            invariant
                i <= sources.len(),
                limit > 0 ==> devices.len() <= limit,
                devices.len() == of_class(sources@.take(i as int), class).len(),
                forall|k: int|
                    0 <= k < devices.len() ==> (#[trigger] devices[k])@ == record_of_source(
                        of_class(sources@.take(i as int), class)[k],
                        pci_ids.spec_bytes(),
                    ),
            decreases sources.len() - i,
        {
            let source = &sources[i];
            proof {
                let next = sources@.take(i + 1);
                assert(next.take(next.len() - 1) =~= sources@.take(i as int));
                assert(next[next.len() - 1] == sources@[i as int]);
                lemma_of_class_prefix(sources@, class, i + 1);
            }
            if shows_class(source, &class) {
                let device = LinuxPCIDevice::new(source.path.as_str(), &source.attributes, pci_ids);
                devices.push(device);
            }
            i = i + 1;
        }
        proof {
            lemma_of_class_prefix(sources@, class, i as int);
            if i == sources.len() {
                assert(sources@.take(i as int) =~= sources@);
            }
        }
        devices
    }
}

impl LinuxPCIDevice {
    /// Returns the queries for the names of the record: for its class, its
    /// subclass, its programming interface, its vendor, its device and its
    /// subsystem, in this order.
    fn queries(&self) -> (queries: Vec<Option<Query>>)
        ensures
            queries.len() == 6,
            queries[0] == class_query(self@),
            queries[1] == subclass_query(self@),
            queries[2] == prog_if_query(self@),
            queries[3] == vendor_query(encode_utf8(self@.vendor)),
            queries[4] == vendor_device_query(
                encode_utf8(self@.vendor),
                encode_utf8(self@.device),
            ),
            queries[5] == device_subsystem_query(self@),
    {
        let class = parse_byte(self.class.as_str());
        let subclass = parse_byte(self.subclass.as_str());
        let prog_if = parse_byte(self.prog_if.as_str());
        let vendor = parse_word(self.vendor.as_str());
        let device = parse_word(self.device.as_str());
        let subvendor = parse_word(self.subsystem_vendor.as_str());
        let subdevice = parse_word(self.subsystem_device.as_str());
        let mut queries: Vec<Option<Query>> = Vec::new();
        queries.push(
            match class {
                Some(c) => Some(Query::Class(c)),
                None => None,
            },
        );
        queries.push(
            match (class, subclass) {
                (Some(c), Some(s)) => Some(Query::Subclass(c, s)),
                _ => None,
            },
        );
        queries.push(
            match (class, subclass, prog_if) {
                (Some(c), Some(s), Some(p)) => Some(Query::ProgIf(c, s, p)),
                _ => None,
            },
        );
        queries.push(
            match vendor {
                Some(v) => Some(Query::Vendor(v)),
                None => None,
            },
        );
        queries.push(
            match (vendor, device) {
                (Some(v), Some(d)) => Some(Query::VendorDevice(v, d)),
                _ => None,
            },
        );
        queries.push(
            match (vendor, device, subvendor, subdevice) {
                (Some(v), Some(d), Some(sv), Some(sd)) => Some(
                    Query::DeviceSubsystem(v, d, sv, sd),
                ),
                _ => None,
            },
        );
        queries
    }

    /// Sets every name of the record from the text of the `pci.ids`
    /// database, in one pass over it.
    pub fn set_names(&mut self, pci_ids: &str)
        ensures
            final(self)@ == with_names(old(self)@, pci_ids.spec_bytes()),
    {
        let queries = self.queries();
        let mut names = resolve_names(pci_ids, &queries);
        self.subsystem_name = names.pop().unwrap();
        self.device_name = names.pop().unwrap();
        self.vendor_name = names.pop().unwrap();
        self.prog_if_name = names.pop().unwrap();
        self.subclass_name = names.pop().unwrap();
        self.class_name = names.pop().unwrap();
    }
}

/// Looking the names of a record up a second time changes nothing: the
/// names depend on the identifiers of the record and on the database alone.
pub proof fn lemma_set_names_idempotent(record: LinuxPCIDeviceView, db: Seq<u8>)
    ensures
        with_names(with_names(record, db), db) == with_names(record, db),
        with_class_names(with_class_names(record, db), db) == with_class_names(record, db),
        with_class_names(with_names(record, db), db) == with_names(record, db),
{
}

} // verus!
