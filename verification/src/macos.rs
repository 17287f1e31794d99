//! The record of a PCI device with its identifiers as bytes.
//!
//! The record keeps every identifier decoded: the class code as its three
//! bytes, a vendor or device identifier as its two bytes, the higher one
//! first. An identifier that is not known is empty. The record is made in
//! two steps: the first takes in the attributes of the device and names its
//! class from the taxonomy, which costs no scan; the second looks the names
//! of the vendor, the device and the subsystem up in the `pci.ids` database.

use vstd::prelude::*;
use vstd::string::StringSliceAdditionalSpecFns;
use vstd::utf8::{decode_utf8, encode_utf8, encode_utf8_decode_utf8};
use crate::classes::{class_name, class_name_spec};
use crate::names::{name_for, resolve_names};
use crate::scan::Query;
use crate::subclasses::{subclass_name, subclass_name_spec};
use crate::sysfs::{
    address_of, bytes_of, class_code_of, decode_class, decode_flag, decode_id, decode_numa_node,
    decode_revision, device_address, device_path, device_path_of, flag_of, id_of, numa_node_of,
    revision_of, Attributes,
};

verus! {

/// The record of a PCI device.
#[derive(Debug)]
pub struct MacOSPCIDevice {
    path: String,
    address: String,
    class_id: Vec<u8>,
    class_name: String,
    subclass_name: String,
    vendor_id: Vec<u8>,
    vendor_name: String,
    device_id: Vec<u8>,
    device_name: String,
    revision: Vec<u8>,
    numa_node: isize,
    enabled: bool,
    d3cold_allowed: bool,
    subsystem_vendor_id: Vec<u8>,
    subsystem_device_id: Vec<u8>,
    subsystem_name: String,
}

/// What a record holds.
pub struct MacOSPCIDeviceView {
    pub path: Seq<char>,
    pub address: Seq<char>,
    pub class_id: Seq<u8>,
    pub class_name: Seq<char>,
    pub subclass_name: Seq<char>,
    pub vendor_id: Seq<u8>,
    pub vendor_name: Seq<char>,
    pub device_id: Seq<u8>,
    pub device_name: Seq<char>,
    pub revision: Seq<u8>,
    pub numa_node: int,
    pub enabled: bool,
    pub d3cold_allowed: bool,
    pub subsystem_vendor_id: Seq<u8>,
    pub subsystem_device_id: Seq<u8>,
    pub subsystem_name: Seq<char>,
}

impl View for MacOSPCIDevice {
    type V = MacOSPCIDeviceView;

    closed spec fn view(&self) -> MacOSPCIDeviceView {
        MacOSPCIDeviceView {
            path: self.path@,
            address: self.address@,
            class_id: self.class_id@,
            class_name: self.class_name@,
            subclass_name: self.subclass_name@,
            vendor_id: self.vendor_id@,
            vendor_name: self.vendor_name@,
            device_id: self.device_id@,
            device_name: self.device_name@,
            revision: self.revision@,
            numa_node: self.numa_node as int,
            enabled: self.enabled,
            d3cold_allowed: self.d3cold_allowed,
            subsystem_vendor_id: self.subsystem_vendor_id@,
            subsystem_device_id: self.subsystem_device_id@,
            subsystem_name: self.subsystem_name@,
        }
    }
}

/// The record that holds nothing yet: every text and every identifier is
/// empty, the device belongs to no NUMA node and counts as not enabled.
pub open spec fn empty_record() -> MacOSPCIDeviceView {
    MacOSPCIDeviceView {
        path: Seq::empty(),
        address: Seq::empty(),
        class_id: Seq::empty(),
        class_name: Seq::empty(),
        subclass_name: Seq::empty(),
        vendor_id: Seq::empty(),
        vendor_name: Seq::empty(),
        device_id: Seq::empty(),
        device_name: Seq::empty(),
        revision: Seq::empty(),
        numa_node: -1,
        enabled: false,
        d3cold_allowed: false,
        subsystem_vendor_id: Seq::empty(),
        subsystem_device_id: Seq::empty(),
        subsystem_name: Seq::empty(),
    }
}

/// The two bytes of an identifier, the higher one first.
pub open spec fn word_bytes(id: u16) -> Seq<u8> {
    seq![(id / 256) as u8, (id % 256) as u8]
}

/// The identifier that two bytes stand for, the higher one first.
pub open spec fn word_of(bytes: Seq<u8>) -> Option<u16> {
    if bytes.len() == 2 {
        Some((bytes[0] * 256 + bytes[1]) as u16)
    } else {
        None
    }
}

/// The bytes of the identifier that an attribute shows, or what the record
/// held before where the attribute does not show one.
pub open spec fn id_or(attribute: Seq<u8>, before: Seq<u8>) -> Seq<u8> {
    match id_of(attribute) {
        Some(id) => word_bytes(id),
        None => before,
    }
}

/// The record after the text of the attribute `class` was taken in.
pub open spec fn with_class_id(record: MacOSPCIDeviceView, attribute: Seq<u8>) -> MacOSPCIDeviceView {
    match class_code_of(attribute) {
        Some(code) => MacOSPCIDeviceView {
            class_id: seq![code.class, code.subclass, code.prog_if],
            ..record
        },
        None => record,
    }
}

/// The record after the text of the attribute `revision` was taken in.
pub open spec fn with_revision(record: MacOSPCIDeviceView, attribute: Seq<u8>) -> MacOSPCIDeviceView {
    match revision_of(attribute) {
        Some(revision) => MacOSPCIDeviceView { revision: seq![revision], ..record },
        None => record,
    }
}

/// The record after the text of the attribute `numa_node` was taken in.
pub open spec fn with_numa_node(record: MacOSPCIDeviceView, attribute: Seq<u8>) -> MacOSPCIDeviceView {
    match numa_node_of(attribute) {
        Ok(node) => MacOSPCIDeviceView { numa_node: node as int, ..record },
        Err(_) => record,
    }
}

/// The record after its class was named from the taxonomy. A record
/// without a class code stays as it is.
pub open spec fn with_class_name(record: MacOSPCIDeviceView) -> MacOSPCIDeviceView {
    if record.class_id.len() >= 1 {
        MacOSPCIDeviceView { class_name: class_name_spec(record.class_id[0]), ..record }
    } else {
        record
    }
}

/// The record after its subclass was named from the taxonomy. A record
/// without a class code stays as it is.
pub open spec fn with_subclass_name(record: MacOSPCIDeviceView) -> MacOSPCIDeviceView {
    if record.class_id.len() >= 2 {
        MacOSPCIDeviceView {
            subclass_name: subclass_name_spec(record.class_id[0], record.class_id[1]),
            ..record
        }
    } else {
        record
    }
}

/// The query for the name of the vendor of a record.
pub open spec fn vendor_query(record: MacOSPCIDeviceView) -> Option<Query> {
    match word_of(record.vendor_id) {
        Some(vendor) => Some(Query::Vendor(vendor)),
        None => None,
    }
}

/// The query for the name of the device of a record, under its vendor.
pub open spec fn device_query(record: MacOSPCIDeviceView) -> Option<Query> {
    match (word_of(record.vendor_id), word_of(record.device_id)) {
        (Some(vendor), Some(device)) => Some(Query::VendorDevice(vendor, device)),
        _ => None,
    }
}

/// The query for the name of the subsystem of a record, under its device.
pub open spec fn subsystem_query(record: MacOSPCIDeviceView) -> Option<Query> {
    match (
        word_of(record.vendor_id),
        word_of(record.device_id),
        word_of(record.subsystem_vendor_id),
        word_of(record.subsystem_device_id),
    ) {
        (Some(vendor), Some(device), Some(subvendor), Some(subdevice)) => Some(
            Query::DeviceSubsystem(vendor, device, subvendor, subdevice),
        ),
        _ => None,
    }
}

/// The record after the names of its vendor, its device and its subsystem
/// were looked up in the database.
pub open spec fn with_names(record: MacOSPCIDeviceView, db: Seq<u8>) -> MacOSPCIDeviceView {
    MacOSPCIDeviceView {
        vendor_name: name_for(db, vendor_query(record)),
        device_name: name_for(db, device_query(record)),
        subsystem_name: name_for(db, subsystem_query(record)),
        ..record
    }
}

/// The record of a device that was asked for by `path`, with nothing but
/// its directory and its address.
pub open spec fn bare_record(path: Seq<char>) -> MacOSPCIDeviceView {
    MacOSPCIDeviceView {
        path: device_path_of(path),
        address: decode_utf8(address_of(encode_utf8(device_path_of(path)))),
        ..empty_record()
    }
}

/// What a record holds of an attribute that may not have been read.
pub open spec fn taken_or<T>(attribute: Option<Seq<u8>>, taken: spec_fn(Seq<u8>) -> T, before: T) -> T {
    match attribute {
        Some(text) => taken(text),
        None => before,
    }
}

/// The record of the device that was asked for by `path`, made from the
/// texts of its attributes, with its class named from the taxonomy and no
/// name from the database yet.
pub open spec fn record_of(path: Seq<char>, attributes: Attributes) -> MacOSPCIDeviceView {
    let r0 = bare_record(path);
    let r1 = taken_or(bytes_of(attributes.class), |t| with_class_id(r0, t), r0);
    let r2 = MacOSPCIDeviceView {
        vendor_id: taken_or(bytes_of(attributes.vendor), |t| id_or(t, r1.vendor_id), r1.vendor_id),
        device_id: taken_or(bytes_of(attributes.device), |t| id_or(t, r1.device_id), r1.device_id),
        subsystem_vendor_id: taken_or(
            bytes_of(attributes.subsystem_vendor),
            |t| id_or(t, r1.subsystem_vendor_id),
            r1.subsystem_vendor_id,
        ),
        subsystem_device_id: taken_or(
            bytes_of(attributes.subsystem_device),
            |t| id_or(t, r1.subsystem_device_id),
            r1.subsystem_device_id,
        ),
        enabled: taken_or(bytes_of(attributes.enable), |t| flag_of(t), r1.enabled),
        d3cold_allowed: taken_or(
            bytes_of(attributes.d3cold_allowed),
            |t| flag_of(t),
            r1.d3cold_allowed,
        ),
        ..r1
    };
    let r3 = taken_or(bytes_of(attributes.revision), |t| with_revision(r2, t), r2);
    let r4 = taken_or(bytes_of(attributes.numa_node), |t| with_numa_node(r3, t), r3);
    with_subclass_name(with_class_name(r4))
}

/// Returns the two bytes of an identifier, the higher one first.
pub fn id_bytes(id: u16) -> (bytes: Vec<u8>)
    ensures
        bytes@ == word_bytes(id),
        word_of(bytes@) == Some(id),
{
    let mut bytes: Vec<u8> = Vec::new();
    bytes.push((id / 256) as u8);
    bytes.push((id % 256) as u8);
    proof {
        assert(bytes@ =~= word_bytes(id));
    }
    bytes
}

/// Returns the identifier that two bytes stand for, the higher one first,
/// or `None` where the bytes are not two.
pub fn id_from_bytes(bytes: &Vec<u8>) -> (id: Option<u16>)
    ensures
        id == word_of(bytes@),
{
    if bytes.len() == 2 {
        Some(bytes[0] as u16 * 256 + bytes[1] as u16)
    } else {
        None
    }
}

/// Decodes an attribute that shows an identifier into its bytes, or hands
/// back what was there before where the text shows none.
fn read_id(attribute: &str, before: Vec<u8>) -> (bytes: Vec<u8>)
    ensures
        bytes@ == id_or(attribute.spec_bytes(), before@),
{
    match decode_id(attribute) {
        Ok(id) => id_bytes(id),
        Err(_) => before,
    }
}

impl Default for MacOSPCIDevice {
    fn default() -> (record: Self)
        ensures
            record@ == empty_record(),
    {
        MacOSPCIDevice {
            path: String::new(),
            address: String::new(),
            class_name: String::new(),
            subclass_name: String::new(),
            vendor_name: String::new(),
            device_name: String::new(),
            subsystem_name: String::new(),
            class_id: Vec::new(),
            subsystem_vendor_id: Vec::new(),
            subsystem_device_id: Vec::new(),
            device_id: Vec::new(),
            revision: Vec::new(),
            vendor_id: Vec::new(),
            numa_node: -1,
            d3cold_allowed: false,
            enabled: false,
        }
    }
}

impl MacOSPCIDevice {
    /// Makes the record of the device that was asked for by `path` from the
    /// texts of its attributes. The class and the subclass are named from
    /// the taxonomy; the names from the database are left empty, for
    /// [`MacOSPCIDevice::resolve_names`] to fill in.
    pub fn new(path: &str, attributes: &Attributes) -> (record: Self)
        ensures
            record@ == record_of(path@, *attributes),
    {
        let mut record = MacOSPCIDevice::reserved_new(path);
        match &attributes.class {
            Some(text) => record.set_class_id(text.as_str()),
            None => {},
        }
        match &attributes.vendor {
            Some(text) => record.set_vendor_id(text.as_str()),
            None => {},
        }
        match &attributes.device {
            Some(text) => record.set_device_id(text.as_str()),
            None => {},
        }
        match &attributes.subsystem_vendor {
            Some(text) => record.set_subsystem_vendor_id(text.as_str()),
            None => {},
        }
        match &attributes.subsystem_device {
            Some(text) => record.set_subsystem_device_id(text.as_str()),
            None => {},
        }
        match &attributes.enable {
            Some(text) => record.set_enabled(text.as_str()),
            None => {},
        }
        match &attributes.d3cold_allowed {
            Some(text) => record.set_d3cold_allowed(text.as_str()),
            None => {},
        }
        match &attributes.revision {
            Some(text) => record.set_revision(text.as_str()),
            None => {},
        }
        match &attributes.numa_node {
            Some(text) => record.set_numa_node(text.as_str()),
            None => {},
        }
        record.set_class_name();
        record.set_subclass_name();
        record
    }

    /// Makes the record of the device that was asked for by `path`, with
    /// nothing but its directory and its address.
    pub fn reserved_new(path: &str) -> (record: Self)
        ensures
            record@ == bare_record(path@),
    {
        let mut record = MacOSPCIDevice::default();
        record.set_path(path);
        record.set_address();
        record
    }

    /// Returns the directory that sysfs keeps for the device.
    pub fn path(&self) -> (path: String)
        ensures
            path@ == self@.path,
    {
        self.path.clone()
    }

    /// Returns the address of the device.
    pub fn address(&self) -> (address: String)
        ensures
            address@ == self@.address,
    {
        self.address.clone()
    }

    /// Returns the class code: class, subclass and programming interface.
    pub fn class_id(&self) -> (id: Vec<u8>)
        ensures
            id@ == self@.class_id,
    {
        self.class_id.clone()
    }

    /// Returns the vendor identifier.
    pub fn vendor_id(&self) -> (id: Vec<u8>)
        ensures
            id@ == self@.vendor_id,
    {
        self.vendor_id.clone()
    }

    /// Returns the device identifier.
    pub fn device_id(&self) -> (id: Vec<u8>)
        ensures
            id@ == self@.device_id,
    {
        self.device_id.clone()
    }

    /// Returns the NUMA node of the device, `-1` where it belongs to none.
    pub fn numa_node(&self) -> (node: isize)
        ensures
            node == self@.numa_node,
    {
        self.numa_node
    }

    /// Returns the class name.
    pub fn class_name(&self) -> (name: String)
        ensures
            name@ == self@.class_name,
    {
        self.class_name.clone()
    }

    /// Returns the subclass name.
    pub fn subclass_name(&self) -> (name: String)
        ensures
            name@ == self@.subclass_name,
    {
        self.subclass_name.clone()
    }

    /// Returns the vendor name.
    pub fn vendor_name(&self) -> (name: String)
        ensures
            name@ == self@.vendor_name,
    {
        self.vendor_name.clone()
    }

    /// Returns the device name.
    pub fn device_name(&self) -> (name: String)
        ensures
            name@ == self@.device_name,
    {
        self.device_name.clone()
    }

    /// Returns whether the device is enabled.
    pub fn enabled(&self) -> (enabled: bool)
        ensures
            enabled == self@.enabled,
    {
        self.enabled
    }

    /// Returns whether the device may enter the power state D3cold.
    pub fn d3cold_allowed(&self) -> (allowed: bool)
        ensures
            allowed == self@.d3cold_allowed,
    {
        self.d3cold_allowed
    }

    /// Returns the revision.
    pub fn revision(&self) -> (revision: Vec<u8>)
        ensures
            revision@ == self@.revision,
    {
        self.revision.clone()
    }

    /// Returns the subsystem name.
    pub fn subsystem_name(&self) -> (name: String)
        ensures
            name@ == self@.subsystem_name,
    {
        self.subsystem_name.clone()
    }

    /// Returns the identifier of the subsystem vendor.
    pub fn subsystem_vendor_id(&self) -> (id: Vec<u8>)
        ensures
            id@ == self@.subsystem_vendor_id,
    {
        self.subsystem_vendor_id.clone()
    }

    /// Returns the identifier of the subsystem device.
    pub fn subsystem_device_id(&self) -> (id: Vec<u8>)
        ensures
            id@ == self@.subsystem_device_id,
    {
        self.subsystem_device_id.clone()
    }

    /// Sets the directory of the device from the path that was asked for.
    pub fn set_path(&mut self, p: &str)
        ensures
            final(self)@ == (MacOSPCIDeviceView { path: device_path_of(p@), ..old(self)@ }),
    {
        self.path = device_path(p);
    }

    /// Sets the address of the device from its directory.
    pub fn set_address(&mut self)
        ensures
            final(self)@ == (MacOSPCIDeviceView {
                address: decode_utf8(address_of(encode_utf8(old(self)@.path))),
                ..old(self)@
            }),
    {
        let address = device_address(self.path.as_str());
        proof {
            encode_utf8_decode_utf8(address@);
        }
        self.address = address;
    }

    /// Sets the class code from the text of the attribute `class`.
    pub fn set_class_id(&mut self, attribute: &str)
        ensures
            final(self)@ == with_class_id(old(self)@, attribute.spec_bytes()),
    {
        match decode_class(attribute) {
            Ok(code) => {
                let mut id: Vec<u8> = Vec::new();
                id.push(code.class);
                id.push(code.subclass);
                id.push(code.prog_if);
                proof {
                    assert(id@ =~= seq![code.class, code.subclass, code.prog_if]);
                }
                self.class_id = id;
            },
            Err(_) => {},
        }
    }

    /// Sets the vendor identifier from the text of the attribute `vendor`.
    pub fn set_vendor_id(&mut self, attribute: &str)
        ensures
            final(self)@ == (MacOSPCIDeviceView {
                vendor_id: id_or(attribute.spec_bytes(), old(self)@.vendor_id),
                ..old(self)@
            }),
    {
        let before = self.vendor_id.clone();
        self.vendor_id = read_id(attribute, before);
    }

    /// Sets the device identifier from the text of the attribute `device`.
    pub fn set_device_id(&mut self, attribute: &str)
        ensures
            final(self)@ == (MacOSPCIDeviceView {
                device_id: id_or(attribute.spec_bytes(), old(self)@.device_id),
                ..old(self)@
            }),
    {
        let before = self.device_id.clone();
        self.device_id = read_id(attribute, before);
    }

    /// Sets the revision from the text of the attribute `revision`.
    pub fn set_revision(&mut self, attribute: &str)
        ensures
            final(self)@ == with_revision(old(self)@, attribute.spec_bytes()),
    {
        match decode_revision(attribute) {
            Ok(revision) => {
                let mut bytes: Vec<u8> = Vec::new();
                bytes.push(revision);
                proof {
                    assert(bytes@ =~= seq![revision]);
                }
                self.revision = bytes;
            },
            Err(_) => {},
        }
    }

    /// Sets the NUMA node from the text of the attribute `numa_node`.
    pub fn set_numa_node(&mut self, attribute: &str)
        ensures
            final(self)@ == with_numa_node(old(self)@, attribute.spec_bytes()),
    {
        match decode_numa_node(attribute) {
            Ok(node) => {
                self.numa_node = node as isize;
            },
            Err(_) => {},
        }
    }

    /// Sets the identifier of the subsystem vendor from the text of the
    /// attribute `subsystem_vendor`.
    pub fn set_subsystem_vendor_id(&mut self, attribute: &str)
        ensures
            final(self)@ == (MacOSPCIDeviceView {
                subsystem_vendor_id: id_or(
                    attribute.spec_bytes(),
                    old(self)@.subsystem_vendor_id,
                ),
                ..old(self)@
            }),
    {
        let before = self.subsystem_vendor_id.clone();
        self.subsystem_vendor_id = read_id(attribute, before);
    }

    /// Sets the identifier of the subsystem device from the text of the
    /// attribute `subsystem_device`.
    pub fn set_subsystem_device_id(&mut self, attribute: &str)
        ensures
            final(self)@ == (MacOSPCIDeviceView {
                subsystem_device_id: id_or(
                    attribute.spec_bytes(),
                    old(self)@.subsystem_device_id,
                ),
                ..old(self)@
            }),
    {
        let before = self.subsystem_device_id.clone();
        self.subsystem_device_id = read_id(attribute, before);
    }

    /// Names the class of the device from the taxonomy.
    pub fn set_class_name(&mut self)
        ensures
            final(self)@ == with_class_name(old(self)@),
    {
        if self.class_id.len() >= 1 {
            self.class_name = class_name(self.class_id[0]);
        }
    }

    /// Names the subclass of the device from the taxonomy.
    pub fn set_subclass_name(&mut self)
        ensures
            final(self)@ == with_subclass_name(old(self)@),
    {
        if self.class_id.len() >= 2 {
            self.subclass_name = subclass_name(self.class_id[0], self.class_id[1]);
        }
    }

    /// Returns the queries for the names of the record: for its vendor, its
    /// device and its subsystem, in this order.
    fn queries(&self) -> (queries: Vec<Option<Query>>)
        ensures
            queries.len() == 3,
            queries[0] == vendor_query(self@),
            queries[1] == device_query(self@),
            queries[2] == subsystem_query(self@),
    {
        let vendor = id_from_bytes(&self.vendor_id);
        let device = id_from_bytes(&self.device_id);
        let subvendor = id_from_bytes(&self.subsystem_vendor_id);
        let subdevice = id_from_bytes(&self.subsystem_device_id);
        let mut queries: Vec<Option<Query>> = Vec::new();
        queries.push(
            match vendor {
                Some(v) => Some(Query::Vendor(v)),
                None => None,
            },
        );
        queries.push(
            match (vendor, device) {
                (Some(v), Some(d)) => Some(Query::VendorDevice(v, d)),
                _ => None,
            },
        );
        queries.push(
            match (vendor, device, subvendor, subdevice) {
                (Some(v), Some(d), Some(sv), Some(sd)) => Some(
                    Query::DeviceSubsystem(v, d, sv, sd),
                ),
                _ => None,
            },
        );
        queries
    }

    /// Sets the vendor name from the text of the `pci.ids` database.
    pub fn set_vendor_name(&mut self, pci_ids: &str)
        ensures
            final(self)@ == (MacOSPCIDeviceView {
                vendor_name: name_for(pci_ids.spec_bytes(), vendor_query(old(self)@)),
                ..old(self)@
            }),
    {
        let mut queries = self.queries();
        queries.truncate(1);
        let mut names = resolve_names(pci_ids, &queries);
        self.vendor_name = names.pop().unwrap();
    }

    /// Sets the device name from the text of the `pci.ids` database.
    pub fn set_device_name(&mut self, pci_ids: &str)
        ensures
            final(self)@ == (MacOSPCIDeviceView {
                device_name: name_for(pci_ids.spec_bytes(), device_query(old(self)@)),
                ..old(self)@
            }),
    {
        let mut queries = self.queries();
        queries.truncate(2);
        let mut names = resolve_names(pci_ids, &queries);
        self.device_name = names.pop().unwrap();
    }

    /// Sets the subsystem name from the text of the `pci.ids` database.
    pub fn set_subsystem_name(&mut self, pci_ids: &str)
        ensures
            final(self)@ == (MacOSPCIDeviceView {
                subsystem_name: name_for(pci_ids.spec_bytes(), subsystem_query(old(self)@)),
                ..old(self)@
            }),
    {
        let queries = self.queries();
        let mut names = resolve_names(pci_ids, &queries);
        self.subsystem_name = names.pop().unwrap();
    }

    /// Sets the names of the vendor, the device and the subsystem from the
    /// text of the `pci.ids` database, in one pass over it.
    pub fn resolve_names(&mut self, pci_ids: &str)
        ensures
            final(self)@ == with_names(old(self)@, pci_ids.spec_bytes()),
    {
        let queries = self.queries();
        let mut names = resolve_names(pci_ids, &queries);
        self.subsystem_name = names.pop().unwrap();
        self.device_name = names.pop().unwrap();
        self.vendor_name = names.pop().unwrap();
    }

    /// Sets whether the device is enabled from the text of the attribute
    /// `enable`.
    pub fn set_enabled(&mut self, attribute: &str)
        ensures
            final(self)@ == (MacOSPCIDeviceView {
                enabled: flag_of(attribute.spec_bytes()),
                ..old(self)@
            }),
    {
        self.enabled = decode_flag(attribute);
    }

    /// Sets whether the device may enter D3cold from the text of the
    /// attribute `d3cold_allowed`.
    pub fn set_d3cold_allowed(&mut self, attribute: &str)
        ensures
            final(self)@ == (MacOSPCIDeviceView {
                d3cold_allowed: flag_of(attribute.spec_bytes()),
                ..old(self)@
            }),
    {
        self.d3cold_allowed = decode_flag(attribute);
    }
}

/// Looking the names of a record up a second time changes nothing: the
/// names depend on the identifiers of the record and on the database alone.
pub proof fn lemma_resolve_names_idempotent(record: MacOSPCIDeviceView, db: Seq<u8>)
    ensures
        with_names(with_names(record, db), db) == with_names(record, db),
{
}

} // verus!
