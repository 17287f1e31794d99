use aparato::macos::{id_bytes, id_from_bytes, MacOSPCIDevice};
use aparato::sysfs::Attributes;

const PCI_IDS: &str = "\
8086  Intel Corporation
\t1237  440FX - 82441FX PMC [Natoma]
\t\t1af4 1100  Qemu virtual machine
10de  NVIDIA Corporation
\t1f99  TU117M [GeForce GTX 1650 Mobile / Max-Q]
";

fn attributes() -> Attributes {
    Attributes {
        class: Some(String::from("0x030000\n")),
        vendor: Some(String::from("0x10de\n")),
        device: Some(String::from("0x1f99\n")),
        subsystem_vendor: Some(String::from("0x17aa\n")),
        subsystem_device: Some(String::from("0x2297\n")),
        revision: Some(String::from("0xa1\n")),
        numa_node: Some(String::from("2\n")),
        enable: Some(String::from("1\n")),
        d3cold_allowed: Some(String::from("0\n")),
    }
}

#[test]
fn default_record_is_empty() {
    let record = MacOSPCIDevice::default();
    assert_eq!(record.path(), "");
    assert_eq!(record.address(), "");
    assert_eq!(record.class_id(), Vec::<u8>::new());
    assert_eq!(record.vendor_id(), Vec::<u8>::new());
    assert_eq!(record.device_id(), Vec::<u8>::new());
    assert_eq!(record.subsystem_vendor_id(), Vec::<u8>::new());
    assert_eq!(record.subsystem_device_id(), Vec::<u8>::new());
    assert_eq!(record.revision(), Vec::<u8>::new());
    assert_eq!(record.numa_node(), -1);
    assert!(!record.enabled());
    assert!(!record.d3cold_allowed());
    assert_eq!(record.class_name(), "");
    assert_eq!(record.subclass_name(), "");
    assert_eq!(record.vendor_name(), "");
    assert_eq!(record.device_name(), "");
    assert_eq!(record.subsystem_name(), "");
}

#[test]
fn reserved_new_knows_path_and_address() {
    let record = MacOSPCIDevice::reserved_new("00:02.0");
    assert_eq!(record.path(), "/sys/bus/pci/devices/0000:00:02.0");
    assert_eq!(record.address(), "00:02.0");
    assert_eq!(record.class_id(), Vec::<u8>::new());
    assert_eq!(record.numa_node(), -1);
    let other = MacOSPCIDevice::reserved_new("0001:00:02.0");
    assert_eq!(other.address(), "0001:00:02.0");
}

#[test]
fn new_takes_the_attributes_in() {
    let record = MacOSPCIDevice::new("0000:01:00.0", &attributes());
    assert_eq!(record.path(), "/sys/bus/pci/devices/0000:01:00.0");
    assert_eq!(record.address(), "01:00.0");
    assert_eq!(record.class_id(), vec![0x03, 0x00, 0x00]);
    assert_eq!(record.vendor_id(), vec![0x10, 0xde]);
    assert_eq!(record.device_id(), vec![0x1f, 0x99]);
    assert_eq!(record.subsystem_vendor_id(), vec![0x17, 0xaa]);
    assert_eq!(record.subsystem_device_id(), vec![0x22, 0x97]);
    assert_eq!(record.revision(), vec![0xa1]);
    assert_eq!(record.numa_node(), 2);
    assert!(record.enabled());
    assert!(!record.d3cold_allowed());
    assert_eq!(record.class_name(), "Display Controller");
    assert_eq!(record.subclass_name(), "VGA Compatible Controller");
    assert_eq!(record.vendor_name(), "");
    assert_eq!(record.device_name(), "");
    assert_eq!(record.subsystem_name(), "");
}

#[test]
fn names_are_resolved_in_a_second_step() {
    let mut record = MacOSPCIDevice::new("0000:01:00.0", &attributes());
    record.resolve_names(PCI_IDS);
    assert_eq!(record.vendor_name(), "NVIDIA Corporation");
    assert_eq!(record.device_name(), "TU117M [GeForce GTX 1650 Mobile / Max-Q]");
    assert_eq!(record.subsystem_name(), "");
    assert_eq!(record.class_name(), "Display Controller");
}

#[test]
fn resolving_names_twice_changes_nothing() {
    let mut record = MacOSPCIDevice::new("0000:01:00.0", &attributes());
    record.resolve_names(PCI_IDS);
    let first = (record.vendor_name(), record.device_name(), record.subsystem_name());
    record.resolve_names(PCI_IDS);
    let second = (record.vendor_name(), record.device_name(), record.subsystem_name());
    assert_eq!(first, second);
    assert_eq!(record.vendor_id(), vec![0x10, 0xde]);
}

#[test]
fn single_names() {
    let mut attributes = attributes();
    attributes.vendor = Some(String::from("0x8086\n"));
    attributes.device = Some(String::from("0x1237\n"));
    attributes.subsystem_vendor = Some(String::from("0x1af4\n"));
    attributes.subsystem_device = Some(String::from("0x1100\n"));
    let mut record = MacOSPCIDevice::new("00:00.0", &attributes);
    record.set_vendor_name(PCI_IDS);
    assert_eq!(record.vendor_name(), "Intel Corporation");
    assert_eq!(record.device_name(), "");
    record.set_device_name(PCI_IDS);
    assert_eq!(record.device_name(), "440FX - 82441FX PMC [Natoma]");
    assert_eq!(record.subsystem_name(), "");
    record.set_subsystem_name(PCI_IDS);
    assert_eq!(record.subsystem_name(), "Qemu virtual machine");
    record.set_vendor_name("");
    assert_eq!(record.vendor_name(), "");
    assert_eq!(record.device_name(), "440FX - 82441FX PMC [Natoma]");
}

#[test]
fn attributes_that_are_missing_or_malformed_leave_the_defaults() {
    let attributes = Attributes {
        class: Some(String::from("0x0300\n")),
        vendor: None,
        device: Some(String::from("1f99\n")),
        subsystem_vendor: None,
        subsystem_device: None,
        revision: Some(String::from("a1")),
        numa_node: Some(String::from("none\n")),
        enable: None,
        d3cold_allowed: None,
    };
    let mut record = MacOSPCIDevice::new("00:02.0", &attributes);
    assert_eq!(record.class_id(), Vec::<u8>::new());
    assert_eq!(record.vendor_id(), Vec::<u8>::new());
    assert_eq!(record.device_id(), Vec::<u8>::new());
    assert_eq!(record.revision(), Vec::<u8>::new());
    assert_eq!(record.numa_node(), -1);
    assert!(!record.enabled());
    assert_eq!(record.class_name(), "");
    assert_eq!(record.subclass_name(), "");
    record.resolve_names(PCI_IDS);
    assert_eq!(record.vendor_name(), "");
    assert_eq!(record.device_name(), "");
}

#[test]
fn setters_keep_what_was_there_on_a_malformed_text() {
    let mut record = MacOSPCIDevice::new("00:02.0", &attributes());
    record.set_vendor_id("nonsense");
    record.set_class_id("0x03");
    record.set_revision("");
    record.set_numa_node("99999999999");
    record.set_device_id("0x1f9");
    record.set_subsystem_vendor_id("0x");
    record.set_subsystem_device_id("17aa");
    assert_eq!(record.vendor_id(), vec![0x10, 0xde]);
    assert_eq!(record.device_id(), vec![0x1f, 0x99]);
    assert_eq!(record.class_id(), vec![0x03, 0x00, 0x00]);
    assert_eq!(record.revision(), vec![0xa1]);
    assert_eq!(record.numa_node(), 2);
    assert_eq!(record.subsystem_vendor_id(), vec![0x17, 0xaa]);
    assert_eq!(record.subsystem_device_id(), vec![0x22, 0x97]);
    record.set_vendor_id("0x8086");
    record.set_numa_node("-1");
    record.set_enabled("0");
    record.set_d3cold_allowed("1");
    record.set_class_id("0x010802");
    record.set_class_name();
    record.set_subclass_name();
    record.set_path("/sys/devices/pci0000:00/0000:00:1f.2");
    record.set_address();
    assert_eq!(record.vendor_id(), vec![0x80, 0x86]);
    assert_eq!(record.numa_node(), -1);
    assert!(!record.enabled());
    assert!(record.d3cold_allowed());
    assert_eq!(record.class_name(), "Mass Storage Controller");
    assert_eq!(record.subclass_name(), "Non-Volatile Memory Controller");
    assert_eq!(record.path(), "/sys/devices/pci0000:00/0000:00:1f.2");
    assert_eq!(record.address(), "00:1f.2");
}

#[test]
fn identifiers_as_bytes() {
    assert_eq!(id_bytes(0x8086), vec![0x80, 0x86]);
    assert_eq!(id_bytes(0x00ff), vec![0x00, 0xff]);
    assert_eq!(id_bytes(0xffff), vec![0xff, 0xff]);
    assert_eq!(id_from_bytes(&vec![0x80, 0x86]), Some(0x8086));
    assert_eq!(id_from_bytes(&vec![0xff, 0xff]), Some(0xffff));
    assert_eq!(id_from_bytes(&vec![0x80]), None);
    assert_eq!(id_from_bytes(&vec![]), None);
    assert_eq!(id_from_bytes(&vec![1, 2, 3]), None);
}
