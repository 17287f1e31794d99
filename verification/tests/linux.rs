use aparato::linux::LinuxPCIDevice;
use aparato::sysfs::Attributes;
use aparato::Device;
use std::path::PathBuf;

const PLACEHOLDER_PCI_DEVICE: &str = "0000:00:00.0";

const PCI_IDS: &str = "\
# A small database.
8086  Intel Corporation
\t1237  440FX - 82441FX PMC [Natoma]
\t\t1af4 1100  Qemu virtual machine
C 06  Bridge
\t00  Host bridge
\t01  ISA bridge
";

fn attributes() -> Attributes {
    Attributes {
        class: Some(String::from("0x060000\n")),
        vendor: Some(String::from("0x8086\n")),
        device: Some(String::from("0x1237\n")),
        subsystem_vendor: Some(String::from("0x1af4\n")),
        subsystem_device: Some(String::from("0x1100\n")),
        revision: Some(String::from("0x02\n")),
        numa_node: Some(String::from("-1\n")),
        enable: Some(String::from("1\n")),
        d3cold_allowed: Some(String::from("0\n")),
    }
}

#[test]
fn test_path() {
    let device = LinuxPCIDevice::new(PLACEHOLDER_PCI_DEVICE, &attributes(), PCI_IDS);
    assert_ne!(PathBuf::from(device.path()), PathBuf::new());
}

#[test]
fn test_class() {
    let device = LinuxPCIDevice::new(PLACEHOLDER_PCI_DEVICE, &attributes(), PCI_IDS);
    assert_ne!(device.device(), "");
}

#[test]
fn test_vendor() {
    let device = LinuxPCIDevice::new(PLACEHOLDER_PCI_DEVICE, &attributes(), PCI_IDS);
    assert_ne!(device.vendor(), "");
}

#[test]
fn test_device() {
    let device = LinuxPCIDevice::new(PLACEHOLDER_PCI_DEVICE, &attributes(), PCI_IDS);
    assert_ne!(device.device(), "");
}

#[test]
fn test_subsystem_vendor() {
    let device = LinuxPCIDevice::new(PLACEHOLDER_PCI_DEVICE, &attributes(), PCI_IDS);
    assert_ne!(device.subsystem_vendor(), "");
}

#[test]
fn test_subsystem_device() {
    let device = LinuxPCIDevice::new(PLACEHOLDER_PCI_DEVICE, &attributes(), PCI_IDS);
    assert_ne!(device.subsystem_device(), "");
}

#[test]
fn test_class_name() {
    let device = LinuxPCIDevice::new(PLACEHOLDER_PCI_DEVICE, &attributes(), PCI_IDS);
    assert_ne!(device.class_name(), "");
}

#[test]
fn new_fills_every_field() {
    let device = LinuxPCIDevice::new(PLACEHOLDER_PCI_DEVICE, &attributes(), PCI_IDS);
    assert_eq!(device.path(), "/sys/bus/pci/devices/0000:00:00.0");
    assert_eq!(device.class(), "06");
    assert_eq!(device.subclass(), "00");
    assert_eq!(device.prog_if(), "00");
    assert_eq!(device.vendor(), "8086");
    assert_eq!(device.device(), "1237");
    assert_eq!(device.subsystem_vendor(), "1af4");
    assert_eq!(device.subsystem_device(), "1100");
    assert_eq!(device.class_name(), "Bridge");
    assert_eq!(device.subclass_name(), "Host bridge");
    assert_eq!(device.prog_if_name(), "");
    assert_eq!(device.vendor_name(), "Intel Corporation");
    assert_eq!(device.device_name(), "440FX - 82441FX PMC [Natoma]");
    assert_eq!(device.subsystem_name(), "Qemu virtual machine");
    assert!(device.enabled());
}
