use aparato::extra::basename;
use aparato::sysfs::{
    decode_class, decode_flag, decode_id, decode_numa_node, decode_revision, device_address,
    device_path, ClassCode,
};
use aparato::Error;

#[test]
fn class_attribute() {
    assert_eq!(
        decode_class("0x030000\n"),
        Ok(ClassCode { class: 0x03, subclass: 0x00, prog_if: 0x00 })
    );
    assert_eq!(
        decode_class("0x0C0330"),
        Ok(ClassCode { class: 0x0c, subclass: 0x03, prog_if: 0x30 })
    );
    assert_eq!(
        decode_class("  0x010601\r\n"),
        Ok(ClassCode { class: 0x01, subclass: 0x06, prog_if: 0x01 })
    );
    assert_eq!(decode_class("0x0300\n"), Err(Error::Invalid));
    assert_eq!(decode_class("0x03000000\n"), Err(Error::Invalid));
    assert_eq!(decode_class("030000\n"), Err(Error::Invalid));
    assert_eq!(decode_class("0X030000\n"), Err(Error::Invalid));
    assert_eq!(decode_class("0x03g000\n"), Err(Error::Invalid));
    assert_eq!(decode_class("0x03 000\n"), Err(Error::Invalid));
    assert_eq!(decode_class(""), Err(Error::Invalid));
    assert_eq!(decode_class("\n"), Err(Error::Invalid));
}

#[test]
fn identifier_attribute() {
    assert_eq!(decode_id("0x8086\n"), Ok(0x8086));
    assert_eq!(decode_id("0x1af4"), Ok(0x1af4));
    assert_eq!(decode_id("0xFFFF\n"), Ok(0xffff));
    assert_eq!(decode_id("0x0000\n"), Ok(0));
    assert_eq!(decode_id("0x808\n"), Err(Error::Invalid));
    assert_eq!(decode_id("0x80866\n"), Err(Error::Invalid));
    assert_eq!(decode_id("8086\n"), Err(Error::Invalid));
    assert_eq!(decode_id("0x80 6\n"), Err(Error::Invalid));
    assert_eq!(decode_id("0x"), Err(Error::Invalid));
    assert_eq!(decode_id("0"), Err(Error::Invalid));
}

#[test]
fn revision_attribute() {
    assert_eq!(decode_revision("0x02\n"), Ok(0x02));
    assert_eq!(decode_revision("0xa1\n"), Ok(0xa1));
    assert_eq!(decode_revision("0x2\n"), Err(Error::Invalid));
    assert_eq!(decode_revision("0x002\n"), Err(Error::Invalid));
    assert_eq!(decode_revision("02\n"), Err(Error::Invalid));
}

#[test]
fn flag_attribute() {
    assert!(!decode_flag("0"));
    assert!(!decode_flag("0\n"));
    assert!(!decode_flag(" 0 \n"));
    assert!(decode_flag("1\n"));
    assert!(decode_flag("10\n"));
    assert!(decode_flag("00\n"));
    assert!(decode_flag("yes"));
    assert!(decode_flag(""));
    assert!(decode_flag("\n"));
}

#[test]
fn numa_node_attribute() {
    assert_eq!(decode_numa_node("-1\n"), Ok(-1));
    assert_eq!(decode_numa_node("0\n"), Ok(0));
    assert_eq!(decode_numa_node("3"), Ok(3));
    assert_eq!(decode_numa_node("007\n"), Ok(7));
    assert_eq!(decode_numa_node("-0\n"), Ok(0));
    assert_eq!(decode_numa_node("1024\n"), Ok(1024));
    assert_eq!(decode_numa_node("2147483647\n"), Ok(i32::MAX));
    assert_eq!(decode_numa_node("-2147483648\n"), Ok(i32::MIN));
    assert_eq!(decode_numa_node("2147483648\n"), Err(Error::Other));
    assert_eq!(decode_numa_node("-2147483649\n"), Err(Error::Other));
    assert_eq!(decode_numa_node("99999999999999999999999999\n"), Err(Error::Other));
    assert_eq!(decode_numa_node("-99999999999999999999999999\n"), Err(Error::Other));
    assert_eq!(decode_numa_node(""), Err(Error::Invalid));
    assert_eq!(decode_numa_node("\n"), Err(Error::Invalid));
    assert_eq!(decode_numa_node("-"), Err(Error::Invalid));
    assert_eq!(decode_numa_node("--1"), Err(Error::Invalid));
    assert_eq!(decode_numa_node("+1"), Err(Error::Invalid));
    assert_eq!(decode_numa_node("1 2"), Err(Error::Invalid));
    assert_eq!(decode_numa_node("0x1"), Err(Error::Invalid));
    assert_eq!(decode_numa_node("99999999999999999999999999x"), Err(Error::Invalid));
}

#[test]
fn device_paths() {
    assert_eq!(device_path("00:02.0"), "/sys/bus/pci/devices/0000:00:02.0");
    assert_eq!(device_path("0000:00:02.0"), "/sys/bus/pci/devices/0000:00:02.0");
    assert_eq!(
        device_path("/sys/bus/pci/devices/0000:00:02.0"),
        "/sys/bus/pci/devices/0000:00:02.0"
    );
    assert_eq!(device_path("0001:3a:1f.7"), "/sys/bus/pci/devices/0001:3a:1f.7");
    assert_eq!(device_path("/elsewhere"), "/elsewhere");
    assert_eq!(device_path(""), "/sys/bus/pci/devices/");
    assert_eq!(device_path("ab:cd-e"), "/sys/bus/pci/devices/ab:cd-e");
}

#[test]
fn device_addresses() {
    assert_eq!(device_address("/sys/bus/pci/devices/0000:00:02.0"), "00:02.0");
    assert_eq!(device_address("/sys/bus/pci/devices/0001:00:02.0"), "0001:00:02.0");
    assert_eq!(device_address("0000:3a:00.1"), "3a:00.1");
    assert_eq!(device_address("00:02.0"), "00:02.0");
    assert_eq!(device_address("/sys/bus/pci/devices/"), "");
    assert_eq!(device_address("/0000:"), "");
    assert_eq!(device_address("/0000:/x"), "x");
    assert_eq!(device_address(""), "");
}

#[test]
fn basenames() {
    assert_eq!(basename(String::from("/sys/bus/pci/devices/0000:00:02.0")), "0000:00:02.0");
    assert_eq!(basename(String::from("0000:00:02.0")), "0000:00:02.0");
    assert_eq!(basename(String::from("/usr/share/hwdata/pci.ids")), "pci.ids");
    assert_eq!(basename(String::from("a/b/")), "");
    assert_eq!(basename(String::from("/")), "");
    assert_eq!(basename(String::from("")), "");
    assert_eq!(basename(String::from("päth/näme")), "näme");
}
