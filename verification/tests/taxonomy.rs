use aparato::classes::{class_name, DeviceClass};
use aparato::subclasses::{
    prog_if_name, resolve_prog_if, resolve_subclass, subclass_name, DeviceSubclass,
};

const DEFINED: [(u8, DeviceClass, &str); 22] = [
    (0x00, DeviceClass::Unclassified, "Unclassified"),
    (0x01, DeviceClass::MassStorageController, "Mass Storage Controller"),
    (0x02, DeviceClass::NetworkController, "Network Controller"),
    (0x03, DeviceClass::DisplayController, "Display Controller"),
    (0x04, DeviceClass::MultimediaController, "Multimedia Controller"),
    (0x05, DeviceClass::MemoryController, "Memory Controller"),
    (0x06, DeviceClass::Bridge, "Bridge"),
    (0x07, DeviceClass::CommunicationController, "Communication Controller"),
    (0x08, DeviceClass::GenericSystemPeripheral, "Generic System Peripheral"),
    (0x09, DeviceClass::InputDeviceController, "Input Device Controller"),
    (0x0a, DeviceClass::DockingStation, "Docking Station"),
    (0x0b, DeviceClass::Processor, "Processor"),
    (0x0c, DeviceClass::SerialBusController, "Serial Bus Controller"),
    (0x0d, DeviceClass::WirelessController, "Wireless Controller"),
    (0x0e, DeviceClass::IntelligentController, "Intelligent Controller"),
    (
        0x0f,
        DeviceClass::SatelliteCommunicationsController,
        "Satellite Communications Controller",
    ),
    (0x10, DeviceClass::EncryptionController, "Encryption Controller"),
    (0x11, DeviceClass::SignalProcessingController, "Signal Processing Controller"),
    (0x12, DeviceClass::ProcessingAccelerator, "Processing Accelerators"),
    (0x13, DeviceClass::NonEssentialInstrumentation, "Non Essential Instrumentation"),
    (0x40, DeviceClass::Coprocessor, "Coprocessor"),
    (0xff, DeviceClass::Unassigned, "Unassigned"),
];

#[test]
fn defined_classes_have_their_names() {
    for (code, class, name) in DEFINED {
        assert_eq!(class_name(code), name);
        assert_eq!(DeviceClass::from_code(code), class);
        assert_eq!(class.code(), code);
        assert_eq!(class.name(), name);
        assert_eq!(class.to_string(), name);
    }
    assert_eq!(class_name(0x01), "Mass Storage Controller");
    assert_eq!(class_name(0x03), "Display Controller");
}

#[test]
fn undefined_classes_are_unclassified() {
    assert_eq!(class_name(0x20), "Unclassified");
    assert_eq!(class_name(0x99), "Unclassified");
    for code in 0u8..=255 {
        let defined = DEFINED.iter().any(|(c, _, _)| *c == code);
        if !defined {
            assert_eq!(class_name(code), "Unclassified");
            assert_eq!(DeviceClass::from_code(code), DeviceClass::Unclassified);
        }
    }
}

#[test]
fn subclasses_refine_or_fall_back() {
    assert_eq!(subclass_name(0x01, 0x06), "SATA Controller");
    assert_eq!(subclass_name(0x03, 0x00), "VGA Compatible Controller");
    assert_eq!(subclass_name(0x01, 0x7f), "Mass Storage Controller");
    assert_eq!(subclass_name(0x01, 0x50), "Mass Storage Controller");
    assert_eq!(subclass_name(0x03, 0x02), "3D Controller");
    assert_eq!(subclass_name(0x03, 0x80), "Display Controller");
    assert_eq!(subclass_name(0x02, 0x00), "Network Controller");
    assert_eq!(subclass_name(0x99, 0x00), "Unclassified");
    assert_eq!(resolve_subclass(0x01, 0x08), Some("Non-Volatile Memory Controller"));
    assert_eq!(resolve_subclass(0x01, 0x09), None);
    assert_eq!(resolve_subclass(0x06, 0x00), None);
}

#[test]
fn every_pair_has_a_name() {
    for class in 0u8..=255 {
        for subclass in 0u8..=255 {
            assert!(!subclass_name(class, subclass).is_empty());
        }
    }
}

#[test]
fn mass_storage_table() {
    let names = [
        "SCSI Storage Controller",
        "IDE Interface",
        "Floppy Disk Controller",
        "IPI Bus Controller",
        "RAID Bus Controller",
        "ATA Controller",
        "SATA Controller",
        "Serial Attached SCSI Controller",
        "Non-Volatile Memory Controller",
    ];
    for (code, name) in names.iter().enumerate() {
        assert_eq!(subclass_name(0x01, code as u8), *name);
        assert_eq!(DeviceSubclass::MassStorageController(code as u8).to_string(), *name);
    }
    assert_eq!(
        DeviceSubclass::MassStorageController(0x7f).to_string(),
        "Mass Storage Controller"
    );
    assert_eq!(DeviceSubclass::DisplayController(0x01).name(), "XGA Compatible Controller");
    assert_eq!(DeviceSubclass::DisplayController(0x09).name(), "Display Controller");
}

#[test]
fn subclass_from_codes() {
    assert_eq!(
        DeviceSubclass::from_codes(0x01, 0x06),
        Some(DeviceSubclass::MassStorageController(0x06))
    );
    assert_eq!(
        DeviceSubclass::from_codes(0x03, 0x00),
        Some(DeviceSubclass::DisplayController(0x00))
    );
    assert_eq!(DeviceSubclass::from_codes(0x02, 0x00), None);
    let subclass = DeviceSubclass::MassStorageController(0x06);
    assert_eq!(subclass.class(), DeviceClass::MassStorageController);
    assert_eq!(subclass.code(), 0x06);
}

#[test]
fn programming_interfaces_refine_or_fall_back() {
    assert_eq!(resolve_prog_if(0x01, 0x06, 0x01), Some("AHCI 1.0"));
    assert_eq!(resolve_prog_if(0x01, 0x08, 0x02), Some("NVM Express"));
    assert_eq!(resolve_prog_if(0x03, 0x00, 0x00), Some("VGA Controller"));
    assert_eq!(resolve_prog_if(0x03, 0x00, 0x02), None);
    assert_eq!(resolve_prog_if(0x02, 0x00, 0x00), None);
    assert_eq!(prog_if_name(0x01, 0x06, 0x01), "AHCI 1.0");
    assert_eq!(prog_if_name(0x01, 0x06, 0x7f), "SATA Controller");
    assert_eq!(prog_if_name(0x01, 0x7f, 0x00), "Mass Storage Controller");
    assert_eq!(prog_if_name(0x99, 0x00, 0x00), "Unclassified");
}
