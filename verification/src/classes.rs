//! The base classes of the PCI class-code register.

use vstd::prelude::*;
use vstd::string::StringExecFns;

verus! {

/// A base class of the PCI class-code register.
///
/// Every class byte belongs to exactly one category: the bytes that the
/// register leaves undefined count as [`DeviceClass::Unclassified`].
#[derive(Clone, Copy, Debug, PartialEq, Eq, Structural)]
pub enum DeviceClass {
    Unclassified,
    MassStorageController,
    NetworkController,
    DisplayController,
    MultimediaController,
    MemoryController,
    Bridge,
    CommunicationController,
    GenericSystemPeripheral,
    InputDeviceController,
    DockingStation,
    Processor,
    SerialBusController,
    WirelessController,
    IntelligentController,
    SatelliteCommunicationsController,
    EncryptionController,
    SignalProcessingController,
    ProcessingAccelerator,
    NonEssentialInstrumentation,
    Coprocessor,
    Unassigned,
}

/// The class bytes that the register defines: `0x00` to `0x13`, `0x40` and `0xff`.
pub open spec fn is_defined_class(code: u8) -> bool {
    code <= 0x13 || code == 0x40 || code == 0xff
}

impl DeviceClass {
    /// The class byte of a category.
    pub open spec fn spec_code(self) -> u8 {
        match self {
            DeviceClass::Unclassified => 0x00,
            DeviceClass::MassStorageController => 0x01,
            DeviceClass::NetworkController => 0x02,
            DeviceClass::DisplayController => 0x03,
            DeviceClass::MultimediaController => 0x04,
            DeviceClass::MemoryController => 0x05,
            DeviceClass::Bridge => 0x06,
            DeviceClass::CommunicationController => 0x07,
            DeviceClass::GenericSystemPeripheral => 0x08,
            DeviceClass::InputDeviceController => 0x09,
            DeviceClass::DockingStation => 0x0a,
            DeviceClass::Processor => 0x0b,
            DeviceClass::SerialBusController => 0x0c,
            DeviceClass::WirelessController => 0x0d,
            DeviceClass::IntelligentController => 0x0e,
            DeviceClass::SatelliteCommunicationsController => 0x0f,
            DeviceClass::EncryptionController => 0x10,
            DeviceClass::SignalProcessingController => 0x11,
            DeviceClass::ProcessingAccelerator => 0x12,
            DeviceClass::NonEssentialInstrumentation => 0x13,
            DeviceClass::Coprocessor => 0x40,
            DeviceClass::Unassigned => 0xff,
        }
    }

    /// The category of a class byte; an undefined byte is unclassified.
    pub open spec fn spec_from_code(code: u8) -> DeviceClass {
        if code == 0x01 {
            DeviceClass::MassStorageController
        } else if code == 0x02 {
            DeviceClass::NetworkController
        } else if code == 0x03 {
            DeviceClass::DisplayController
        } else if code == 0x04 {
            DeviceClass::MultimediaController
        } else if code == 0x05 {
            DeviceClass::MemoryController
        } else if code == 0x06 {
            DeviceClass::Bridge
        } else if code == 0x07 {
            DeviceClass::CommunicationController
        } else if code == 0x08 {
            DeviceClass::GenericSystemPeripheral
        } else if code == 0x09 {
            DeviceClass::InputDeviceController
        } else if code == 0x0a {
            DeviceClass::DockingStation
        } else if code == 0x0b {
            DeviceClass::Processor
        } else if code == 0x0c {
            DeviceClass::SerialBusController
        } else if code == 0x0d {
            DeviceClass::WirelessController
        } else if code == 0x0e {
            DeviceClass::IntelligentController
        } else if code == 0x0f {
            DeviceClass::SatelliteCommunicationsController
        } else if code == 0x10 {
            DeviceClass::EncryptionController
        } else if code == 0x11 {
            DeviceClass::SignalProcessingController
        } else if code == 0x12 {
            DeviceClass::ProcessingAccelerator
        } else if code == 0x13 {
            DeviceClass::NonEssentialInstrumentation
        } else if code == 0x40 {
            DeviceClass::Coprocessor
        } else if code == 0xff {
            DeviceClass::Unassigned
        } else {
            DeviceClass::Unclassified
        }
    }

    /// The canonical name of a category.
    pub open spec fn spec_name(self) -> Seq<char> {
        match self {
            DeviceClass::Unclassified => "Unclassified"@,
            DeviceClass::MassStorageController => "Mass Storage Controller"@,
            DeviceClass::NetworkController => "Network Controller"@,
            DeviceClass::DisplayController => "Display Controller"@,
            DeviceClass::MultimediaController => "Multimedia Controller"@,
            DeviceClass::MemoryController => "Memory Controller"@,
            DeviceClass::Bridge => "Bridge"@,
            DeviceClass::CommunicationController => "Communication Controller"@,
            DeviceClass::GenericSystemPeripheral => "Generic System Peripheral"@,
            DeviceClass::InputDeviceController => "Input Device Controller"@,
            DeviceClass::DockingStation => "Docking Station"@,
            DeviceClass::Processor => "Processor"@,
            DeviceClass::SerialBusController => "Serial Bus Controller"@,
            DeviceClass::WirelessController => "Wireless Controller"@,
            DeviceClass::IntelligentController => "Intelligent Controller"@,
            DeviceClass::SatelliteCommunicationsController => "Satellite Communications Controller"@,
            DeviceClass::EncryptionController => "Encryption Controller"@,
            DeviceClass::SignalProcessingController => "Signal Processing Controller"@,
            DeviceClass::ProcessingAccelerator => "Processing Accelerators"@,
            DeviceClass::NonEssentialInstrumentation => "Non Essential Instrumentation"@,
            DeviceClass::Coprocessor => "Coprocessor"@,
            DeviceClass::Unassigned => "Unassigned"@,
        }
    }

    /// Returns the class byte of this category.
    pub fn code(&self) -> (code: u8)
        ensures
            code == self.spec_code(),
            is_defined_class(code),
    {
        match self {
            DeviceClass::Unclassified => 0x00,
            DeviceClass::MassStorageController => 0x01,
            DeviceClass::NetworkController => 0x02,
            DeviceClass::DisplayController => 0x03,
            DeviceClass::MultimediaController => 0x04,
            DeviceClass::MemoryController => 0x05,
            DeviceClass::Bridge => 0x06,
            DeviceClass::CommunicationController => 0x07,
            DeviceClass::GenericSystemPeripheral => 0x08,
            DeviceClass::InputDeviceController => 0x09,
            DeviceClass::DockingStation => 0x0a,
            DeviceClass::Processor => 0x0b,
            DeviceClass::SerialBusController => 0x0c,
            DeviceClass::WirelessController => 0x0d,
            DeviceClass::IntelligentController => 0x0e,
            DeviceClass::SatelliteCommunicationsController => 0x0f,
            DeviceClass::EncryptionController => 0x10,
            DeviceClass::SignalProcessingController => 0x11,
            DeviceClass::ProcessingAccelerator => 0x12,
            DeviceClass::NonEssentialInstrumentation => 0x13,
            DeviceClass::Coprocessor => 0x40,
            DeviceClass::Unassigned => 0xff,
        }
    }

    /// Returns the category that a class byte selects. The function is total:
    /// a byte outside the register's table selects [`DeviceClass::Unclassified`].
    pub fn from_code(code: u8) -> (class: DeviceClass)
        ensures
            class == Self::spec_from_code(code),
            is_defined_class(code) ==> class.spec_code() == code,
            !is_defined_class(code) ==> class == DeviceClass::Unclassified,
    {
        match code {
            0x01 => DeviceClass::MassStorageController,
            0x02 => DeviceClass::NetworkController,
            0x03 => DeviceClass::DisplayController,
            0x04 => DeviceClass::MultimediaController,
            0x05 => DeviceClass::MemoryController,
            0x06 => DeviceClass::Bridge,
            0x07 => DeviceClass::CommunicationController,
            0x08 => DeviceClass::GenericSystemPeripheral,
            0x09 => DeviceClass::InputDeviceController,
            0x0a => DeviceClass::DockingStation,
            0x0b => DeviceClass::Processor,
            0x0c => DeviceClass::SerialBusController,
            0x0d => DeviceClass::WirelessController,
            0x0e => DeviceClass::IntelligentController,
            0x0f => DeviceClass::SatelliteCommunicationsController,
            0x10 => DeviceClass::EncryptionController,
            0x11 => DeviceClass::SignalProcessingController,
            0x12 => DeviceClass::ProcessingAccelerator,
            0x13 => DeviceClass::NonEssentialInstrumentation,
            0x40 => DeviceClass::Coprocessor,
            0xff => DeviceClass::Unassigned,
            _ => DeviceClass::Unclassified,
        }
    }

    /// Returns the canonical name of this category.
    pub fn name(&self) -> (name: &'static str)
        ensures
            name@ == self.spec_name(),
    {
        match self {
            DeviceClass::Unclassified => "Unclassified",
            DeviceClass::MassStorageController => "Mass Storage Controller",
            DeviceClass::NetworkController => "Network Controller",
            DeviceClass::DisplayController => "Display Controller",
            DeviceClass::MultimediaController => "Multimedia Controller",
            DeviceClass::MemoryController => "Memory Controller",
            DeviceClass::Bridge => "Bridge",
            DeviceClass::CommunicationController => "Communication Controller",
            DeviceClass::GenericSystemPeripheral => "Generic System Peripheral",
            DeviceClass::InputDeviceController => "Input Device Controller",
            DeviceClass::DockingStation => "Docking Station",
            DeviceClass::Processor => "Processor",
            DeviceClass::SerialBusController => "Serial Bus Controller",
            DeviceClass::WirelessController => "Wireless Controller",
            DeviceClass::IntelligentController => "Intelligent Controller",
            DeviceClass::SatelliteCommunicationsController => "Satellite Communications Controller",
            DeviceClass::EncryptionController => "Encryption Controller",
            DeviceClass::SignalProcessingController => "Signal Processing Controller",
            DeviceClass::ProcessingAccelerator => "Processing Accelerators",
            DeviceClass::NonEssentialInstrumentation => "Non Essential Instrumentation",
            DeviceClass::Coprocessor => "Coprocessor",
            DeviceClass::Unassigned => "Unassigned",
        }
    }

    /// Returns the canonical name of this category as an owned string.
    pub fn to_string(&self) -> (name: String)
        ensures
            name@ == self.spec_name(),
    {
        String::from_str(self.name())
    }
}

/// The name that the taxonomy gives to a class byte.
pub open spec fn class_name_spec(class: u8) -> Seq<char> {
    DeviceClass::spec_from_code(class).spec_name()
}

/// Resolves a class byte to the name of its category. Never fails: a byte
/// that the register does not define resolves to `"Unclassified"`.
pub fn class_name(class: u8) -> (name: String)
    ensures
        name@ == class_name_spec(class),
        !is_defined_class(class) ==> name@ == "Unclassified"@,
        name@.len() > 0,
{
    proof {
        lemma_class_name_nonempty(class);
    }
    DeviceClass::from_code(class).to_string()
}

/// Every category has the class byte it was selected by, and every class byte
/// that the register defines selects a category of its own.
pub proof fn lemma_code_round_trip(class: DeviceClass, code: u8)
    ensures
        DeviceClass::spec_from_code(class.spec_code()) == class,
        is_defined_class(class.spec_code()),
        is_defined_class(code) <==> DeviceClass::spec_from_code(code).spec_code() == code,
{
}

/// No category has an empty name, so no class byte resolves to an empty name.
pub proof fn lemma_class_name_nonempty(class: u8)
    ensures
        class_name_spec(class).len() > 0,
{
    lemma_name_nonempty(DeviceClass::spec_from_code(class));
}

/// No category has an empty name.
pub proof fn lemma_name_nonempty(class: DeviceClass)
    ensures
        class.spec_name().len() > 0,
{
    reveal_strlit("Unclassified");
    reveal_strlit("Mass Storage Controller");
    reveal_strlit("Network Controller");
    reveal_strlit("Display Controller");
    reveal_strlit("Multimedia Controller");
    reveal_strlit("Memory Controller");
    reveal_strlit("Bridge");
    reveal_strlit("Communication Controller");
    reveal_strlit("Generic System Peripheral");
    reveal_strlit("Input Device Controller");
    reveal_strlit("Docking Station");
    reveal_strlit("Processor");
    reveal_strlit("Serial Bus Controller");
    reveal_strlit("Wireless Controller");
    reveal_strlit("Intelligent Controller");
    reveal_strlit("Satellite Communications Controller");
    reveal_strlit("Encryption Controller");
    reveal_strlit("Signal Processing Controller");
    reveal_strlit("Processing Accelerators");
    reveal_strlit("Non Essential Instrumentation");
    reveal_strlit("Coprocessor");
    reveal_strlit("Unassigned");
}

} // verus!
