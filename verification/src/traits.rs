//! What every kind of PCI device record offers.

use vstd::prelude::*;
use crate::classes::DeviceClass;
use crate::sysfs::{Attributes, Source};

verus! {

/// A record of one PCI device: its identifiers as sysfs shows them, and the
/// names that belong to them.
pub trait Device: Sized {
    /// Makes the record of the device that was asked for by `path`, from the
    /// texts of its attributes and the text of the `pci.ids` database.
    fn new(path: &str, attributes: &Attributes, pci_ids: &str) -> Self;

    /// Returns the directory that sysfs keeps for the device.
    fn path(&self) -> String;

    /// Returns the class identifier.
    fn class(&self) -> String;

    /// Returns the subclass identifier.
    fn subclass(&self) -> String;

    /// Returns the identifier of the programming interface.
    fn prog_if(&self) -> String;

    /// Returns the vendor identifier.
    fn vendor(&self) -> String;

    /// Returns the device identifier.
    fn device(&self) -> String;

    /// Returns the class name.
    fn class_name(&self) -> String;

    /// Returns the subclass name.
    fn subclass_name(&self) -> String;

    /// Returns the name of the programming interface.
    fn prog_if_name(&self) -> String;

    /// Returns the vendor name.
    fn vendor_name(&self) -> String;

    /// Returns the device name.
    fn device_name(&self) -> String;

    /// Returns whether the device is enabled.
    fn enabled(&self) -> bool;

    /// Returns the subsystem name.
    fn subsystem_name(&self) -> String;

    /// Returns the identifier of the subsystem vendor.
    fn subsystem_vendor(&self) -> String;

    /// Returns the identifier of the subsystem device.
    fn subsystem_device(&self) -> String;
}

/// The setters of a record. Each takes the text of the attribute that it
/// decodes; a text that is not written as the attribute should be leaves the
/// record as it is.
pub trait Properties {
    /// Sets the directory of the device from the path that was asked for.
    fn set_path(&mut self, p: &str);

    /// Sets the class, the subclass and the programming interface from the
    /// text of the attribute `class`.
    fn set_class(&mut self, attribute: &str);

    /// Sets the vendor from the text of the attribute `vendor`.
    fn set_vendor(&mut self, attribute: &str);

    /// Sets the device from the text of the attribute `device`.
    fn set_device(&mut self, attribute: &str);

    /// Sets whether the device is enabled from the text of the attribute
    /// `enable`.
    fn set_enabled(&mut self, attribute: &str);

    /// Sets the subsystem device from the text of the attribute
    /// `subsystem_device`.
    fn set_subsystem_device(&mut self, attribute: &str);

    /// Sets the subsystem vendor from the text of the attribute
    /// `subsystem_vendor`.
    fn set_subsystem_vendor(&mut self, attribute: &str);

    /// Sets the names of the class, the subclass and the programming
    /// interface from the text of the `pci.ids` database.
    fn set_class_properties(&mut self, pci_ids: &str);
}

/// Making the records of many devices at once.
pub trait Fetch: Sized {
    /// Returns the records of the devices in `sources`, in their order. If
    /// `maximum_devices` is anything other than `None` or `Some(0)`, no more
    /// than that many records are made.
    fn fetch(sources: &Vec<Source>, pci_ids: &str, maximum_devices: Option<u8>) -> Vec<Self>;

    /// Returns the records of the devices in `sources` that are of the given
    /// class, in their order, under the same limit as [`Fetch::fetch`].
    fn fetch_by_class(
        sources: &Vec<Source>,
        pci_ids: &str,
        class: DeviceClass,
        maximum_devices: Option<u8>,
    ) -> Vec<Self>;
}

} // verus!
