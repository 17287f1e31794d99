//! aparato resolves the numeric identifiers of PCI devices (class, vendor,
//! device and subsystem codes) into human-readable names.
//!
//! Two sources of names are combined: a compiled-in taxonomy of the PCI class
//! codes ([`classes`], [`subclasses`]) and the `pci.ids` database, which is
//! scanned as text ([`ids`]).

use vstd::prelude::*;

pub mod classes;
pub mod error;
pub mod extra;
pub mod hex;
pub mod ids;
pub mod linux;
pub mod macos;
pub mod names;
pub mod scan;
pub mod subclasses;
pub mod sysfs;
pub mod text;
pub mod traits;

pub use error::Error;
pub use traits::{Device, Fetch, Properties};

verus! {

/// The record of a PCI device as this platform shows it.
pub type PCIDevice = linux::LinuxPCIDevice;

} // verus!
