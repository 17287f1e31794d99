//! The refinements of the class taxonomy: subclasses and programming
//! interfaces.
//!
//! Only some classes refine their subclass byte, and only some subclasses
//! refine their programming-interface byte. A code without a refinement of
//! its own takes the name of its nearest ancestor that has one.

use vstd::prelude::*;
use vstd::string::StringExecFns;
use crate::classes::{class_name_spec, lemma_class_name_nonempty, DeviceClass};

verus! {

/// A subclass byte together with the class that gives it a meaning.
#[derive(Clone, Copy, Debug, PartialEq, Eq, Structural)]
pub enum DeviceSubclass {
    MassStorageController(u8),
    DisplayController(u8),
}

/// The name that the table of subclasses gives to a pair of class and subclass
/// bytes, if it holds one.
pub open spec fn refined_subclass(class: u8, subclass: u8) -> Option<Seq<char>> {
    if class == 0x01 {
        if subclass == 0x00 {
            Some("SCSI Storage Controller"@)
        } else if subclass == 0x01 {
            Some("IDE Interface"@)
        } else if subclass == 0x02 {
            Some("Floppy Disk Controller"@)
        } else if subclass == 0x03 {
            Some("IPI Bus Controller"@)
        } else if subclass == 0x04 {
            Some("RAID Bus Controller"@)
        } else if subclass == 0x05 {
            Some("ATA Controller"@)
        } else if subclass == 0x06 {
            Some("SATA Controller"@)
        } else if subclass == 0x07 {
            Some("Serial Attached SCSI Controller"@)
        } else if subclass == 0x08 {
            Some("Non-Volatile Memory Controller"@)
        } else {
            None
        }
    } else if class == 0x03 {
        if subclass == 0x00 {
            Some("VGA Compatible Controller"@)
        } else if subclass == 0x01 {
            Some("XGA Compatible Controller"@)
        } else if subclass == 0x02 {
            Some("3D Controller"@)
        } else {
            None
        }
    } else {
        None
    }
}

/// The name of a pair of class and subclass bytes: the refined name where the
/// table holds one, the name of the class otherwise.
pub open spec fn subclass_name_spec(class: u8, subclass: u8) -> Seq<char> {
    match refined_subclass(class, subclass) {
        Some(name) => name,
        None => class_name_spec(class),
    }
}

/// The name that the table of programming interfaces gives to a class code,
/// if it holds one.
pub open spec fn refined_prog_if(class: u8, subclass: u8, prog_if: u8) -> Option<Seq<char>> {
    if class == 0x01 && subclass == 0x01 {
        if prog_if == 0x00 {
            Some("ISA Compatibility Mode-Only Controller"@)
        } else if prog_if == 0x05 {
            Some("PCI Native Mode-Only Controller"@)
        } else if prog_if == 0x0a {
            Some("ISA Compatibility Mode Controller, Switchable To PCI Native Mode"@)
        } else if prog_if == 0x0f {
            Some("PCI Native Mode Controller, Switchable To ISA Compatibility Mode"@)
        } else if prog_if == 0x80 {
            Some("ISA Compatibility Mode-Only Controller, Bus Mastering"@)
        } else if prog_if == 0x85 {
            Some("PCI Native Mode-Only Controller, Bus Mastering"@)
        } else if prog_if == 0x8a {
            Some("ISA Compatibility Mode Controller, Switchable To PCI Native Mode, Bus Mastering"@)
        } else if prog_if == 0x8f {
            Some("PCI Native Mode Controller, Switchable To ISA Compatibility Mode, Bus Mastering"@)
        } else {
            None
        }
    } else if class == 0x01 && subclass == 0x05 {
        if prog_if == 0x20 {
            Some("ADMA Single Stepping"@)
        } else if prog_if == 0x30 {
            Some("ADMA Continuous Operation"@)
        } else {
            None
        }
    } else if class == 0x01 && subclass == 0x06 {
        if prog_if == 0x00 {
            Some("Vendor Specific"@)
        } else if prog_if == 0x01 {
            Some("AHCI 1.0"@)
        } else if prog_if == 0x02 {
            Some("Serial Storage Bus"@)
        } else {
            None
        }
    } else if class == 0x01 && subclass == 0x07 {
        if prog_if == 0x01 {
            Some("Serial Storage Bus"@)
        } else {
            None
        }
    } else if class == 0x01 && subclass == 0x08 {
        if prog_if == 0x01 {
            Some("NVMHCI"@)
        } else if prog_if == 0x02 {
            Some("NVM Express"@)
        } else {
            None
        }
    } else if class == 0x03 && subclass == 0x00 {
        if prog_if == 0x00 {
            Some("VGA Controller"@)
        } else if prog_if == 0x01 {
            Some("8514 Controller"@)
        } else {
            None
        }
    } else {
        None
    }
}

/// The name of a full class code: the refined name of the programming
/// interface where the table holds one, the name of the subclass otherwise.
pub open spec fn prog_if_name_spec(class: u8, subclass: u8, prog_if: u8) -> Seq<char> {
    match refined_prog_if(class, subclass, prog_if) {
        Some(name) => name,
        None => subclass_name_spec(class, subclass),
    }
}

/// The view of an optional string slice.
pub open spec fn view_of(name: Option<&'static str>) -> Option<Seq<char>> {
    match name {
        Some(s) => Some(s@),
        None => None,
    }
}

impl DeviceSubclass {
    /// The class that gives the subclass byte its meaning.
    pub open spec fn spec_class(self) -> DeviceClass {
        match self {
            DeviceSubclass::MassStorageController(_) => DeviceClass::MassStorageController,
            DeviceSubclass::DisplayController(_) => DeviceClass::DisplayController,
        }
    }

    /// The subclass byte.
    pub open spec fn spec_code(self) -> u8 {
        match self {
            DeviceSubclass::MassStorageController(code) => code,
            DeviceSubclass::DisplayController(code) => code,
        }
    }

    /// The name of the subclass, which is that of its class where the byte has
    /// no refinement.
    pub open spec fn spec_name(self) -> Seq<char> {
        subclass_name_spec(self.spec_class().spec_code(), self.spec_code())
    }

    /// The subclass of a pair of class and subclass bytes, for the classes that
    /// refine their subclass byte.
    pub open spec fn spec_from_codes(class: u8, subclass: u8) -> Option<DeviceSubclass> {
        if class == 0x01 {
            Some(DeviceSubclass::MassStorageController(subclass))
        } else if class == 0x03 {
            Some(DeviceSubclass::DisplayController(subclass))
        } else {
            None
        }
    }

    /// Returns the subclass that a pair of class and subclass bytes selects,
    /// or `None` where the class has no table of subclasses.
    pub fn from_codes(class: u8, subclass: u8) -> (r: Option<DeviceSubclass>)
        ensures
            r == Self::spec_from_codes(class, subclass),
            r matches Some(s) ==> s.spec_class().spec_code() == class && s.spec_code() == subclass,
    {
        if class == 0x01 {
            Some(DeviceSubclass::MassStorageController(subclass))
        } else if class == 0x03 {
            Some(DeviceSubclass::DisplayController(subclass))
        } else {
            None
        }
    }

    /// Returns the class that gives the subclass byte its meaning.
    pub fn class(&self) -> (class: DeviceClass)
        ensures
            class == self.spec_class(),
    {
        match self {
            DeviceSubclass::MassStorageController(_) => DeviceClass::MassStorageController,
            DeviceSubclass::DisplayController(_) => DeviceClass::DisplayController,
        }
    }

    /// Returns the subclass byte.
    pub fn code(&self) -> (code: u8)
        ensures
            code == self.spec_code(),
    {
        match self {
            DeviceSubclass::MassStorageController(code) => *code,
            DeviceSubclass::DisplayController(code) => *code,
        }
    }

    /// Returns the name of the subclass: the refined name where the subclass
    /// byte has one, the name of the class otherwise.
    pub fn name(&self) -> (name: &'static str)
        ensures
            name@ == self.spec_name(),
    {
        let class = self.class();
        match resolve_subclass(class.code(), self.code()) {
            Some(name) => name,
            None => {
                proof {
                    crate::classes::lemma_code_round_trip(class, 0);
                }
                class.name()
            },
        }
    }

    /// Returns the name of the subclass as an owned string.
    pub fn to_string(&self) -> (name: String)
        ensures
            name@ == self.spec_name(),
    {
        String::from_str(self.name())
    }
}

/// Looks a pair of class and subclass bytes up in the table of subclasses.
/// Returns the refined name, or `None` where the table holds none: the caller
/// then falls back to the name of the class.
pub fn resolve_subclass(class: u8, subclass: u8) -> (name: Option<&'static str>)
    ensures
        view_of(name) == refined_subclass(class, subclass),
{
    if class == 0x01 {
        match subclass {
            0x00 => Some("SCSI Storage Controller"),
            0x01 => Some("IDE Interface"),
            0x02 => Some("Floppy Disk Controller"),
            0x03 => Some("IPI Bus Controller"),
            0x04 => Some("RAID Bus Controller"),
            0x05 => Some("ATA Controller"),
            0x06 => Some("SATA Controller"),
            0x07 => Some("Serial Attached SCSI Controller"),
            0x08 => Some("Non-Volatile Memory Controller"),
            _ => None,
        }
    } else if class == 0x03 {
        match subclass {
            0x00 => Some("VGA Compatible Controller"),
            0x01 => Some("XGA Compatible Controller"),
            0x02 => Some("3D Controller"),
            _ => None,
        }
    } else {
        None
    }
}

/// Resolves a pair of class and subclass bytes to a name. Never fails: where
/// the pair has no refinement, the name is that of the class.
pub fn subclass_name(class: u8, subclass: u8) -> (name: String)
    ensures
        name@ == subclass_name_spec(class, subclass),
        name@.len() > 0,
{
    proof {
        lemma_subclass_name_nonempty(class, subclass);
    }
    match resolve_subclass(class, subclass) {
        Some(name) => String::from_str(name),
        None => crate::classes::class_name(class),
    }
}

/// Looks a class code up in the table of programming interfaces. Returns the
/// refined name, or `None` where the table holds none.
pub fn resolve_prog_if(class: u8, subclass: u8, prog_if: u8) -> (name: Option<&'static str>)
    ensures
        view_of(name) == refined_prog_if(class, subclass, prog_if),
{
    if class == 0x01 && subclass == 0x01 {
        match prog_if {
            0x00 => Some("ISA Compatibility Mode-Only Controller"),
            0x05 => Some("PCI Native Mode-Only Controller"),
            0x0a => Some("ISA Compatibility Mode Controller, Switchable To PCI Native Mode"),
            0x0f => Some("PCI Native Mode Controller, Switchable To ISA Compatibility Mode"),
            0x80 => Some("ISA Compatibility Mode-Only Controller, Bus Mastering"),
            0x85 => Some("PCI Native Mode-Only Controller, Bus Mastering"),
            0x8a => Some(
                "ISA Compatibility Mode Controller, Switchable To PCI Native Mode, Bus Mastering",
            ),
            0x8f => Some(
                "PCI Native Mode Controller, Switchable To ISA Compatibility Mode, Bus Mastering",
            ),
            _ => None,
        }
    } else if class == 0x01 && subclass == 0x05 {
        match prog_if {
            0x20 => Some("ADMA Single Stepping"),
            0x30 => Some("ADMA Continuous Operation"),
            _ => None,
        }
    } else if class == 0x01 && subclass == 0x06 {
        match prog_if {
            0x00 => Some("Vendor Specific"),
            0x01 => Some("AHCI 1.0"),
            0x02 => Some("Serial Storage Bus"),
            _ => None,
        }
    } else if class == 0x01 && subclass == 0x07 {
        match prog_if {
            0x01 => Some("Serial Storage Bus"),
            _ => None,
        }
    } else if class == 0x01 && subclass == 0x08 {
        match prog_if {
            0x01 => Some("NVMHCI"),
            0x02 => Some("NVM Express"),
            _ => None,
        }
    } else if class == 0x03 && subclass == 0x00 {
        match prog_if {
            0x00 => Some("VGA Controller"),
            0x01 => Some("8514 Controller"),
            _ => None,
        }
    } else {
        None
    }
}

/// Resolves a full class code to a name. Never fails: where the programming
/// interface has no refinement, the name is that of the subclass, and where
/// the subclass has none either, that of the class.
pub fn prog_if_name(class: u8, subclass: u8, prog_if: u8) -> (name: String)
    ensures
        name@ == prog_if_name_spec(class, subclass, prog_if),
        name@.len() > 0,
{
    proof {
        lemma_prog_if_name_nonempty(class, subclass, prog_if);
    }
    match resolve_prog_if(class, subclass, prog_if) {
        Some(name) => String::from_str(name),
        None => subclass_name(class, subclass),
    }
}

/// Every pair of class and subclass bytes has a name, and the name is not
/// empty: it is a refined name or the name of the class.
pub proof fn lemma_subclass_name_nonempty(class: u8, subclass: u8)
    ensures
        subclass_name_spec(class, subclass).len() > 0,
        subclass_name_spec(class, subclass) == class_name_spec(class) || Some(
            subclass_name_spec(class, subclass),
        ) == refined_subclass(class, subclass),
{
    lemma_class_name_nonempty(class);
    reveal_strlit("SCSI Storage Controller");
    reveal_strlit("IDE Interface");
    reveal_strlit("Floppy Disk Controller");
    reveal_strlit("IPI Bus Controller");
    reveal_strlit("RAID Bus Controller");
    reveal_strlit("ATA Controller");
    reveal_strlit("SATA Controller");
    reveal_strlit("Serial Attached SCSI Controller");
    reveal_strlit("Non-Volatile Memory Controller");
    reveal_strlit("VGA Compatible Controller");
    reveal_strlit("XGA Compatible Controller");
    reveal_strlit("3D Controller");
}

/// Every class code has a name, and the name is not empty.
pub proof fn lemma_prog_if_name_nonempty(class: u8, subclass: u8, prog_if: u8)
    ensures
        prog_if_name_spec(class, subclass, prog_if).len() > 0,
{
    lemma_subclass_name_nonempty(class, subclass);
    reveal_strlit("ISA Compatibility Mode-Only Controller");
    reveal_strlit("PCI Native Mode-Only Controller");
    reveal_strlit("ISA Compatibility Mode Controller, Switchable To PCI Native Mode");
    reveal_strlit("PCI Native Mode Controller, Switchable To ISA Compatibility Mode");
    reveal_strlit("ISA Compatibility Mode-Only Controller, Bus Mastering");
    reveal_strlit("PCI Native Mode-Only Controller, Bus Mastering");
    reveal_strlit(
        "ISA Compatibility Mode Controller, Switchable To PCI Native Mode, Bus Mastering",
    );
    reveal_strlit(
        "PCI Native Mode Controller, Switchable To ISA Compatibility Mode, Bus Mastering",
    );
    reveal_strlit("ADMA Single Stepping");
    reveal_strlit("ADMA Continuous Operation");
    reveal_strlit("Vendor Specific");
    reveal_strlit("AHCI 1.0");
    reveal_strlit("Serial Storage Bus");
    reveal_strlit("NVMHCI");
    reveal_strlit("NVM Express");
    reveal_strlit("VGA Controller");
    reveal_strlit("8514 Controller");
}

} // verus!
