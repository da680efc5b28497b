//! # System Enclosure or Chassis (Type 3)
//!
//! The information in this structure defines attributes of the system's
//! mechanical enclosure(s). For example, if a system included a separate
//! enclosure for its peripheral devices, two structures would be returned:
//! one for the main system enclosure and the second for the peripheral
//! device enclosure.

use vstd::prelude::*;
use crate::structure::{UndefinedStruct, option_string_matches};

verus! {

/// A typed view over a System Enclosure or Chassis structure.
pub struct SMBiosSystemChassisInformation<'a> {
    parts: &'a UndefinedStruct,
}

impl<'a> SMBiosSystemChassisInformation<'a> {
    /// The underlying structure this view reads.
    pub closed spec fn spec_parts(&self) -> UndefinedStruct {
        *self.parts
    }

    /// Wraps a decoded structure. The view adds no state of its own.
    pub fn new(parts: &'a UndefinedStruct) -> (r: Self)
        ensures
            r.spec_parts() == *parts,
    {
        Self { parts }
    }

    /// The wrapped structure.
    pub fn parts(&self) -> (r: &'a UndefinedStruct)
        ensures
            *r == self.spec_parts(),
    {
        self.parts
    }

    /// Manufacturer
    pub fn manufacturer(&self) -> (r: Option<String>)
        ensures
            option_string_matches(r, self.spec_parts().spec_string(0x04)),
    {
        self.parts.get_field_string(0x04)
    }

    /// Chassis type
    ///
    /// Bit 7 Chassis lock is present if 1. Otherwise, either a lock is not
    /// present or it is unknown if the enclosure has a lock.
    /// Bits 6:0 Enumeration value.
    pub fn chassis_type(&self) -> (r: Option<u8>)
        ensures
            r == self.spec_parts().spec_byte(0x05),
    {
        self.parts.get_field_byte(0x05)
    }

    /// Version
    pub fn version(&self) -> (r: Option<String>)
        ensures
            option_string_matches(r, self.spec_parts().spec_string(0x06)),
    {
        self.parts.get_field_string(0x06)
    }

    /// Serial number
    pub fn serial_number(&self) -> (r: Option<String>)
        ensures
            option_string_matches(r, self.spec_parts().spec_string(0x07)),
    {
        self.parts.get_field_string(0x07)
    }

    /// Asset tag number
    pub fn asset_tag_number(&self) -> (r: Option<String>)
        ensures
            option_string_matches(r, self.spec_parts().spec_string(0x08)),
    {
        self.parts.get_field_string(0x08)
    }

    /// Boot-up state
    ///
    /// State of the enclosure when it was last booted.
    pub fn bootup_state(&self) -> (r: Option<u8>)
        ensures
            r == self.spec_parts().spec_byte(0x09),
    {
        self.parts.get_field_byte(0x09)
    }

    /// Power supply state
    ///
    /// State of the enclosure's power supply (or supplies) when last booted.
    pub fn power_supply_state(&self) -> (r: Option<u8>)
        ensures
            r == self.spec_parts().spec_byte(0x0A),
    {
        self.parts.get_field_byte(0x0A)
    }

    /// Thermal state
    ///
    /// Thermal state of the enclosure when last booted.
    pub fn thermal_state(&self) -> (r: Option<u8>)
        ensures
            r == self.spec_parts().spec_byte(0x0B),
    {
        self.parts.get_field_byte(0x0B)
    }

    /// Security status
    ///
    /// Physical security status of the enclosure when last booted.
    pub fn security_status(&self) -> (r: Option<u8>)
        ensures
            r == self.spec_parts().spec_byte(0x0C),
    {
        self.parts.get_field_byte(0x0C)
    }

    /// OEM-defined
    ///
    /// OEM- or BIOS vendor-specific information.
    pub fn oem_defined(&self) -> (r: Option<u32>)
        ensures
            r == self.spec_parts().spec_dword(0x0D),
    {
        self.parts.get_field_dword(0x0D)
    }

    /// Height
    ///
    /// Height of the enclosure, in 'U's. A U is a standard unit of measure
    /// for the height of a rack or rack-mountable component and is equal to
    /// 1.75 inches or 4.445 cm. A value of 00h indicates that the enclosure
    /// height is unspecified.
    pub fn height(&self) -> (r: Option<u8>)
        ensures
            r == self.spec_parts().spec_byte(0x11),
    {
        self.parts.get_field_byte(0x11)
    }

    /// Number of power cords
    ///
    /// Number of power cords associated with the enclosure or chassis.
    /// A value of 00h indicates that the number is unspecified.
    pub fn number_of_power_cords(&self) -> (r: Option<u8>)
        ensures
            r == self.spec_parts().spec_byte(0x12),
    {
        self.parts.get_field_byte(0x12)
    }

    /// Contained element count (n)
    ///
    /// Number of Contained Element records that follow, in the range 0 to
    /// 255. Each Contained Element group comprises m bytes, as specified by
    /// the Contained Element Record Length field that follows. If no
    /// Contained Elements are included, this field is set to 0.
    pub fn contained_element_count(&self) -> (r: Option<u8>)
        ensures
            r == self.spec_parts().spec_byte(0x13),
    {
        self.parts.get_field_byte(0x13)
    }

    /// Contained element record length (m)
    ///
    /// Byte length of each Contained Element record that follows, in the
    /// range 0 to 255. If no Contained Elements are included, this field is
    /// set to 0.
    pub fn contained_element_record_length(&self) -> (r: Option<u8>)
        ensures
            r == self.spec_parts().spec_byte(0x14),
    {
        self.parts.get_field_byte(0x14)
    }

    /// SKU number
    ///
    /// String describing the chassis or enclosure SKU number.
    pub fn sku_number(&self) -> (r: Option<String>)
        ensures
            option_string_matches(r, self.spec_parts().spec_string(0x15)),
    {
        self.parts.get_field_string(0x15)
    }
}

} // verus!
