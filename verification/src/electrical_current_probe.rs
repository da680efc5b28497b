//! # Electrical Current Probe (Type 29)
//!
//! This structure describes the attributes for an electrical current probe
//! in the system. Each structure describes a single electrical current
//! probe.

use vstd::prelude::*;
use crate::structure::{UndefinedStruct, option_string_matches};

verus! {

/// A typed view over an Electrical Current Probe structure.
pub struct SMBiosElectricalCurrentProbe<'a> {
    parts: &'a UndefinedStruct,
}

impl<'a> SMBiosElectricalCurrentProbe<'a> {
    /// The underlying structure this view reads.
    pub closed spec fn spec_parts(&self) -> UndefinedStruct {
        *self.parts
    }

    /// Wraps a decoded structure. The view adds no state of its own.
    pub fn new(parts: &'a UndefinedStruct) -> (r: Self)
        ensures
            r.spec_parts() == *parts,
    {
        Self { parts }
    }

    /// The wrapped structure.
    pub fn parts(&self) -> (r: &'a UndefinedStruct)
        ensures
            *r == self.spec_parts(),
    {
        self.parts
    }

    /// A string that contains additional descriptive information about the
    /// probe or its location
    pub fn description(&self) -> (r: Option<String>)
        ensures
            option_string_matches(r, self.spec_parts().spec_string(0x04)),
    {
        self.parts.get_field_string(0x04)
    }

    /// Probe's physical location and status of the current monitored by
    /// this current probe
    pub fn location_and_status(&self) -> (r: Option<CurrentProbeLocationAndStatus>)
        ensures
            r is Some <==> self.spec_parts().spec_byte(0x05) is Some,
            r matches Some(v) ==> self.spec_parts().spec_byte(0x05) matches Some(raw) && v
                == spec_location_and_status(raw),
    {
        match self.parts.get_field_byte(0x05) {
            Some(raw) => Some(CurrentProbeLocationAndStatus::from(raw)),
            None => None,
        }
    }

    /// Maximum current level readable by this probe, in milliamps
    pub fn maximum_value(&self) -> (r: Option<u16>)
        ensures
            r == self.spec_parts().spec_word(0x06),
    {
        self.parts.get_field_word(0x06)
    }

    /// Minimum current level readable by this probe, in milliamps
    pub fn minimum_value(&self) -> (r: Option<u16>)
        ensures
            r == self.spec_parts().spec_word(0x08),
    {
        self.parts.get_field_word(0x08)
    }

    /// Resolution for the probe's reading, in tenths of milliamps
    pub fn resolution(&self) -> (r: Option<u16>)
        ensures
            r == self.spec_parts().spec_word(0x0A),
    {
        self.parts.get_field_word(0x0A)
    }

    /// Tolerance for reading from this probe, in plus/minus milliamps
    pub fn tolerance(&self) -> (r: Option<u16>)
        ensures
            r == self.spec_parts().spec_word(0x0C),
    {
        self.parts.get_field_word(0x0C)
    }

    /// Accuracy for reading from this probe, in plus/minus 1/100th of a
    /// percent
    pub fn accuracy(&self) -> (r: Option<u16>)
        ensures
            r == self.spec_parts().spec_word(0x0E),
    {
        self.parts.get_field_word(0x0E)
    }

    /// OEM- or BIOS vendor-specific information.
    pub fn oem_defined(&self) -> (r: Option<u32>)
        ensures
            r == self.spec_parts().spec_dword(0x10),
    {
        self.parts.get_field_dword(0x10)
    }

    /// Nominal value for the probe's reading in milliamps
    pub fn nominal_value(&self) -> (r: Option<u16>)
        ensures
            r == self.spec_parts().spec_word(0x14),
    {
        self.parts.get_field_word(0x14)
    }
}

/// # Electrical Current Probe Location and Status
#[derive(PartialEq, Eq, Debug)]
pub struct CurrentProbeLocationAndStatus {
    /// Raw value
    ///
    /// The raw value is most useful when the decoded variants are
    /// `Unrecognized`: the standard may have been extended past what this
    /// set of variants names.
    pub raw: u8,
    /// The [CurrentProbeStatus]
    pub status: CurrentProbeStatus,
    /// The [CurrentProbeLocation]
    pub location: CurrentProbeLocation,
}

/// # Electrical Current Probe Status
#[derive(Debug, PartialEq, Eq, Structural)]
pub enum CurrentProbeStatus {
    /// Other
    Other,
    /// Unknown
    Unknown,
    /// OK
    OK,
    /// Non-critical
    NonCritical,
    /// Critical
    Critical,
    /// Non-recoverable
    NonRecoverable,
    /// A value unknown to this standard, check the raw value
    Unrecognized,
}

/// # Electrical Current Probe Location
#[derive(Debug, PartialEq, Eq, Structural)]
pub enum CurrentProbeLocation {
    /// Other
    Other,
    /// Unknown
    Unknown,
    /// Processor
    Processor,
    /// Disk
    Disk,
    /// Peripheral Bay
    PeripheralBay,
    /// System Management Module
    SystemManagementModule,
    /// Motherboard
    Motherboard,
    /// Memory Module
    MemoryModule,
    /// Processor Module
    ProcessorModule,
    /// Power Unit
    PowerUnit,
    /// Add-in Card
    AddInCard,
    /// A value unknown to this standard, check the raw value
    Unrecognized,
}

/// The status held in the top three bits of the raw byte.
pub open spec fn spec_probe_status(raw: u8) -> CurrentProbeStatus {
    let code = raw / 32;
    if code == 1 {
        CurrentProbeStatus::Other
    } else if code == 2 {
        CurrentProbeStatus::Unknown
    } else if code == 3 {
        CurrentProbeStatus::OK
    } else if code == 4 {
        CurrentProbeStatus::NonCritical
    } else if code == 5 {
        CurrentProbeStatus::Critical
    } else if code == 6 {
        CurrentProbeStatus::NonRecoverable
    } else {
        CurrentProbeStatus::Unrecognized
    }
}

/// The location held in the low five bits of the raw byte.
pub open spec fn spec_probe_location(raw: u8) -> CurrentProbeLocation {
    let code = raw % 32;
    if code == 1 {
        CurrentProbeLocation::Other
    } else if code == 2 {
        CurrentProbeLocation::Unknown
    } else if code == 3 {
        CurrentProbeLocation::Processor
    } else if code == 4 {
        CurrentProbeLocation::Disk
    } else if code == 5 {
        CurrentProbeLocation::PeripheralBay
    } else if code == 6 {
        CurrentProbeLocation::SystemManagementModule
    } else if code == 7 {
        CurrentProbeLocation::Motherboard
    } else if code == 8 {
        CurrentProbeLocation::MemoryModule
    } else if code == 9 {
        CurrentProbeLocation::ProcessorModule
    } else if code == 10 {
        CurrentProbeLocation::PowerUnit
    } else if code == 11 {
        CurrentProbeLocation::AddInCard
    } else {
        CurrentProbeLocation::Unrecognized
    }
}

/// The full decoding of the raw location-and-status byte.
pub open spec fn spec_location_and_status(raw: u8) -> CurrentProbeLocationAndStatus {
    CurrentProbeLocationAndStatus {
        raw,
        status: spec_probe_status(raw),
        location: spec_probe_location(raw),
    }
}

impl vstd::std_specs::convert::FromSpecImpl<u8> for CurrentProbeLocationAndStatus {
    open spec fn obeys_from_spec() -> bool {
        true
    }

    open spec fn from_spec(raw: u8) -> Self {
        spec_location_and_status(raw)
    }
}

impl From<u8> for CurrentProbeLocationAndStatus {
    /// Splits the raw byte into its status (top three bits) and location
    /// (low five bits) fields, keeping the raw value alongside.
    fn from(raw: u8) -> (r: Self) {
        let status_code: u8 = raw / 32;
        let status = if status_code == 1 {
            CurrentProbeStatus::Other
        } else if status_code == 2 {
            CurrentProbeStatus::Unknown
        } else if status_code == 3 {
            CurrentProbeStatus::OK
        } else if status_code == 4 {
            CurrentProbeStatus::NonCritical
        } else if status_code == 5 {
            CurrentProbeStatus::Critical
        } else if status_code == 6 {
            CurrentProbeStatus::NonRecoverable
        } else {
            CurrentProbeStatus::Unrecognized
        };
        let location_code: u8 = raw % 32;
        let location = if location_code == 1 {
            CurrentProbeLocation::Other
        } else if location_code == 2 {
            CurrentProbeLocation::Unknown
        } else if location_code == 3 {
            CurrentProbeLocation::Processor
        } else if location_code == 4 {
            CurrentProbeLocation::Disk
        } else if location_code == 5 {
            CurrentProbeLocation::PeripheralBay
        } else if location_code == 6 {
            CurrentProbeLocation::SystemManagementModule
        } else if location_code == 7 {
            CurrentProbeLocation::Motherboard
        } else if location_code == 8 {
            CurrentProbeLocation::MemoryModule
        } else if location_code == 9 {
            CurrentProbeLocation::ProcessorModule
        } else if location_code == 10 {
            CurrentProbeLocation::PowerUnit
        } else if location_code == 11 {
            CurrentProbeLocation::AddInCard
        } else {
            CurrentProbeLocation::Unrecognized
        };
        CurrentProbeLocationAndStatus { raw, status, location }
    }
}

} // verus!
