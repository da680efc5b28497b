//! Decoder for the SMBIOS/DMI firmware table: entry-point records, the
//! structure walker, per-structure string tables, and offset-indexed field
//! accessors, together with typed views over a few structure types.

pub mod electrical_current_probe;
pub mod entry_point;
pub mod fields;
pub mod group_associations;
pub mod strings;
pub mod structure;
pub mod system_chassis_information;
pub mod table;
pub mod walker;

pub use electrical_current_probe::{
    CurrentProbeLocation, CurrentProbeLocationAndStatus, CurrentProbeStatus,
    SMBiosElectricalCurrentProbe,
};
pub use entry_point::{EntryPointError, EntryPointInfo, parse_entry_point};
pub use group_associations::SMBiosGroupAssociations;
pub use system_chassis_information::SMBiosSystemChassisInformation;
pub use fields::{byte_at, word_at, dword_at, qword_at};
pub use strings::Strings;
pub use structure::{Handle, Header, UndefinedStruct};
pub use table::StructureTable;
pub use walker::{WalkResult, WalkTermination, walk_table};
