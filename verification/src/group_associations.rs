//! # Group Associations (Type 14)
//!
//! The Group Associations structure is provided for OEMs who want to
//! specify the arrangement or hierarchy of certain components (including
//! other Group Associations) within the system. For example, two CPUs
//! sharing a common external cache system can be expressed this way.

use vstd::prelude::*;
use crate::structure::{Handle, UndefinedStruct};

verus! {

/// A typed view over a Group Associations structure.
pub struct SMBiosGroupAssociations<'a> {
    parts: &'a UndefinedStruct,
}

impl<'a> SMBiosGroupAssociations<'a> {
    /// The underlying structure this view reads.
    pub closed spec fn spec_parts(&self) -> UndefinedStruct {
        *self.parts
    }

    /// Wraps a decoded structure. The view adds no state of its own.
    pub fn new(parts: &'a UndefinedStruct) -> (r: Self)
        ensures
            r.spec_parts() == *parts,
    {
        Self { parts }
    }

    /// The wrapped structure.
    pub fn parts(&self) -> (r: &'a UndefinedStruct)
        ensures
            *r == self.spec_parts(),
    {
        self.parts
    }

    /// A string describing the group
    pub fn group_name(&self) -> (r: Option<u8>)
        ensures
            r == self.spec_parts().spec_byte(0x4),
    {
        self.parts.get_field_byte(0x4)
    }

    /// Item (Structure) Type of this member
    pub fn item_type(&self) -> (r: Option<u8>)
        ensures
            r == self.spec_parts().spec_byte(0x5),
    {
        self.parts.get_field_byte(0x5)
    }

    /// Handle corresponding to this structure
    pub fn item_handle(&self) -> (r: Option<Handle>)
        ensures
            r is Some <==> self.spec_parts().spec_word(0x6) is Some,
            r matches Some(h) ==> self.spec_parts().spec_word(0x6) matches Some(w) && h.0 == w,
    {
        self.parts.get_field_handle(0x6)
    }
}

} // verus!
