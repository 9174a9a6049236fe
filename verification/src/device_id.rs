//! Device identifiers: older devices log either a number or a
//! four-character tag.

use vstd::prelude::*;

use crate::fourcc::FourCC;

verus! {

/// A device identifier as logged in a device-identifier record.
#[derive(Debug, Clone)]
pub enum Dvid {
    Uint32(u32),
    FourCC(FourCC),
}

impl Dvid {
    /// The numeric identifier, if the device logged one.
    pub fn to_u32(&self) -> (r: Option<u32>)
        ensures
            match self {
                Dvid::Uint32(n) => r == Some(*n),
                Dvid::FourCC(_) => r is None,
            },
    {
        match self {
            Dvid::Uint32(n) => Some(*n),
            Dvid::FourCC(_) => None,
        }
    }

    /// The tag identifier, if the device logged one.
    pub fn to_fourcc(&self) -> (r: Option<&FourCC>)
        ensures
            match self {
                Dvid::Uint32(_) => r is None,
                Dvid::FourCC(f) => r matches Some(g) && g == f,
            },
    {
        match self {
            Dvid::Uint32(_) => None,
            Dvid::FourCC(f) => Some(f),
        }
    }
}

} // verus!
