//! Decode errors.

use vstd::prelude::*;

verus! {

/// Everything that can go wrong while decoding GPMF data.
///
/// A failed parse reports the whole byte window as failed: no partial tree is
/// returned.
#[derive(Debug, Clone, Copy, PartialEq, Eq, Structural)]
pub enum GpmfError {
    /// Fewer bytes were left in the window than a record declared.
    ReadMismatch { got: u64, expected: u64 },
    /// A record declared a base type code outside the known set.
    UnknownBaseType(u8),
    /// A complex record was declared with no type descriptor in scope.
    MissingComplexType,
    /// A record declared a unit size that its element width does not divide,
    /// so the two ways of counting elements disagree.
    SizeMismatch { basesize: u16, width: u8 },
    /// The tree nests deeper than the caller's ceiling.
    RecurseDepthExceeded,
    /// A payload declared as UTF-8 does not hold valid UTF-8.
    Utf8Error,
    /// A fixed-width identifier record declares a length that is not
    /// 32-bit aligned.
    MisalignedLength { len: u64 },
}

} // verus!
