//! Clip resolutions: one recording is stored as a high-resolution clip, a
//! low-resolution proxy, or both.

use vstd::prelude::*;

verus! {

/// High resolution, low resolution, or either.
#[derive(Debug, Clone, Copy, PartialEq, Eq, Structural)]
pub enum GoProFileType {
    /// High-resolution clip.
    MP4,
    /// Low-resolution proxy clip.
    LRV,
    /// Either resolution, preferring high.
    ANY,
}

} // verus!
