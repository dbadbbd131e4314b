//! Failure values reported to the caller.  Nothing in this core aborts:
//! a bad configuration degrades one block and is reported as a value.

use vstd::prelude::*;

verus! {

#[derive(Clone, Copy, Debug, PartialEq, Eq, Structural)]
pub enum WahwahError {
    /// A pass-band whose edges are not strictly ordered inside
    /// `(0, sample_rate / 2)`.
    InvalidFilterRange,
    /// A buffer offset or fractional index outside the buffer's domain.
    InvalidBufferAccess,
}

} // verus!
