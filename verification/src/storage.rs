//! Physical extents of a sparse object.

use vstd::prelude::*;

verus! {

/// A physical range of bytes in a sparse object (the filled-in holes of a
/// sparse file); alignment tells whether logical chunks can be coalesced.
#[derive(Clone, Copy, Debug, PartialEq, Eq, Structural)]
pub struct Extent {
    pub offset: usize,
    pub length: usize,
}

} // verus!
