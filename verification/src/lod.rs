//! Level-of-detail arithmetic: level 0 is the coarsest; each level doubles
//! resolution and halves the chunk's world extent.

use vstd::prelude::*;
use crate::math::{pow2, pow2_i32};

verus! {

/// A level of detail.
pub struct Lod(pub usize);

impl Lod {
    /// How many chunks of this level span the terrain per axis.
    pub fn scale(&self) -> (r: i32)
        requires
            self.0 <= 30,
        ensures
            r == pow2(self.0 as nat),
            1 <= r <= 0x4000_0000,
    {
        pow2_i32(self.0)
    }
}

} // verus!
