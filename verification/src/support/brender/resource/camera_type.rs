//! Type for CAMERA chunk.
use vstd::prelude::*;

verus! {

pub const PARALLEL: u32 = 0x0;
pub const PERSPECTIVE: u32 = 0x1;

} // verus!
