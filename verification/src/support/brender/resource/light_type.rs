//! Type for LIGHT chunk.
use vstd::prelude::*;

verus! {

pub const POINT: u32 = 0x0;
pub const DIRECT: u32 = 0x1;
pub const SPOT: u32 = 0x2;
pub const VIEW_POINT: u32 = 0x4;
pub const VIEW_DIRECT: u32 = 0x5;
pub const VIEW_SPOT: u32 = 0x6;

} // verus!
