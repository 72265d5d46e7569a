//! Rendering style for ACTOR chunk.
use vstd::prelude::*;

verus! {

pub const DEFAULT: u32 = 0x0;
pub const NONE: u32 = 0x1;
pub const POINTS: u32 = 0x2;
pub const EDGES: u32 = 0x3;
pub const FACES: u32 = 0x4;
pub const BOUNDING_POINTS: u32 = 0x5;
pub const BOUNDING_EDGES: u32 = 0x6;
pub const BOUNDING_FACES: u32 = 0x7;

} // verus!
