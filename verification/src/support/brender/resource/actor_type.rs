//! Types for ACTOR chunk.
use vstd::prelude::*;

verus! {

pub const NONE: u32 = 0x0;
pub const MODEL: u32 = 0x1;
pub const LIGHT: u32 = 0x2;
pub const CAMERA: u32 = 0x3;
pub const BOUNDS: u32 = 0x5;
pub const BOUNDS_CORRECT: u32 = 0x6;
pub const CLIP_PLANE: u32 = 0x7;

} // verus!
