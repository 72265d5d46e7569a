//! Types for FILE_INFO chunk.
use vstd::prelude::*;

verus! {

pub const NONE: u32 = 0x0;
pub const ACTOR: u32 = 0x1;
pub const PIXELMAP: u32 = 0x2;
pub const LIGHT: u32 = 0x3;
pub const CAMERA: u32 = 0x4;
pub const MATERIAL: u32 = 0x5;
pub const MODEL: u32 = 0xface;
pub const ANIM: u32 = 0x0a11;
pub const TREE: u32 = 0x5eed;

} // verus!
