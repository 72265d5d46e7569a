//! Order of rotations in a Euler transform.
use vstd::prelude::*;

verus! {

pub const XYZ_S: u32 = 0x0;
pub const XYX_S: u32 = 0x1;
pub const XZY_S: u32 = 0x2;
pub const XZX_S: u32 = 0x3;
pub const YZX_S: u32 = 0x4;
pub const YZY_S: u32 = 0x5;
pub const YXZ_S: u32 = 0x6;
pub const YXY_S: u32 = 0x7;
pub const ZXY_S: u32 = 0x8;
pub const ZXZ_S: u32 = 0x9;
pub const ZYX_S: u32 = 0xa;
pub const ZYZ_S: u32 = 0xb;
pub const ZYX_R: u32 = 0xc;
pub const XYX_R: u32 = 0xd;
pub const YZX_R: u32 = 0xe;
pub const XZX_R: u32 = 0xf;
pub const XZY_R: u32 = 0x10;
pub const YZY_R: u32 = 0x11;
pub const ZXY_R: u32 = 0x12;
pub const YXY_R: u32 = 0x13;
pub const YXZ_R: u32 = 0x14;
pub const ZXZ_R: u32 = 0x15;
pub const XYZ_R: u32 = 0x16;
pub const ZYZ_R: u32 = 0x17;

} // verus!
