//! Flags of a MATERIAL chunk.
use vstd::prelude::*;

verus! {

pub const LIGHT: u16 = 0x0001;
pub const PRELIT: u16 = 0x0002;

pub const SMOOTH: u16 = 0x0004;

pub const ENVIRONMENT_I: u16 = 0x0008;
pub const ENVIRONMENT_L: u16 = 0x0010;
pub const PERSPECTIVE: u16 = 0x0020;
pub const DECAL: u16 = 0x0040;

pub const I_FROM_U: u16 = 0x0080;
pub const I_FROM_V: u16 = 0x0100;
pub const U_FROM_I: u16 = 0x0200;
pub const V_FROM_I: u16 = 0x0400;

pub const ALWAYS_VISIBLE: u16 = 0x0800;
pub const TWO_SIDED: u16 = 0x1000;

pub const FORCE_Z_0: u16 = 0x2000;

pub const DITHER: u16 = 0x4000;
pub const CUSTOM: u16 = 0x8000;

} // verus!
