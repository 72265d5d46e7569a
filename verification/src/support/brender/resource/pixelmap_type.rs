//! Type for payload of a PIXELMAP chunk.
use vstd::prelude::*;

verus! {

pub const INDEX_1: u8 = 0x0;
pub const INDEX_2: u8 = 0x1;
pub const INDEX_4: u8 = 0x2;
pub const INDEX_8: u8 = 0x3;
pub const RGB_555: u8 = 0x4;
pub const RGB_565: u8 = 0x5;
pub const RGB_888: u8 = 0x6;
pub const RGBX_888: u8 = 0x7;
pub const RGBA_888: u8 = 0x8;
pub const YUYV_8888: u8 = 0x9;
pub const YUV_888: u8 = 0xa;
pub const DEPTH_16: u8 = 0xb;
pub const DEPTH_32: u8 = 0xc;
pub const ALPHA_8: u8 = 0xd;
pub const INDEXA_88: u8 = 0xe;

} // verus!
