//! Chunk types.
use vstd::prelude::*;

verus! {

pub const END: u32 = 0x0;
pub const PIXELMAP: u32 = 0x3;
pub const MATERIAL: u32 = 0x4;
pub const ANIM: u32 = 0xf;
pub const ANIM_TRANSFORM: u32 = 0x10;
pub const ANIM_RATE: u32 = 0x11;
pub const FILE_INFO: u32 = 0x12;
pub const PIVOT: u32 = 0x15;
pub const MATERIAL_INDEX: u32 = 0x16;
pub const VERTICES: u32 = 0x17;
pub const VERTEX_UV: u32 = 0x18;
pub const FACE_MATERIAL: u32 = 0x1a;
pub const COLOUR_MAP_REF: u32 = 0x1c;
pub const INDEX_BLEND_REF: u32 = 0x1e;
/// Also known as RENDERTAB_REF.
pub const INDEX_SHADE_REF: u32 = 0x1f;
pub const SCREENDOOR_REF: u32 = 0x20;
pub const PIXELS: u32 = 0x21;
/// Connect a map to an indexed pixelmap.
pub const ADD_MAP: u32 = 0x22;
pub const ACTOR: u32 = 0x23;
pub const ACTOR_MODEL: u32 = 0x24;
pub const ACTOR_TRANSFORM: u32 = 0x25;
pub const ACTOR_MATERIAL: u32 = 0x26;
pub const ACTOR_LIGHT: u32 = 0x27;
pub const ACTOR_CAMERA: u32 = 0x28;
pub const ACTOR_BOUNDS: u32 = 0x29;
pub const ACTOR_ADD_CHILD: u32 = 0x2a;
pub const TRANSFORM_MATRIX34: u32 = 0x2b;
pub const TRANSFORM_MATRIX34_LP: u32 = 0x2c;
pub const TRANSFORM_QUAT: u32 = 0x2d;
pub const TRANSFORM_EULER: u32 = 0x2e;
pub const TRANSFORM_LOOK_UP: u32 = 0x2f;
pub const TRANSFORM_TRANSLATION: u32 = 0x30;
pub const TRANSFORM_IDENTITY: u32 = 0x31;
pub const BOUNDS: u32 = 0x32;
pub const LIGHT: u32 = 0x33;
pub const CAMERA: u32 = 0x34;
pub const FACES: u32 = 0x35;
pub const MODEL: u32 = 0x36;
pub const ACTOR_CLIP_PLANE: u32 = 0x37;
pub const PLANE: u32 = 0x38;

} // verus!
