//
// Where each value of a resource file lies in its bytes: the field order and
// offsets of every reader, stated over the bytes themselves.
//
use crate::support::brender::resource::{
    array_at, BoundsChunk, CameraChunk, ChunkHeader, Colour, Face, FaceMaterialChunk, FacesChunk,
    FileInfoChunk, FromStream, LightChunk, MaterialChunk, ModelChunk, PivotChunk, PixelMapChunk,
    PixelsChunk, PlaneChunk, Rgb, TransformEulerChunk, TransformLookUpChunk,
    TransformMatrix34Chunk, TransformQuatChunk, TransformTranslationChunk, Vec2f, Vec3f, Vec4f,
    VertexUV, VertexUvChunk, VerticesChunk, ActorChunk,
};
use crate::support::brender::stream::{lemma_nul_at, be_u16_at, be_u32_at, c_string_at, Parse};
use crate::support::Error;
use vstd::prelude::*;
use vstd::utf8::{decode_utf8, valid_utf8};

verus! {

/// Sixteen-bit values are stored big-endian: the first byte is the more
/// significant.
pub proof fn lemma_be_u16(s: Seq<u8>, i: int)
    ensures
        be_u16_at(s, i) as int == s[i] as int * 0x100 + s[i + 1] as int,
{
}

/// Thirty-two-bit values are stored big-endian: the first byte is the most
/// significant.
pub proof fn lemma_be_u32(s: Seq<u8>, i: int)
    ensures
        be_u32_at(s, i) as int == s[i] as int * 0x1000000 + s[i + 1] as int * 0x10000 + s[i + 2] as int
            * 0x100 + s[i + 3] as int,
{
}

/// Two floats lie in 8 bytes, `x` first, each big-endian.
pub proof fn lemma_vec2f_layout(s: Seq<u8>, i: int)
    requires
        0 <= i,
        i + 8 <= s.len(),
    ensures
        Vec2f::parse_spec(s, i) matches Parse::Done(v, e) && e == i + 8 && v.x == be_u32_at(s, i) && v.y == be_u32_at(s, i + 4),
{
}

/// Three floats lie in 12 bytes in the order `x`, `y`, `z`, each big-endian.
pub proof fn lemma_vec3f_layout(s: Seq<u8>, i: int)
    requires
        0 <= i,
        i + 12 <= s.len(),
    ensures
        Vec3f::parse_spec(s, i) matches Parse::Done(v, e) && e == i + 12 && v.x == be_u32_at(s, i) && v.y == be_u32_at(s, i + 4) && v.z == be_u32_at(s, i + 8),
{
}

/// Four floats lie in 16 bytes in the order `x`, `y`, `z`, `w`, each big-endian.
pub proof fn lemma_vec4f_layout(s: Seq<u8>, i: int)
    requires
        0 <= i,
        i + 16 <= s.len(),
    ensures
        Vec4f::parse_spec(s, i) matches Parse::Done(v, e) && e == i + 16 && v.x == be_u32_at(s, i) && v.y == be_u32_at(s, i + 4) && v.z == be_u32_at(s, i + 8) && v.w == be_u32_at(s, i + 12),
{
}

/// Texture coordinates lie in 8 bytes, `u` first and `v` second, each big-endian.
pub proof fn lemma_vertex_uv_layout(s: Seq<u8>, i: int)
    requires
        0 <= i,
        i + 8 <= s.len(),
    ensures
        VertexUV::parse_spec(s, i) matches Parse::Done(v, e) && e == i + 8 && v.u == be_u32_at(s, i) && v.v == be_u32_at(s, i + 4),
{
}

/// A face lies in 9 bytes: the vertex indices `v1`, `v2`, `v3`, then the smoothing group, each a big-endian 16-bit value, then the flags byte.
pub proof fn lemma_face_layout(s: Seq<u8>, i: int)
    requires
        0 <= i,
        i + 9 <= s.len(),
    ensures
        Face::parse_spec(s, i) matches Parse::Done(v, e) && e == i + 9 && v.v1 == be_u16_at(s, i) && v.v2 == be_u16_at(s, i + 2) && v.v3 == be_u16_at(s, i + 4) && v.smoothing == be_u16_at(s, i + 6) && v.flags == s[i + 8],
{
}

/// A pivot is a point of three floats in the order `x`, `y`, `z`.
pub proof fn lemma_pivot_chunk_layout(s: Seq<u8>, i: int)
    requires
        0 <= i,
        i + 12 <= s.len(),
    ensures
        PivotChunk::parse_spec(s, i) matches Parse::Done(v, e) && e == i + 12 && v.pivot.x == be_u32_at(s, i) && v.pivot.y == be_u32_at(s, i + 4) && v.pivot.z == be_u32_at(s, i + 8),
{
}

/// A float colour lies in 12 bytes: red, green, blue.
pub proof fn lemma_colour_layout(s: Seq<u8>, i: int)
    requires
        0 <= i,
        i + 12 <= s.len(),
    ensures
        Colour::parse_spec(s, i) matches Parse::Done(v, e) && e == i + 12 && v.r == be_u32_at(s, i) && v.g == be_u32_at(s, i + 4) && v.b == be_u32_at(s, i + 8),
{
}

/// A byte colour lies in 3 bytes: red, green, blue.
pub proof fn lemma_rgb_layout(s: Seq<u8>, i: int)
    requires
        0 <= i,
        i + 3 <= s.len(),
    ensures
        Rgb::parse_spec(s, i) matches Parse::Done(v, e) && e == i + 3 && v.r == s[i] && v.g == s[i + 1] && v.b == s[i + 2],
{
}

/// A quaternion transform: the components `x`, `y`, `z`, `w`, then the translation.
pub proof fn lemma_transform_quat_chunk_layout(s: Seq<u8>, i: int)
    requires
        0 <= i,
        i + 28 <= s.len(),
    ensures
        TransformQuatChunk::parse_spec(s, i) matches Parse::Done(v, e) && e == i + 28 && v.q_x == be_u32_at(s, i) && v.q_y == be_u32_at(s, i + 4) && v.q_z == be_u32_at(s, i + 8) && v.q_w == be_u32_at(s, i + 12) && v.t.x == be_u32_at(s, i + 16) && v.t.y == be_u32_at(s, i + 20) && v.t.z == be_u32_at(s, i + 24),
{
}

/// An Euler transform: the angle order byte, the three angles in order, then the translation.
pub proof fn lemma_transform_euler_chunk_layout(s: Seq<u8>, i: int)
    requires
        0 <= i,
        i + 25 <= s.len(),
    ensures
        TransformEulerChunk::parse_spec(s, i) matches Parse::Done(v, e) && e == i + 25 && v.e_order == s[i] && v.e_a == be_u32_at(s, i + 1) && v.e_b == be_u32_at(s, i + 5) && v.e_c == be_u32_at(s, i + 9) && v.t.x == be_u32_at(s, i + 13) && v.t.y == be_u32_at(s, i + 17) && v.t.z == be_u32_at(s, i + 21),
{
}

/// A look-up transform: the look vector, the up vector, then the translation.
pub proof fn lemma_transform_look_up_chunk_layout(s: Seq<u8>, i: int)
    requires
        0 <= i,
        i + 36 <= s.len(),
    ensures
        TransformLookUpChunk::parse_spec(s, i) matches Parse::Done(v, e) && e == i + 36 && v.look.x == be_u32_at(s, i) && v.look.y == be_u32_at(s, i + 4) && v.look.z == be_u32_at(s, i + 8) && v.up.x == be_u32_at(s, i + 12) && v.up.y == be_u32_at(s, i + 16) && v.up.z == be_u32_at(s, i + 20) && v.t.x == be_u32_at(s, i + 24) && v.t.y == be_u32_at(s, i + 28) && v.t.z == be_u32_at(s, i + 32),
{
}

/// A translation is a point of three floats in the order `x`, `y`, `z`.
pub proof fn lemma_transform_translation_chunk_layout(s: Seq<u8>, i: int)
    requires
        0 <= i,
        i + 12 <= s.len(),
    ensures
        TransformTranslationChunk::parse_spec(s, i) matches Parse::Done(v, e) && e == i + 12 && v.t.x == be_u32_at(s, i) && v.t.y == be_u32_at(s, i + 4) && v.t.z == be_u32_at(s, i + 8),
{
}

/// Bounds lie in 24 bytes: the minimum corner, then the maximum corner.
pub proof fn lemma_bounds_chunk_layout(s: Seq<u8>, i: int)
    requires
        0 <= i,
        i + 24 <= s.len(),
    ensures
        BoundsChunk::parse_spec(s, i) matches Parse::Done(v, e) && e == i + 24 && v.min.x == be_u32_at(s, i) && v.min.y == be_u32_at(s, i + 4) && v.min.z == be_u32_at(s, i + 8) && v.max.x == be_u32_at(s, i + 12) && v.max.y == be_u32_at(s, i + 16) && v.max.z == be_u32_at(s, i + 20),
{
}

/// A plane equation is four floats in the order `x`, `y`, `z`, `w`.
pub proof fn lemma_plane_chunk_layout(s: Seq<u8>, i: int)
    requires
        0 <= i,
        i + 16 <= s.len(),
    ensures
        PlaneChunk::parse_spec(s, i) matches Parse::Done(v, e) && e == i + 16 && v.equation.x == be_u32_at(s, i) && v.equation.y == be_u32_at(s, i + 4) && v.equation.z == be_u32_at(s, i + 8) && v.equation.w == be_u32_at(s, i + 12),
{
}

/// File information lies in 8 bytes: the file type, then the version, each big-endian.
pub proof fn lemma_file_info_chunk_layout(s: Seq<u8>, i: int)
    requires
        0 <= i,
        i + 8 <= s.len(),
    ensures
        FileInfoChunk::parse_spec(s, i) matches Parse::Done(v, e) && e == i + 8 && v.file_type == be_u32_at(s, i) && v.version == be_u32_at(s, i + 4),
{
}

/// A chunk header lies in 8 bytes: the chunk type, then the payload size, each big-endian.
pub proof fn lemma_chunk_header_layout(s: Seq<u8>, i: int)
    requires
        0 <= i,
        i + 8 <= s.len(),
    ensures
        ChunkHeader::parse_spec(s, i) matches Parse::Done(v, e) && e == i + 8 && v.chunk_type == be_u32_at(s, i) && v.size == be_u32_at(s, i + 4),
{
}

/// A MODEL chunk holds the model's flags (16 bits), then its zero-terminated
/// name.
pub proof fn lemma_model_chunk_layout(s: Seq<u8>, i: int)
    requires
        0 <= i,
        i + 2 <= s.len(),
    ensures
        (ModelChunk::parse_spec(s, i) is Done) == (c_string_at(s, i + 2) is Done),
        ModelChunk::parse_spec(s, i) matches Parse::Done(m, e) ==> c_string_at(s, i + 2)
            == Parse::Done(m.identifier, e) && m.flags == be_u16_at(s, i),
{
}

/// A MATERIAL chunk holds, in this order: the colour (red, green, blue
/// bytes), the opacity byte, the ambient, diffuse and specular coefficients
/// and the power (big-endian floats), the flags (16 bits), the three rows of
/// the map transform (two floats each), the index base and range bytes, and
/// the zero-terminated name.
pub proof fn lemma_material_chunk_layout(s: Seq<u8>, i: int)
    requires
        0 <= i,
        i + 48 <= s.len(),
    ensures
        (MaterialChunk::parse_spec(s, i) is Done) == (c_string_at(s, i + 48) is Done),
        MaterialChunk::parse_spec(s, i) matches Parse::Done(m, e) ==> {
            &&& c_string_at(s, i + 48) == Parse::Done(m.identifier, e)
            &&& m.color.r == s[i] && m.color.g == s[i + 1] && m.color.b == s[i + 2]
            &&& m.opacity == s[i + 3]
            &&& m.ka == be_u32_at(s, i + 4)
            &&& m.kd == be_u32_at(s, i + 8)
            &&& m.ks == be_u32_at(s, i + 12)
            &&& m.power == be_u32_at(s, i + 16)
            &&& m.flags.0 == be_u16_at(s, i + 20)
            &&& m.map_transform_x.x == be_u32_at(s, i + 22)
            &&& m.map_transform_x.y == be_u32_at(s, i + 26)
            &&& m.map_transform_y.x == be_u32_at(s, i + 30)
            &&& m.map_transform_y.y == be_u32_at(s, i + 34)
            &&& m.map_transform_z.x == be_u32_at(s, i + 38)
            &&& m.map_transform_z.y == be_u32_at(s, i + 42)
            &&& m.index_base == s[i + 46]
            &&& m.index_range == s[i + 47]
        },
{
}

/// A PIXELMAP chunk holds the pixel type byte, then the row bytes, width,
/// height, horizontal and vertical origin (big-endian, 16 bits each), then
/// the zero-terminated name.
pub proof fn lemma_pixelmap_chunk_layout(s: Seq<u8>, i: int)
    requires
        0 <= i,
        i + 11 <= s.len(),
    ensures
        (PixelMapChunk::parse_spec(s, i) is Done) == (c_string_at(s, i + 11) is Done),
        PixelMapChunk::parse_spec(s, i) matches Parse::Done(h, e) ==> {
            &&& c_string_at(s, i + 11) == Parse::Done(h.identifier, e)
            &&& h.pixel_type == s[i]
            &&& h.row_bytes == be_u16_at(s, i + 1)
            &&& h.width == be_u16_at(s, i + 3)
            &&& h.height == be_u16_at(s, i + 5)
            &&& h.origin_x == be_u16_at(s, i + 7)
            &&& h.origin_y == be_u16_at(s, i + 9)
        },
{
}

/// An ACTOR chunk holds the actor type byte, the render style byte, then the
/// zero-terminated name.
pub proof fn lemma_actor_chunk_layout(s: Seq<u8>, i: int)
    requires
        0 <= i,
        i + 2 <= s.len(),
    ensures
        (ActorChunk::parse_spec(s, i) is Done) == (c_string_at(s, i + 2) is Done),
        ActorChunk::parse_spec(s, i) matches Parse::Done(a, e) ==> c_string_at(s, i + 2)
            == Parse::Done(a.identifier, e) && a.actor_type == s[i] && a.render_style == s[i + 1],
{
}

/// A LIGHT chunk holds the light type byte, the colour (red, green, blue
/// bytes), the constant, linear and quadratic attenuation, the inner and
/// outer cone angles (big-endian, 32 bits each), then the zero-terminated
/// name.
pub proof fn lemma_light_chunk_layout(s: Seq<u8>, i: int)
    requires
        0 <= i,
        i + 24 <= s.len(),
    ensures
        (LightChunk::parse_spec(s, i) is Done) == (c_string_at(s, i + 24) is Done),
        LightChunk::parse_spec(s, i) matches Parse::Done(l, e) ==> {
            &&& c_string_at(s, i + 24) == Parse::Done(l.identifier, e)
            &&& l.light_type == s[i]
            &&& l.color.r == s[i + 1] && l.color.g == s[i + 2] && l.color.b == s[i + 3]
            &&& l.attn_c == be_u32_at(s, i + 4)
            &&& l.attn_l == be_u32_at(s, i + 8)
            &&& l.attn_q == be_u32_at(s, i + 12)
            &&& l.cone_inner == be_u32_at(s, i + 16)
            &&& l.cone_outer == be_u32_at(s, i + 20)
        },
{
}

/// A CAMERA chunk holds the camera type byte, the field of view, the near
/// and far planes and the aspect ratio (big-endian, 32 bits each), then the
/// zero-terminated name.
pub proof fn lemma_camera_chunk_layout(s: Seq<u8>, i: int)
    requires
        0 <= i,
        i + 17 <= s.len(),
    ensures
        (CameraChunk::parse_spec(s, i) is Done) == (c_string_at(s, i + 17) is Done),
        CameraChunk::parse_spec(s, i) matches Parse::Done(c, e) ==> {
            &&& c_string_at(s, i + 17) == Parse::Done(c.identifier, e)
            &&& c.camera_type == s[i]
            &&& c.fov == be_u32_at(s, i + 1)
            &&& c.hither_z == be_u32_at(s, i + 5)
            &&& c.yon_z == be_u32_at(s, i + 9)
            &&& c.aspect == be_u32_at(s, i + 13)
        },
{
}

/// A PIXELS chunk holds the number of units and the bytes per unit
/// (big-endian, 32 bits each), then exactly that many bytes of pixel data.
pub proof fn lemma_pixels_chunk_layout(s: Seq<u8>, i: int)
    requires
        0 <= i,
        i + 8 <= s.len(),
        be_u32_at(s, i) as int * be_u32_at(s, i + 4) as int <= u32::MAX,
        i + 8 + be_u32_at(s, i) as int * be_u32_at(s, i + 4) as int <= s.len(),
    ensures
        PixelsChunk::parse_spec(s, i) matches Parse::Done(px, e) && px.units == be_u32_at(s, i)
            && px.unit_bytes == be_u32_at(s, i + 4) && e == i + 8 + px.units as int
            * px.unit_bytes as int && px.data.len() == px.units as int * px.unit_bytes as int
            && forall|k: int| 0 <= k < px.data.len() ==> #[trigger] px.data[k] == s[i + 8 + k],
{
}


/// A name is the UTF-8 text of the bytes from `i` up to the first zero byte,
/// and reading it consumes that zero byte too; with no zero byte after `i`
/// the stream ends too early.
pub proof fn lemma_c_string_layout(s: Seq<u8>, i: int)
    requires
        0 <= i,
    ensures
        c_string_at(s, i) matches Parse::Done(name, e) ==> {
            &&& i < e <= s.len()
            &&& s[e - 1] == 0
            &&& forall|k: int| i <= k < e - 1 ==> s[k] != 0
            &&& valid_utf8(s.subrange(i, e - 1))
            &&& name == decode_utf8(s.subrange(i, e - 1))
        },
        (forall|k: int| i <= k < s.len() ==> s[k] != 0) ==> c_string_at(s, i) matches Parse::Fail(
            Error::UnexpectedEof,
            _,
        ),
{
    lemma_nul_at(s, i);
}

/// `p` is a successful read that ends at `e`.
pub open spec fn ends_at<V>(p: Parse<V>, e: int) -> bool {
    match p {
        Parse::Done(_, e2) => e2 == e,
        _ => false,
    }
}

/// `count` values of a reader that always takes `n` bytes lie one after
/// another: value `k` is the one read at `i + n * k`.
pub proof fn lemma_array_fixed<T: FromStream>(s: Seq<u8>, i: int, count: nat, n: int)
    requires
        0 <= i,
        0 < n,
        i + n * count <= s.len(),
        forall|j: int| 0 <= j && j + n <= s.len() ==> ends_at(#[trigger] T::parse_spec(s, j), j + n),
    ensures
        array_at::<T>(s, i, count) matches Parse::Done(vs, e) && e == i + n * count && vs.len()
            == count && forall|k: int|
            0 <= k < count ==> T::parse_spec(s, i + n * k) == Parse::Done(
                #[trigger] vs[k],
                i + n * k + n,
            ),
    decreases count,
{
    if count == 0 {
        assert(n * count == 0) by (nonlinear_arith)
            requires
                count == 0,
        ;
    } else {
        assert(n * count == n * (count - 1) + n) by (nonlinear_arith);
        assert(ends_at(T::parse_spec(s, i), i + n));
        lemma_array_fixed::<T>(s, i + n, (count - 1) as nat, n);
        if let Parse::Done(v, _) = T::parse_spec(s, i) {
            if let Parse::Done(rest, _) = array_at::<T>(s, i + n, (count - 1) as nat) {
                let vs = seq![v] + rest;
                assert forall|k: int| 0 <= k < count implies T::parse_spec(s, i + n * k)
                    == Parse::Done(#[trigger] vs[k], i + n * k + n) by {
                    if k > 0 {
                        let k1 = k - 1;
                        assert(T::parse_spec(s, i + n + n * k1) == Parse::Done(
                            rest[k1],
                            i + n + n * k1 + n,
                        ));
                        assert(n * k == n * k1 + n) by (nonlinear_arith)
                            requires
                                k1 == k - 1,
                        ;
                        assert(vs[k] == rest[k1]);
                    } else {
                        assert(n * k == 0) by (nonlinear_arith)
                            requires
                                k == 0,
                        ;
                    }
                }
                assert(array_at::<T>(s, i, count) == Parse::Done(vs, i + n * count));
            }
        }
    }
}

/// Sixteen-bit values are read from two bytes, big-endian.
pub proof fn lemma_u16_layout(s: Seq<u8>, i: int)
    requires
        0 <= i,
        i + 2 <= s.len(),
    ensures
        u16::parse_spec(s, i) == Parse::Done(be_u16_at(s, i), i + 2),
{
}

/// A VERTICES chunk holds a count (big-endian, 32 bits), then that many
/// vertices of 12 bytes each: vertex `k` has its `x`, `y` and `z` at
/// `i + 4 + 12 * k`, 4 and 8 bytes further on.
pub proof fn lemma_vertices_chunk_layout(s: Seq<u8>, i: int)
    requires
        0 <= i,
        i + 4 <= s.len(),
        i + 4 + 12 * be_u32_at(s, i) <= s.len(),
    ensures
        VerticesChunk::parse_spec(s, i) matches Parse::Done(vs, e) && vs.len() == be_u32_at(s, i)
            && e == i + 4 + 12 * vs.len() && forall|k: int|
            #![trigger vs[k]]
            0 <= k < vs.len() ==> vs[k].x == be_u32_at(s, i + 4 + 12 * k) && vs[k].y == be_u32_at(
                s,
                i + 4 + 12 * k + 4,
            ) && vs[k].z == be_u32_at(s, i + 4 + 12 * k + 8),
{
    assert forall|j: int| 0 <= j && j + 12 <= s.len() implies ends_at(
        #[trigger] Vec3f::parse_spec(s, j),
        j + 12,
    ) by {
        lemma_vec3f_layout(s, j);
    }
    lemma_array_fixed::<Vec3f>(s, i + 4, be_u32_at(s, i) as nat, 12);
    if let Parse::Done(vs, e) = VerticesChunk::parse_spec(s, i) {
        assert forall|k: int| 0 <= k < vs.len() implies #[trigger] vs[k].x == be_u32_at(
            s,
            i + 4 + 12 * k,
        ) && vs[k].y == be_u32_at(s, i + 4 + 12 * k + 4) && vs[k].z == be_u32_at(
            s,
            i + 4 + 12 * k + 8,
        ) by {
            lemma_vec3f_layout(s, i + 4 + 12 * k);
        }
    }
}

/// A VERTEX_UV chunk holds a count (big-endian, 32 bits), then that many
/// texture coordinate pairs of 8 bytes each: pair `k` has `u` at
/// `i + 4 + 8 * k` and `v` 4 bytes further on.
pub proof fn lemma_vertex_uv_chunk_layout(s: Seq<u8>, i: int)
    requires
        0 <= i,
        i + 4 <= s.len(),
        i + 4 + 8 * be_u32_at(s, i) <= s.len(),
    ensures
        VertexUvChunk::parse_spec(s, i) matches Parse::Done(uvs, e) && uvs.len() == be_u32_at(s, i)
            && e == i + 4 + 8 * uvs.len() && forall|k: int|
            #![trigger uvs[k]]
            0 <= k < uvs.len() ==> uvs[k].u == be_u32_at(s, i + 4 + 8 * k) && uvs[k].v == be_u32_at(
                s,
                i + 4 + 8 * k + 4,
            ),
{
    assert forall|j: int| 0 <= j && j + 8 <= s.len() implies ends_at(
        #[trigger] VertexUV::parse_spec(s, j),
        j + 8,
    ) by {
        lemma_vertex_uv_layout(s, j);
    }
    lemma_array_fixed::<VertexUV>(s, i + 4, be_u32_at(s, i) as nat, 8);
    if let Parse::Done(uvs, e) = VertexUvChunk::parse_spec(s, i) {
        assert forall|k: int| 0 <= k < uvs.len() implies #[trigger] uvs[k].u == be_u32_at(
            s,
            i + 4 + 8 * k,
        ) && uvs[k].v == be_u32_at(s, i + 4 + 8 * k + 4) by {
            lemma_vertex_uv_layout(s, i + 4 + 8 * k);
        }
    }
}

/// A FACES chunk holds a count (big-endian, 32 bits), then that many faces
/// of 9 bytes each: face `k` at `i + 4 + 9 * k` holds `v1`, `v2`, `v3` and the
/// smoothing group (16 bits each), then the flags byte.
pub proof fn lemma_faces_chunk_layout(s: Seq<u8>, i: int)
    requires
        0 <= i,
        i + 4 <= s.len(),
        i + 4 + 9 * be_u32_at(s, i) <= s.len(),
    ensures
        FacesChunk::parse_spec(s, i) matches Parse::Done(fs, e) && fs.len() == be_u32_at(s, i)
            && e == i + 4 + 9 * fs.len() && forall|k: int|
            #![trigger fs[k]]
            0 <= k < fs.len() ==> {
                let b = i + 4 + 9 * k;
                &&& fs[k].v1 == be_u16_at(s, b)
                &&& fs[k].v2 == be_u16_at(s, b + 2)
                &&& fs[k].v3 == be_u16_at(s, b + 4)
                &&& fs[k].smoothing == be_u16_at(s, b + 6)
                &&& fs[k].flags == s[b + 8]
            },
{
    assert forall|j: int| 0 <= j && j + 9 <= s.len() implies ends_at(
        #[trigger] Face::parse_spec(s, j),
        j + 9,
    ) by {
        lemma_face_layout(s, j);
    }
    lemma_array_fixed::<Face>(s, i + 4, be_u32_at(s, i) as nat, 9);
    if let Parse::Done(fs, e) = FacesChunk::parse_spec(s, i) {
        assert forall|k: int| 0 <= k < fs.len() implies {
            let b = i + 4 + 9 * k;
            &&& (#[trigger] fs[k]).v1 == be_u16_at(s, b)
            &&& fs[k].v2 == be_u16_at(s, b + 2)
            &&& fs[k].v3 == be_u16_at(s, b + 4)
            &&& fs[k].smoothing == be_u16_at(s, b + 6)
            &&& fs[k].flags == s[b + 8]
        } by {
            lemma_face_layout(s, i + 4 + 9 * k);
        }
    }
}

/// A FACE_MATERIAL chunk holds an entry count and an entry size (big-endian,
/// 32 bits each; the size is 2), then the material index of each face,
/// 16 bits each: index `k` at `i + 8 + 2 * k`.
pub proof fn lemma_face_material_chunk_layout(s: Seq<u8>, i: int)
    requires
        0 <= i,
        i + 8 <= s.len(),
        be_u32_at(s, i + 4) == 2,
        i + 8 + 2 * be_u32_at(s, i) <= s.len(),
    ensures
        FaceMaterialChunk::parse_spec(s, i) matches Parse::Done(ms, e) && ms.len() == be_u32_at(
            s,
            i,
        ) && e == i + 8 + 2 * ms.len() && forall|k: int|
            0 <= k < ms.len() ==> #[trigger] ms[k] == be_u16_at(s, i + 8 + 2 * k),
{
    lemma_array_fixed::<u16>(s, i + 8, be_u32_at(s, i) as nat, 2);
}

/// A FACE_MATERIAL chunk whose entry size is not 2, or a PIXELS chunk whose
/// data size (units times unit size) does not fit in 32 bits, is not read at
/// all: it stops the loader.
pub proof fn lemma_unread_payloads(s: Seq<u8>, i: int)
    requires
        0 <= i,
        i + 8 <= s.len(),
    ensures
        be_u32_at(s, i + 4) != 2 ==> FaceMaterialChunk::parse_spec(s, i) is Abort,
        be_u32_at(s, i) as int * be_u32_at(s, i + 4) as int > u32::MAX ==> PixelsChunk::parse_spec(
            s,
            i,
        ) is Abort,
{
}

/// A matrix transform holds four rows of three floats, 12 bytes each: row
/// `k` has its `x`, `y` and `z` at `i + 12 * k`, 4 and 8 bytes further on.
pub proof fn lemma_transform_matrix34_layout(s: Seq<u8>, i: int)
    requires
        0 <= i,
        i + 48 <= s.len(),
    ensures
        TransformMatrix34Chunk::parse_spec(s, i) matches Parse::Done(m, e) && m.len() == 4 && e == i
            + 48 && forall|k: int|
            #![trigger m[k]]
            0 <= k < 4 ==> m[k].x == be_u32_at(s, i + 12 * k) && m[k].y == be_u32_at(
                s,
                i + 12 * k + 4,
            ) && m[k].z == be_u32_at(s, i + 12 * k + 8),
{
    assert forall|j: int| 0 <= j && j + 12 <= s.len() implies ends_at(
        #[trigger] Vec3f::parse_spec(s, j),
        j + 12,
    ) by {
        lemma_vec3f_layout(s, j);
    }
    lemma_array_fixed::<Vec3f>(s, i, 4, 12);
    if let Parse::Done(m, e) = TransformMatrix34Chunk::parse_spec(s, i) {
        assert forall|k: int| 0 <= k < 4 implies #[trigger] m[k].x == be_u32_at(s, i + 12 * k)
            && m[k].y == be_u32_at(s, i + 12 * k + 4) && m[k].z == be_u32_at(s, i + 12 * k + 8) by {
            lemma_vec3f_layout(s, i + 12 * k);
        }
    }
}

} // verus!
