use roadkill::support::brender::model::Model;
use roadkill::support::brender::pixelmap::PixelMap;
use roadkill::support::brender::resource::{
    BoundsChunk, Chunk, ChunkType, Face, FaceMaterialChunk, FileInfoChunk, FromStream,
    MaterialChunk, MaterialFlags, MaterialIndexChunk, NameRefChunk, PixelsChunk, ResourceStack,
    Vec3f, VerticesChunk,
};
use roadkill::support::brender::stream::ByteStream;
use roadkill::support::Error;

fn empty_pixelmap(width: u16) -> PixelMap {
    PixelMap {
        identifier: String::new(),
        pixel_type: 0,
        width,
        height: 0,
        origin_x: 0,
        origin_y: 0,
        row_bytes: 0,
        units: 0,
        unit_bytes: 0,
        data: Vec::new(),
    }
}

#[test]
fn test_load_face() {
    let mut data = ByteStream::new(vec![0xde, 0xad, 0xbe, 0xef, 0xca, 0xfe, 0xba, 0xbe, 0xed]);
    let f = Face::from_stream(&mut data).unwrap();
    assert_eq!(0xdead, f.v1);
    assert_eq!(0xbeef, f.v2);
    assert_eq!(0xcafe, f.v3);
    assert_eq!(0xbabe, f.smoothing);
    assert_eq!(0xed, f.flags);
}

#[test]
fn test_stack_hetero() {
    let mut stack = ResourceStack::new();
    stack.push(Box::new(empty_pixelmap(0)));
    stack.push(Box::new(BoundsChunk {
        min: Vec3f { x: 0, y: 0, z: 0 },
        max: Vec3f { x: 0, y: 0, z: 0 },
    }));
    stack.pop::<BoundsChunk>().expect("Should have the right type");
    stack.top::<PixelMap>().expect("Should have the right type");
    assert_eq!(stack.top::<PixelMap>().unwrap().width, 0);
    stack.top::<PixelMap>().unwrap().width = 1;
    assert_eq!(stack.top::<PixelMap>().unwrap().width, 1);
}

#[test]
fn face_read_short_stream_fails_within_the_stream() {
    let mut data = ByteStream::new(vec![0xde, 0xad, 0xbe]);
    let r = Face::from_stream(&mut data);
    assert!(matches!(r, Err(Error::UnexpectedEof)));
    assert!(data.position_exec() <= 3);
}

#[test]
fn face_read_leaves_following_bytes() {
    let mut data = ByteStream::new(vec![0, 1, 0, 2, 0, 3, 0, 4, 5, 0, 6, 0, 7, 0, 8, 0, 9, 10]);
    let f = Face::from_stream(&mut data).unwrap();
    assert_eq!((f.v1, f.v2, f.v3, f.smoothing, f.flags), (1, 2, 3, 4, 5));
    assert_eq!(data.position_exec(), 9);
    let g = Face::from_stream(&mut data).unwrap();
    assert_eq!((g.v1, g.v2, g.v3, g.smoothing, g.flags), (6, 7, 8, 9, 10));
}

#[test]
fn file_info_is_big_endian() {
    let mut data = ByteStream::new(vec![0, 0, 0xfa, 0xce, 0, 0, 0, 2]);
    let fi = FileInfoChunk::from_stream(&mut data).unwrap();
    assert_eq!(fi.file_type, 0xface);
    assert_eq!(fi.version, 2);
}

#[test]
fn name_ref_reads_up_to_terminator() {
    let mut data = ByteStream::new(b"ABC.PIX\0rest".to_vec());
    let n = NameRefChunk::from_stream(&mut data).unwrap();
    assert_eq!(n.identifier, "ABC.PIX");
    assert_eq!(data.position_exec(), 8);
}

#[test]
fn name_ref_without_terminator_fails() {
    let mut data = ByteStream::new(b"ABC".to_vec());
    assert!(matches!(NameRefChunk::from_stream(&mut data), Err(Error::UnexpectedEof)));
}

#[test]
fn name_ref_with_invalid_utf8_fails() {
    let mut data = ByteStream::new(vec![0xff, 0xfe, 0]);
    assert!(matches!(NameRefChunk::from_stream(&mut data), Err(Error::InvalidUtf8)));
    assert!(data.position_exec() <= 3);
}

#[test]
fn material_index_reads_counted_names() {
    let mut data = ByteStream::new(b"\0\0\0\x02ONE\0TWO\0".to_vec());
    let mi = MaterialIndexChunk::from_stream(&mut data).unwrap();
    assert_eq!(mi.materials, vec!["ONE".to_string(), "TWO".to_string()]);
}

#[test]
fn vertices_read_float_bits() {
    let one = 1.0f32.to_bits().to_be_bytes();
    let mut bytes = vec![0, 0, 0, 1];
    bytes.extend_from_slice(&one);
    bytes.extend_from_slice(&2.5f32.to_bits().to_be_bytes());
    bytes.extend_from_slice(&(-3.0f32).to_bits().to_be_bytes());
    let mut data = ByteStream::new(bytes);
    let v = VerticesChunk::from_stream(&mut data).unwrap();
    assert_eq!(v.vertices.len(), 1);
    assert_eq!(f32::from_bits(v.vertices[0].x), 1.0);
    assert_eq!(f32::from_bits(v.vertices[0].y), 2.5);
    assert_eq!(f32::from_bits(v.vertices[0].z), -3.0);
}

#[test]
fn face_material_reads_two_byte_entries() {
    let mut data = ByteStream::new(vec![0, 0, 0, 2, 0, 0, 0, 2, 0, 1, 0, 7]);
    assert!(FaceMaterialChunk::readable(&data));
    let fm = FaceMaterialChunk::from_stream(&mut data).unwrap();
    assert_eq!(fm.face_material_indices, vec![1, 7]);
}

#[test]
fn face_material_with_other_entry_size_is_not_read() {
    let data = ByteStream::new(vec![0, 0, 0, 2, 0, 0, 0, 4, 0, 1, 0, 7]);
    assert!(!FaceMaterialChunk::readable(&data));
}

#[test]
fn pixels_copy_payload() {
    let mut data = ByteStream::new(vec![0, 0, 0, 2, 0, 0, 0, 3, 1, 2, 3, 4, 5, 6, 7]);
    let p = PixelsChunk::from_stream(&mut data).unwrap();
    assert_eq!((p.units, p.unit_bytes), (2, 3));
    assert_eq!(p.data, vec![1, 2, 3, 4, 5, 6]);
    assert_eq!(data.position_exec(), 14);
}

#[test]
fn pixels_with_short_payload_fail() {
    let mut data = ByteStream::new(vec![0, 0, 0, 2, 0, 0, 0, 3, 1, 2, 3]);
    assert!(matches!(PixelsChunk::from_stream(&mut data), Err(Error::UnexpectedEof)));
}

#[test]
fn pixels_with_overflowing_size_are_not_read() {
    let data = ByteStream::new(vec![0, 1, 0, 0, 0, 1, 0, 0]);
    assert!(!PixelsChunk::readable(&data));
}

#[test]
fn material_chunk_fields() {
    let mut bytes = vec![10, 20, 30, 40];
    for f in [0.5f32, 0.25, 0.125, 20.0] {
        bytes.extend_from_slice(&f.to_bits().to_be_bytes());
    }
    bytes.extend_from_slice(&[0x00, 0x05]);
    for f in [1.0f32, 0.0, 0.0, 1.0, 0.0, 0.0] {
        bytes.extend_from_slice(&f.to_bits().to_be_bytes());
    }
    bytes.extend_from_slice(&[7, 8]);
    bytes.extend_from_slice(b"MAT\0");
    let mut data = ByteStream::new(bytes);
    let m = MaterialChunk::from_stream(&mut data).unwrap();
    assert_eq!((m.color.r, m.color.g, m.color.b, m.opacity), (10, 20, 30, 40));
    assert_eq!(f32::from_bits(m.power), 20.0);
    assert_eq!(m.flags.0, 5);
    assert_eq!(f32::from_bits(m.map_transform_y.y), 1.0);
    assert_eq!((m.index_base, m.index_range), (7, 8));
    assert_eq!(m.identifier, "MAT");
}

#[test]
fn material_flags_describe() {
    assert_eq!(MaterialFlags(0).describe(), "[]");
    assert_eq!(MaterialFlags(0x0005).describe(), "[LIGHT SMOOTH ]");
    assert_eq!(MaterialFlags(0x8000).describe(), "[CUSTOM ]");
}

#[test]
fn chunk_type_names() {
    assert_eq!(ChunkType(0x36).name(), "MODEL");
    assert_eq!(ChunkType(0x0).name(), "END");
    assert_eq!(ChunkType(0x1f).name(), "INDEX_SHADE_REF");
    assert_eq!(ChunkType(0x99).name(), "UNKNOWN");
}

#[test]
fn chunk_reads_header_and_payload() {
    let mut data = ByteStream::new(vec![0, 0, 0, 0x12, 0, 0, 0, 8, 0, 0, 0, 5, 0, 0, 0, 2]);
    match Chunk::from_stream(&mut data).unwrap() {
        Chunk::FileInfo(fi) => assert_eq!((fi.file_type, fi.version), (5, 2)),
        _ => panic!("expected a file info chunk"),
    }
    assert_eq!(data.position_exec(), 16);
}

#[test]
fn chunk_of_unknown_type_is_not_read() {
    let data = ByteStream::new(vec![0, 0, 0, 0x99, 0, 0, 0, 0]);
    assert!(!Chunk::readable(&data));
}

#[test]
fn file_info_chunk_of_wrong_size_is_not_read() {
    let data = ByteStream::new(vec![0, 0, 0, 0x12, 0, 0, 0, 9, 0, 0, 0, 5, 0, 0, 0, 2, 0]);
    assert!(!Chunk::readable(&data));
}

#[test]
fn action_chunk_has_no_payload() {
    let mut data = ByteStream::new(vec![0, 0, 0, 0x25, 0, 0, 0, 0]);
    assert!(matches!(Chunk::from_stream(&mut data).unwrap(), Chunk::ActorTransform(_)));
    assert_eq!(data.position_exec(), 8);
}

#[test]
fn pop_of_empty_stack_fails() {
    let mut stack = ResourceStack::new();
    assert!(matches!(stack.pop::<Model>(), Err(Error::EmptyStack)));
    assert!(matches!(stack.top::<Model>(), Err(Error::EmptyStack)));
}

#[test]
fn pop_of_wrong_type_fails_and_drops_entry() {
    let mut stack = ResourceStack::new();
    stack.push(Box::new(empty_pixelmap(3)));
    assert!(matches!(stack.top::<Model>(), Err(Error::InvalidResourceType)));
    assert_eq!(stack.top::<PixelMap>().unwrap().width, 3);
    assert!(matches!(stack.pop::<Model>(), Err(Error::InvalidResourceType)));
    assert!(matches!(stack.pop::<PixelMap>(), Err(Error::EmptyStack)));
}

#[test]
fn push_then_pop_gives_back_the_value() {
    let mut stack = ResourceStack::new();
    stack.push(Box::new(empty_pixelmap(1)));
    stack.push(Box::new(empty_pixelmap(2)));
    assert_eq!(stack.pop::<PixelMap>().unwrap().width, 2);
    assert_eq!(stack.pop::<PixelMap>().unwrap().width, 1);
}

#[test]
fn chunk_size_field_is_ignored_but_for_file_info() {
    for size in [0u8, 3, 0xff] {
        let mut data = ByteStream::new(vec![0, 0, 0, 0x25, 0, 0, 0, size, 1, 2]);
        assert!(matches!(Chunk::from_stream(&mut data).unwrap(), Chunk::ActorTransform(_)));
        assert_eq!(data.position_exec(), 8);
        let mut v = vec![0, 0, 0, 0x16, 0xff, 0, 0, size, 0, 0, 0, 1];
        v.extend_from_slice(b"RED.\0");
        let mut data = ByteStream::new(v);
        match Chunk::from_stream(&mut data).unwrap() {
            Chunk::MaterialIndex(m) => assert_eq!(m.materials, vec!["RED.".to_string()]),
            _ => panic!("expected a material index chunk"),
        }
        assert_eq!(data.position_exec(), 17);
    }
}
