use roadkill::support::brender::material::{Material, MaterialTable};
use roadkill::support::brender::model::{material_texture, Model};
use roadkill::support::brender::pixelmap::{PixelMap, PixelMapTable};
use roadkill::support::brender::resource::{FacesChunk, FromStream, LoadMany, Vec3f};
use roadkill::support::brender::stream::ByteStream;
use roadkill::support::Error;

fn model_file(name: &[u8]) -> Vec<u8> {
    let mut v = vec![0x0, 0x0, 0x0, 0x36, 0x0, 0x0, 0x0, (2 + name.len() + 1) as u8, 0x0, 0x3];
    v.extend_from_slice(name);
    v.push(0);
    v.extend_from_slice(&[0x0, 0x0, 0x0, 0x0, 0x0, 0x0, 0x0, 0x0]);
    v
}

#[test]
fn test_load_model() {
    let mut data = ByteStream::new(vec![
        0x0, 0x0, 0x0, 0x36, // Chunk type - MODEL
        0x0, 0x0, 0x0, 0x8, // Chunk size
        0x0, 0x3, // flags u16
        b'h', b'e', b'l', b'l', b'o', 0, // identifier
        0x0, 0x0, 0x0, 0x0, // Chunk type - NULL_CHUNK
        0x0, 0x0, 0x0, 0x0, // Chunk size
    ]);
    let m = Model::from_stream(&mut data).unwrap();
    assert_eq!("hello", m.identifier);
}

#[test]
fn model_parts_are_set_by_their_chunks() {
    let mut v = vec![0, 0, 0, 0x12, 0, 0, 0, 8, 0, 0, 0xfa, 0xce, 0, 0, 0, 1];
    v.extend_from_slice(&[0, 0, 0, 0x36, 0, 0, 0, 6, 0, 0, b'C', b'A', b'R', 0]);
    // MATERIAL_INDEX with one name
    v.extend_from_slice(&[0, 0, 0, 0x16, 0, 0, 0, 9, 0, 0, 0, 1, b'R', b'E', b'D', b'.', 0]);
    // FACES with one face
    v.extend_from_slice(&[0, 0, 0, 0x35, 0, 0, 0, 13, 0, 0, 0, 1, 0, 0, 0, 1, 0, 2, 0, 0, 0]);
    // FACE_MATERIAL with one index
    v.extend_from_slice(&[0, 0, 0, 0x1a, 0, 0, 0, 10, 0, 0, 0, 1, 0, 0, 0, 2, 0, 1]);
    v.extend_from_slice(&[0; 8]);
    let mut data = ByteStream::new(v);
    let m = Model::from_stream(&mut data).unwrap();
    assert_eq!(m.identifier, "CAR");
    assert_eq!(m.material_names, vec!["".to_string(), "RED.".to_string()]);
    assert_eq!(m.faces.faces.len(), 1);
    assert_eq!(m.face_material_indices, vec![1]);
    assert_eq!(m.face_indices(), vec![0, 1, 2]);
}

#[test]
fn model_file_of_wrong_type_fails() {
    let v = vec![0, 0, 0, 0x12, 0, 0, 0, 8, 0, 0, 0, 5, 0, 0, 0, 1, 0, 0, 0, 0, 0, 0, 0, 0];
    let mut data = ByteStream::new(v);
    match Model::from_stream(&mut data) {
        Err(Error::InvalidFileType { expected, received }) => {
            assert_eq!((expected, received), (0xface, 5))
        }
        _ => panic!("expected a file type error"),
    }
    // the file info chunk was read whole, and nothing after it
    assert_eq!(data.position_exec(), 16);
}

#[test]
fn model_chunk_before_model_fails() {
    let v = vec![0, 0, 0, 0x17, 0, 0, 0, 4, 0, 0, 0, 0, 0, 0, 0, 0, 0, 0, 0, 0];
    let mut data = ByteStream::new(v);
    assert!(matches!(Model::from_stream(&mut data), Err(Error::EmptyStack)));
    assert_eq!(data.position_exec(), 12);
}

#[test]
fn end_without_model_fails() {
    let mut data = ByteStream::new(vec![0; 8]);
    assert!(matches!(Model::from_stream(&mut data), Err(Error::EmptyStack)));
    assert_eq!(data.position_exec(), 8);
}

#[test]
fn unexpected_chunk_in_model_file_is_not_read() {
    let mut v = model_file(b"A");
    v.truncate(v.len() - 8);
    v.extend_from_slice(&[0, 0, 0, 0x25, 0, 0, 0, 0]);
    let data = ByteStream::new(v);
    assert!(!Model::readable(&data));
}

#[test]
fn load_many_reads_models_until_a_read_fails() {
    let mut v = model_file(b"ONE");
    v.extend(model_file(b"TWO"));
    v.extend_from_slice(&[0, 0]);
    let mut data = ByteStream::new(v);
    assert!(Model::loads_many(&data));
    let models = Model::load_many(&mut data);
    let names: Vec<&str> = models.iter().map(|m| m.identifier.as_str()).collect();
    assert_eq!(names, vec!["ONE", "TWO"]);
    assert_eq!(data.position_exec(), 2 * model_file(b"ONE").len());
}

fn indexed(name: &str, data: Vec<u8>) -> PixelMap {
    PixelMap {
        identifier: name.to_string(),
        pixel_type: 3,
        width: 2,
        height: 1,
        origin_x: 0,
        origin_y: 0,
        row_bytes: 2,
        units: data.len() as u32,
        unit_bytes: 1,
        data,
    }
}

fn material(color_map: &str, shade: &str) -> Material {
    let mut bytes = vec![0u8; 48];
    bytes.extend_from_slice(b"M\0");
    let material =
        roadkill::support::brender::resource::MaterialChunk::from_stream(&mut ByteStream::new(bytes))
            .unwrap();
    Material {
        material,
        color_map_name: color_map.to_string(),
        index_shade_name: shade.to_string(),
        index_blend_name: String::new(),
        screendoor_name: String::new(),
    }
}

#[test]
fn material_texture_remaps_through_shade_table() {
    let mut pal = indexed("PAL", vec![9, 1, 2, 3, 200, 10, 20, 30]);
    pal.unit_bytes = 4;
    pal.units = 2;
    let imgs = PixelMapTable::from_entries(vec![
        ("TEX".to_string(), indexed("TEX", vec![1, 0])),
        ("PAL".to_string(), pal),
    ]);
    let mats = MaterialTable::from_entries(vec![("M".to_string(), material("TEX", "PAL"))]);
    let t = material_texture("M", &mats, &imgs).unwrap();
    assert_eq!(t.data, vec![10, 20, 30, 55, 0, 0, 0, 255]);
    assert_eq!((t.unit_bytes, t.pixel_type), (4, 8));
}

#[test]
fn material_texture_reports_missing_names() {
    let imgs = PixelMapTable::from_entries(vec![("TEX".to_string(), indexed("TEX", vec![0]))]);
    let mats = MaterialTable::from_entries(vec![("M".to_string(), material("TEX", "PAL"))]);
    match material_texture("", &mats, &imgs) {
        Err(Error::MissingMaterial { mat_name }) => assert_eq!(mat_name, ""),
        _ => panic!("expected a missing material"),
    }
    match material_texture("M", &mats, &imgs) {
        Err(Error::MissingPixelMap { pm_name }) => assert_eq!(pm_name, "PAL"),
        _ => panic!("expected a missing pixelmap"),
    }
}

fn named_model(names: &[&str]) -> Model {
    Model {
        identifier: "CAR".to_string(),
        vertices: Vec::new(),
        vertex_uvs: Vec::new(),
        faces: FacesChunk { faces: Vec::new() },
        material_names: names.iter().map(|n| n.to_string()).collect(),
        face_material_indices: Vec::new(),
        pivot: Vec3f { x: 0, y: 0, z: 0 },
    }
}

#[test]
fn model_textures_follow_material_names() {
    let mut pal = indexed("PAL", vec![9, 1, 2, 3, 200, 10, 20, 30]);
    pal.unit_bytes = 4;
    pal.units = 2;
    let imgs = PixelMapTable::from_entries(vec![
        ("TEX".to_string(), indexed("TEX", vec![1, 0])),
        ("PAL".to_string(), pal),
    ]);
    let mats = MaterialTable::from_entries(vec![("M".to_string(), material("TEX", "PAL"))]);
    let m = named_model(&["M", "M"]);
    assert!(m.material_textures_fit_in(&mats, &imgs));
    let ts = m.material_textures(&mats, &imgs).unwrap();
    assert_eq!(ts.len(), 2);
    assert_eq!(ts[1].data, vec![10, 20, 30, 55, 0, 0, 0, 255]);
    let bad = named_model(&["M", "X", "Y"]);
    match bad.material_textures(&mats, &imgs) {
        Err(Error::MissingMaterial { mat_name }) => assert_eq!(mat_name, "X"),
        _ => panic!("expected the first missing material"),
    }
    assert!(named_model(&[]).material_textures(&mats, &imgs).unwrap().is_empty());
}
