use roadkill::support::brender::material::Material;
use roadkill::support::brender::pixelmap::{remap_via_palette, PixelMap, PixelMapTable};
use roadkill::support::brender::resource::{FromStream, LoadMany};
use roadkill::support::brender::stream::ByteStream;
use roadkill::support::Error;

fn pixelmap_file(name: &[u8], pixels: &[u8]) -> Vec<u8> {
    let mut v = vec![0, 0, 0, 0x12, 0, 0, 0, 8, 0, 0, 0, 2, 0, 0, 0, 1];
    v.extend_from_slice(&[0, 0, 0, 0x03, 0, 0, 0, 0]);
    v.extend_from_slice(&[3, 0, 2, 0, 2, 0, 1, 0, 0, 0, 0]);
    v.extend_from_slice(name);
    v.push(0);
    v.extend_from_slice(&[0, 0, 0, 0x21, 0, 0, 0, 0]);
    v.extend_from_slice(&(pixels.len() as u32).to_be_bytes());
    v.extend_from_slice(&[0, 0, 0, 1]);
    v.extend_from_slice(pixels);
    v.extend_from_slice(&[0; 8]);
    v
}

#[test]
fn pixelmap_header_and_pixels() {
    let mut data = ByteStream::new(pixelmap_file(b"SKY.PIX", &[4, 5]));
    let p = PixelMap::from_stream(&mut data).unwrap();
    assert_eq!(p.identifier, "SKY.PIX");
    assert_eq!((p.pixel_type, p.row_bytes, p.width, p.height), (3, 2, 2, 1));
    assert_eq!((p.units, p.unit_bytes), (2, 1));
    assert_eq!(p.data, vec![4, 5]);
}

#[test]
fn pixelmap_load_many() {
    let mut v = pixelmap_file(b"A", &[1]);
    v.extend(pixelmap_file(b"B", &[2, 3]));
    let mut data = ByteStream::new(v);
    let maps = PixelMap::load_many(&mut data);
    assert_eq!(maps.len(), 2);
    assert_eq!(maps[1].data, vec![2, 3]);
}

#[test]
fn material_file_of_wrong_type_fails() {
    let v = vec![0, 0, 0, 0x12, 0, 0, 0, 8, 0, 0, 0, 2, 0, 0, 0, 1];
    let mut data = ByteStream::new(v);
    assert!(matches!(Material::from_stream(&mut data), Err(Error::InvalidResourceType)));
    assert_eq!(data.position_exec(), 16);
}

#[test]
fn pixelmap_file_of_wrong_type_fails() {
    let mut v = vec![0, 0, 0, 0x12, 0, 0, 0, 8, 0, 0, 0xfa, 0xce, 0, 0, 0, 2];
    v.extend_from_slice(&[0, 0, 0, 0x03, 0, 0, 0, 0]);
    let mut data = ByteStream::new(v);
    match PixelMap::from_stream(&mut data) {
        Err(Error::InvalidFileType { expected, received }) => {
            assert_eq!((expected, received), (2, 0xface))
        }
        _ => panic!("expected a file type error"),
    }
    assert_eq!(data.position_exec(), 16);
}

#[test]
fn material_file_names_its_maps() {
    let mut v = vec![0, 0, 0, 0x04, 0, 0, 0, 0];
    v.extend_from_slice(&[0u8; 48]);
    v.extend_from_slice(b"STEEL\0");
    v.extend_from_slice(&[0, 0, 0, 0x1c, 0, 0, 0, 0]);
    v.extend_from_slice(b"STEEL.PIX\0");
    v.extend_from_slice(&[0, 0, 0, 0x1f, 0, 0, 0, 0]);
    v.extend_from_slice(b"SHADE.TAB\0");
    v.extend_from_slice(&[0; 8]);
    let mut data = ByteStream::new(v);
    let mats = Material::load_many(&mut data);
    assert_eq!(mats.len(), 1);
    assert_eq!(mats[0].material.identifier, "STEEL");
    assert_eq!(mats[0].color_map_name, "STEEL.PIX");
    assert_eq!(mats[0].index_shade_name, "SHADE.TAB");
    assert_eq!(mats[0].index_blend_name, "");
}

fn map(name: &str, units: u32, unit_bytes: u32, data: Vec<u8>) -> PixelMap {
    PixelMap {
        identifier: name.to_string(),
        pixel_type: 3,
        width: units as u16,
        height: 1,
        origin_x: 0,
        origin_y: 0,
        row_bytes: units as u16,
        units,
        unit_bytes,
        data,
    }
}

#[test]
fn remap_index_zero_is_transparent() {
    let imgs = PixelMapTable::from_entries(vec![
        ("C".to_string(), map("C", 3, 1, vec![0, 1, 0])),
        ("P".to_string(), map("P", 2, 4, vec![0, 0, 0, 0, 5, 6, 7, 8])),
    ]);
    let out = remap_via_palette("C", "P", &imgs).unwrap();
    assert_eq!(out.data, vec![0, 0, 0, 255, 6, 7, 8, 250, 0, 0, 0, 255]);
    assert_eq!(out.data.len(), 4 * 3);
    assert_eq!((out.units, out.width, out.height), (3, 3, 1));
    assert_eq!(out.pixel_type, 8);
    assert_eq!(out.unit_bytes, 4);
}

#[test]
fn remap_reports_missing_maps() {
    let imgs = PixelMapTable::from_entries(vec![("C".to_string(), map("C", 1, 1, vec![0]))]);
    match remap_via_palette("X", "C", &imgs) {
        Err(Error::MissingPixelMap { pm_name }) => assert_eq!(pm_name, "X"),
        _ => panic!("expected a missing colour map"),
    }
    match remap_via_palette("C", "Y", &imgs) {
        Err(Error::MissingPixelMap { pm_name }) => assert_eq!(pm_name, "Y"),
        _ => panic!("expected a missing palette"),
    }
}

#[test]
fn remap_fits_detects_short_palette() {
    let c = map("C", 1, 1, vec![2]);
    let p = map("P", 2, 4, vec![0; 8]);
    assert!(!c.remap_fits(&p));
    let q = map("Q", 3, 4, vec![0; 12]);
    assert!(c.remap_fits(&q));
}

#[test]
fn table_keeps_first_entry_of_a_name() {
    let imgs = PixelMapTable::from_entries(vec![
        ("C".to_string(), map("first", 1, 1, vec![0])),
        ("C".to_string(), map("second", 1, 1, vec![0])),
        ("P".to_string(), map("P", 1, 4, vec![0; 4])),
    ]);
    // the remapped colour map is the first one given: it has one unit
    let out = remap_via_palette("C", "P", &imgs).unwrap();
    assert_eq!(out.data, vec![0, 0, 0, 255]);
}

#[test]
fn rgb_of_indexed_pixelmap_goes_through_palette() {
    let c = map("C", 2, 1, vec![1, 0]);
    let p = map("P", 2, 4, vec![9, 1, 2, 3, 9, 4, 5, 6]);
    assert!(c.rgb_remap_fits(&p));
    assert_eq!(c.rgb_remapped_via(&p), vec![4, 5, 6, 1, 2, 3]);
}

#[test]
fn rgb_of_direct_pixelmap_drops_fourth_byte() {
    let c = map("C", 2, 4, vec![1, 2, 3, 4, 5, 6, 7, 8]);
    let p = map("P", 0, 4, vec![]);
    assert!(c.rgb_remap_fits(&p));
    assert_eq!(c.rgb_remapped_via(&p), vec![1, 2, 3, 5, 6, 7]);
    let d = map("D", 2, 2, vec![1, 2, 3, 4]);
    assert!(!d.rgb_remap_fits(&p));
}

#[test]
fn pixelmap_text_form() {
    let p = PixelMap {
        identifier: "SKY.PIX".to_string(),
        pixel_type: 3,
        width: 320,
        height: 200,
        origin_x: 5,
        origin_y: 70,
        row_bytes: 320,
        units: 64000,
        unit_bytes: 1,
        data: Vec::new(),
    };
    assert_eq!(
        p.describe(),
        "SKY.PIX type 3 (320x200, stride 5 bytes, origin 70x320) in 64000 units of 1 bytes each"
    );
    let q = PixelMap { identifier: String::new(), width: 0, units: 0, ..p };
    assert_eq!(
        q.describe(),
        " type 3 (0x200, stride 5 bytes, origin 70x320) in 0 units of 1 bytes each"
    );
}

#[test]
fn png_of_indexed_pixelmap_holds_palette_colours() {
    let c = map("C", 2, 1, vec![1, 0]);
    let p = map("P", 2, 4, vec![0, 10, 20, 30, 0, 40, 50, 60]);
    let png = c.png_remapped_via(&p).unwrap();
    assert_eq!(&png[..8], &[0x89, b'P', b'N', b'G', 0x0d, 0x0a, 0x1a, 0x0a]);
    let img = image::load_from_memory(&png).unwrap().to_rgb8();
    assert_eq!(img.dimensions(), (2, 1));
    assert_eq!(img.into_raw(), vec![40, 50, 60, 10, 20, 30]);
}

#[test]
fn pixelmap_text_fills_slots_in_field_order() {
    let p = PixelMap {
        identifier: "a".to_string(),
        pixel_type: 3,
        width: 2,
        height: 1,
        origin_x: 5,
        origin_y: 6,
        row_bytes: 4,
        units: 2,
        unit_bytes: 1,
        data: Vec::new(),
    };
    assert_eq!(p.describe(), "a type 3 (2x1, stride 5 bytes, origin 6x4) in 2 units of 1 bytes each");
}

#[test]
fn png_of_empty_pixelmap_is_refused() {
    let c = map("C", 0, 1, Vec::new());
    let p = map("P", 1, 4, vec![0; 4]);
    assert!(matches!(c.png_remapped_via(&p), Err(Error::Image(_))));
}
