use std::io::{Cursor, Write};

use serendip::SerendipThermogram;
use serendip::markers::{Marker, Metadata, Point};
use serendip::parsing::zip_format::decode::{ThermalData, decode_zip_format, extract_thermal_data, unzip};
use serendip::parsing::zip_format::files::Files;
use serendip::parsing::zip_format::format::image_properties::decode_text;
use serendip::parsing::zip_format::format::ir_data::{
    IrData, extract_dimensions_from_ir_data_header, extract_ir_data, extract_ir_dimensions,
};
use serendip::parsing::zip_format::format::ir_image_info::IrImageInfo;
use serendip::parsing::zip_format::format::markers::{ZipMetadata, ZipPoint, extract_markers};
use zip::ZipWriter;
use zip::write::SimpleFileOptions;

fn varint(mut value: u64, out: &mut Vec<u8>) {
    loop {
        if value < 0x80 {
            out.push(value as u8);
            return;
        }
        out.push((value & 0x7F) as u8 | 0x80);
        value >>= 7;
    }
}

fn key(tag: u32, wire_type: u8, out: &mut Vec<u8>) {
    varint((u64::from(tag) << 3) | u64::from(wire_type), out);
}

fn uint_field(tag: u32, value: u64, out: &mut Vec<u8>) {
    key(tag, 0, out);
    varint(value, out);
}

fn bytes_field(tag: u32, bytes: &[u8], out: &mut Vec<u8>) {
    key(tag, 2, out);
    varint(bytes.len() as u64, out);
    out.extend_from_slice(bytes);
}

fn point_bytes(x: u64, y: u64) -> Vec<u8> {
    let mut p = Vec::new();
    uint_field(1, x, &mut p);
    uint_field(2, y, &mut p);
    p
}

fn metadata_bytes(label1: &str, label2: &str) -> Vec<u8> {
    let mut m = Vec::new();
    bytes_field(1, label1.as_bytes(), &mut m);
    bytes_field(2, label2.as_bytes(), &mut m);
    m
}

fn point_marker_bytes(x: u64, y: u64, label2: &str) -> Vec<u8> {
    let mut m = Vec::new();
    bytes_field(1, &point_bytes(x, y), &mut m);
    bytes_field(2, &metadata_bytes("Marker", label2), &mut m);
    m
}

fn box_marker_bytes() -> Vec<u8> {
    let mut m = Vec::new();
    bytes_field(1, &point_bytes(2, 4), &mut m);
    bytes_field(2, &point_bytes(10, 12), &mut m);
    bytes_field(3, &metadata_bytes("Box", "Centerbox"), &mut m);
    m
}

/// IR.data for a `width` × `height` frame: a header row, then counts
/// 1000, 1001, ... row by row.
fn ir_data_bytes(width: u16, height: u16) -> Vec<u8> {
    let mut raw = Vec::new();
    for _ in 0..width {
        raw.extend_from_slice(&7u16.to_le_bytes());
    }
    for i in 0..(width * height) {
        raw.extend_from_slice(&(1000 + i).to_le_bytes());
    }
    raw
}

fn zip_of(entries: &[(&str, Vec<u8>)]) -> Vec<u8> {
    let mut writer = ZipWriter::new(Cursor::new(Vec::new()));
    for (name, content) in entries {
        writer.start_file(*name, SimpleFileOptions::default()).expect("starts");
        writer.write_all(content).expect("writes");
    }
    writer.finish().expect("finishes").into_inner()
}

fn classic_entries() -> Vec<(&'static str, Vec<u8>)> {
    let mut ir_image_info = Vec::new();
    uint_field(4, 8, &mut ir_image_info);
    uint_field(5, 8, &mut ir_image_info);
    let mut camera_info = Vec::new();
    bytes_field(22, b"Fluke", &mut camera_info);
    let mut calibration = Vec::new();
    uint_field(1, 20130306, &mut calibration);
    vec![
        ("Images/Main/IRImageInfo.gpbenc", ir_image_info),
        ("CameraInfo.gpbenc", camera_info),
        ("CalibrationData.gpbenc", calibration),
        ("Images/Main/IR.data", ir_data_bytes(4, 3)),
        ("Markers/Standard/Hotpoint.gpbenc", point_marker_bytes(6, 4, "Hotpoint")),
        ("Markers/Standard/Centerbox.gpbenc", box_marker_bytes()),
        ("Images/Main/050003C0.jpg", vec![0xFF, 0xD8, 2]),
        ("Images/Main/028001E0.jpg", vec![0xFF, 0xD8, 1]),
        ("Other/readme.txt", b"hello".to_vec()),
    ]
}

#[test]
fn decodes_classic_zip_thermogram() {
    let bytes = zip_of(&classic_entries());
    let t = decode_zip_format(&bytes).expect("decodes");
    assert_eq!(t.width(), 4);
    assert_eq!(t.height(), 3);
    assert_eq!(t.camera_info.manufacturer, "Fluke");
    assert_eq!(t.calibration_data.date, 20130306);
    assert_eq!(t.calibration_data.curve, None);
    let ThermalData::IrData(ir) = &t.thermal else {
        panic!("classic data expected");
    };
    assert_eq!(ir.body().len(), 12);
    assert_eq!(ir.count_at(0, 0), Some(1000));
    assert_eq!(ir.count_at(3, 2), Some(1011));
    assert_eq!(ir.count_at(4, 0), None);

    // Markers in the standard order: centerbox before hotpoint.
    assert_eq!(t.markers.len(), 2);
    assert!(matches!(t.markers[0], Marker::Box { .. }));
    let Marker::Point { coords, metadata } = &t.markers[1] else {
        panic!("point marker expected");
    };
    assert_eq!(*coords, Point { x: 6, y: 4 });
    assert_eq!(metadata.label2, "Hotpoint");

    assert_eq!(t.visuals.len(), 2);
    assert!(t.visuals.contains_key("Images/Main/028001E0.jpg"));
    assert!(t.visuals.contains_key("Images/Main/050003C0.jpg"));
}

#[test]
fn ti400_visual_picks_first_path_deterministically() {
    // A synthetic Ti400-shaped archive: IR.data and two main JPEGs.
    let bytes = zip_of(&classic_entries());
    let t = SerendipThermogram::new_from_bytes(&bytes).expect("decodes");
    let visual = t.visual().expect("visual present");
    let expected = t.visuals().get("Images/Main/028001E0.jpg").expect("main jpg present");
    assert_eq!(visual, expected);
    assert!(visual.starts_with(&[0xFF, 0xD8])); // JPEG SOI marker
    assert_eq!(t.width(), 4);
    assert_eq!(t.height(), 3);
}

#[test]
fn thermogram_rejects_other_files() {
    let err = SerendipThermogram::new_from_bytes(b"not a zip").expect_err("refused");
    assert_eq!(err.kind(), std::io::ErrorKind::InvalidData);
    assert_eq!(err.to_string(), "Could not decode thermogram");

    // A zip without CameraInfo.gpbenc.
    let entries: Vec<_> = classic_entries()
        .into_iter()
        .filter(|(name, _)| *name != "CameraInfo.gpbenc")
        .collect();
    let err = SerendipThermogram::new_from_bytes(&zip_of(&entries)).expect_err("refused");
    assert_eq!(err.kind(), std::io::ErrorKind::InvalidData);

    // A zip signature followed by garbage.
    let err = SerendipThermogram::new_from_bytes(b"PK\x03\x04garbage").expect_err("refused");
    assert_eq!(err.kind(), std::io::ErrorKind::InvalidData);
    assert_eq!(err.to_string(), "Could not decode thermogram");
}

#[test]
fn decodes_rex_zip_thermogram() {
    let mut ir_image_info = Vec::new();
    uint_field(4, 4, &mut ir_image_info);
    uint_field(5, 2, &mut ir_image_info);
    let mut thermal = Vec::new();
    let mut payload = Vec::new();
    varint(227, &mut payload);
    varint(-160i64 as u64, &mut payload);
    bytes_field(11, &payload, &mut thermal);
    let mut rex = Vec::new();
    bytes_field(4, &thermal, &mut rex);
    let mut entries = classic_entries();
    entries[0] = ("Images/Main/IRImageInfo.gpbenc", ir_image_info);
    entries.push(("CalTempDataRex.gpbenc", rex));

    let t = decode_zip_format(&zip_of(&entries)).expect("decodes");
    let ThermalData::Rex(rex) = &t.thermal else {
        panic!("Rex data preferred");
    };
    assert_eq!(rex.decicelsius, vec![227, -160]);
    assert_eq!((t.width(), t.height()), (2, 1));
}

#[test]
fn unzip_keeps_files_only() {
    let mut writer = ZipWriter::new(Cursor::new(Vec::new()));
    writer.add_directory("Images/", SimpleFileOptions::default()).expect("adds");
    writer.start_file("Images/a.bin", SimpleFileOptions::default()).expect("starts");
    writer.write_all(&[1, 2, 3]).expect("writes");
    let bytes = writer.finish().expect("finishes").into_inner();
    let files = unzip(&bytes).expect("unzips");
    assert_eq!(files.len(), 1);
    assert_eq!(files.get("Images/a.bin"), Some(&vec![1, 2, 3]));
    assert!(unzip(b"PK\x03\x04").is_none());
}

#[test]
fn ir_data_extraction_checks_length_and_takes_file() {
    let mut files = Files::new();
    files.insert("Images/Main/IR.data".to_string(), ir_data_bytes(4, 3));
    let ir = extract_ir_data(&mut files, 4, 3).expect("fits");
    assert_eq!(files.len(), 0);
    assert_eq!(ir.header(), vec![7, 7, 7, 7]);
    assert_eq!(ir.as_u16().len(), 16);
    assert_eq!(ir.body()[5], 1005);

    let mut files = Files::new();
    files.insert("Images/Main/IR.data".to_string(), ir_data_bytes(4, 3));
    assert!(extract_ir_data(&mut files, 4, 4).is_none());
    assert_eq!(files.len(), 0);
    assert!(extract_ir_data(&mut Files::new(), 4, 3).is_none());
}

#[test]
fn ir_data_with_a_trailing_byte_is_refused() {
    let mut files = Files::new();
    files.insert("Images/Main/IR.data".to_string(), vec![0u8; 9]);
    assert!(extract_ir_data(&mut files, 2, 1).is_none());

    let mut files = Files::new();
    let mut bytes = ir_data_bytes(4, 3);
    bytes.push(0);
    files.insert("Images/Main/IR.data".to_string(), bytes);
    assert!(extract_ir_data(&mut files, 4, 3).is_none());

    let mut files = Files::new();
    files.insert("Images/Main/IR.data".to_string(), vec![0u8; 8]);
    let ir = extract_ir_data(&mut files, 2, 1).expect("exact length");
    assert_eq!(ir.as_u16().len(), 4);
}

#[test]
fn ir_data_count_at_matches_body() {
    let ir = IrData { raw: ir_data_bytes(5, 2), width: 5, height: 2 };
    let body = ir.body();
    for (x, y) in [(0u16, 0u16), (2, 1), (4, 1)] {
        let index = usize::from(y) * 5 + usize::from(x);
        assert_eq!(ir.count_at(x, y), Some(body[index]));
    }
    assert_eq!(ir.count_at(5, 0), None);
    assert_eq!(ir.count_at(0, 2), None);
}

#[test]
fn ir_dimensions_prefer_image_info_then_header() {
    let mut files = Files::new();
    files.insert("Images/Main/IR.data".to_string(), ir_data_bytes(4, 3));
    let info = IrImageInfo { width: 8, height: 8, ..Default::default() };
    assert_eq!(extract_ir_dimensions(&files, &info), Some((4, 3)));

    // Stored dimensions that do not fit fall back to IR.data's header.
    let mut raw = ir_data_bytes(100, 2);
    raw[182..186].copy_from_slice(&99u32.to_le_bytes());
    raw[186..190].copy_from_slice(&1u32.to_le_bytes());
    let mut files = Files::new();
    files.insert("Images/Main/IR.data".to_string(), raw);
    assert_eq!(extract_ir_dimensions(&files, &info), Some((100, 2)));

    // Neither fits.
    let mut files = Files::new();
    files.insert("Images/Main/IR.data".to_string(), ir_data_bytes(4, 3));
    let wrong = IrImageInfo { width: 6, height: 6, ..Default::default() };
    assert_eq!(extract_ir_dimensions(&files, &wrong), None);
    assert_eq!(extract_ir_dimensions(&Files::new(), &info), None);
}

#[test]
fn header_dimensions_read_at_fixed_offsets() {
    let mut raw = vec![0u8; 190];
    raw[182..186].copy_from_slice(&319u32.to_le_bytes());
    raw[186..190].copy_from_slice(&239u32.to_le_bytes());
    assert_eq!(extract_dimensions_from_ir_data_header(&raw), Some((320, 240)));
    assert_eq!(extract_dimensions_from_ir_data_header(&raw[..189]), None);
    raw[182..186].copy_from_slice(&65534u32.to_le_bytes());
    assert_eq!(extract_dimensions_from_ir_data_header(&raw), Some((65535, 240)));
    raw[182..186].copy_from_slice(&65535u32.to_le_bytes());
    assert_eq!(extract_dimensions_from_ir_data_header(&raw), None);
    raw[182..186].copy_from_slice(&u32::MAX.to_le_bytes());
    assert_eq!(extract_dimensions_from_ir_data_header(&raw), None);
}

#[test]
fn thermal_data_prefers_rex_without_falling_back() {
    let info = IrImageInfo { width: 8, height: 8, ..Default::default() };
    let mut files = Files::new();
    files.insert("CalTempDataRex.gpbenc".to_string(), Vec::new());
    files.insert("Images/Main/IR.data".to_string(), ir_data_bytes(4, 3));
    assert!(extract_thermal_data(&mut files, &info).is_none());
    assert!(!files.contains_key("CalTempDataRex.gpbenc"));
    assert!(files.contains_key("Images/Main/IR.data"));

    let thermal = extract_thermal_data(&mut files, &info).expect("IR.data fits");
    assert!(matches!(&thermal, ThermalData::IrData(ir) if (ir.width, ir.height) == (4, 3)));
    assert_eq!(files.len(), 0);
}

#[test]
fn markers_extracted_in_order_and_taken_out() {
    let mut files = Files::new();
    files.insert("Markers/Standard/Coldpoint.gpbenc".to_string(), point_marker_bytes(1, 1, "Coldpoint"));
    files.insert("Markers/Standard/Hotpoint.gpbenc".to_string(), point_marker_bytes(8, 2, "Hotpoint"));
    // A centerpoint without metadata is incomplete and ignored.
    let mut incomplete = Vec::new();
    bytes_field(1, &point_bytes(3, 3), &mut incomplete);
    files.insert("Markers/Standard/Centerpoint.gpbenc".to_string(), incomplete);
    files.insert("Other".to_string(), vec![]);

    let markers = extract_markers(&mut files);
    assert_eq!(markers.len(), 2);
    let labels: Vec<String> = markers
        .iter()
        .map(|m| match m {
            Marker::Point { metadata, .. } => metadata.label2.clone(),
            Marker::Box { metadata, .. } => metadata.label2.clone(),
        })
        .collect();
    assert_eq!(labels, vec!["Hotpoint".to_string(), "Coldpoint".to_string()]);
    assert_eq!(files.len(), 1);
    assert!(extract_markers(&mut Files::new()).is_empty());
}

#[test]
fn marker_conversion_halves_and_clamps() {
    let marker = Marker::Box {
        start: Point { x: 5, y: 9 },
        end: Point { x: 1000, y: 1000 },
        metadata: Metadata { label1: "a".to_string(), label2: "b".to_string() },
    };
    let converted = marker.to_thermal_space(320, 240);
    let Marker::Box { start, end, metadata } = converted else {
        panic!("still a box");
    };
    assert_eq!(start, Point { x: 2, y: 4 });
    assert_eq!(end, Point { x: 319, y: 239 });
    assert_eq!(metadata.label2, "b");

    let point = Marker::Point {
        coords: Point { x: 7, y: 7 },
        metadata: Metadata { label1: String::new(), label2: String::new() },
    };
    let Marker::Point { coords, .. } = point.to_thermal_space(0, 0) else {
        panic!("still a point");
    };
    assert_eq!(coords, Point { x: 0, y: 0 });
}

#[test]
fn zip_types_convert_to_domain_types() {
    let point: Point = ZipPoint { x: 3, y: 4 }.into();
    assert_eq!(point, Point { x: 3, y: 4 });
    let metadata: Metadata = ZipMetadata { label1: "l1".to_string(), label2: "l2".to_string() }.into();
    assert_eq!(metadata, Metadata { label1: "l1".to_string(), label2: "l2".to_string() });
}

#[test]
fn text_decodes_by_byte_order_mark() {
    assert_eq!(decode_text(&[0xFF, 0xFE, b'h', 0, b'i', 0]), Some("hi".to_string()));
    assert_eq!(decode_text(&[0xFE, 0xFF, 0, b'h', 0, b'i', 0]), Some("hi".to_string()));
    assert_eq!(decode_text(b"{\"a\": 1}"), Some("{\"a\": 1}".to_string()));
    // A surrogate pair, little-endian: U+1F600.
    assert_eq!(decode_text(&[0xFF, 0xFE, 0x3D, 0xD8, 0x00, 0xDE]), Some("\u{1F600}".to_string()));
    // An unpaired surrogate.
    assert_eq!(decode_text(&[0xFF, 0xFE, 0x3D, 0xD8]), None);
    // Invalid UTF-8.
    assert_eq!(decode_text(&[0xC3, 0x28]), None);
}

#[test]
fn text_written_as_utf16_reads_back() {
    let text = "Temperatur \u{00B0}C \u{20AC} \u{1F600} \u{FEFF}end";
    let mut le = vec![0xFF, 0xFE];
    let mut be = vec![0xFE, 0xFF];
    for unit in text.encode_utf16() {
        le.extend_from_slice(&unit.to_le_bytes());
        be.extend_from_slice(&unit.to_be_bytes());
    }
    assert_eq!(decode_text(&le), Some(text.to_string()));
    assert_eq!(decode_text(&be), Some(text.to_string()));
}

#[test]
fn files_insert_replaces_and_remove_takes() {
    let mut files = Files::new();
    files.insert("b".to_string(), vec![1]);
    files.insert("a".to_string(), vec![2]);
    files.insert("b".to_string(), vec![3]);
    assert_eq!(files.len(), 2);
    assert_eq!(files.get("b"), Some(&vec![3]));
    assert_eq!(files.first_by_path(), Some(&vec![2]));
    assert_eq!(files.remove("a"), Some(vec![2]));
    assert_eq!(files.remove("a"), None);
    assert!(!files.contains_key("a"));
    assert_eq!(files.first_by_path(), Some(&vec![3]));
    assert_eq!(Files::new().first_by_path(), None);
    let copy = files.clone();
    assert_eq!(copy.get("b"), Some(&vec![3]));
}

#[test]
fn broken_marker_does_not_abort_decoding() {
    let mut entries = classic_entries();
    entries.push(("Markers/Standard/Coldpoint.gpbenc", vec![0xFF, 0xFF]));
    let t = decode_zip_format(&zip_of(&entries)).expect("decodes");
    assert_eq!(t.markers.len(), 2);
}
