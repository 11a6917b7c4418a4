use serendip::parsing::zip_format::files::Files;
use serendip::parsing::zip_format::format::cal_temp_data_rex::{Rex, decode_cal_temp_data_rex, extract_rex};
use serendip::parsing::zip_format::format::calibration_data::{
    CalibrationBand, decode_calibration_data, extract_calibration_data,
};
use serendip::parsing::zip_format::format::camera_info::{decode_camera_info, extract_camera_info};
use serendip::parsing::zip_format::format::ir_image_info::{
    IrImageInfo, TemperatureScale, decode_ir_image_info, extract_ir_image_info,
};

fn varint(mut value: u64, out: &mut Vec<u8>) {
    loop {
        if value < 0x80 {
            out.push(value as u8);
            return;
        }
        out.push((value & 0x7F) as u8 | 0x80);
        value >>= 7;
    }
}

fn key(tag: u32, wire_type: u8, out: &mut Vec<u8>) {
    varint((u64::from(tag) << 3) | u64::from(wire_type), out);
}

fn uint_field(tag: u32, value: u64, out: &mut Vec<u8>) {
    key(tag, 0, out);
    varint(value, out);
}

fn float_field(tag: u32, value: f32, out: &mut Vec<u8>) {
    key(tag, 5, out);
    out.extend_from_slice(&value.to_bits().to_le_bytes());
}

fn bytes_field(tag: u32, bytes: &[u8], out: &mut Vec<u8>) {
    key(tag, 2, out);
    varint(bytes.len() as u64, out);
    out.extend_from_slice(bytes);
}

fn camera_info_bytes() -> Vec<u8> {
    let mut m = Vec::new();
    uint_field(12, 640, &mut m);
    uint_field(13, 480, &mut m);
    uint_field(99, 7, &mut m); // unknown, skipped
    bytes_field(22, b"Fluke", &mut m);
    bytes_field(23, b"E123", &mut m);
    bytes_field(24, b"C456", &mut m);
    m
}

#[test]
fn camera_info_decodes_fields() {
    let info = decode_camera_info(&camera_info_bytes()).expect("decodes");
    assert_eq!(info.vl_width, 640);
    assert_eq!(info.vl_height, 480);
    assert_eq!(info.manufacturer, "Fluke");
    assert_eq!(info.engine_serial, "E123");
    assert_eq!(info.camera_serial, "C456");
}

#[test]
fn camera_info_extracted_from_files() {
    let mut files = Files::new();
    files.insert("CameraInfo.gpbenc".to_string(), camera_info_bytes());
    let info = extract_camera_info(&files).expect("decodes");
    assert_eq!(info.manufacturer, "Fluke");
    assert_eq!(files.len(), 1); // read, not taken out
    assert_eq!(extract_camera_info(&Files::new()), None);
}

#[test]
fn camera_info_last_value_wins_and_defaults() {
    let mut m = Vec::new();
    uint_field(12, 1, &mut m);
    bytes_field(22, b"First", &mut m);
    uint_field(12, 320, &mut m);
    bytes_field(22, b"Second", &mut m);
    let info = decode_camera_info(&m).expect("decodes");
    assert_eq!(info.vl_width, 320);
    assert_eq!(info.manufacturer, "Second");
    assert_eq!(info.vl_height, 0);
    assert_eq!(info.camera_serial, "");
}

#[test]
fn camera_info_uint32_truncates() {
    let mut m = Vec::new();
    uint_field(12, (1u64 << 32) + 5, &mut m);
    assert_eq!(decode_camera_info(&m).expect("decodes").vl_width, 5);
}

#[test]
fn camera_info_rejects_malformed() {
    // A known varint field sent length-delimited.
    let mut wrong_wire_type = Vec::new();
    bytes_field(12, b"x", &mut wrong_wire_type);
    assert_eq!(decode_camera_info(&wrong_wire_type), None);

    // A string that is not UTF-8, even if a later one is.
    let mut bad_utf8 = Vec::new();
    bytes_field(22, &[0xFF, 0xFE], &mut bad_utf8);
    bytes_field(22, b"ok", &mut bad_utf8);
    assert_eq!(decode_camera_info(&bad_utf8), None);

    // A value cut short.
    let mut cut = Vec::new();
    key(22, 2, &mut cut);
    varint(10, &mut cut);
    cut.extend_from_slice(b"abc");
    assert_eq!(decode_camera_info(&cut), None);

    // A varint whose tenth byte overflows 64 bits.
    let mut overflow = Vec::new();
    key(12, 0, &mut overflow);
    overflow.extend_from_slice(&[0xFF, 0xFF, 0xFF, 0xFF, 0xFF, 0xFF, 0xFF, 0xFF, 0xFF, 0x02]);
    assert_eq!(decode_camera_info(&overflow), None);

    // Tag 0 is no valid key.
    assert_eq!(decode_camera_info(&[0x00, 0x01]), None);

    // An unknown field whose value is cut short.
    let mut unknown_cut = Vec::new();
    key(50, 5, &mut unknown_cut);
    unknown_cut.extend_from_slice(&[1, 2]);
    assert_eq!(decode_camera_info(&unknown_cut), None);
}

#[test]
fn camera_info_of_no_bytes_is_default() {
    let info = decode_camera_info(&[]).expect("decodes");
    assert_eq!(info.vl_width, 0);
    assert_eq!(info.manufacturer, "");
}

fn scale_bytes(min: Option<f32>, max: Option<f32>) -> Vec<u8> {
    let mut s = Vec::new();
    if let Some(v) = min {
        float_field(6, v, &mut s);
    }
    if let Some(v) = max {
        float_field(7, v, &mut s);
    }
    s
}

#[test]
fn ir_image_info_decodes_floats_and_merged_scale() {
    let mut m = Vec::new();
    uint_field(4, 640, &mut m);
    uint_field(5, 482, &mut m);
    float_field(10, 0.95, &mut m);
    float_field(11, 22.0, &mut m);
    float_field(12, 1.0, &mut m);
    bytes_field(14, &scale_bytes(Some(16.4), None), &mut m);
    bytes_field(14, &scale_bytes(None, Some(79.46)), &mut m);
    let info = decode_ir_image_info(&m).expect("decodes");
    assert_eq!(info.width, 640);
    assert_eq!(info.height, 482);
    assert_eq!(f32::from_bits(info.emissivity_bits), 0.95);
    assert_eq!(f32::from_bits(info.background_temperature_bits), 22.0);
    assert_eq!(f32::from_bits(info.transmission_bits), 1.0);
    let scale = info.scale.expect("scale present");
    assert_eq!(f32::from_bits(scale.min_bits), 16.4);
    assert_eq!(f32::from_bits(scale.max_bits), 79.46);
    assert_eq!(info.stored_thermal_dimensions(), Some((320, 241)));
}

#[test]
fn ir_image_info_without_scale() {
    let mut m = Vec::new();
    uint_field(4, 768, &mut m);
    let info = decode_ir_image_info(&m).expect("decodes");
    assert_eq!(info.scale, None);
    assert_eq!(info.height, 0);

    let mut empty_scale = Vec::new();
    bytes_field(14, &[], &mut empty_scale);
    let info = decode_ir_image_info(&empty_scale).expect("decodes");
    assert_eq!(info.scale, Some(TemperatureScale { min_bits: 0, max_bits: 0 }));
}

#[test]
fn ir_image_info_rejects_bad_scale() {
    let mut m = Vec::new();
    let mut scale = Vec::new();
    uint_field(6, 1, &mut scale); // a float sent as a varint
    bytes_field(14, &scale, &mut m);
    assert_eq!(decode_ir_image_info(&m), None);

    let mut short_float = Vec::new();
    key(10, 5, &mut short_float);
    short_float.extend_from_slice(&[0, 0, 0x80]);
    assert_eq!(decode_ir_image_info(&short_float), None);
}

#[test]
fn stored_thermal_dimensions_halves_or_refuses() {
    let info = IrImageInfo { width: 768, height: 576, ..Default::default() };
    assert_eq!(info.stored_thermal_dimensions(), Some((384, 288)));
    let odd = IrImageInfo { width: 641, height: 3, ..Default::default() };
    assert_eq!(odd.stored_thermal_dimensions(), Some((320, 1)));
    let too_wide = IrImageInfo { width: 2 * 70_000, height: 2, ..Default::default() };
    assert_eq!(too_wide.stored_thermal_dimensions(), None);
}

#[test]
fn ir_image_info_extracted_from_files() {
    let mut m = Vec::new();
    uint_field(4, 640, &mut m);
    let mut files = Files::new();
    files.insert("Images/Main/IRImageInfo.gpbenc".to_string(), m);
    assert_eq!(extract_ir_image_info(&files).expect("decodes").width, 640);
}

fn band_bytes(from: f32, to: f32, c: f32, b: f32, a: f32) -> Vec<u8> {
    let mut m = Vec::new();
    float_field(1, from, &mut m);
    float_field(2, to, &mut m);
    float_field(3, c, &mut m);
    float_field(4, b, &mut m);
    float_field(5, a, &mut m);
    m
}

#[test]
fn calibration_data_decodes_curve_and_bands() {
    let mut curve = Vec::new();
    float_field(3, -10.0, &mut curve);
    float_field(4, 80.0, &mut curve);
    float_field(5, -20.0, &mut curve);
    float_field(6, 80.0, &mut curve);
    bytes_field(9, &band_bytes(-180.0, -120.0, 1016.96, 11.77, 0.0341), &mut curve);
    bytes_field(9, &band_bytes(200.0, 350.0, 1.0, 2.0, 3.0), &mut curve);
    let mut m = Vec::new();
    uint_field(1, 20130306, &mut m);
    bytes_field(3, &curve, &mut m);

    let data = decode_calibration_data(&m).expect("decodes");
    assert_eq!(data.date, 20130306);
    let curve = data.curve.expect("curve present");
    assert_eq!(f32::from_bits(curve.range_min_bits), -10.0);
    assert_eq!(f32::from_bits(curve.range_max_bits), 80.0);
    assert_eq!(f32::from_bits(curve.extended_min_bits), -20.0);
    assert_eq!(f32::from_bits(curve.extended_max_bits), 80.0);
    assert_eq!(curve.bands.len(), 2);
    assert_eq!(f32::from_bits(curve.bands[0].from_bits), -180.0);
    assert_eq!(f32::from_bits(curve.bands[0].a_bits), 0.0341);
    assert_eq!(
        curve.bands[1],
        CalibrationBand {
            from_bits: 200.0f32.to_bits(),
            to_bits: 350.0f32.to_bits(),
            c_bits: 1.0f32.to_bits(),
            b_bits: 2.0f32.to_bits(),
            a_bits: 3.0f32.to_bits(),
        }
    );

    let mut files = Files::new();
    files.insert("CalibrationData.gpbenc".to_string(), m);
    assert_eq!(extract_calibration_data(&files).expect("decodes").date, 20130306);
}

#[test]
fn calibration_data_without_curve() {
    let mut m = Vec::new();
    uint_field(1, 1, &mut m);
    let data = decode_calibration_data(&m).expect("decodes");
    assert_eq!(data.curve, None);
}

#[test]
fn calibration_data_rejects_bad_band() {
    let mut band = Vec::new();
    uint_field(1, 5, &mut band); // a float sent as a varint
    let mut curve = Vec::new();
    bytes_field(9, &band, &mut curve);
    let mut m = Vec::new();
    bytes_field(3, &curve, &mut m);
    assert_eq!(decode_calibration_data(&m), None);
}

fn rex_bytes(decicelsius: &[i64], packed: bool) -> Vec<u8> {
    let mut thermal = Vec::new();
    let mut lut = Vec::new();
    varint(1, &mut lut);
    varint(2, &mut lut);
    bytes_field(4, &lut, &mut thermal);
    if packed {
        let mut payload = Vec::new();
        for d in decicelsius {
            varint(*d as u64, &mut payload);
        }
        bytes_field(11, &payload, &mut thermal);
    } else {
        for d in decicelsius {
            uint_field(11, *d as u64, &mut thermal);
        }
    }
    bytes_field(12, &[1, 2, 3, 4], &mut thermal); // the palette, skipped
    let mut m = Vec::new();
    bytes_field(4, &thermal, &mut m);
    m
}

#[test]
fn rex_decodes_signed_decicelsius() {
    for packed in [true, false] {
        let values = decode_cal_temp_data_rex(&rex_bytes(&[0, 227, -160], packed))
            .expect("decodes")
            .expect("thermal present");
        assert_eq!(values, vec![0, 227, -160]);
    }
    assert_eq!(decode_cal_temp_data_rex(&[]), Some(None));
}

#[test]
fn rex_extraction_checks_dimensions_and_takes_file() {
    let info = IrImageInfo { width: 6, height: 2, ..Default::default() };
    let mut files = Files::new();
    files.insert("CalTempDataRex.gpbenc".to_string(), rex_bytes(&[0, 227, -160], true));
    files.insert("Other".to_string(), vec![]);
    let rex = extract_rex(&mut files, &info).expect("decodes");
    assert_eq!(rex, Rex { decicelsius: vec![0, 227, -160], width: 3, height: 1 });
    assert!(!files.contains_key("CalTempDataRex.gpbenc"));
    assert_eq!(files.len(), 1);

    let wrong = IrImageInfo { width: 640, height: 480, ..Default::default() };
    let mut files = Files::new();
    files.insert("CalTempDataRex.gpbenc".to_string(), rex_bytes(&[0, 227, -160], true));
    assert_eq!(extract_rex(&mut files, &wrong), None);
    assert_eq!(files.len(), 0);
}

#[test]
fn rex_rejects_bad_lookup_table() {
    let mut thermal = Vec::new();
    bytes_field(4, &[0x80], &mut thermal); // a packed varint cut short
    let mut m = Vec::new();
    bytes_field(4, &thermal, &mut m);
    assert_eq!(decode_cal_temp_data_rex(&m), None);
}

#[test]
fn rex_decicelsius_at_indexes_rows() {
    let rex = Rex { decicelsius: vec![1, 2, 3, 4, 5, 6], width: 3, height: 2 };
    assert_eq!(rex.decicelsius_at(0, 0), Some(1));
    assert_eq!(rex.decicelsius_at(2, 0), Some(3));
    assert_eq!(rex.decicelsius_at(1, 1), Some(5));
    assert_eq!(rex.decicelsius_at(3, 0), None);
    assert_eq!(rex.decicelsius_at(0, 2), None);
}

#[test]
fn camera_info_skips_unknown_fields_of_every_wire_type() {
    let mut m = Vec::new();
    uint_field(12, 640, &mut m);
    uint_field(90, 300, &mut m); // varint
    key(91, 1, &mut m); // 64-bit
    m.extend_from_slice(&[1, 2, 3, 4, 5, 6, 7, 8]);
    bytes_field(92, b"skipped", &mut m); // length-delimited
    key(93, 3, &mut m); // a group holding one varint field
    uint_field(1, 5, &mut m);
    key(93, 4, &mut m);
    key(94, 5, &mut m); // 32-bit
    m.extend_from_slice(&[1, 2, 3, 4]);
    bytes_field(22, b"Fluke", &mut m);
    let info = decode_camera_info(&m).expect("decodes");
    assert_eq!(info.vl_width, 640);
    assert_eq!(info.manufacturer, "Fluke");

    // A 64-bit value cut short.
    let mut cut = Vec::new();
    key(91, 1, &mut cut);
    cut.extend_from_slice(&[1, 2, 3]);
    assert_eq!(decode_camera_info(&cut), None);
    // A length prefix past the end.
    let mut cut = Vec::new();
    key(92, 2, &mut cut);
    varint(5, &mut cut);
    cut.extend_from_slice(b"abc");
    assert_eq!(decode_camera_info(&cut), None);
    // A group closed by another tag's end key.
    let mut wrong = Vec::new();
    key(93, 3, &mut wrong);
    key(95, 4, &mut wrong);
    assert_eq!(decode_camera_info(&wrong), None);
    // An end-group key with no group open.
    let mut stray = Vec::new();
    key(93, 4, &mut stray);
    assert_eq!(decode_camera_info(&stray), None);
}

fn nested_groups(tag: u32, depth: usize, out: &mut Vec<u8>) {
    for _ in 0..depth {
        key(tag, 3, out);
    }
    for _ in 0..depth {
        key(tag, 4, out);
    }
}

#[test]
fn unknown_groups_nest_up_to_the_recursion_limit() {
    // At a file's top level, 100 levels of groups are skipped, 101 are not.
    let mut m = Vec::new();
    nested_groups(93, 100, &mut m);
    uint_field(12, 640, &mut m);
    assert_eq!(decode_camera_info(&m).expect("decodes").vl_width, 640);
    let mut m = Vec::new();
    nested_groups(93, 101, &mut m);
    assert_eq!(decode_camera_info(&m), None);
    // A field inside the innermost group is skipped one level deeper still.
    let mut m = Vec::new();
    for _ in 0..100 {
        key(93, 3, &mut m);
    }
    uint_field(1, 5, &mut m);
    for _ in 0..100 {
        key(93, 4, &mut m);
    }
    assert_eq!(decode_camera_info(&m), None);

    // In a submessage, one level fewer.
    let mut scale = Vec::new();
    nested_groups(93, 99, &mut scale);
    let mut m = Vec::new();
    bytes_field(14, &scale, &mut m);
    assert!(decode_ir_image_info(&m).expect("decodes").scale.is_some());
    let mut scale = Vec::new();
    nested_groups(93, 100, &mut scale);
    let mut m = Vec::new();
    bytes_field(14, &scale, &mut m);
    assert_eq!(decode_ir_image_info(&m), None);

    // In a band, inside the curve, two fewer.
    for (depth, decodes) in [(98, true), (99, false)] {
        let mut band = band_bytes(1.0, 2.0, 3.0, 4.0, 5.0);
        nested_groups(93, depth, &mut band);
        let mut curve = Vec::new();
        bytes_field(9, &band, &mut curve);
        let mut m = Vec::new();
        bytes_field(3, &curve, &mut m);
        assert_eq!(decode_calibration_data(&m).is_some(), decodes);
    }
}

fn tis75_ir_image_info() -> IrImageInfo {
    IrImageInfo { width: 768, height: 576, ..Default::default() }
}

/// A synthetic stand-in for a TiS75+ file: 384 x 288 pixels whose coldest
/// is -16.0 degrees C and hottest 22.7 degrees C.
fn tis75_files() -> Files {
    let mut values: Vec<i64> = (0..384 * 288).map(|i| (i % 200) as i64 - 50).collect();
    values[1000] = -160;
    values[2000] = 227;
    let mut files = Files::new();
    files.insert("CalTempDataRex.gpbenc".to_string(), rex_bytes(&values, true));
    files
}

#[test]
fn decodes_tis75_sample() {
    let rex = extract_rex(&mut tis75_files(), &tis75_ir_image_info()).expect("decodes");

    assert_eq!(rex.width, 384);
    assert_eq!(rex.height, 288);
    assert_eq!(rex.decicelsius.len(), 384 * 288);

    let min = *rex.decicelsius.iter().min().unwrap();
    let max = *rex.decicelsius.iter().max().unwrap();
    assert_eq!(min, -160);
    assert_eq!(max, 227);
}

#[test]
fn wrong_dimensions_yield_none() {
    let info = IrImageInfo { width: 640, height: 480, ..Default::default() };
    assert_eq!(extract_rex(&mut tis75_files(), &info), None);
}
