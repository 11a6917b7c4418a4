//! Decodes `CameraInfo.gpbenc`: a protobuf blob holding camera
//! identification (manufacturer, serial numbers) and resolutions.

use vstd::prelude::*;

use crate::parsing::protobuf::{
    MessageKind, find_last_varint, find_string, last_varint, parse_records, spec_records,
    spec_string_field,
};
use crate::parsing::zip_format::files::Files;

verus! {

pub const CAMERA_INFO_FILE: &'static str = "CameraInfo.gpbenc";

/// Camera identification and capabilities.
#[derive(Clone, Debug, PartialEq)]
pub struct CameraInfo {
    pub vl_width: u32,  // tag 12
    pub vl_height: u32,  // tag 13
    pub manufacturer: String,  // tag 22
    pub engine_serial: String,  // tag 23
    pub camera_serial: String,  // tag 24
}

/// `CameraInfo`, mathematically.
pub struct CameraInfoView {
    pub vl_width: u32,
    pub vl_height: u32,
    pub manufacturer: Seq<char>,
    pub engine_serial: Seq<char>,
    pub camera_serial: Seq<char>,
}

impl View for CameraInfo {
    type V = CameraInfoView;

    open spec fn view(&self) -> CameraInfoView {
        CameraInfoView {
            vl_width: self.vl_width,
            vl_height: self.vl_height,
            manufacturer: self.manufacturer@,
            engine_serial: self.engine_serial@,
            camera_serial: self.camera_serial@,
        }
    }
}

/// A `uint32` field: the last value recorded, cut to 32 bits, or 0.
pub open spec fn uint32_field(value: Option<u64>) -> u32 {
    match value {
        Some(v) => v as u32,
        None => 0,
    }
}

/// The camera info that `data` encodes, if it is a valid `CameraInfo`
/// message.
pub open spec fn spec_camera_info(data: Seq<u8>) -> Option<CameraInfoView> {
    match spec_records(MessageKind::CameraInfo, data) {
        Some(r) => match (
            spec_string_field(r, 22),
            spec_string_field(r, 23),
            spec_string_field(r, 24),
        ) {
            (Some(manufacturer), Some(engine_serial), Some(camera_serial)) => Some(
                CameraInfoView {
                    vl_width: uint32_field(last_varint(r, 12)),
                    vl_height: uint32_field(last_varint(r, 13)),
                    manufacturer,
                    engine_serial,
                    camera_serial,
                },
            ),
            _ => None,
        },
        None => None,
    }
}

/// Decodes the bytes of `CameraInfo.gpbenc`.
pub fn decode_camera_info(data: &[u8]) -> (r: Option<CameraInfo>)
    ensures
        match r {
            Some(info) => spec_camera_info(data@) == Some(info@),
            None => spec_camera_info(data@) is None,
        },
{
    let records = parse_records(MessageKind::CameraInfo, data)?;
    let manufacturer = find_string(&records, 22)?;
    let engine_serial = find_string(&records, 23)?;
    let camera_serial = find_string(&records, 24)?;
    let vl_width = match find_last_varint(&records, 12) {
        Some(v) => v as u32,
        None => 0,
    };
    let vl_height = match find_last_varint(&records, 13) {
        Some(v) => v as u32,
        None => 0,
    };
    Some(CameraInfo { vl_width, vl_height, manufacturer, engine_serial, camera_serial })
}

/// Extracts and decodes CameraInfo.gpbenc from the unzipped files.
pub fn extract_camera_info(files: &Files) -> (r: Option<CameraInfo>)
    ensures
        match r {
            Some(info) => files@.contains_key(CAMERA_INFO_FILE@) && spec_camera_info(
                files@[CAMERA_INFO_FILE@],
            ) == Some(info@),
            None => !files@.contains_key(CAMERA_INFO_FILE@) || spec_camera_info(
                files@[CAMERA_INFO_FILE@],
            ) is None,
        },
{
    let bytes = files.get(CAMERA_INFO_FILE)?;
    decode_camera_info(bytes.as_slice())
}

} // verus!
