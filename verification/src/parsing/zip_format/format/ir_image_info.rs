//! Decodes `Images/Main/IRImageInfo.gpbenc`: a protobuf blob holding the
//! thermal parameters (emissivity, background temperature, transmission)
//! and the display temperature scale.
//!
//! Its `float` fields are kept as their IEEE 754 bit patterns (`f32::to_bits`
//! of the value), exactly as stored.

use vstd::prelude::*;

use crate::parsing::protobuf::{
    MessageKind, find_last_fixed32, find_last_varint, has_payload, last_fixed32, last_varint,
    merge_submessage, merged_records, parse_records, spec_records, tag_payloads, FieldValue,
};
use crate::parsing::zip_format::files::Files;
use crate::parsing::zip_format::format::camera_info::uint32_field;

verus! {

pub const IR_IMAGE_INFO_FILE: &'static str = "Images/Main/IRImageInfo.gpbenc";

/// Thermal parameters of the IR capture.
#[derive(Clone, Copy, Debug, PartialEq, Eq, Structural)]
pub struct IrImageInfo {
    pub width: u32,  // tag 4. Unclear what coordinate space; not 1-to-1 IR data size
    pub height: u32,  // tag 5. Unclear what coordinate space; not 1-to-1 IR data size
    pub emissivity_bits: u32,  // tag 10, float
    pub background_temperature_bits: u32,  // tag 11, float. Presumed in Celsius
    pub transmission_bits: u32,  // tag 12, float
    pub scale: Option<TemperatureScale>,  // tag 14
}

/// The temperature range of the display palette, presumably Celsius.
#[derive(Clone, Copy, Debug, PartialEq, Eq, Structural)]
pub struct TemperatureScale {
    pub min_bits: u32,  // tag 6, float
    pub max_bits: u32,  // tag 7, float
}

/// A `float` field: the bit pattern last recorded, or that of 0.0.
pub open spec fn float_field(value: Option<u32>) -> u32 {
    match value {
        Some(v) => v,
        None => 0,
    }
}

/// The temperature scale that the records of a `TemperatureScale`
/// message give.
pub open spec fn scale_of(r: Seq<(u32, FieldValue)>) -> TemperatureScale {
    TemperatureScale { min_bits: float_field(last_fixed32(r, 6)), max_bits: float_field(last_fixed32(r, 7)) }
}

/// The image info that `data` encodes, if it is a valid `IRImageInfo`
/// message. The scale is present where the message carries tag 14 at all;
/// its occurrences merge.
pub open spec fn spec_ir_image_info(data: Seq<u8>) -> Option<IrImageInfo> {
    match spec_records(MessageKind::IrImageInfo, data) {
        Some(r) => {
            let payloads = tag_payloads(r, 14);
            match merged_records(MessageKind::TemperatureScale, payloads) {
                Some(scale_records) => Some(
                    IrImageInfo {
                        width: uint32_field(last_varint(r, 4)),
                        height: uint32_field(last_varint(r, 5)),
                        emissivity_bits: float_field(last_fixed32(r, 10)),
                        background_temperature_bits: float_field(last_fixed32(r, 11)),
                        transmission_bits: float_field(last_fixed32(r, 12)),
                        scale: if payloads.len() > 0 {
                            Some(scale_of(scale_records))
                        } else {
                            None
                        },
                    },
                ),
                None => None,
            }
        },
        None => None,
    }
}

impl Default for IrImageInfo {
    /// All fields zero, no scale: a message without fields.
    fn default() -> (r: IrImageInfo)
        ensures
            r == (IrImageInfo {
                width: 0,
                height: 0,
                emissivity_bits: 0,
                background_temperature_bits: 0,
                transmission_bits: 0,
                scale: None,
            }),
    {
        IrImageInfo {
            width: 0,
            height: 0,
            emissivity_bits: 0,
            background_temperature_bits: 0,
            transmission_bits: 0,
            scale: None,
        }
    }
}

/// Half of `value`, where that fits in 16 bits.
pub open spec fn half_as_u16(value: u32) -> Option<u16> {
    if value / 2 <= u16::MAX {
        Some((value / 2) as u16)
    } else {
        None
    }
}

impl IrImageInfo {
    /// The dimensions of the thermal data as stored: half this struct's
    /// width/height fields.
    ///
    /// On all samples seen those fields are exactly twice the stored
    /// thermal data size. For `IR.data` that includes its one header row
    /// (Ti400: 640 × 482 → 320 × 241 = 320 × (240 + 1)); for
    /// `CalTempDataRex.gpbenc` it is the pixel data itself (TiS75+:
    /// 768 × 576 → 384 × 288). Callers must verify the result against
    /// their file's actual length.
    pub fn stored_thermal_dimensions(&self) -> (r: Option<(u16, u16)>)
        ensures
            r == match (half_as_u16(self.width), half_as_u16(self.height)) {
                (Some(w), Some(h)) => Some((w, h)),
                _ => None,
            },
    {
        let width = self.width / 2;
        let height = self.height / 2;
        if width > u16::MAX as u32 || height > u16::MAX as u32 {
            return None;
        }
        Some((width as u16, height as u16))
    }
}

/// Decodes the bytes of `IRImageInfo.gpbenc`.
pub fn decode_ir_image_info(data: &[u8]) -> (r: Option<IrImageInfo>)
    ensures
        r == spec_ir_image_info(data@),
{
    let records = parse_records(MessageKind::IrImageInfo, data)?;
    let scale_records = merge_submessage(MessageKind::TemperatureScale, &records, 14)?;
    let scale = if has_payload(&records, 14) {
        Some(
            TemperatureScale {
                min_bits: find_last_fixed32(&scale_records, 6).unwrap_or(0),
                max_bits: find_last_fixed32(&scale_records, 7).unwrap_or(0),
            },
        )
    } else {
        None
    };
    Some(
        IrImageInfo {
            width: match find_last_varint(&records, 4) {
                Some(v) => v as u32,
                None => 0,
            },
            height: match find_last_varint(&records, 5) {
                Some(v) => v as u32,
                None => 0,
            },
            emissivity_bits: find_last_fixed32(&records, 10).unwrap_or(0),
            background_temperature_bits: find_last_fixed32(&records, 11).unwrap_or(0),
            transmission_bits: find_last_fixed32(&records, 12).unwrap_or(0),
            scale,
        },
    )
}

/// Extracts and decodes IRImageInfo.gpbenc from the unzipped files.
pub fn extract_ir_image_info(files: &Files) -> (r: Option<IrImageInfo>)
    ensures
        r == if files@.contains_key(IR_IMAGE_INFO_FILE@) {
            spec_ir_image_info(files@[IR_IMAGE_INFO_FILE@])
        } else {
            None
        },
{
    let bytes = files.get(IR_IMAGE_INFO_FILE)?;
    decode_ir_image_info(bytes.as_slice())
}

} // verus!
