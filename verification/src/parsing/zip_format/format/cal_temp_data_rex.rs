//! Decodes `CalTempDataRex.gpbenc`: the thermal data of "Rex" family
//! models (TiS75+, PTi120), which have no `Images/Main/IR.data`.
//!
//! The file is a protobuf whose submessage 4 holds three repeated fields:
//!
//! - tag 4: a 16384-entry monotone lookup table, presumed the camera's
//!   counts-to-temperature curve, in decicelsius.
//! - tag 11: the thermal data, width × height signed varints. These are
//!   **already temperatures in decicelsius**, not raw counts: verified on
//!   four TiS75+ samples, where the embedded hotpoint and coldpoint
//!   markers land exactly on the thermal data's maximum and minimum.
//! - tag 12: a 256-entry ARGB display palette. How its entries are laid out
//!   on the wire is not known here, so it is skipped like an unknown field
//!   and the library offers no palette.
//!
//! The IR dimensions appear nowhere in Rex files. They come from
//! `IRImageInfo.gpbenc` (see `IrImageInfo::stored_thermal_dimensions`),
//! verified against the pixel count. Confirmed on TiS75+ samples only.

use vstd::prelude::*;

use crate::parsing::protobuf::{
    MessageKind, collect_repeated_varints, has_payload, merge_submessage, merged_records,
    parse_records, repeated_varints, spec_records, tag_payloads,
};
use crate::parsing::zip_format::files::Files;
use crate::parsing::zip_format::format::ir_image_info::{IrImageInfo, half_as_u16};

verus! {

pub const CAL_TEMP_DATA_REX_FILE: &'static str = "CalTempDataRex.gpbenc";

/// The thermal data of a Rex-family thermogram.
#[derive(Clone, Debug, PartialEq)]
pub struct Rex {
    /// Row-major temperatures in decicelsius (227 = 22.7 °C).
    ///
    /// Format notes suggest −1 may be an invalid-pixel sentinel on some
    /// models, but it is indistinguishable from a legitimate −0.1 °C and
    /// is therefore treated as a temperature.
    pub decicelsius: Vec<i64>,
    pub width: u16,
    pub height: u16,
}

/// The `int64` values of a repeated field: each varint taken as the two's
/// complement of its low 64 bits.
pub open spec fn as_int64s(values: Seq<u64>) -> Seq<i64> {
    values.map_values(|v: u64| v as i64)
}

/// What `data` encodes as a `CalTempDataRex` message: `None` where it is no
/// valid such message, else the thermal data in decicelsius (tag 11 of
/// submessage 4) where that submessage is present. The lookup table (tag 4
/// of the submessage) must be well-formed too, though it is not kept.
pub open spec fn spec_cal_temp_data_rex(data: Seq<u8>) -> Option<Option<Seq<i64>>> {
    match spec_records(MessageKind::CalTempDataRex, data) {
        Some(r) => {
            let payloads = tag_payloads(r, 4);
            match merged_records(MessageKind::RexThermalData, payloads) {
                Some(thermal) => match (repeated_varints(thermal, 4), repeated_varints(thermal, 11)) {
                    (Some(_), Some(values)) => Some(
                        if payloads.len() > 0 {
                            Some(as_int64s(values))
                        } else {
                            None
                        },
                    ),
                    _ => None,
                },
                None => None,
            }
        },
        None => None,
    }
}

/// The Rex thermal data that a `CalTempDataRex.gpbenc` with these bytes
/// gives, the dimensions coming from the image info: the decicelsius values
/// must number exactly width × height.
pub open spec fn spec_rex(data: Seq<u8>, ir_image_info: IrImageInfo) -> Option<(Seq<i64>, u16, u16)> {
    match spec_cal_temp_data_rex(data) {
        Some(Some(decicelsius)) => match (half_as_u16(ir_image_info.width), half_as_u16(ir_image_info.height)) {
            (Some(width), Some(height)) => if width * height == decicelsius.len() {
                Some((decicelsius, width, height))
            } else {
                None
            },
            _ => None,
        },
        _ => None,
    }
}

/// Decodes the bytes of `CalTempDataRex.gpbenc`; see `spec_cal_temp_data_rex`.
pub fn decode_cal_temp_data_rex(data: &[u8]) -> (r: Option<Option<Vec<i64>>>)
    ensures
        match r {
            Some(Some(values)) => spec_cal_temp_data_rex(data@) == Some(Some(values@)),
            Some(None) => spec_cal_temp_data_rex(data@) == Some(None::<Seq<i64>>),
            None => spec_cal_temp_data_rex(data@) is None,
        },
{
    let records = parse_records(MessageKind::CalTempDataRex, data)?;
    let thermal = merge_submessage(MessageKind::RexThermalData, &records, 4)?;
    let _lut = collect_repeated_varints(&thermal, 4)?;
    let raw = collect_repeated_varints(&thermal, 11)?;
    if !has_payload(&records, 4) {
        return Some(None);
    }
    let mut values: Vec<i64> = Vec::with_capacity(raw.len());
    let mut i: usize = 0;
    while i < raw.len()
        invariant
            i <= raw@.len(),
            values@ =~= as_int64s(raw@.take(i as int)),
        decreases raw@.len() - i,
    {
        values.push(raw[i] as i64);
        i += 1;
        proof {
            assert(raw@.take(i as int) =~= raw@.take(i - 1).push(raw@[i - 1]));
        }
    }
    proof {
        assert(raw@.take(i as int) =~= raw@);
    }
    Some(Some(values))
}

/// Two 16-bit numbers multiply to less than 2^32.
pub proof fn lemma_u16_product(a: u16, b: u16)
    ensures
        a * b <= 0xFFFF_FFFF,
        0 <= a * b,
{
    assert(a * b <= 0xFFFF * 0xFFFF) by (nonlinear_arith)
        requires
            a <= 0xFFFF,
            b <= 0xFFFF,
    ;
    assert(0 <= a * b) by (nonlinear_arith);
}

impl Rex {
    /// The temperature in decicelsius of the pixel at `(x, y)`, or `None`
    /// if out of bounds. `kelvin_at` converts it.
    pub fn decicelsius_at(&self, x: u16, y: u16) -> (r: Option<i64>)
        requires
            x < self.width && y < self.height ==> y * self.width + x < self.decicelsius@.len(),
        ensures
            r == if x < self.width && y < self.height {
                Some(self.decicelsius@[y * self.width + x])
            } else {
                None
            },
    {
        if x >= self.width || y >= self.height {
            return None;
        }
        let len = self.decicelsius.len();
        proof {
            assert(y * self.width + x < len);
            assert((y as usize) * (self.width as usize) <= y * self.width + x);
        }
        let index = (y as usize) * (self.width as usize) + (x as usize);
        Some(self.decicelsius[index])
    }
}

/// Extracts and decodes CalTempDataRex.gpbenc from the unzipped files.
///
/// Takes the file out of the map, so the (sizeable) raw bytes are dropped
/// after decoding.
///
/// # Arguments
/// - `files` - The files in which it expects to find `CAL_TEMP_DATA_REX_FILE`.
/// - `ir_image_info` - Provides the dimensions, which Rex files store nowhere.
pub fn extract_rex(files: &mut Files, ir_image_info: &IrImageInfo) -> (r: Option<Rex>)
    ensures
        final(files)@ == old(files)@.remove(CAL_TEMP_DATA_REX_FILE@),
        match r {
            Some(rex) => old(files)@.contains_key(CAL_TEMP_DATA_REX_FILE@) && spec_rex(
                old(files)@[CAL_TEMP_DATA_REX_FILE@],
                *ir_image_info,
            ) == Some((rex.decicelsius@, rex.width, rex.height)),
            None => !old(files)@.contains_key(CAL_TEMP_DATA_REX_FILE@) || spec_rex(
                old(files)@[CAL_TEMP_DATA_REX_FILE@],
                *ir_image_info,
            ) is None,
        },
{
    let bytes = files.remove(CAL_TEMP_DATA_REX_FILE)?;
    let decicelsius = decode_cal_temp_data_rex(bytes.as_slice())??;
    let (width, height) = ir_image_info.stored_thermal_dimensions()?;
    proof {
        lemma_u16_product(width, height);
    }
    if (width as u64) * (height as u64) != decicelsius.len() as u64 {
        return None;
    }
    Some(Rex { decicelsius, width, height })
}

} // verus!
