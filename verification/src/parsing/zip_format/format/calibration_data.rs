//! Decodes `CalibrationData.gpbenc`: the radiometric calibration curve
//! used to map raw sensor values to temperatures.
//!
//! Its `float` fields are kept as their IEEE 754 bit patterns (`f32::to_bits`
//! of the value), exactly as stored.

use vstd::prelude::*;

use crate::parsing::protobuf::{
    MessageKind, collect_payloads, find_last_fixed32, find_last_varint, has_payload,
    last_fixed32, last_varint, merge_submessage, merged_records, parse_records, records_view,
    spec_records, tag_payloads, FieldValue, fixed32_record, lemma_records_bytes_record,
    lemma_records_fixed32_record, lemma_records_varint_record, bytes_record, varint_record,
};
use crate::parsing::zip_format::files::Files;
use crate::parsing::zip_format::format::camera_info::uint32_field;
use crate::parsing::zip_format::format::ir_image_info::float_field;

verus! {

pub const CALIBRATION_DATA_FILE: &'static str = "CalibrationData.gpbenc";

/// Calibration data unique to this lens.
///
/// The curve is not expected to be absent (and may be assumed to be present)
/// but protobuf can't guarantee its presence.
#[derive(Clone, Debug, PartialEq)]
pub struct CalibrationData {
    pub date: u32,  // tag 1. Presumably YYYYMMDD
    pub curve: Option<CalibrationCurve>,  // tag 3
}

/// A piecewise calibration curve with per-temperature-band coefficients.
///
/// A calibration curve has multiple segments, because 1 segment can't
/// accurately fit the sensor over all degrees. Each segment is a temperature
/// band (from..to) with coefficients specific to that band.
#[derive(Clone, Debug, PartialEq)]
pub struct CalibrationCurve {
    pub range_min_bits: u32,  // tag 3, float. Presumed Celsius, like all fields here
    pub range_max_bits: u32,  // tag 4, float
    pub extended_min_bits: u32,  // tag 5, float
    pub extended_max_bits: u32,  // tag 6, float
    pub bands: Vec<CalibrationBand>,  // tag 9, one message each
}

/// One temperature band and its quadratic coefficients.
#[derive(Clone, Copy, Debug, PartialEq, Eq, Structural)]
pub struct CalibrationBand {
    pub from_bits: u32,  // tag 1, float
    pub to_bits: u32,  // tag 2, float
    pub c_bits: u32,  // tag 3, float
    pub b_bits: u32,  // tag 4, float
    pub a_bits: u32,  // tag 5, float
}

/// `CalibrationCurve`, mathematically.
pub struct CalibrationCurveView {
    pub range_min_bits: u32,
    pub range_max_bits: u32,
    pub extended_min_bits: u32,
    pub extended_max_bits: u32,
    pub bands: Seq<CalibrationBand>,
}

/// `CalibrationData`, mathematically.
pub struct CalibrationDataView {
    pub date: u32,
    pub curve: Option<CalibrationCurveView>,
}

impl View for CalibrationCurve {
    type V = CalibrationCurveView;

    open spec fn view(&self) -> CalibrationCurveView {
        CalibrationCurveView {
            range_min_bits: self.range_min_bits,
            range_max_bits: self.range_max_bits,
            extended_min_bits: self.extended_min_bits,
            extended_max_bits: self.extended_max_bits,
            bands: self.bands@,
        }
    }
}

impl View for CalibrationData {
    type V = CalibrationDataView;

    open spec fn view(&self) -> CalibrationDataView {
        CalibrationDataView {
            date: self.date,
            curve: match self.curve {
                Some(c) => Some(c@),
                None => None,
            },
        }
    }
}

/// The band that the records of a `CalibrationBand` message give.
pub open spec fn band_of(r: Seq<(u32, FieldValue)>) -> CalibrationBand {
    CalibrationBand {
        from_bits: float_field(last_fixed32(r, 1)),
        to_bits: float_field(last_fixed32(r, 2)),
        c_bits: float_field(last_fixed32(r, 3)),
        b_bits: float_field(last_fixed32(r, 4)),
        a_bits: float_field(last_fixed32(r, 5)),
    }
}

/// The bands that these payloads encode, one band each, in order.
pub open spec fn bands_of(payloads: Seq<Seq<u8>>) -> Option<Seq<CalibrationBand>>
    decreases payloads.len(),
{
    if payloads.len() == 0 {
        Some(Seq::empty())
    } else {
        match (bands_of(payloads.drop_last()), spec_records(MessageKind::CalibrationBand, payloads.last())) {
            (Some(before), Some(r)) => Some(before.push(band_of(r))),
            _ => None,
        }
    }
}

/// The curve that the (merged) records of a `CalibrationCurve` message give.
pub open spec fn curve_of(r: Seq<(u32, FieldValue)>) -> Option<CalibrationCurveView> {
    match bands_of(tag_payloads(r, 9)) {
        Some(bands) => Some(
            CalibrationCurveView {
                range_min_bits: float_field(last_fixed32(r, 3)),
                range_max_bits: float_field(last_fixed32(r, 4)),
                extended_min_bits: float_field(last_fixed32(r, 5)),
                extended_max_bits: float_field(last_fixed32(r, 6)),
                bands,
            },
        ),
        None => None,
    }
}

/// The calibration data that `data` encodes, if it is a valid
/// `CalibrationData` message. The curve is present where the message
/// carries tag 3 at all; its occurrences merge.
pub open spec fn spec_calibration_data(data: Seq<u8>) -> Option<CalibrationDataView> {
    match spec_records(MessageKind::CalibrationData, data) {
        Some(r) => {
            let payloads = tag_payloads(r, 3);
            match merged_records(MessageKind::CalibrationCurve, payloads) {
                Some(curve_records) => match curve_of(curve_records) {
                    Some(curve) => Some(
                        CalibrationDataView {
                            date: uint32_field(last_varint(r, 1)),
                            curve: if payloads.len() > 0 {
                                Some(curve)
                            } else {
                                None
                            },
                        },
                    ),
                    None => None,
                },
                None => None,
            }
        },
        None => None,
    }
}

/// Decodes each payload as a `CalibrationBand` message.
fn decode_bands(payloads: &Vec<Vec<u8>>) -> (r: Option<Vec<CalibrationBand>>)
    ensures
        match r {
            Some(bands) => bands_of(payloads@.map_values(|p: Vec<u8>| p@)) == Some(bands@),
            None => bands_of(payloads@.map_values(|p: Vec<u8>| p@)) is None,
        },
{
    let ghost views = payloads@.map_values(|p: Vec<u8>| p@);
    let mut bands: Vec<CalibrationBand> = Vec::new();
    let mut i: usize = 0;
    proof {
        assert(views.take(0) =~= Seq::<Seq<u8>>::empty());
    }
    while i < payloads.len()
        invariant
            i <= payloads@.len(),
            views == payloads@.map_values(|p: Vec<u8>| p@),
            bands_of(views.take(i as int)) == Some(bands@),
        decreases payloads@.len() - i,
    {
        proof {
            assert(views.take(i + 1).drop_last() =~= views.take(i as int));
            assert(views.take(i + 1).last() == payloads@[i as int]@);
        }
        let records = match parse_records(MessageKind::CalibrationBand, payloads[i].as_slice()) {
            Some(r) => r,
            None => {
                proof {
                    lemma_bands_of_prefix(views, i + 1);
                }
                return None;
            },
        };
        let band = CalibrationBand {
            from_bits: find_last_fixed32(&records, 1).unwrap_or(0),
            to_bits: find_last_fixed32(&records, 2).unwrap_or(0),
            c_bits: find_last_fixed32(&records, 3).unwrap_or(0),
            b_bits: find_last_fixed32(&records, 4).unwrap_or(0),
            a_bits: find_last_fixed32(&records, 5).unwrap_or(0),
        };
        proof {
            assert(band == band_of(records_view(records@)));
        }
        bands.push(band);
        i += 1;
    }
    proof {
        assert(views.take(i as int) =~= views);
    }
    Some(bands)
}

/// Where a prefix of the payloads fails to decode, so do all of them.
proof fn lemma_bands_of_prefix(payloads: Seq<Seq<u8>>, n: int)
    requires
        0 <= n <= payloads.len(),
        bands_of(payloads.take(n)) is None,
    ensures
        bands_of(payloads) is None,
    decreases payloads.len() - n,
{
    if n < payloads.len() {
        assert(payloads.take(n + 1).drop_last() =~= payloads.take(n));
        lemma_bands_of_prefix(payloads, n + 1);
    } else {
        assert(payloads.take(n) =~= payloads);
    }
}

/// Decodes the bytes of `CalibrationData.gpbenc`.
pub fn decode_calibration_data(data: &[u8]) -> (r: Option<CalibrationData>)
    ensures
        match r {
            Some(d) => spec_calibration_data(data@) == Some(d@),
            None => spec_calibration_data(data@) is None,
        },
{
    let records = parse_records(MessageKind::CalibrationData, data)?;
    let curve_records = merge_submessage(MessageKind::CalibrationCurve, &records, 3)?;
    let band_payloads = collect_payloads(&curve_records, 9);
    let bands = decode_bands(&band_payloads)?;
    let curve = CalibrationCurve {
        range_min_bits: find_last_fixed32(&curve_records, 3).unwrap_or(0),
        range_max_bits: find_last_fixed32(&curve_records, 4).unwrap_or(0),
        extended_min_bits: find_last_fixed32(&curve_records, 5).unwrap_or(0),
        extended_max_bits: find_last_fixed32(&curve_records, 6).unwrap_or(0),
        bands,
    };
    let has_curve = has_payload(&records, 3);
    let date = match find_last_varint(&records, 1) {
        Some(v) => v as u32,
        None => 0,
    };
    Some(CalibrationData { date, curve: if has_curve { Some(curve) } else { None } })
}

/// Extracts and decodes CalibrationData.gpbenc from the unzipped files.
pub fn extract_calibration_data(files: &Files) -> (r: Option<CalibrationData>)
    ensures
        match r {
            Some(d) => files@.contains_key(CALIBRATION_DATA_FILE@) && spec_calibration_data(
                files@[CALIBRATION_DATA_FILE@],
            ) == Some(d@),
            None => !files@.contains_key(CALIBRATION_DATA_FILE@) || spec_calibration_data(
                files@[CALIBRATION_DATA_FILE@],
            ) is None,
        },
{
    let bytes = files.get(CALIBRATION_DATA_FILE)?;
    decode_calibration_data(bytes.as_slice())
}

/// The 32-bit value of four bytes, least significant first.
pub open spec fn bits_of(bytes: Seq<u8>) -> u32 {
    (bytes[0] + 256 * bytes[1] + 65536 * bytes[2] + 16777216 * bytes[3]) as u32
}

/// A calibration curve message as an encoder writes it, without bands: the
/// four bytes of each range value, at tags 3 (range minimum), 4 (range
/// maximum), 5 (extended minimum) and 6 (extended maximum).
pub open spec fn curve_message(
    range_min: Seq<u8>,
    range_max: Seq<u8>,
    extended_min: Seq<u8>,
    extended_max: Seq<u8>,
) -> Seq<u8> {
    fixed32_record(3, range_min) + fixed32_record(4, range_max) + fixed32_record(5, extended_min)
        + fixed32_record(6, extended_max)
}

/// A `CalibrationData` message written with a date at tag 1
/// and a curve without bands at tag 3 decodes to that date and that curve:
/// its range minimum and maximum from the curve's tags 3 and 4, its
/// extended minimum and maximum from tags 5 and 6.
pub proof fn lemma_calibration_curve_decodes(
    date: u32,
    range_min: Seq<u8>,
    range_max: Seq<u8>,
    extended_min: Seq<u8>,
    extended_max: Seq<u8>,
)
    requires
        range_min.len() == 4,
        range_max.len() == 4,
        extended_min.len() == 4,
        extended_max.len() == 4,
    ensures
        spec_calibration_data(
            varint_record(1, date) + bytes_record(
                3,
                curve_message(range_min, range_max, extended_min, extended_max),
            ),
        ) == Some(
            CalibrationDataView {
                date,
                curve: Some(
                    CalibrationCurveView {
                        range_min_bits: bits_of(range_min),
                        range_max_bits: bits_of(range_max),
                        extended_min_bits: bits_of(extended_min),
                        extended_max_bits: bits_of(extended_max),
                        bands: Seq::empty(),
                    },
                ),
            },
        ),
{
    let kind = MessageKind::CalibrationCurve;
    let empty = Seq::<u8>::empty();
    let r6 = fixed32_record(6, extended_max);
    let r5 = fixed32_record(5, extended_min);
    let r4 = fixed32_record(4, range_max);
    let r3 = fixed32_record(3, range_min);
    lemma_records_fixed32_record(kind, 6, extended_max, empty);
    assert(r6 + empty =~= r6);
    lemma_records_fixed32_record(kind, 5, extended_min, r6);
    lemma_records_fixed32_record(kind, 4, range_max, r5 + r6);
    lemma_records_fixed32_record(kind, 3, range_min, r4 + (r5 + r6));
    let curve = curve_message(range_min, range_max, extended_min, extended_max);
    assert(curve =~= r3 + (r4 + (r5 + r6)));
    let v3 = FieldValue::Fixed32(bits_of(range_min));
    let v4 = FieldValue::Fixed32(bits_of(range_max));
    let v5 = FieldValue::Fixed32(bits_of(extended_min));
    let v6 = FieldValue::Fixed32(bits_of(extended_max));
    let cr = seq![(3u32, v3), (4u32, v4), (5u32, v5), (6u32, v6)];
    assert(seq![(3u32, v3)] + (seq![(4u32, v4)] + (seq![(5u32, v5)] + (seq![(6u32, v6)]
        + Seq::<(u32, FieldValue)>::empty()))) =~= cr);
    assert(spec_records(kind, curve) == Some(cr));
    assert(merged_records(kind, seq![curve].drop_last()) == Some(Seq::<(u32, FieldValue)>::empty()));
    assert(Seq::<(u32, FieldValue)>::empty() + cr =~= cr);
    assert(merged_records(kind, seq![curve]) == Some(cr));
    assert(cr.drop_last() =~= seq![(3u32, v3), (4u32, v4), (5u32, v5)]);
    assert(cr.drop_last().drop_last() =~= seq![(3u32, v3), (4u32, v4)]);
    assert(cr.drop_last().drop_last().drop_last() =~= seq![(3u32, v3)]);
    assert(cr.drop_last().drop_last().drop_last().drop_last() =~= Seq::<(u32, FieldValue)>::empty());
    assert(last_fixed32(cr, 3) == Some(bits_of(range_min))) by {
        reveal_with_fuel(last_fixed32, 5);
    }
    assert(last_fixed32(cr, 4) == Some(bits_of(range_max))) by {
        reveal_with_fuel(last_fixed32, 5);
    }
    assert(last_fixed32(cr, 5) == Some(bits_of(extended_min))) by {
        reveal_with_fuel(last_fixed32, 5);
    }
    assert(last_fixed32(cr, 6) == Some(bits_of(extended_max)));
    assert(tag_payloads(cr, 9) =~= Seq::<Seq<u8>>::empty()) by {
        reveal_with_fuel(tag_payloads, 5);
    }
    let outer = MessageKind::CalibrationData;
    let curve_record = bytes_record(3, curve);
    lemma_records_bytes_record(outer, 3, curve, empty);
    assert(curve_record + empty =~= curve_record);
    lemma_records_varint_record(outer, 1, date, curve_record);
    let dr = seq![(1u32, FieldValue::Varint(date as u64)), (3u32, FieldValue::Bytes(curve))];
    assert(seq![(1u32, FieldValue::Varint(date as u64))] + (seq![(3u32, FieldValue::Bytes(curve))]
        + Seq::<(u32, FieldValue)>::empty()) =~= dr);
    assert(dr.drop_last() =~= seq![(1u32, FieldValue::Varint(date as u64))]);
    assert(dr.drop_last().drop_last() =~= Seq::<(u32, FieldValue)>::empty());
    assert(tag_payloads(dr, 3) =~= seq![curve]) by {
        reveal_with_fuel(tag_payloads, 3);
    }
    assert(last_varint(dr, 1) == Some(date as u64)) by {
        reveal_with_fuel(last_varint, 3);
    }
}

} // verus!
