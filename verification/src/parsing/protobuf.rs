//! The protobuf wire format as the `.gpbenc` files of an is2 archive use it.
//!
//! A message is a sequence of records, each a key (field tag and wire type)
//! followed by a value whose layout the wire type fixes. The keys and
//! varints are read by `prost`; which tags a message knows, and what type
//! each field has, is the schema of the file being decoded, given here by
//! `MessageKind` and `schema`. Records of unknown tags are skipped by
//! `prost` as well; groups are walked here, key by key, with the recursion
//! limit that `prost`'s decoders apply at each level of submessage.
//!
//! Decoding follows `prost`'s rules for the field types used: a scalar field
//! keeps the last value seen, a repeated field collects every value (packed
//! or not), an optional submessage merges every occurrence, a repeated
//! submessage decodes each occurrence on its own, and a record of a known
//! tag whose wire type does not fit its field makes the whole decode fail.

use prost::encoding::DecodeContext;
use prost::encoding::WireType as ProstWireType;
use vstd::prelude::*;

use crate::text::utf8_string;

verus! {

/// The wire types of the protobuf encoding, numbered as on the wire.
#[derive(Clone, Copy, Debug, PartialEq, Eq, Structural)]
pub enum WireType {
    Varint,
    SixtyFourBit,
    LengthDelimited,
    StartGroup,
    EndGroup,
    ThirtyTwoBit,
}

/// The wire type a key's low three bits name, if any.
pub open spec fn wire_type_of(code: int) -> Option<WireType> {
    if code == 0 {
        Some(WireType::Varint)
    } else if code == 1 {
        Some(WireType::SixtyFourBit)
    } else if code == 2 {
        Some(WireType::LengthDelimited)
    } else if code == 3 {
        Some(WireType::StartGroup)
    } else if code == 4 {
        Some(WireType::EndGroup)
    } else if code == 5 {
        Some(WireType::ThirtyTwoBit)
    } else {
        None
    }
}

/// Where the varint at the front of `s` ends, looking from byte `i` on:
/// the first byte below 0x80 among the first ten ends it. A tenth byte must
/// be 0 or 1, or the value would not fit in 64 bits.
pub open spec fn varint_end(s: Seq<u8>, i: nat) -> Option<nat>
    decreases 10 - i,
{
    if i >= 10 || i >= s.len() {
        None
    } else if s[i as int] < 0x80 {
        if i == 9 && s[i as int] >= 2 {
            None
        } else {
            Some(i + 1)
        }
    } else {
        varint_end(s, i + 1)
    }
}

/// The value of the first `n` bytes of `s` read as a little-endian base-128
/// number, seven bits a byte.
pub open spec fn varint_value(s: Seq<u8>, n: nat) -> int
    decreases n,
{
    if n == 0 || s.len() == 0 {
        0
    } else {
        (s[0] % 128) as int + 128 * varint_value(s.drop_first(), (n - 1) as nat)
    }
}

/// The varint at the front of `s`: its value and its length in bytes.
pub open spec fn spec_varint(s: Seq<u8>) -> Option<(int, nat)> {
    match varint_end(s, 0) {
        Some(n) => Some((varint_value(s, n), n)),
        None => None,
    }
}

/// The record key at the front of `s`: a varint of at most 32 bits whose
/// low three bits name a wire type and whose other bits a nonzero tag.
/// Gives the tag, the wire type and the key's length.
pub open spec fn spec_key(s: Seq<u8>) -> Option<(u32, WireType, nat)> {
    match spec_varint(s) {
        Some((key, n)) => if key > u32::MAX as int || key / 8 < 1 {
            None
        } else {
            match wire_type_of(key % 8) {
                Some(wire_type) => Some(((key / 8) as u32, wire_type, n)),
                None => None,
            }
        },
        None => None,
    }
}

/// How many bytes the value of an unknown field with this wire type, other
/// than a group, takes at the front of `data`, or `None` where it is
/// malformed or cut short: a varint's own length; four or eight bytes; a
/// varint length and that many bytes after it. An end-group key out of place
/// is malformed.
pub open spec fn spec_skipped_len(wire_type: WireType, data: Seq<u8>) -> Option<nat> {
    match wire_type {
        WireType::Varint => match spec_varint(data) {
            Some((_, n)) => Some(n),
            None => None,
        },
        WireType::ThirtyTwoBit => if data.len() >= 4 {
            Some(4)
        } else {
            None
        },
        WireType::SixtyFourBit => if data.len() >= 8 {
            Some(8)
        } else {
            None
        },
        WireType::LengthDelimited => match spec_varint(data) {
            Some((len, n)) => if len <= data.len() - n {
                Some(n + len as nat)
            } else {
                None
            },
            None => None,
        },
        WireType::StartGroup => None,
        WireType::EndGroup => None,
    }
}

/// How many levels of recursion `prost`'s decoders have left when they skip
/// an unknown field of a message of this kind: 100 at the top level of a
/// file, one less in each level of submessage.
pub open spec fn recursion_budget(kind: MessageKind) -> nat {
    match kind {
        MessageKind::TemperatureScale => 99,
        MessageKind::CalibrationCurve => 99,
        MessageKind::RexThermalData => 99,
        MessageKind::Point => 99,
        MessageKind::Metadata => 99,
        MessageKind::CalibrationBand => 98,
        _ => 100,
    }
}

pub proof fn lemma_varint_end_bounds(s: Seq<u8>, i: nat)
    ensures
        varint_end(s, i) matches Some(n) ==> i < n <= s.len() && n <= 10,
    decreases 10 - i,
{
    if i < 10 && i < s.len() && s[i as int] >= 0x80 {
        lemma_varint_end_bounds(s, i + 1);
    }
}

pub proof fn lemma_key_len(s: Seq<u8>)
    ensures
        spec_key(s) matches Some((_, _, n)) ==> 1 <= n <= s.len(),
{
    lemma_varint_end_bounds(s, 0);
}

/// How many bytes skipping the value of an unknown field with this wire type
/// and tag at the front of `data` takes, with `budget` levels of recursion
/// left, or `None` where it fails: with no level left it fails; a group runs
/// to the end-group key of its own tag, its fields skipped one level deeper;
/// any other value is `spec_skipped_len` long.
pub open spec fn spec_skip(wire_type: WireType, tag: u32, data: Seq<u8>, budget: nat) -> Option<nat>
    decreases data.len(), 1int,
{
    if budget == 0 {
        None
    } else if wire_type is StartGroup {
        spec_group_rest(tag, data, (budget - 1) as nat)
    } else {
        spec_skipped_len(wire_type, data)
    }
}

/// How many bytes the rest of a group with this tag takes at the front of
/// `data`, up to and including its end-group key, its fields skipped with
/// `budget` levels of recursion left; `None` where a key is malformed, a
/// field cannot be skipped, or the group ends with another tag's key.
pub open spec fn spec_group_rest(tag: u32, data: Seq<u8>, budget: nat) -> Option<nat>
    decreases data.len(), 0int,
{
    match spec_key(data) {
        Some((inner_tag, inner_wire_type, k)) => {
            proof {
                lemma_key_len(data);
            }
            if inner_wire_type is EndGroup {
                if inner_tag == tag {
                    Some(k)
                } else {
                    None
                }
            } else {
                match spec_skip(inner_wire_type, inner_tag, data.skip(k as int), budget) {
                    Some(n) => if n <= data.len() - k {
                        match spec_group_rest(tag, data.skip((k + n) as int), budget) {
                            Some(m) => Some(k + n + m),
                            None => None,
                        }
                    } else {
                        None
                    },
                    None => None,
                }
            }
        },
        None => None,
    }
}

/// Decodes the varint at `data[pos..]` with `prost::encoding::decode_varint`.
///
/// Claims: it succeeds exactly where `spec_varint` finds a varint there,
/// with that value, and gives how many bytes of `data` are left after it.
#[verifier::external_body]
fn prost_decode_varint(data: &[u8], pos: usize) -> (r: Option<(u64, usize)>)
    requires
        pos <= data@.len(),
    ensures
        match r {
            Some((value, left)) => left <= data@.len() - pos && spec_varint(data@.skip(pos as int))
                == Some((value as int, (data@.len() - pos - left) as nat)),
            None => spec_varint(data@.skip(pos as int)) is None,
        },
{
    let mut buf = &data[pos..];
    let value = prost::encoding::decode_varint(&mut buf).ok()?;
    Some((value, buf.len()))
}

/// Reads the varint at `data[pos..]`: its value and the position after it.
fn read_varint(data: &[u8], pos: usize) -> (r: Option<(u64, usize)>)
    requires
        pos <= data@.len(),
    ensures
        match r {
            Some((value, end)) => pos <= end <= data@.len() && spec_varint(data@.skip(pos as int))
                == Some((value as int, (end - pos) as nat)),
            None => spec_varint(data@.skip(pos as int)) is None,
        },
{
    match prost_decode_varint(data, pos) {
        Some((value, left)) => Some((value, data.len() - left)),
        None => None,
    }
}

/// Decodes the record key at `data[pos..]` with `prost::encoding::decode_key`.
///
/// Claims: it succeeds exactly where `spec_key` finds a key there, giving
/// the same tag and wire type, and how many bytes of `data` are left after
/// the key.
#[verifier::external_body]
fn prost_decode_key(data: &[u8], pos: usize) -> (r: Option<(u32, WireType, usize)>)
    requires
        pos <= data@.len(),
    ensures
        match r {
            Some((tag, wire_type, left)) => left <= data@.len() - pos && spec_key(
                data@.skip(pos as int),
            ) == Some((tag, wire_type, (data@.len() - pos - left) as nat)),
            None => spec_key(data@.skip(pos as int)) is None,
        },
{
    let mut buf = &data[pos..];
    let (tag, wire_type) = prost::encoding::decode_key(&mut buf).ok()?;
    let wire_type = match wire_type {
        ProstWireType::Varint => WireType::Varint,
        ProstWireType::SixtyFourBit => WireType::SixtyFourBit,
        ProstWireType::LengthDelimited => WireType::LengthDelimited,
        ProstWireType::StartGroup => WireType::StartGroup,
        ProstWireType::EndGroup => WireType::EndGroup,
        ProstWireType::ThirtyTwoBit => WireType::ThirtyTwoBit,
    };
    Some((tag, wire_type, buf.len()))
}

/// Reads the record key at `data[pos..]`: its tag, its wire type and the
/// position after it.
fn read_key(data: &[u8], pos: usize) -> (r: Option<(u32, WireType, usize)>)
    requires
        pos <= data@.len(),
    ensures
        match r {
            Some((tag, wire_type, end)) => pos <= end <= data@.len() && spec_key(
                data@.skip(pos as int),
            ) == Some((tag, wire_type, (end - pos) as nat)),
            None => spec_key(data@.skip(pos as int)) is None,
        },
{
    match prost_decode_key(data, pos) {
        Some((tag, wire_type, left)) => Some((tag, wire_type, data.len() - left)),
        None => None,
    }
}

/// Skips the value of an unknown field at `data[pos..]`, not a group, with
/// `prost::encoding::skip_field` in a fresh decode context.
///
/// Claims: it succeeds exactly where `spec_skipped_len` gives a length, and
/// gives how many bytes of `data` are left after that many. A value that is
/// not a group is skipped without recursion, so the context's depth does
/// not matter.
#[verifier::external_body]
fn prost_skip_field(wire_type: WireType, tag: u32, data: &[u8], pos: usize) -> (r: Option<usize>)
    requires
        pos <= data@.len(),
        !(wire_type is StartGroup),
    ensures
        match r {
            Some(left) => left <= data@.len() - pos && spec_skipped_len(
                wire_type,
                data@.skip(pos as int),
            ) == Some((data@.len() - pos - left) as nat),
            None => spec_skipped_len(wire_type, data@.skip(pos as int)) is None,
        },
{
    let wire_type = match wire_type {
        WireType::Varint => ProstWireType::Varint,
        WireType::SixtyFourBit => ProstWireType::SixtyFourBit,
        WireType::LengthDelimited => ProstWireType::LengthDelimited,
        WireType::StartGroup => ProstWireType::StartGroup,
        WireType::EndGroup => ProstWireType::EndGroup,
        WireType::ThirtyTwoBit => ProstWireType::ThirtyTwoBit,
    };
    let mut buf = &data[pos..];
    prost::encoding::skip_field(wire_type, tag, &mut buf, DecodeContext::default()).ok()?;
    Some(buf.len())
}

/// Skips the value of an unknown field at `data[pos..]` with `budget`
/// levels of recursion left: the position after it; see `spec_skip`.
fn skip_value(wire_type: WireType, tag: u32, data: &[u8], pos: usize, budget: u32) -> (r: Option<usize>)
    requires
        pos <= data@.len(),
    ensures
        match r {
            Some(end) => pos <= end <= data@.len() && spec_skip(
                wire_type,
                tag,
                data@.skip(pos as int),
                budget as nat,
            ) == Some((end - pos) as nat),
            None => spec_skip(wire_type, tag, data@.skip(pos as int), budget as nat) is None,
        },
    decreases data@.len() - pos, 1int,
{
    if budget == 0 {
        return None;
    }
    match wire_type {
        WireType::StartGroup => skip_group_rest(tag, data, pos, budget - 1),
        _ => match prost_skip_field(wire_type, tag, data, pos) {
            Some(left) => Some(data.len() - left),
            None => None,
        },
    }
}

/// Skips the rest of a group with this tag at `data[pos..]`, its fields
/// with `budget` levels of recursion left: the position after its end-group
/// key; see `spec_group_rest`.
fn skip_group_rest(tag: u32, data: &[u8], pos: usize, budget: u32) -> (r: Option<usize>)
    requires
        pos <= data@.len(),
    ensures
        match r {
            Some(end) => pos <= end <= data@.len() && spec_group_rest(
                tag,
                data@.skip(pos as int),
                budget as nat,
            ) == Some((end - pos) as nat),
            None => spec_group_rest(tag, data@.skip(pos as int), budget as nat) is None,
        },
    decreases data@.len() - pos, 0int,
{
    let mut cur: usize = pos;
    proof {
        assert(data@.skip(pos as int) =~= data@.skip(cur as int));
    }
    loop
        invariant
            pos <= cur <= data@.len(),
            spec_group_rest(tag, data@.skip(pos as int), budget as nat) == match spec_group_rest(
                tag,
                data@.skip(cur as int),
                budget as nat,
            ) {
                Some(m) => Some((cur - pos + m) as nat),
                None => None,
            },
        decreases data@.len() - cur,
    {
        let ghost s = data@.skip(cur as int);
        let (inner_tag, inner_wire_type, key_end) = match read_key(data, cur) {
            Some(k) => k,
            None => return None,
        };
        proof {
            lemma_key_len(s);
            assert(s.skip((key_end - cur) as int) =~= data@.skip(key_end as int));
        }
        if let WireType::EndGroup = inner_wire_type {
            if inner_tag == tag {
                return Some(key_end);
            } else {
                return None;
            }
        }
        let end = match skip_value(inner_wire_type, inner_tag, data, key_end, budget) {
            Some(e) => e,
            None => return None,
        };
        proof {
            assert(s.skip((end - cur) as int) =~= data@.skip(end as int));
        }
        cur = end;
    }
}

/// How many levels of recursion skipping an unknown field of a message of
/// this kind has left; see `recursion_budget`.
fn skip_budget(kind: MessageKind) -> (r: u32)
    ensures
        r == recursion_budget(kind),
{
    match kind {
        MessageKind::TemperatureScale => 99,
        MessageKind::CalibrationCurve => 99,
        MessageKind::RexThermalData => 99,
        MessageKind::Point => 99,
        MessageKind::Metadata => 99,
        MessageKind::CalibrationBand => 98,
        _ => 100,
    }
}

/// The value of the four bytes at the front of `s`, little-endian.
pub open spec fn le_u32(s: Seq<u8>) -> u32 {
    (s[0] as int + 256 * s[1] as int + 65536 * s[2] as int + 16777216 * s[3] as int) as u32
}

/// The messages of the is2 format that this library decodes.
#[derive(Clone, Copy, Debug, PartialEq, Eq, Structural)]
pub enum MessageKind {
    CameraInfo,
    IrImageInfo,
    TemperatureScale,
    CalibrationData,
    CalibrationCurve,
    CalibrationBand,
    CalTempDataRex,
    RexThermalData,
    PointMarker,
    BoxMarker,
    Point,
    Metadata,
}

/// How a known field is laid out on the wire.
#[derive(Clone, Copy, Debug, PartialEq, Eq, Structural)]
pub enum FieldKind {
    /// A varint scalar (`uint32`): wire type varint.
    Varint,
    /// A 32-bit scalar (`float`): wire type 32-bit.
    Fixed32,
    /// A string or a submessage: wire type length-delimited.
    Delimited,
    /// A repeated varint field (`int64`): either one varint per record, or
    /// packed, a length-delimited run of varints.
    RepeatedVarint,
}

/// The fields each message knows, by tag.
pub open spec fn schema(kind: MessageKind, tag: u32) -> Option<FieldKind> {
    match kind {
        MessageKind::CameraInfo => if tag == 12 || tag == 13 {
            Some(FieldKind::Varint)
        } else if tag == 22 || tag == 23 || tag == 24 {
            Some(FieldKind::Delimited)
        } else {
            None
        },
        MessageKind::IrImageInfo => if tag == 4 || tag == 5 {
            Some(FieldKind::Varint)
        } else if tag == 10 || tag == 11 || tag == 12 {
            Some(FieldKind::Fixed32)
        } else if tag == 14 {
            Some(FieldKind::Delimited)
        } else {
            None
        },
        MessageKind::TemperatureScale => if tag == 6 || tag == 7 {
            Some(FieldKind::Fixed32)
        } else {
            None
        },
        MessageKind::CalibrationData => if tag == 1 {
            Some(FieldKind::Varint)
        } else if tag == 3 {
            Some(FieldKind::Delimited)
        } else {
            None
        },
        MessageKind::CalibrationCurve => if 3 <= tag <= 6 {
            Some(FieldKind::Fixed32)
        } else if tag == 9 {
            Some(FieldKind::Delimited)
        } else {
            None
        },
        MessageKind::CalibrationBand => if 1 <= tag <= 5 {
            Some(FieldKind::Fixed32)
        } else {
            None
        },
        MessageKind::CalTempDataRex => if tag == 4 {
            Some(FieldKind::Delimited)
        } else {
            None
        },
        MessageKind::RexThermalData => if tag == 4 || tag == 11 {
            Some(FieldKind::RepeatedVarint)
        } else {
            None
        },
        MessageKind::PointMarker => if tag == 1 || tag == 2 {
            Some(FieldKind::Delimited)
        } else {
            None
        },
        MessageKind::BoxMarker => if 1 <= tag <= 3 {
            Some(FieldKind::Delimited)
        } else {
            None
        },
        MessageKind::Point => if tag == 1 || tag == 2 {
            Some(FieldKind::Varint)
        } else {
            None
        },
        MessageKind::Metadata => if tag == 1 || tag == 2 {
            Some(FieldKind::Delimited)
        } else {
            None
        },
    }
}

/// `schema`, computed.
pub fn field_kind(kind: MessageKind, tag: u32) -> (r: Option<FieldKind>)
    ensures
        r == schema(kind, tag),
{
    match kind {
        MessageKind::CameraInfo => if tag == 12 || tag == 13 {
            Some(FieldKind::Varint)
        } else if tag == 22 || tag == 23 || tag == 24 {
            Some(FieldKind::Delimited)
        } else {
            None
        },
        MessageKind::IrImageInfo => if tag == 4 || tag == 5 {
            Some(FieldKind::Varint)
        } else if tag == 10 || tag == 11 || tag == 12 {
            Some(FieldKind::Fixed32)
        } else if tag == 14 {
            Some(FieldKind::Delimited)
        } else {
            None
        },
        MessageKind::TemperatureScale => if tag == 6 || tag == 7 {
            Some(FieldKind::Fixed32)
        } else {
            None
        },
        MessageKind::CalibrationData => if tag == 1 {
            Some(FieldKind::Varint)
        } else if tag == 3 {
            Some(FieldKind::Delimited)
        } else {
            None
        },
        MessageKind::CalibrationCurve => if 3 <= tag && tag <= 6 {
            Some(FieldKind::Fixed32)
        } else if tag == 9 {
            Some(FieldKind::Delimited)
        } else {
            None
        },
        MessageKind::CalibrationBand => if 1 <= tag && tag <= 5 {
            Some(FieldKind::Fixed32)
        } else {
            None
        },
        MessageKind::CalTempDataRex => if tag == 4 {
            Some(FieldKind::Delimited)
        } else {
            None
        },
        MessageKind::RexThermalData => if tag == 4 || tag == 11 {
            Some(FieldKind::RepeatedVarint)
        } else {
            None
        },
        MessageKind::PointMarker => if tag == 1 || tag == 2 {
            Some(FieldKind::Delimited)
        } else {
            None
        },
        MessageKind::BoxMarker => if 1 <= tag && tag <= 3 {
            Some(FieldKind::Delimited)
        } else {
            None
        },
        MessageKind::Point => if tag == 1 || tag == 2 {
            Some(FieldKind::Varint)
        } else {
            None
        },
        MessageKind::Metadata => if tag == 1 || tag == 2 {
            Some(FieldKind::Delimited)
        } else {
            None
        },
    }
}

/// The value of one record, as read.
pub enum Field {
    Varint(u64),
    Fixed32(u32),
    Bytes(Vec<u8>),
}

/// The value of one record, mathematically.
pub enum FieldValue {
    Varint(u64),
    Fixed32(u32),
    Bytes(Seq<u8>),
}

impl View for Field {
    type V = FieldValue;

    open spec fn view(&self) -> FieldValue {
        match self {
            Field::Varint(v) => FieldValue::Varint(*v),
            Field::Fixed32(v) => FieldValue::Fixed32(*v),
            Field::Bytes(b) => FieldValue::Bytes(b@),
        }
    }
}

/// A record of a known field: its tag and value.
pub struct Record {
    pub tag: u32,
    pub field: Field,
}

/// The records of a message, mathematically.
pub open spec fn records_view(records: Seq<Record>) -> Seq<(u32, FieldValue)> {
    records.map_values(|r: Record| (r.tag, r.field@))
}

/// A length-delimited value at the front of `s`: a varint length, then that
/// many bytes.
pub open spec fn spec_delimited(s: Seq<u8>) -> Option<(FieldValue, nat)> {
    match spec_varint(s) {
        Some((len, n)) => if len <= s.len() - n {
            Some((FieldValue::Bytes(s.subrange(n as int, n + len)), (n + len) as nat))
        } else {
            None
        },
        None => None,
    }
}

/// The value of a known field at the front of `s`, and its length, where
/// the record's wire type fits the field.
pub open spec fn spec_field(kind: FieldKind, wire_type: WireType, s: Seq<u8>) -> Option<(FieldValue, nat)> {
    match kind {
        FieldKind::Varint => if wire_type == WireType::Varint {
            match spec_varint(s) {
                Some((v, n)) => Some((FieldValue::Varint(v as u64), n)),
                None => None,
            }
        } else {
            None
        },
        FieldKind::Fixed32 => if wire_type == WireType::ThirtyTwoBit && s.len() >= 4 {
            Some((FieldValue::Fixed32(le_u32(s)), 4))
        } else {
            None
        },
        FieldKind::Delimited => if wire_type == WireType::LengthDelimited {
            spec_delimited(s)
        } else {
            None
        },
        FieldKind::RepeatedVarint => if wire_type == WireType::Varint {
            match spec_varint(s) {
                Some((v, n)) => Some((FieldValue::Varint(v as u64), n)),
                None => None,
            }
        } else if wire_type == WireType::LengthDelimited {
            spec_delimited(s)
        } else {
            None
        },
    }
}

/// `rest` with `first` put in front, where there is a `rest`.
pub open spec fn prepend_records(
    first: Seq<(u32, FieldValue)>,
    rest: Option<Seq<(u32, FieldValue)>>,
) -> Option<Seq<(u32, FieldValue)>> {
    match rest {
        Some(r) => Some(first + r),
        None => None,
    }
}

/// The records of the known fields of a message of this kind encoded as
/// `s`, in order, or `None` where `s` is not such a message: a key or a
/// value is malformed or cut short, or a known field has the wrong wire
/// type. Records of unknown fields are skipped.
pub open spec fn spec_records(kind: MessageKind, s: Seq<u8>) -> Option<Seq<(u32, FieldValue)>>
    decreases s.len(),
{
    if s.len() == 0 {
        Some(Seq::empty())
    } else {
        match spec_key(s) {
            Some((tag, wire_type, key_len)) => {
                proof {
                    lemma_key_len(s);
                }
                let rest = s.skip(key_len as int);
                match schema(kind, tag) {
                    None => match spec_skip(wire_type, tag, rest, recursion_budget(kind)) {
                        Some(n) => if n <= rest.len() {
                            spec_records(kind, rest.skip(n as int))
                        } else {
                            None
                        },
                        None => None,
                    },
                    Some(field_kind) => match spec_field(field_kind, wire_type, rest) {
                        Some((value, n)) => if n <= rest.len() {
                            prepend_records(seq![(tag, value)], spec_records(kind, rest.skip(n as int)))
                        } else {
                            None
                        },
                        None => None,
                    },
                }
            },
            None => None,
        }
    }
}

/// Reads the four bytes at `data[pos..]` as a little-endian `u32`.
fn read_fixed32(data: &[u8], pos: usize) -> (r: u32)
    requires
        pos + 4 <= data@.len(),
    ensures
        r == le_u32(data@.skip(pos as int)),
{
    let b0 = data[pos] as u32;
    let b1 = data[pos + 1] as u32;
    let b2 = data[pos + 2] as u32;
    let b3 = data[pos + 3] as u32;
    b0 + 256 * b1 + 65536 * b2 + 16777216 * b3
}

/// Reads a length-delimited value at `data[pos..]`.
fn read_delimited(data: &[u8], pos: usize) -> (r: Option<(Field, usize)>)
    requires
        pos <= data@.len(),
    ensures
        match r {
            Some((field, end)) => pos <= end <= data@.len() && spec_delimited(data@.skip(pos as int))
                == Some((field@, (end - pos) as nat)),
            None => spec_delimited(data@.skip(pos as int)) is None,
        },
{
    let (len, start) = match read_varint(data, pos) {
        Some(v) => v,
        None => return None,
    };
    if len > (data.len() - start) as u64 {
        return None;
    }
    let end = start + len as usize;
    let bytes = vstd::slice::slice_to_vec(vstd::slice::slice_subrange(data, start, end));
    proof {
        assert(bytes@ =~= data@.skip(pos as int).subrange((start - pos) as int, (end - pos) as int));
    }
    Some((Field::Bytes(bytes), end))
}

/// Reads the value of a known field at `data[pos..]`.
fn read_field(kind: FieldKind, wire_type: WireType, data: &[u8], pos: usize) -> (r: Option<(Field, usize)>)
    requires
        pos <= data@.len(),
    ensures
        match r {
            Some((field, end)) => pos <= end <= data@.len() && spec_field(kind, wire_type, data@.skip(pos as int))
                == Some((field@, (end - pos) as nat)),
            None => spec_field(kind, wire_type, data@.skip(pos as int)) is None,
        },
{
    match kind {
        FieldKind::Varint => {
            if wire_type != WireType::Varint {
                return None;
            }
            let (v, end) = match read_varint(data, pos) {
                Some(v) => v,
                None => return None,
            };
            Some((Field::Varint(v), end))
        },
        FieldKind::Fixed32 => {
            if wire_type != WireType::ThirtyTwoBit || data.len() - pos < 4 {
                return None;
            }
            Some((Field::Fixed32(read_fixed32(data, pos)), pos + 4))
        },
        FieldKind::Delimited => {
            if wire_type != WireType::LengthDelimited {
                return None;
            }
            read_delimited(data, pos)
        },
        FieldKind::RepeatedVarint => {
            if wire_type == WireType::Varint {
                let (v, end) = match read_varint(data, pos) {
                    Some(v) => v,
                    None => return None,
                };
                Some((Field::Varint(v), end))
            } else if wire_type == WireType::LengthDelimited {
                read_delimited(data, pos)
            } else {
                None
            }
        },
    }
}

/// Splits a message of the given kind into the records of its known
/// fields; see `spec_records`.
pub fn parse_records(kind: MessageKind, data: &[u8]) -> (r: Option<Vec<Record>>)
    ensures
        match r {
            Some(records) => spec_records(kind, data@) == Some(records_view(records@)),
            None => spec_records(kind, data@) is None,
        },
{
    let mut records: Vec<Record> = Vec::new();
    let mut pos: usize = 0;
    proof {
        assert(data@.skip(0) =~= data@);
        assert(records_view(records@) =~= Seq::<(u32, FieldValue)>::empty());
    }
    while pos < data.len()
        invariant
            pos <= data@.len(),
            spec_records(kind, data@) == prepend_records(
                records_view(records@),
                spec_records(kind, data@.skip(pos as int)),
            ),
        decreases data@.len() - pos,
    {
        let ghost s = data@.skip(pos as int);
        let (tag, wire_type, key_end) = match read_key(data, pos) {
            Some(k) => k,
            None => return None,
        };
        proof {
            lemma_key_len(s);
            assert(s.skip((key_end - pos) as int) =~= data@.skip(key_end as int));
        }
        match field_kind(kind, tag) {
            None => {
                let end = match skip_value(wire_type, tag, data, key_end, skip_budget(kind)) {
                    Some(e) => e,
                    None => return None,
                };
                proof {
                    assert(data@.skip(key_end as int).skip((end - key_end) as int) =~= data@.skip(end as int));
                }
                pos = end;
            },
            Some(field_kind) => {
                let (field, end) = match read_field(field_kind, wire_type, data, key_end) {
                    Some(f) => f,
                    None => return None,
                };
                proof {
                    assert(data@.skip(key_end as int).skip((end - key_end) as int) =~= data@.skip(end as int));
                }
                let ghost before = records_view(records@);
                records.push(Record { tag, field });
                proof {
                    assert(records_view(records@) =~= before + seq![(tag, field@)]);
                    assert(before + seq![(tag, field@)] + Seq::<(u32, FieldValue)>::empty() =~= before + seq![(tag, field@)]);
                    match spec_records(kind, data@.skip(end as int)) {
                        Some(r) => {
                            assert(before + (seq![(tag, field@)] + r) =~= before + seq![(tag, field@)] + r);
                        },
                        None => {},
                    }
                }
                pos = end;
            },
        }
    }
    proof {
        assert(data@.skip(pos as int) =~= Seq::<u8>::empty());
        assert(records_view(records@) + Seq::<(u32, FieldValue)>::empty() =~= records_view(records@));
    }
    Some(records)
}


/// The varints that fill `s` exactly, in order: the payload of a packed
/// repeated field.
pub open spec fn spec_varints(s: Seq<u8>) -> Option<Seq<u64>>
    decreases s.len(),
{
    if s.len() == 0 {
        Some(Seq::empty())
    } else {
        match spec_varint(s) {
            Some((v, n)) => {
                proof {
                    lemma_varint_end_bounds(s, 0);
                }
                match spec_varints(s.skip(n as int)) {
                    Some(rest) => Some(seq![v as u64] + rest),
                    None => None,
                }
            },
            None => None,
        }
    }
}

/// The last varint value recorded for `tag`.
pub open spec fn last_varint(records: Seq<(u32, FieldValue)>, tag: u32) -> Option<u64>
    decreases records.len(),
{
    if records.len() == 0 {
        None
    } else if records.last().0 == tag && records.last().1 is Varint {
        Some(records.last().1->Varint_0)
    } else {
        last_varint(records.drop_last(), tag)
    }
}

/// The last 32-bit value recorded for `tag`.
pub open spec fn last_fixed32(records: Seq<(u32, FieldValue)>, tag: u32) -> Option<u32>
    decreases records.len(),
{
    if records.len() == 0 {
        None
    } else if records.last().0 == tag && records.last().1 is Fixed32 {
        Some(records.last().1->Fixed32_0)
    } else {
        last_fixed32(records.drop_last(), tag)
    }
}

/// The length-delimited values recorded for `tag`, in order.
pub open spec fn tag_payloads(records: Seq<(u32, FieldValue)>, tag: u32) -> Seq<Seq<u8>>
    decreases records.len(),
{
    if records.len() == 0 {
        Seq::empty()
    } else if records.last().0 == tag && records.last().1 is Bytes {
        tag_payloads(records.drop_last(), tag).push(records.last().1->Bytes_0)
    } else {
        tag_payloads(records.drop_last(), tag)
    }
}

/// A string field: every value recorded for `tag` must be valid UTF-8, and
/// the last one counts; the empty string where there is none.
pub open spec fn spec_string_field(records: Seq<(u32, FieldValue)>, tag: u32) -> Option<Seq<char>> {
    let payloads = tag_payloads(records, tag);
    if forall|i: int| 0 <= i < payloads.len() ==> vstd::utf8::valid_utf8(#[trigger] payloads[i]) {
        if payloads.len() == 0 {
            Some(Seq::empty())
        } else {
            Some(vstd::utf8::decode_utf8(payloads.last()))
        }
    } else {
        None
    }
}

/// The records of a submessage of this kind that occurs with `payloads`:
/// those of each payload, one after the other, so that later values win.
pub open spec fn merged_records(kind: MessageKind, payloads: Seq<Seq<u8>>) -> Option<Seq<(u32, FieldValue)>>
    decreases payloads.len(),
{
    if payloads.len() == 0 {
        Some(Seq::empty())
    } else {
        match merged_records(kind, payloads.drop_last()) {
            Some(before) => match spec_records(kind, payloads.last()) {
                Some(last) => Some(before + last),
                None => None,
            },
            None => None,
        }
    }
}

/// The values of a repeated varint field recorded for `tag`, whether each
/// record holds one varint or a packed run of them.
pub open spec fn repeated_varints(records: Seq<(u32, FieldValue)>, tag: u32) -> Option<Seq<u64>>
    decreases records.len(),
{
    if records.len() == 0 {
        Some(Seq::empty())
    } else {
        match repeated_varints(records.drop_last(), tag) {
            Some(before) => if records.last().0 != tag {
                Some(before)
            } else {
                match records.last().1 {
                    FieldValue::Varint(v) => Some(before.push(v)),
                    FieldValue::Bytes(b) => match spec_varints(b) {
                        Some(vs) => Some(before + vs),
                        None => None,
                    },
                    FieldValue::Fixed32(_) => Some(before),
                }
            },
            None => None,
        }
    }
}

/// Reads `data` as a packed run of varints; see `spec_varints`.
pub fn read_varints(data: &[u8]) -> (r: Option<Vec<u64>>)
    ensures
        match r {
            Some(values) => spec_varints(data@) == Some(values@),
            None => spec_varints(data@) is None,
        },
{
    let mut values: Vec<u64> = Vec::new();
    let mut pos: usize = 0;
    proof {
        assert(data@.skip(0) =~= data@);
    }
    while pos < data.len()
        invariant
            pos <= data@.len(),
            spec_varints(data@) == match spec_varints(data@.skip(pos as int)) {
                Some(rest) => Some(values@ + rest),
                None => None::<Seq<u64>>,
            },
        decreases data@.len() - pos,
    {
        let ghost s = data@.skip(pos as int);
        let (v, end) = match read_varint(data, pos) {
            Some(v) => v,
            None => return None,
        };
        proof {
            lemma_varint_end_bounds(s, 0);
            assert(s.skip((end - pos) as int) =~= data@.skip(end as int));
            match spec_varints(data@.skip(end as int)) {
                Some(rest) => {
                    assert(values@ + (seq![v] + rest) =~= values@.push(v) + rest);
                },
                None => {},
            }
        }
        values.push(v);
        pos = end;
    }
    proof {
        assert(data@.skip(pos as int) =~= Seq::<u8>::empty());
        assert(values@ + Seq::<u64>::empty() =~= values@);
    }
    Some(values)
}

/// The last varint value recorded for `tag`.
pub fn find_last_varint(records: &Vec<Record>, tag: u32) -> (r: Option<u64>)
    ensures
        r == last_varint(records_view(records@), tag),
{
    let mut found: Option<u64> = None;
    let mut i: usize = 0;
    while i < records.len()
        invariant
            i <= records@.len(),
            found == last_varint(records_view(records@).take(i as int), tag),
        decreases records@.len() - i,
    {
        proof {
            assert(records_view(records@).take(i + 1).drop_last() =~= records_view(records@).take(i as int));
        }
        if records[i].tag == tag {
            match &records[i].field {
                Field::Varint(v) => {
                    found = Some(*v);
                },
                _ => {},
            }
        }
        i += 1;
    }
    proof {
        assert(records_view(records@).take(i as int) =~= records_view(records@));
    }
    found
}

/// The last 32-bit value recorded for `tag`.
pub fn find_last_fixed32(records: &Vec<Record>, tag: u32) -> (r: Option<u32>)
    ensures
        r == last_fixed32(records_view(records@), tag),
{
    let mut found: Option<u32> = None;
    let mut i: usize = 0;
    while i < records.len()
        invariant
            i <= records@.len(),
            found == last_fixed32(records_view(records@).take(i as int), tag),
        decreases records@.len() - i,
    {
        proof {
            assert(records_view(records@).take(i + 1).drop_last() =~= records_view(records@).take(i as int));
        }
        if records[i].tag == tag {
            match &records[i].field {
                Field::Fixed32(v) => {
                    found = Some(*v);
                },
                _ => {},
            }
        }
        i += 1;
    }
    proof {
        assert(records_view(records@).take(i as int) =~= records_view(records@));
    }
    found
}

/// Whether any length-delimited value is recorded for `tag`.
pub fn has_payload(records: &Vec<Record>, tag: u32) -> (r: bool)
    ensures
        r == (tag_payloads(records_view(records@), tag).len() > 0),
{
    let mut found = false;
    let mut i: usize = 0;
    while i < records.len()
        invariant
            i <= records@.len(),
            found == (tag_payloads(records_view(records@).take(i as int), tag).len() > 0),
        decreases records@.len() - i,
    {
        proof {
            assert(records_view(records@).take(i + 1).drop_last() =~= records_view(records@).take(i as int));
        }
        if records[i].tag == tag {
            match &records[i].field {
                Field::Bytes(_) => {
                    found = true;
                },
                _ => {},
            }
        }
        i += 1;
    }
    proof {
        assert(records_view(records@).take(i as int) =~= records_view(records@));
    }
    found
}

/// A string field; see `spec_string_field`.
pub fn find_string(records: &Vec<Record>, tag: u32) -> (r: Option<String>)
    ensures
        match r {
            Some(s) => spec_string_field(records_view(records@), tag) == Some(s@),
            None => spec_string_field(records_view(records@), tag) is None,
        },
{
    let mut found = String::new();
    let mut i: usize = 0;
    while i < records.len()
        invariant
            i <= records@.len(),
            ({
                let payloads = tag_payloads(records_view(records@).take(i as int), tag);
                &&& forall|j: int| 0 <= j < payloads.len() ==> vstd::utf8::valid_utf8(#[trigger] payloads[j])
                &&& found@ == if payloads.len() == 0 {
                    Seq::<char>::empty()
                } else {
                    vstd::utf8::decode_utf8(payloads.last())
                }
            }),
        decreases records@.len() - i,
    {
        let ghost before = tag_payloads(records_view(records@).take(i as int), tag);
        proof {
            assert(records_view(records@).take(i + 1).drop_last() =~= records_view(records@).take(i as int));
        }
        if records[i].tag == tag {
            match &records[i].field {
                Field::Bytes(b) => {
                    match utf8_string(b.as_slice()) {
                        Some(s) => {
                            found = s;
                        },
                        None => {
                            proof {
                                let all = tag_payloads(records_view(records@), tag);
                                lemma_tag_payloads_prefix(records_view(records@), i + 1, tag);
                                let upto = tag_payloads(records_view(records@).take(i + 1), tag);
                                assert(records_view(records@).take(i + 1).last() == (tag, FieldValue::Bytes(b@)));
                                assert(upto == before.push(b@));
                                assert(upto[before.len() as int] == b@);
                                assert(all[before.len() as int] == b@);
                                assert(!vstd::utf8::valid_utf8(all[before.len() as int]));
                            }
                            return None;
                        },
                    }
                },
                _ => {},
            }
        }
        i += 1;
    }
    proof {
        assert(records_view(records@).take(i as int) =~= records_view(records@));
    }
    Some(found)
}

/// The payloads recorded for `tag` in a prefix of the records are a prefix
/// of those in all of them.
pub proof fn lemma_tag_payloads_prefix(records: Seq<(u32, FieldValue)>, n: int, tag: u32)
    requires
        0 <= n <= records.len(),
    ensures
        tag_payloads(records.take(n), tag).len() <= tag_payloads(records, tag).len(),
        forall|j: int| 0 <= j < tag_payloads(records.take(n), tag).len() ==>
            #[trigger] tag_payloads(records.take(n), tag)[j] == tag_payloads(records, tag)[j],
    decreases records.len() - n,
{
    if n < records.len() {
        lemma_tag_payloads_prefix(records, n + 1, tag);
        assert(records.take(n + 1).drop_last() =~= records.take(n));
        let a = tag_payloads(records.take(n), tag);
        let b = tag_payloads(records.take(n + 1), tag);
        assert(a.len() <= b.len());
        assert forall|j: int| 0 <= j < a.len() implies #[trigger] a[j] == b[j] by {}
    } else {
        assert(records.take(n) =~= records);
    }
}

/// The length-delimited values recorded for `tag`, in order.
pub fn collect_payloads(records: &Vec<Record>, tag: u32) -> (r: Vec<Vec<u8>>)
    ensures
        r@.map_values(|p: Vec<u8>| p@) == tag_payloads(records_view(records@), tag),
{
    let mut found: Vec<Vec<u8>> = Vec::new();
    let mut i: usize = 0;
    while i < records.len()
        invariant
            i <= records@.len(),
            found@.map_values(|p: Vec<u8>| p@) == tag_payloads(records_view(records@).take(i as int), tag),
        decreases records@.len() - i,
    {
        proof {
            assert(records_view(records@).take(i + 1).drop_last() =~= records_view(records@).take(i as int));
        }
        if records[i].tag == tag {
            match &records[i].field {
                Field::Bytes(b) => {
                    let ghost before = found@;
                    found.push(b.clone());
                    proof {
                        assert(found@.map_values(|p: Vec<u8>| p@) =~= before.map_values(|p: Vec<u8>| p@).push(b@));
                    }
                },
                _ => {},
            }
        }
        i += 1;
    }
    proof {
        assert(records_view(records@).take(i as int) =~= records_view(records@));
    }
    found
}

/// The records of a submessage that occurs with the values recorded for
/// `tag`; see `merged_records`.
pub fn merge_submessage(kind: MessageKind, records: &Vec<Record>, tag: u32) -> (r: Option<Vec<Record>>)
    ensures
        match r {
            Some(sub) => merged_records(kind, tag_payloads(records_view(records@), tag)) == Some(
                records_view(sub@),
            ),
            None => merged_records(kind, tag_payloads(records_view(records@), tag)) is None,
        },
{
    let payloads = collect_payloads(records, tag);
    let ghost views = payloads@.map_values(|p: Vec<u8>| p@);
    assert(views =~= tag_payloads(records_view(records@), tag));
    let mut merged: Vec<Record> = Vec::new();
    let mut i: usize = 0;
    proof {
        assert(views.take(0) =~= Seq::<Seq<u8>>::empty());
        assert(records_view(merged@) =~= Seq::<(u32, FieldValue)>::empty());
    }
    while i < payloads.len()
        invariant
            i <= payloads@.len(),
            views == payloads@.map_values(|p: Vec<u8>| p@),
            views == tag_payloads(records_view(records@), tag),
            merged_records(kind, views.take(i as int)) == Some(records_view(merged@)),
        decreases payloads@.len() - i,
    {
        let mut sub = match parse_records(kind, payloads[i].as_slice()) {
            Some(s) => s,
            None => {
                proof {
                    assert(views.take(i + 1).drop_last() =~= views.take(i as int));
                    assert(views.take(i + 1).last() == payloads@[i as int]@);
                    lemma_merged_records_prefix(kind, views, i + 1);
                }
                return None;
            },
        };
        let ghost before = records_view(merged@);
        let ghost added = records_view(sub@);
        merged.append(&mut sub);
        proof {
            assert(views.take(i + 1).drop_last() =~= views.take(i as int));
            assert(records_view(merged@) =~= before + added);
        }
        i += 1;
    }
    proof {
        assert(views.take(i as int) =~= views);
    }
    Some(merged)
}

/// Where a prefix of the payloads fails to decode, so do all of them.
pub proof fn lemma_merged_records_prefix(kind: MessageKind, payloads: Seq<Seq<u8>>, n: int)
    requires
        0 <= n <= payloads.len(),
        merged_records(kind, payloads.take(n)) is None,
    ensures
        merged_records(kind, payloads) is None,
    decreases payloads.len() - n,
{
    if n < payloads.len() {
        assert(payloads.take(n + 1).drop_last() =~= payloads.take(n));
        lemma_merged_records_prefix(kind, payloads, n + 1);
    } else {
        assert(payloads.take(n) =~= payloads);
    }
}

/// The values of a repeated varint field; see `repeated_varints`.
pub fn collect_repeated_varints(records: &Vec<Record>, tag: u32) -> (r: Option<Vec<u64>>)
    ensures
        match r {
            Some(values) => repeated_varints(records_view(records@), tag) == Some(values@),
            None => repeated_varints(records_view(records@), tag) is None,
        },
{
    let mut values: Vec<u64> = Vec::new();
    let mut i: usize = 0;
    while i < records.len()
        invariant
            i <= records@.len(),
            repeated_varints(records_view(records@).take(i as int), tag) == Some(values@),
        decreases records@.len() - i,
    {
        proof {
            assert(records_view(records@).take(i + 1).drop_last() =~= records_view(records@).take(i as int));
        }
        if records[i].tag == tag {
            match &records[i].field {
                Field::Varint(v) => {
                    values.push(*v);
                },
                Field::Bytes(b) => {
                    let mut more = match read_varints(b.as_slice()) {
                        Some(m) => m,
                        None => {
                            proof {
                                lemma_repeated_varints_prefix(records_view(records@), i + 1, tag);
                            }
                            return None;
                        },
                    };
                    let ghost before = values@;
                    let ghost added = more@;
                    values.append(&mut more);
                    proof {
                        assert(values@ =~= before + added);
                    }
                },
                Field::Fixed32(_) => {},
            }
        }
        i += 1;
    }
    proof {
        assert(records_view(records@).take(i as int) =~= records_view(records@));
    }
    Some(values)
}

/// Where the values of a prefix of the records fail to decode, so do those
/// of all of them.
pub proof fn lemma_repeated_varints_prefix(records: Seq<(u32, FieldValue)>, n: int, tag: u32)
    requires
        0 <= n <= records.len(),
        repeated_varints(records.take(n), tag) is None,
    ensures
        repeated_varints(records, tag) is None,
    decreases records.len() - n,
{
    if n < records.len() {
        assert(records.take(n + 1).drop_last() =~= records.take(n));
        lemma_repeated_varints_prefix(records, n + 1, tag);
    } else {
        assert(records.take(n) =~= records);
    }
}

/// 128 to the power `k`.
pub open spec fn pow128(k: nat) -> nat
    decreases k,
{
    if k == 0 {
        1
    } else {
        128 * pow128((k - 1) as nat)
    }
}

/// The varint encoding of `v`: seven bits per byte, least significant
/// first, the high bit set on every byte but the last.
pub open spec fn varint_bytes(v: nat) -> Seq<u8>
    decreases v,
{
    if v < 128 {
        seq![v as u8]
    } else {
        seq![(v % 128 + 128) as u8] + varint_bytes(v / 128)
    }
}

/// A value below 128 to the power `k` takes at most `k` bytes.
proof fn lemma_varint_bytes_len(v: nat, k: nat)
    requires
        1 <= k,
        v < pow128(k),
    ensures
        1 <= varint_bytes(v).len() <= k,
    decreases v,
{
    if v >= 128 {
        assert(k >= 2) by {
            if k == 1 {
                assert(pow128(1) == 128) by {
                    reveal_with_fuel(pow128, 2);
                }
            }
        }
        assert(v / 128 < pow128((k - 1) as nat));
        lemma_varint_bytes_len(v / 128, (k - 1) as nat);
    }
}

/// A value below 2^32 takes at most five bytes.
pub proof fn lemma_varint_bytes_len_u32(v: nat)
    requires
        v <= u32::MAX,
    ensures
        1 <= varint_bytes(v).len() <= 5,
{
    assert(pow128(5) == 34359738368) by {
        reveal_with_fuel(pow128, 6);
    }
    lemma_varint_bytes_len(v, 5);
}

/// Where a varint written from byte `i` on ends.
proof fn lemma_varint_end_of(s: Seq<u8>, i: nat, v: nat)
    requires
        i + varint_bytes(v).len() <= 9,
        i + varint_bytes(v).len() <= s.len(),
        s.subrange(i as int, (i + varint_bytes(v).len()) as int) == varint_bytes(v),
    ensures
        varint_end(s, i) == Some(i + varint_bytes(v).len()),
    decreases v,
{
    let b = varint_bytes(v);
    assert(s[i as int] == b[0]);
    if v >= 128 {
        let rest = varint_bytes(v / 128);
        assert(b =~= seq![(v % 128 + 128) as u8] + rest);
        assert(s.subrange((i + 1) as int, (i + 1 + rest.len()) as int) =~= rest) by {
            assert forall|j: int| 0 <= j < rest.len() implies s.subrange((i + 1) as int, (i + 1 + rest.len()) as int)[j]
                == rest[j] by {
                assert(s.subrange(i as int, (i + b.len()) as int)[j + 1] == b[j + 1]);
            }
        }
        lemma_varint_end_of(s, i + 1, v / 128);
    }
}

/// The value of a varint written at the front of `s`.
proof fn lemma_varint_value_of(s: Seq<u8>, v: nat)
    requires
        varint_bytes(v).len() <= s.len(),
        s.take(varint_bytes(v).len() as int) == varint_bytes(v),
    ensures
        varint_value(s, varint_bytes(v).len()) == v,
    decreases v,
{
    let b = varint_bytes(v);
    assert(s[0] == b[0]);
    if v < 128 {
        assert(varint_value(s.drop_first(), 0) == 0);
    } else {
        let rest = varint_bytes(v / 128);
        assert(b =~= seq![(v % 128 + 128) as u8] + rest);
        assert(s.drop_first().take(rest.len() as int) =~= rest) by {
            assert forall|j: int| 0 <= j < rest.len() implies s.drop_first().take(rest.len() as int)[j]
                == rest[j] by {
                assert(s.take(b.len() as int)[j + 1] == b[j + 1]);
            }
        }
        lemma_varint_value_of(s.drop_first(), v / 128);
        assert(v % 128 + 128 * (v / 128) == v);
    }
}

/// A varint of a value below 2^32, written at the front of `s`, reads back
/// as that value, with its length.
proof fn lemma_varint_of(v: nat, rest: Seq<u8>)
    requires
        v <= u32::MAX,
    ensures
        spec_varint(varint_bytes(v) + rest) == Some((v as int, varint_bytes(v).len())),
{
    let s = varint_bytes(v) + rest;
    let n = varint_bytes(v).len();
    lemma_varint_bytes_len_u32(v);
    assert(s.subrange(0, n as int) =~= varint_bytes(v));
    lemma_varint_end_of(s, 0, v);
    assert(s.take(n as int) =~= varint_bytes(v));
    lemma_varint_value_of(s, v);
}

/// A varint record as an encoder writes it, for a tag below 16: a one-byte
/// key, then the value's varint.
pub open spec fn varint_record(tag: u32, value: u32) -> Seq<u8> {
    seq![(tag * 8) as u8] + varint_bytes(value as nat)
}

/// A 32-bit record as an encoder writes it, for a tag below 16: a one-byte
/// key, then the four bytes of the value, least significant first.
pub open spec fn fixed32_record(tag: u32, value: Seq<u8>) -> Seq<u8> {
    seq![(tag * 8 + 5) as u8] + value
}

/// A length-delimited record as an encoder writes it, for a tag below 16:
/// a one-byte key, the payload's length as a varint, then the payload.
pub open spec fn bytes_record(tag: u32, payload: Seq<u8>) -> Seq<u8> {
    seq![(tag * 8 + 2) as u8] + varint_bytes(payload.len()) + payload
}

/// A varint of one byte is that byte.
proof fn lemma_one_byte_varint(s: Seq<u8>)
    requires
        s.len() >= 1,
        s[0] < 0x80,
    ensures
        spec_varint(s) == Some((s[0] as int, 1nat)),
{
    assert(varint_end(s, 0) == Some(1nat));
    assert(varint_value(s.drop_first(), 0) == 0);
    assert(varint_value(s, 1) == s[0] as int);
}

/// A one-byte key names its tag and wire type.
proof fn lemma_one_byte_key(s: Seq<u8>, tag: u32, wire: u8)
    requires
        1 <= tag < 16,
        wire < 8,
        wire != 6 && wire != 7,
        s.len() >= 1,
        s[0] == (tag * 8 + wire) as u8,
    ensures
        spec_key(s) == Some((tag, wire_type_of(wire as int)->0, 1nat)),
{
    lemma_one_byte_varint(s);
    assert((tag * 8 + wire) / 8 == tag);
    assert((tag * 8 + wire) % 8 == wire);
}

/// A message that starts with a varint record of a known varint field
/// records that value first, then the records of the rest.
pub proof fn lemma_records_varint_record(kind: MessageKind, tag: u32, value: u32, rest: Seq<u8>)
    requires
        1 <= tag < 16,
        schema(kind, tag) == Some(FieldKind::Varint),
    ensures
        spec_records(kind, varint_record(tag, value) + rest) == prepend_records(
            seq![(tag, FieldValue::Varint(value as u64))],
            spec_records(kind, rest),
        ),
{
    let s = varint_record(tag, value) + rest;
    lemma_one_byte_key(s, tag, 0);
    let after_key = s.skip(1);
    assert(after_key =~= varint_bytes(value as nat) + rest);
    lemma_varint_of(value as nat, rest);
    assert(after_key.skip(varint_bytes(value as nat).len() as int) =~= rest);
}

/// A message that starts with a 32-bit record of a known 32-bit field
/// records that value, read least significant byte first, then the records
/// of the rest.
pub proof fn lemma_records_fixed32_record(kind: MessageKind, tag: u32, value: Seq<u8>, rest: Seq<u8>)
    requires
        1 <= tag < 16,
        value.len() == 4,
        schema(kind, tag) == Some(FieldKind::Fixed32),
    ensures
        spec_records(kind, fixed32_record(tag, value) + rest) == prepend_records(
            seq![(tag, FieldValue::Fixed32(le_u32(value)))],
            spec_records(kind, rest),
        ),
{
    let s = fixed32_record(tag, value) + rest;
    lemma_one_byte_key(s, tag, 5);
    let after_key = s.skip(1);
    assert(le_u32(after_key) == le_u32(value)) by {
        assert(after_key[0] == value[0] && after_key[1] == value[1]);
        assert(after_key[2] == value[2] && after_key[3] == value[3]);
    }
    assert(after_key.skip(4) =~= rest);
}

/// A message that starts with a length-delimited record of a known
/// length-delimited field records that payload, then the records of the
/// rest.
pub proof fn lemma_records_bytes_record(kind: MessageKind, tag: u32, payload: Seq<u8>, rest: Seq<u8>)
    requires
        1 <= tag < 16,
        payload.len() <= u32::MAX,
        schema(kind, tag) == Some(FieldKind::Delimited),
    ensures
        spec_records(kind, bytes_record(tag, payload) + rest) == prepend_records(
            seq![(tag, FieldValue::Bytes(payload))],
            spec_records(kind, rest),
        ),
{
    let s = bytes_record(tag, payload) + rest;
    lemma_one_byte_key(s, tag, 2);
    let after_key = s.skip(1);
    let n = varint_bytes(payload.len()).len();
    assert(after_key =~= varint_bytes(payload.len()) + (payload + rest));
    lemma_varint_of(payload.len(), payload + rest);
    assert(after_key.subrange(n as int, (n + payload.len()) as int) =~= payload);
    assert(after_key.skip((n + payload.len()) as int) =~= rest);
}

} // verus!
