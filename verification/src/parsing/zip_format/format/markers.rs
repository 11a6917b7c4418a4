//! Decodes the standard measurement markers: `Markers/Standard/*.gpbenc`,
//! one protobuf blob per marker.

use vstd::prelude::*;
use vstd::std_specs::convert::FromSpec;

use crate::markers::{self, Marker, MarkerView, MetadataView};
use crate::parsing::protobuf::{
    MessageKind, find_last_varint, find_string, has_payload, last_varint, merge_submessage,
    merged_records, parse_records, records_view, spec_records, spec_string_field, tag_payloads,
    FieldValue, Record, bytes_record, lemma_records_bytes_record, lemma_records_varint_record,
    lemma_varint_bytes_len_u32, varint_record,
};
use crate::parsing::zip_format::files::Files;
use crate::parsing::zip_format::format::camera_info::uint32_field;

verus! {

pub const CENTERBOX: &'static str = "Markers/Standard/Centerbox.gpbenc";
pub const CENTERPOINT: &'static str = "Markers/Standard/Centerpoint.gpbenc";
pub const HOTPOINT: &'static str = "Markers/Standard/Hotpoint.gpbenc";
pub const COLDPOINT: &'static str = "Markers/Standard/Coldpoint.gpbenc";

/// An (x, y) location in any marker
#[derive(Clone, Copy, Debug, PartialEq, Eq, Structural)]
pub struct ZipPoint {
    pub x: u32,  // tag 1
    pub y: u32,  // tag 2
}

/// Marker metadata
#[derive(Debug, PartialEq)]
pub struct ZipMetadata {
    pub label1: String,  // tag 1
    pub label2: String,  // tag 2
}

/// A point marker
struct ZipPointMarker {
    coords: Option<ZipPoint>,  // tag 1
    metadata: Option<ZipMetadata>,  // tag 2
}

/// A box marker
struct ZipBoxMarker {
    start: Option<ZipPoint>,  // tag 1
    end: Option<ZipPoint>,  // tag 2
    metadata: Option<ZipMetadata>,  // tag 3
}

impl View for ZipMetadata {
    type V = MetadataView;

    open spec fn view(&self) -> MetadataView {
        MetadataView { label1: self.label1@, label2: self.label2@ }
    }
}

impl From<ZipPoint> for markers::Point {
    fn from(p: ZipPoint) -> markers::Point {
        markers::Point { x: p.x, y: p.y }
    }
}

impl vstd::std_specs::convert::FromSpecImpl<ZipPoint> for markers::Point {
    open spec fn obeys_from_spec() -> bool {
        true
    }

    open spec fn from_spec(p: ZipPoint) -> markers::Point {
        markers::Point { x: p.x, y: p.y }
    }
}

impl From<ZipMetadata> for markers::Metadata {
    fn from(m: ZipMetadata) -> markers::Metadata {
        markers::Metadata { label1: m.label1, label2: m.label2 }
    }
}

impl vstd::std_specs::convert::FromSpecImpl<ZipMetadata> for markers::Metadata {
    open spec fn obeys_from_spec() -> bool {
        true
    }

    open spec fn from_spec(m: ZipMetadata) -> markers::Metadata {
        markers::Metadata { label1: m.label1, label2: m.label2 }
    }
}

/// The point that the (merged) records of a point message give.
pub open spec fn point_of(r: Seq<(u32, FieldValue)>) -> markers::Point {
    markers::Point { x: uint32_field(last_varint(r, 1)), y: uint32_field(last_varint(r, 2)) }
}

/// An optional point submessage at `tag`: `None` where it fails to decode,
/// else the point where the tag occurs.
pub open spec fn spec_point_field(r: Seq<(u32, FieldValue)>, tag: u32) -> Option<Option<markers::Point>> {
    let payloads = tag_payloads(r, tag);
    match merged_records(MessageKind::Point, payloads) {
        Some(pr) => Some(
            if payloads.len() > 0 {
                Some(point_of(pr))
            } else {
                None
            },
        ),
        None => None,
    }
}

/// An optional metadata submessage at `tag`: `None` where it fails to
/// decode, else the labels where the tag occurs.
pub open spec fn spec_metadata_field(r: Seq<(u32, FieldValue)>, tag: u32) -> Option<Option<MetadataView>> {
    let payloads = tag_payloads(r, tag);
    match merged_records(MessageKind::Metadata, payloads) {
        Some(mr) => match (spec_string_field(mr, 1), spec_string_field(mr, 2)) {
            (Some(label1), Some(label2)) => Some(
                if payloads.len() > 0 {
                    Some(MetadataView { label1, label2 })
                } else {
                    None
                },
            ),
            _ => None,
        },
        None => None,
    }
}

/// The point marker that `data` encodes: it must decode, and carry both
/// its coordinates and its metadata.
pub open spec fn spec_point_marker(data: Seq<u8>) -> Option<MarkerView> {
    match spec_records(MessageKind::PointMarker, data) {
        Some(r) => match (spec_point_field(r, 1), spec_metadata_field(r, 2)) {
            (Some(Some(coords)), Some(Some(metadata))) => Some(MarkerView::Point { coords, metadata }),
            _ => None,
        },
        None => None,
    }
}

/// The box marker that `data` encodes: it must decode, and carry its start,
/// its end and its metadata.
pub open spec fn spec_box_marker(data: Seq<u8>) -> Option<MarkerView> {
    match spec_records(MessageKind::BoxMarker, data) {
        Some(r) => match (spec_point_field(r, 1), spec_point_field(r, 2), spec_metadata_field(r, 3)) {
            (Some(Some(start)), Some(Some(end)), Some(Some(metadata))) => Some(
                MarkerView::Box { start, end, metadata },
            ),
            _ => None,
        },
        None => None,
    }
}

/// Decodes an optional point submessage; see `spec_point_field`.
fn decode_point_field(records: &Vec<Record>, tag: u32) -> (r: Option<Option<ZipPoint>>)
    ensures
        match r {
            Some(Some(p)) => spec_point_field(records_view(records@), tag) == Some(
                Some(markers::Point::from_spec(p)),
            ),
            Some(None) => spec_point_field(records_view(records@), tag) == Some(None::<markers::Point>),
            None => spec_point_field(records_view(records@), tag) is None,
        },
{
    let point_records = merge_submessage(MessageKind::Point, records, tag)?;
    if !has_payload(records, tag) {
        return Some(None);
    }
    let x = match find_last_varint(&point_records, 1) {
        Some(v) => v as u32,
        None => 0,
    };
    let y = match find_last_varint(&point_records, 2) {
        Some(v) => v as u32,
        None => 0,
    };
    Some(Some(ZipPoint { x, y }))
}

/// Decodes an optional metadata submessage; see `spec_metadata_field`.
fn decode_metadata_field(records: &Vec<Record>, tag: u32) -> (r: Option<Option<ZipMetadata>>)
    ensures
        match r {
            Some(Some(m)) => spec_metadata_field(records_view(records@), tag) == Some(Some(m@)),
            Some(None) => spec_metadata_field(records_view(records@), tag) == Some(None::<MetadataView>),
            None => spec_metadata_field(records_view(records@), tag) is None,
        },
{
    let metadata_records = merge_submessage(MessageKind::Metadata, records, tag)?;
    let label1 = find_string(&metadata_records, 1)?;
    let label2 = find_string(&metadata_records, 2)?;
    if !has_payload(records, tag) {
        return Some(None);
    }
    Some(Some(ZipMetadata { label1, label2 }))
}

impl TryFrom<ZipPointMarker> for Marker {
    type Error = &'static str;

    fn try_from(raw: ZipPointMarker) -> Result<Marker, &'static str> {
        let coords = match raw.coords {
            Some(c) => c,
            None => return Err("missing coords"),
        };
        let metadata = match raw.metadata {
            Some(m) => m,
            None => return Err("missing metadata"),
        };
        Ok(Marker::Point { coords: markers::Point::from(coords), metadata: markers::Metadata::from(metadata) })
    }
}

impl vstd::std_specs::convert::TryFromSpecImpl<ZipPointMarker> for Marker {
    open spec fn obeys_try_from_spec() -> bool {
        true
    }

    closed spec fn try_from_spec(raw: ZipPointMarker) -> Result<Marker, &'static str> {
        match (raw.coords, raw.metadata) {
            (Some(c), Some(m)) => Ok(
                Marker::Point {
                    coords: markers::Point::from_spec(c),
                    metadata: markers::Metadata::from_spec(m),
                },
            ),
            (None, _) => Err("missing coords"),
            (Some(_), None) => Err("missing metadata"),
        }
    }
}

impl TryFrom<ZipBoxMarker> for Marker {
    type Error = &'static str;

    fn try_from(raw: ZipBoxMarker) -> Result<Marker, &'static str> {
        let start = match raw.start {
            Some(p) => p,
            None => return Err("missing start"),
        };
        let end = match raw.end {
            Some(p) => p,
            None => return Err("missing end"),
        };
        let metadata = match raw.metadata {
            Some(m) => m,
            None => return Err("missing metadata"),
        };
        Ok(
            Marker::Box {
                start: markers::Point::from(start),
                end: markers::Point::from(end),
                metadata: markers::Metadata::from(metadata),
            },
        )
    }
}

impl vstd::std_specs::convert::TryFromSpecImpl<ZipBoxMarker> for Marker {
    open spec fn obeys_try_from_spec() -> bool {
        true
    }

    closed spec fn try_from_spec(raw: ZipBoxMarker) -> Result<Marker, &'static str> {
        match (raw.start, raw.end, raw.metadata) {
            (Some(s), Some(e), Some(m)) => Ok(
                Marker::Box {
                    start: markers::Point::from_spec(s),
                    end: markers::Point::from_spec(e),
                    metadata: markers::Metadata::from_spec(m),
                },
            ),
            (None, _, _) => Err("missing start"),
            (Some(_), None, _) => Err("missing end"),
            (Some(_), Some(_), None) => Err("missing metadata"),
        }
    }
}

/// Decodes a point marker file; see `spec_point_marker`.
fn decode_point_marker(data: &[u8]) -> (r: Option<Marker>)
    ensures
        match r {
            Some(m) => spec_point_marker(data@) == Some(m@),
            None => spec_point_marker(data@) is None,
        },
{
    let records = parse_records(MessageKind::PointMarker, data)?;
    let coords = decode_point_field(&records, 1)?;
    let metadata = decode_metadata_field(&records, 2)?;
    Marker::try_from(ZipPointMarker { coords, metadata }).ok()
}

/// Decodes a box marker file; see `spec_box_marker`.
fn decode_box_marker(data: &[u8]) -> (r: Option<Marker>)
    ensures
        match r {
            Some(m) => spec_box_marker(data@) == Some(m@),
            None => spec_box_marker(data@) is None,
        },
{
    let records = parse_records(MessageKind::BoxMarker, data)?;
    let start = decode_point_field(&records, 1)?;
    let end = decode_point_field(&records, 2)?;
    let metadata = decode_metadata_field(&records, 3)?;
    Marker::try_from(ZipBoxMarker { start, end, metadata }).ok()
}

/// The marker that the file at `path` holds, if there is one and it
/// decodes completely.
pub open spec fn spec_marker_file(files: Map<Seq<char>, Seq<u8>>, path: Seq<char>, is_box: bool) -> Option<MarkerView> {
    if files.contains_key(path) {
        if is_box {
            spec_box_marker(files[path])
        } else {
            spec_point_marker(files[path])
        }
    } else {
        None
    }
}

/// The marker as a list of zero or one.
pub open spec fn option_seq(m: Option<MarkerView>) -> Seq<MarkerView> {
    match m {
        Some(v) => seq![v],
        None => Seq::empty(),
    }
}

/// The standard markers, in order, that these files hold.
pub open spec fn spec_markers(files: Map<Seq<char>, Seq<u8>>) -> Seq<MarkerView> {
    option_seq(spec_marker_file(files, CENTERBOX@, true)) + option_seq(
        spec_marker_file(files, CENTERPOINT@, false),
    ) + option_seq(spec_marker_file(files, HOTPOINT@, false)) + option_seq(
        spec_marker_file(files, COLDPOINT@, false),
    )
}

/// The markers, mathematically.
pub open spec fn markers_view(markers: Seq<Marker>) -> Seq<MarkerView> {
    markers.map_values(|m: Marker| m@)
}

/// Takes a marker file out of the files and decodes it.
fn extract_marker(files: &mut Files, path: &str, is_box: bool) -> (r: Option<Marker>)
    ensures
        final(files)@ == old(files)@.remove(path@),
        match r {
            Some(m) => spec_marker_file(old(files)@, path@, is_box) == Some(m@),
            None => spec_marker_file(old(files)@, path@, is_box) is None,
        },
{
    let bytes = files.remove(path)?;
    if is_box {
        decode_box_marker(bytes.as_slice())
    } else {
        decode_point_marker(bytes.as_slice())
    }
}

/// Appends the marker, if any.
fn push_marker(markers: &mut Vec<Marker>, marker: Option<Marker>)
    ensures
        markers_view(final(markers)@) == markers_view(old(markers)@) + option_seq(
            match marker {
                Some(m) => Some(m@),
                None => None,
            },
        ),
{
    let ghost before = markers@;
    match marker {
        Some(m) => {
            markers.push(m);
            proof {
                assert(markers_view(markers@) =~= markers_view(before) + seq![m@]);
            }
        },
        None => {
            proof {
                assert(markers_view(markers@) =~= markers_view(before) + Seq::<MarkerView>::empty());
            }
        },
    }
}

/// Extract measurement markers embedded in the Fluke thermogram.
///
/// Currently only the standard markers are supported, e.g. centerbox,
/// centerpoint, hotpoint and coldpoint. To support custom measurements
/// more sample data is needed. A marker file that is absent, does not
/// decode or lacks a part yields no marker. The marker files are taken
/// out of the files.
pub fn extract_markers(files: &mut Files) -> (r: Vec<Marker>)
    ensures
        markers_view(r@) == spec_markers(old(files)@),
        final(files)@ == old(files)@.remove(CENTERBOX@).remove(CENTERPOINT@).remove(HOTPOINT@).remove(
            COLDPOINT@,
        ),
{
    proof {
        reveal_strlit("Markers/Standard/Centerbox.gpbenc");
        reveal_strlit("Markers/Standard/Centerpoint.gpbenc");
        reveal_strlit("Markers/Standard/Hotpoint.gpbenc");
        reveal_strlit("Markers/Standard/Coldpoint.gpbenc");
    }
    let mut markers: Vec<Marker> = Vec::with_capacity(4);
    proof {
        assert(markers_view(markers@) =~= Seq::<MarkerView>::empty());
    }
    let centerbox = extract_marker(files, CENTERBOX, true);
    push_marker(&mut markers, centerbox);
    let centerpoint = extract_marker(files, CENTERPOINT, false);
    push_marker(&mut markers, centerpoint);
    let hotpoint = extract_marker(files, HOTPOINT, false);
    push_marker(&mut markers, hotpoint);
    let coldpoint = extract_marker(files, COLDPOINT, false);
    push_marker(&mut markers, coldpoint);
    proof {
        assert(CENTERBOX@.len() != CENTERPOINT@.len());
        assert(CENTERBOX@[18] != HOTPOINT@[18] && CENTERPOINT@[18] != HOTPOINT@[18]);
        assert(CENTERBOX@[18] != COLDPOINT@[18] && CENTERPOINT@[18] != COLDPOINT@[18]);
        assert(HOTPOINT@[17] != COLDPOINT@[17]);
        assert(CENTERBOX@ != CENTERPOINT@);
        assert(CENTERBOX@ != HOTPOINT@ && CENTERPOINT@ != HOTPOINT@);
        assert(CENTERBOX@ != COLDPOINT@ && CENTERPOINT@ != COLDPOINT@ && HOTPOINT@ != COLDPOINT@);
    }
    markers
}

/// A point message as an encoder writes it: `x` at tag 1, `y` at tag 2.
pub open spec fn point_message(x: u32, y: u32) -> Seq<u8> {
    varint_record(1, x) + varint_record(2, y)
}

/// A metadata message as an encoder writes it: `label1` at tag 1, `label2`
/// at tag 2.
pub open spec fn metadata_message(label1: Seq<u8>, label2: Seq<u8>) -> Seq<u8> {
    bytes_record(1, label1) + bytes_record(2, label2)
}

/// A point marker message as an encoder writes it: the point at tag 1, the
/// metadata at tag 2.
pub open spec fn point_marker_message(coords: Seq<u8>, metadata: Seq<u8>) -> Seq<u8> {
    bytes_record(1, coords) + bytes_record(2, metadata)
}

/// A box marker message as an encoder writes it: the start at tag 1, the
/// end at tag 2, the metadata at tag 3.
pub open spec fn box_marker_message(start: Seq<u8>, end: Seq<u8>, metadata: Seq<u8>) -> Seq<u8> {
    bytes_record(1, start) + bytes_record(2, end) + bytes_record(3, metadata)
}

/// Labels short enough for their metadata message's length to be written:
/// together under 2^32 - 12 bytes.
pub open spec fn labels_fit(label1: Seq<u8>, label2: Seq<u8>) -> bool {
    label1.len() + label2.len() + 12 <= u32::MAX
}

/// The lengths of written point and metadata messages fit in 32 bits.
proof fn lemma_message_lengths(x: u32, y: u32, label1: Seq<u8>, label2: Seq<u8>)
    requires
        labels_fit(label1, label2),
    ensures
        point_message(x, y).len() <= 12,
        metadata_message(label1, label2).len() <= u32::MAX,
{
    lemma_varint_bytes_len_u32(x as nat);
    lemma_varint_bytes_len_u32(y as nat);
    lemma_varint_bytes_len_u32(label1.len());
    lemma_varint_bytes_len_u32(label2.len());
}

/// The records of a written point message: x, then y.
proof fn lemma_point_message_records(x: u32, y: u32)
    ensures
        merged_records(MessageKind::Point, seq![point_message(x, y)]) == Some(
            seq![(1u32, FieldValue::Varint(x as u64)), (2u32, FieldValue::Varint(y as u64))],
        ),
        point_of(seq![(1u32, FieldValue::Varint(x as u64)), (2u32, FieldValue::Varint(y as u64))])
            == (markers::Point { x, y }),
{
    let empty = Seq::<u8>::empty();
    lemma_records_varint_record(MessageKind::Point, 2, y, empty);
    assert(varint_record(2, y) + empty =~= varint_record(2, y));
    lemma_records_varint_record(MessageKind::Point, 1, x, varint_record(2, y));
    let r = seq![(1u32, FieldValue::Varint(x as u64)), (2u32, FieldValue::Varint(y as u64))];
    assert(seq![(1u32, FieldValue::Varint(x as u64))] + (seq![(2u32, FieldValue::Varint(y as u64))]
        + Seq::<(u32, FieldValue)>::empty()) =~= r);
    assert(merged_records(MessageKind::Point, seq![point_message(x, y)].drop_last()) == Some(
        Seq::<(u32, FieldValue)>::empty(),
    ));
    assert(Seq::<(u32, FieldValue)>::empty() + r =~= r);
    assert(r.drop_last() =~= seq![(1u32, FieldValue::Varint(x as u64))]);
    assert(last_varint(r, 1) == Some(x as u64)) by {
        reveal_with_fuel(last_varint, 2);
    }
    assert(last_varint(r, 2) == Some(y as u64));
}

/// The records of a written metadata message: label1, then label2.
proof fn lemma_metadata_message_records(label1: Seq<u8>, label2: Seq<u8>)
    requires
        labels_fit(label1, label2),
    ensures
        merged_records(MessageKind::Metadata, seq![metadata_message(label1, label2)]) == Some(
            seq![(1u32, FieldValue::Bytes(label1)), (2u32, FieldValue::Bytes(label2))],
        ),
{
    let empty = Seq::<u8>::empty();
    lemma_records_bytes_record(MessageKind::Metadata, 2, label2, empty);
    assert(bytes_record(2, label2) + empty =~= bytes_record(2, label2));
    lemma_records_bytes_record(MessageKind::Metadata, 1, label1, bytes_record(2, label2));
    let r = seq![(1u32, FieldValue::Bytes(label1)), (2u32, FieldValue::Bytes(label2))];
    assert(seq![(1u32, FieldValue::Bytes(label1))] + (seq![(2u32, FieldValue::Bytes(label2))]
        + Seq::<(u32, FieldValue)>::empty()) =~= r);
    assert(merged_records(MessageKind::Metadata, seq![metadata_message(label1, label2)].drop_last())
        == Some(Seq::<(u32, FieldValue)>::empty()));
    assert(Seq::<(u32, FieldValue)>::empty() + r =~= r);
}

/// The labels of a written metadata message, at `tag` of a message whose
/// records hold it there once.
proof fn lemma_metadata_field(r: Seq<(u32, FieldValue)>, tag: u32, label1: Seq<u8>, label2: Seq<u8>)
    requires
        labels_fit(label1, label2),
        vstd::utf8::valid_utf8(label1),
        vstd::utf8::valid_utf8(label2),
        tag_payloads(r, tag) == seq![metadata_message(label1, label2)],
    ensures
        spec_metadata_field(r, tag) == Some(
            Some(
                MetadataView {
                    label1: vstd::utf8::decode_utf8(label1),
                    label2: vstd::utf8::decode_utf8(label2),
                },
            ),
        ),
{
    lemma_metadata_message_records(label1, label2);
    let mr = seq![(1u32, FieldValue::Bytes(label1)), (2u32, FieldValue::Bytes(label2))];
    assert(mr.drop_last() =~= seq![(1u32, FieldValue::Bytes(label1))]);
    assert(tag_payloads(mr, 1) =~= seq![label1]) by {
        reveal_with_fuel(tag_payloads, 3);
        assert(mr.drop_last().drop_last() =~= Seq::<(u32, FieldValue)>::empty());
    }
    assert(tag_payloads(mr, 2) =~= seq![label2]) by {
        reveal_with_fuel(tag_payloads, 3);
        assert(mr.drop_last().drop_last() =~= Seq::<(u32, FieldValue)>::empty());
    }
    assert(spec_string_field(mr, 1) == Some(vstd::utf8::decode_utf8(label1)));
    assert(spec_string_field(mr, 2) == Some(vstd::utf8::decode_utf8(label2)));
}

/// The point of a written point message, at `tag` of a message whose
/// records hold it there once.
proof fn lemma_point_field(r: Seq<(u32, FieldValue)>, tag: u32, x: u32, y: u32)
    requires
        tag_payloads(r, tag) == seq![point_message(x, y)],
    ensures
        spec_point_field(r, tag) == Some(Some(markers::Point { x, y })),
{
    lemma_point_message_records(x, y);
}

/// A box marker written with its start (`x1`, `y1`) at tag 1, its end
/// (`x2`, `y2`) at tag 2 and its labels at tag 3 decodes to that box: the
/// start is the point at tag 1, the end the point at tag 2, and label1 and
/// label2 are the metadata's strings at its tags 1 and 2.
pub proof fn lemma_box_marker_decodes(
    x1: u32,
    y1: u32,
    x2: u32,
    y2: u32,
    label1: Seq<u8>,
    label2: Seq<u8>,
)
    requires
        labels_fit(label1, label2),
        vstd::utf8::valid_utf8(label1),
        vstd::utf8::valid_utf8(label2),
    ensures
        spec_box_marker(
            box_marker_message(
                point_message(x1, y1),
                point_message(x2, y2),
                metadata_message(label1, label2),
            ),
        ) == Some(
            MarkerView::Box {
                start: markers::Point { x: x1, y: y1 },
                end: markers::Point { x: x2, y: y2 },
                metadata: MetadataView {
                    label1: vstd::utf8::decode_utf8(label1),
                    label2: vstd::utf8::decode_utf8(label2),
                },
            },
        ),
{
    let a = point_message(x1, y1);
    let b = point_message(x2, y2);
    let c = metadata_message(label1, label2);
    lemma_message_lengths(x1, y1, label1, label2);
    lemma_message_lengths(x2, y2, label1, label2);
    let empty = Seq::<u8>::empty();
    lemma_records_bytes_record(MessageKind::BoxMarker, 3, c, empty);
    assert(bytes_record(3, c) + empty =~= bytes_record(3, c));
    lemma_records_bytes_record(MessageKind::BoxMarker, 2, b, bytes_record(3, c));
    lemma_records_bytes_record(MessageKind::BoxMarker, 1, a, bytes_record(2, b) + bytes_record(3, c));
    assert(box_marker_message(a, b, c) =~= bytes_record(1, a) + (bytes_record(2, b) + bytes_record(
        3,
        c,
    )));
    let r = seq![(1u32, FieldValue::Bytes(a)), (2u32, FieldValue::Bytes(b)), (3u32, FieldValue::Bytes(c))];
    assert(seq![(1u32, FieldValue::Bytes(a))] + (seq![(2u32, FieldValue::Bytes(b))] + (seq![
        (3u32, FieldValue::Bytes(c)),
    ] + Seq::<(u32, FieldValue)>::empty())) =~= r);
    assert(spec_records(MessageKind::BoxMarker, box_marker_message(a, b, c)) == Some(r));
    assert(r.drop_last() =~= seq![(1u32, FieldValue::Bytes(a)), (2u32, FieldValue::Bytes(b))]);
    assert(r.drop_last().drop_last() =~= seq![(1u32, FieldValue::Bytes(a))]);
    assert(r.drop_last().drop_last().drop_last() =~= Seq::<(u32, FieldValue)>::empty());
    assert(tag_payloads(r, 1) =~= seq![a]) by {
        reveal_with_fuel(tag_payloads, 4);
    }
    assert(tag_payloads(r, 2) =~= seq![b]) by {
        reveal_with_fuel(tag_payloads, 4);
    }
    assert(tag_payloads(r, 3) =~= seq![c]) by {
        reveal_with_fuel(tag_payloads, 4);
    }
    lemma_point_field(r, 1, x1, y1);
    lemma_point_field(r, 2, x2, y2);
    lemma_metadata_field(r, 3, label1, label2);
}

/// A point marker written with its point (`x`, `y`) at tag 1 and its labels
/// at tag 2 decodes to that point marker: label1 and label2 are the
/// metadata's strings at its tags 1 and 2.
pub proof fn lemma_point_marker_decodes(x: u32, y: u32, label1: Seq<u8>, label2: Seq<u8>)
    requires
        labels_fit(label1, label2),
        vstd::utf8::valid_utf8(label1),
        vstd::utf8::valid_utf8(label2),
    ensures
        spec_point_marker(point_marker_message(point_message(x, y), metadata_message(label1, label2)))
            == Some(
            MarkerView::Point {
                coords: markers::Point { x, y },
                metadata: MetadataView {
                    label1: vstd::utf8::decode_utf8(label1),
                    label2: vstd::utf8::decode_utf8(label2),
                },
            },
        ),
{
    let a = point_message(x, y);
    let c = metadata_message(label1, label2);
    lemma_message_lengths(x, y, label1, label2);
    let empty = Seq::<u8>::empty();
    lemma_records_bytes_record(MessageKind::PointMarker, 2, c, empty);
    assert(bytes_record(2, c) + empty =~= bytes_record(2, c));
    lemma_records_bytes_record(MessageKind::PointMarker, 1, a, bytes_record(2, c));
    let r = seq![(1u32, FieldValue::Bytes(a)), (2u32, FieldValue::Bytes(c))];
    assert(seq![(1u32, FieldValue::Bytes(a))] + (seq![(2u32, FieldValue::Bytes(c))]
        + Seq::<(u32, FieldValue)>::empty()) =~= r);
    assert(spec_records(MessageKind::PointMarker, point_marker_message(a, c)) == Some(r));
    assert(r.drop_last() =~= seq![(1u32, FieldValue::Bytes(a))]);
    assert(r.drop_last().drop_last() =~= Seq::<(u32, FieldValue)>::empty());
    assert(tag_payloads(r, 1) =~= seq![a]) by {
        reveal_with_fuel(tag_payloads, 3);
    }
    assert(tag_payloads(r, 2) =~= seq![c]) by {
        reveal_with_fuel(tag_payloads, 3);
    }
    lemma_point_field(r, 1, x, y);
    lemma_metadata_field(r, 2, label1, label2);
}

/// A centerpoint, hotpoint or coldpoint file holding a written point
/// marker puts that point marker among the extracted markers.
pub proof fn lemma_point_marker_file_extracted(
    files: Map<Seq<char>, Seq<u8>>,
    path: Seq<char>,
    x: u32,
    y: u32,
    label1: Seq<u8>,
    label2: Seq<u8>,
)
    requires
        path == CENTERPOINT@ || path == HOTPOINT@ || path == COLDPOINT@,
        files.contains_key(path),
        files[path] == point_marker_message(point_message(x, y), metadata_message(label1, label2)),
        labels_fit(label1, label2),
        vstd::utf8::valid_utf8(label1),
        vstd::utf8::valid_utf8(label2),
    ensures
        spec_markers(files).contains(
            MarkerView::Point {
                coords: markers::Point { x, y },
                metadata: MetadataView {
                    label1: vstd::utf8::decode_utf8(label1),
                    label2: vstd::utf8::decode_utf8(label2),
                },
            },
        ),
{
    lemma_point_marker_decodes(x, y, label1, label2);
    let m = MarkerView::Point {
        coords: markers::Point { x, y },
        metadata: MetadataView {
            label1: vstd::utf8::decode_utf8(label1),
            label2: vstd::utf8::decode_utf8(label2),
        },
    };
    let all = spec_markers(files);
    let (box_path, center_path, hot_path, cold_path) = (CENTERBOX@, CENTERPOINT@, HOTPOINT@, COLDPOINT@);
    let cb = option_seq(spec_marker_file(files, box_path, true));
    let cp = option_seq(spec_marker_file(files, center_path, false));
    let hp = option_seq(spec_marker_file(files, hot_path, false));
    let cold = option_seq(spec_marker_file(files, cold_path, false));
    assert(all == cb + cp + hp + cold);
    if path == CENTERPOINT@ {
        assert(cp == seq![m]);
        assert(all[cb.len() as int] == m);
    } else if path == HOTPOINT@ {
        assert(hp == seq![m]);
        assert(all[(cb.len() + cp.len()) as int] == m);
    } else {
        assert(cold == seq![m]);
        assert(all[(cb.len() + cp.len() + hp.len()) as int] == m);
    }
}

/// A centerbox file holding a written box marker makes that box the first
/// of the extracted markers.
pub proof fn lemma_box_marker_file_extracted_first(
    files: Map<Seq<char>, Seq<u8>>,
    x1: u32,
    y1: u32,
    x2: u32,
    y2: u32,
    label1: Seq<u8>,
    label2: Seq<u8>,
)
    requires
        files.contains_key(CENTERBOX@),
        files[CENTERBOX@] == box_marker_message(
            point_message(x1, y1),
            point_message(x2, y2),
            metadata_message(label1, label2),
        ),
        labels_fit(label1, label2),
        vstd::utf8::valid_utf8(label1),
        vstd::utf8::valid_utf8(label2),
    ensures
        spec_markers(files).len() >= 1,
        spec_markers(files)[0] == (MarkerView::Box {
            start: markers::Point { x: x1, y: y1 },
            end: markers::Point { x: x2, y: y2 },
            metadata: MetadataView {
                label1: vstd::utf8::decode_utf8(label1),
                label2: vstd::utf8::decode_utf8(label2),
            },
        }),
{
    lemma_box_marker_decodes(x1, y1, x2, y2, label1, label2);
}

} // verus!
