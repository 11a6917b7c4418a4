//! Measurement markers: points and boxes the camera stores with a
//! thermogram, with their labels.

use vstd::prelude::*;

verus! {

#[derive(Clone, Debug, PartialEq)]
pub enum Marker {
    Point { coords: Point, metadata: Metadata },
    Box { start: Point, end: Point, metadata: Metadata },
}

/// An (x, y) position in any marker
#[derive(Clone, Copy, Debug, PartialEq, Eq, Structural)]
pub struct Point {
    pub x: u32,
    pub y: u32,
}

/// Marker metadata
///
/// So far it is unclear what which label exactly means.
#[derive(Debug, PartialEq)]
pub struct Metadata {
    pub label1: String,
    pub label2: String,
}

/// `Metadata`, mathematically.
pub struct MetadataView {
    pub label1: Seq<char>,
    pub label2: Seq<char>,
}

/// `Marker`, mathematically.
pub enum MarkerView {
    Point { coords: Point, metadata: MetadataView },
    Box { start: Point, end: Point, metadata: MetadataView },
}

impl View for Metadata {
    type V = MetadataView;

    open spec fn view(&self) -> MetadataView {
        MetadataView { label1: self.label1@, label2: self.label2@ }
    }
}

impl View for Marker {
    type V = MarkerView;

    open spec fn view(&self) -> MarkerView {
        match self {
            Marker::Point { coords, metadata } => MarkerView::Point { coords: *coords, metadata: metadata@ },
            Marker::Box { start, end, metadata } => MarkerView::Box {
                start: *start,
                end: *end,
                metadata: metadata@,
            },
        }
    }
}

impl Clone for Metadata {
    /// A copy of both labels.
    fn clone(&self) -> (r: Metadata)
        ensures
            r@ == self@,
    {
        Metadata { label1: self.label1.clone(), label2: self.label2.clone() }
    }
}

/// `a` halved and clamped to `0..limit` (to 0 where `limit` is 0).
pub open spec fn halve_into(a: u32, limit: u16) -> u32 {
    let clamp = if limit == 0 {
        0
    } else {
        limit - 1
    };
    if a / 2 <= clamp {
        a / 2
    } else {
        clamp as u32
    }
}

/// A point moved into thermal data space; see `Marker::to_thermal_space`.
pub open spec fn point_to_thermal_space(p: Point, width: u16, height: u16) -> Point {
    Point { x: halve_into(p.x, width), y: halve_into(p.y, height) }
}

/// A marker moved into thermal data space; see `Marker::to_thermal_space`.
pub open spec fn marker_to_thermal_space(m: MarkerView, width: u16, height: u16) -> MarkerView {
    match m {
        MarkerView::Point { coords, metadata } => MarkerView::Point {
            coords: point_to_thermal_space(coords, width, height),
            metadata,
        },
        MarkerView::Box { start, end, metadata } => MarkerView::Box {
            start: point_to_thermal_space(start, width, height),
            end: point_to_thermal_space(end, width, height),
            metadata,
        },
    }
}

/// The point indexes a width × height frame.
pub open spec fn point_in_frame(p: Point, width: u16, height: u16) -> bool {
    p.x < width && p.y < height
}

/// Every point of the marker indexes a width × height frame.
pub open spec fn marker_in_frame(m: MarkerView, width: u16, height: u16) -> bool {
    match m {
        MarkerView::Point { coords, .. } => point_in_frame(coords, width, height),
        MarkerView::Box { start, end, .. } => point_in_frame(start, width, height) && point_in_frame(
            end,
            width,
            height,
        ),
    }
}

impl Marker {
    /// This marker with its coordinates converted to index the thermal
    /// data directly.
    ///
    /// As stored in the file, marker coordinates are *not* thermal data
    /// positions: they are in `IRImageInfo`'s width/height space, which on
    /// all samples seen is exactly twice the thermal data size (see
    /// `IrImageInfo::stored_thermal_dimensions`). Halved coordinates are
    /// clamped to the thermal dimensions so no out-of-bounds positions are
    /// produced.
    pub fn to_thermal_space(&self, width: u16, height: u16) -> (r: Marker)
        ensures
            r@ == marker_to_thermal_space(self@, width, height),
            width > 0 && height > 0 ==> marker_in_frame(r@, width, height),
    {
        match self {
            Marker::Point { coords, metadata } => Marker::Point {
                coords: coords.to_thermal_space(width, height),
                metadata: metadata.clone(),
            },
            Marker::Box { start, end, metadata } => Marker::Box {
                start: start.to_thermal_space(width, height),
                end: end.to_thermal_space(width, height),
                metadata: metadata.clone(),
            },
        }
    }
}

impl Point {
    /// Halves the coordinates and clamps them to the given dimensions.
    /// See `Marker::to_thermal_space`.
    fn to_thermal_space(self, width: u16, height: u16) -> (r: Point)
        ensures
            r == point_to_thermal_space(self, width, height),
    {
        let max_x = if width == 0 { 0 } else { width as u32 - 1 };
        let max_y = if height == 0 { 0 } else { height as u32 - 1 };
        let x = if self.x / 2 <= max_x { self.x / 2 } else { max_x };
        let y = if self.y / 2 <= max_y { self.y / 2 } else { max_y };
        Point { x, y }
    }
}

/// `after` is `before` halved and brought into `0..limit`: never more than
/// half of `before`, equal to it unless that falls outside, and then the
/// last position (0 where `limit` is 0).
pub open spec fn halved_into_frame(before: u32, after: u32, limit: u16) -> bool {
    &&& after <= before / 2
    &&& if limit == 0 {
        after == 0
    } else {
        after < limit && (after == before / 2 || after == limit - 1)
    }
}

/// Converting a marker to thermal space keeps its kind and its labels and
/// converts every point coordinate by coordinate: each x is its own x
/// halved into the width, each y its own y halved into the height.
pub proof fn lemma_to_thermal_space_per_coordinate(m: MarkerView, width: u16, height: u16)
    ensures
        match (m, marker_to_thermal_space(m, width, height)) {
            (
                MarkerView::Point { coords, metadata },
                MarkerView::Point { coords: converted, metadata: kept },
            ) => kept == metadata && halved_into_frame(coords.x, converted.x, width) && halved_into_frame(
                coords.y,
                converted.y,
                height,
            ),
            (
                MarkerView::Box { start, end, metadata },
                MarkerView::Box { start: new_start, end: new_end, metadata: kept },
            ) => kept == metadata && halved_into_frame(start.x, new_start.x, width) && halved_into_frame(
                start.y,
                new_start.y,
                height,
            ) && halved_into_frame(end.x, new_end.x, width) && halved_into_frame(
                end.y,
                new_end.y,
                height,
            ),
            _ => false,
        },
{
}

} // verus!
