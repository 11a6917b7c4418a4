//! Reads `Images/Main/IR.data`: the raw sensor counts of "classic" models
//! (Ti400, Ti401P, ...), little-endian u16s: a header of `width` words,
//! then the `width × height` frame.

use vstd::prelude::*;
use zerocopy::FromBytes;
use zerocopy::byteorder::little_endian::U16;

use crate::parsing::zip_format::files::Files;
use crate::parsing::zip_format::format::cal_temp_data_rex::lemma_u16_product;
use crate::parsing::zip_format::format::ir_image_info::{IrImageInfo, half_as_u16};

verus! {

pub const IR_DATA_FILE: &'static str = "Images/Main/IR.data";

/// The bytes of `s` read as little-endian u16s, two bytes each.
pub open spec fn le_words(s: Seq<u8>) -> Seq<u16> {
    Seq::new(s.len() / 2, |i: int| (s[2 * i] as int + 256 * s[2 * i + 1] as int) as u16)
}

/// Reinterprets `raw` as little-endian u16s with `zerocopy`'s
/// `<[U16]>::ref_from_bytes`, then takes each one's value.
///
/// Claims: it succeeds exactly on an even number of bytes (`U16` has
/// alignment 1), and the values are the bytes paired up little-endian.
#[verifier::external_body]
fn le_u16_words(raw: &[u8]) -> (r: Option<Vec<u16>>)
    ensures
        r is Some <==> raw@.len() % 2 == 0,
        r matches Some(words) ==> words@ == le_words(raw@),
{
    let words = <[U16]>::ref_from_bytes(raw).ok()?;
    Some(words.iter().map(|w| w.get()).collect())
}

#[derive(Clone, Debug, PartialEq)]
pub struct IrData {
    /// The raw bytes in the file. You probably want `as_u16`.
    pub raw: Vec<u8>,
    pub width: u16,
    pub height: u16,
}

/// The frame of IR data: the `width × height` words after the header row.
pub open spec fn spec_body(raw: Seq<u8>, width: u16, height: u16) -> Seq<u16> {
    le_words(raw).subrange(width as int, width + width * height)
}

impl IrData {
    /// Returns the raw data as the little endian u16s it actually is.
    ///
    /// Includes header and body, which are also available through convenience
    /// functions.
    pub fn as_u16(&self) -> (r: Vec<u16>)
        requires
            self.raw@.len() % 2 == 0,
        ensures
            r@ == le_words(self.raw@),
    {
        match le_u16_words(self.raw.as_slice()) {
            Some(words) => words,
            None => {
                proof {
                    assert(false);
                }
                Vec::new()
            },
        }
    }

    /// The header row: the first `width` words.
    pub fn header(&self) -> (r: Vec<u16>)
        requires
            self.raw@.len() % 2 == 0,
            self.width <= self.raw@.len() / 2,
        ensures
            r@ == le_words(self.raw@).subrange(0, self.width as int),
    {
        let words = self.as_u16();
        vstd::slice::slice_to_vec(vstd::slice::slice_subrange(words.as_slice(), 0, self.width as usize))
    }

    /// The frame: the `width × height` words after the header row.
    pub fn body(&self) -> (r: Vec<u16>)
        requires
            self.raw@.len() % 2 == 0,
            self.width + self.width * self.height <= self.raw@.len() / 2,
        ensures
            r@ == spec_body(self.raw@, self.width, self.height),
    {
        let words = self.as_u16();
        proof {
            lemma_u16_product(self.width, self.height);
        }
        let header = self.width as usize;
        let size = (self.width as usize) * (self.height as usize);
        let n = words.len();
        proof {
            assert(header + size <= n);
        }
        vstd::slice::slice_to_vec(vstd::slice::slice_subrange(words.as_slice(), header, header + size))
    }

    /// The raw count of the pixel at `(x, y)`, or `None` if out of bounds.
    /// `kelvin_at` converts it.
    pub fn count_at(&self, x: u16, y: u16) -> (r: Option<u16>)
        requires
            x < self.width && y < self.height ==> 2 * (self.width + self.width * self.height)
                <= self.raw@.len(),
        ensures
            r == if x < self.width && y < self.height {
                Some(le_words(self.raw@)[self.width + y * self.width + x])
            } else {
                None
            },
    {
        if x >= self.width || y >= self.height {
            return None;
        }
        proof {
            lemma_u16_product(self.width, self.height);
            lemma_u16_product(y, self.width);
            assert(y * self.width + x < self.width * self.height) by (nonlinear_arith)
                requires
                    x < self.width,
                    y < self.height,
            ;
        }
        let word = (self.width as u64) + (y as u64) * (self.width as u64) + (x as u64);
        let len = self.raw.len();
        let at = (2 * word) as usize;
        proof {
            assert(at + 1 < len);
        }
        let low = self.raw[at] as u16;
        let high = self.raw[at + 1] as u16;
        Some(low + 256 * high)
    }
}

/// The count that `count_at` reads is the one at that position of the
/// frame that `body` gives.
pub proof fn lemma_count_at_in_body(raw: Seq<u8>, width: u16, height: u16, x: u16, y: u16)
    requires
        x < width,
        y < height,
        2 * (width + width * height) <= raw.len(),
    ensures
        y * width + x < spec_body(raw, width, height).len(),
        spec_body(raw, width, height)[y * width + x] == le_words(raw)[width + y * width + x],
{
    assert(y * width + x < width * height) by (nonlinear_arith)
        requires
            x < width,
            y < height,
    ;
}

/// Whether width × height fits IR.data's layout: a header of `width` u16s
/// followed by a `width * height` u16 payload, and nothing else.
pub open spec fn spec_fits(width: u16, height: u16, ir_data_len: nat) -> bool {
    width > 0 && height > 0 && (width + width * height) * 2 == ir_data_len
}

/// Checks dimension candidates against IR.data's layout; see `spec_fits`.
pub fn dimensions_fit_ir_data(width: u16, height: u16, ir_data_len: usize) -> (r: bool)
    ensures
        r == spec_fits(width, height, ir_data_len as nat),
{
    proof {
        lemma_u16_product(width, height);
    }
    let header = width as u64;
    let size = (width as u64) * (height as u64);
    width > 0 && height > 0 && (header + size) * 2 == ir_data_len as u64
}

/// The u32 stored little-endian at `offset` of `data`, if the data reaches
/// that far.
pub open spec fn header_field(data: Seq<u8>, offset: int) -> Option<int> {
    if offset + 4 <= data.len() {
        Some(
            data[offset] as int + 256 * data[offset + 1] as int + 65536 * data[offset + 2] as int
                + 16777216 * data[offset + 3] as int,
        )
    } else {
        None
    }
}

/// The dimensions IR.data's header holds: width - 1 and height - 1 as u32
/// LE at byte offsets 182 and 186, where both plus one fit in 16 bits.
pub open spec fn spec_header_dimensions(data: Seq<u8>) -> Option<(u16, u16)> {
    match (header_field(data, 182), header_field(data, 186)) {
        (Some(w), Some(h)) => if w + 1 <= u16::MAX && h + 1 <= u16::MAX {
            Some(((w + 1) as u16, (h + 1) as u16))
        } else {
            None
        },
        _ => None,
    }
}

/// Reads the u32 LE field at `offset`, where the data reaches that far.
fn read_header_field(data: &[u8], offset: usize) -> (r: Option<u32>)
    requires
        offset <= 1000,
    ensures
        match r {
            Some(v) => header_field(data@, offset as int) == Some(v as int),
            None => header_field(data@, offset as int) is None,
        },
{
    if data.len() < offset + 4 {
        return None;
    }
    let b0 = data[offset] as u32;
    let b1 = data[offset + 1] as u32;
    let b2 = data[offset + 2] as u32;
    let b3 = data[offset + 3] as u32;
    Some(b0 + 256 * b1 + 65536 * b2 + 16777216 * b3)
}

/// Reads the IR frame dimensions from IR.data's header.
///
/// These hardcoded byte offsets were seen in Ti400 samples, but other
/// models probably have their own, so this will need to be augmented
/// in time.
///
/// Ti400: u32 LE at 182 and 186 holding width - 1 and height - 1. A field
/// whose successor does not fit in 16 bits gives no dimensions.
pub fn extract_dimensions_from_ir_data_header(ir_data: &[u8]) -> (r: Option<(u16, u16)>)
    ensures
        r == spec_header_dimensions(ir_data@),
{
    let width = read_header_field(ir_data, 182)?;
    let height = read_header_field(ir_data, 186)?;
    if width >= u16::MAX as u32 || height >= u16::MAX as u32 {
        return None;
    }
    Some(((width + 1) as u16, (height + 1) as u16))
}

/// The dimensions `IRImageInfo.gpbenc` stores for IR.data, without its
/// header row.
pub open spec fn spec_info_dimensions(info: IrImageInfo) -> Option<(u16, u16)> {
    match (half_as_u16(info.width), half_as_u16(info.height)) {
        (Some(w), Some(h)) => if h >= 1 {
            Some((w, (h - 1) as u16))
        } else {
            None
        },
        _ => None,
    }
}

/// The first candidate of the two that fits IR.data of this length.
pub open spec fn spec_ir_dimensions(ir_data: Seq<u8>, info: IrImageInfo) -> Option<(u16, u16)> {
    match spec_info_dimensions(info) {
        Some((w, h)) if spec_fits(w, h, ir_data.len()) => Some((w, h)),
        _ => match spec_header_dimensions(ir_data) {
            Some((w, h)) if spec_fits(w, h, ir_data.len()) => Some((w, h)),
            _ => None,
        },
    }
}

/// Extracts the IR frame dimensions, trying sources in decreasing order of
/// authority. Candidates are only accepted if they satisfy IR.data's length
/// equation (see `dimensions_fit_ir_data`).
///
/// 1. `IRImageInfo.gpbenc`'s stored dimensions (see
///    `IrImageInfo::stored_thermal_dimensions`), whose height includes
///    IR.data's one header row, subtracted here.
/// 2. `IR.data`'s own header: u32 LE fields at byte offsets 182 (width - 1)
///    and 186 (height - 1). Verified on Ti400 samples only.
pub fn extract_ir_dimensions(files: &Files, ir_image_info: &IrImageInfo) -> (r: Option<(u16, u16)>)
    ensures
        r == if files@.contains_key(IR_DATA_FILE@) {
            spec_ir_dimensions(files@[IR_DATA_FILE@], *ir_image_info)
        } else {
            None
        },
        r matches Some((width, height)) ==> spec_fits(width, height, files@[IR_DATA_FILE@].len()),
{
    let ir_data = files.get(IR_DATA_FILE)?;
    let from_info = match ir_image_info.stored_thermal_dimensions() {
        Some((w, h)) => if h >= 1 {
            Some((w, h - 1))
        } else {
            None
        },
        None => None,
    };
    if let Some((w, h)) = from_info {
        if dimensions_fit_ir_data(w, h, ir_data.len()) {
            return Some((w, h));
        }
    }
    match extract_dimensions_from_ir_data_header(ir_data.as_slice()) {
        Some((w, h)) => if dimensions_fit_ir_data(w, h, ir_data.len()) {
            Some((w, h))
        } else {
            None
        },
        None => None,
    }
}

/// IR data of this many bytes holds a `width` header and a
/// `width × height` frame of u16s, and nothing else.
pub open spec fn spec_ir_data_fits(width: u16, height: u16, len: nat) -> bool {
    len == 2 * (width + width * height)
}

/// Extracts the infrared data from the files.
///
/// The frame dimensions come from `IRImageInfo.gpbenc` (see
/// `extract_ir_dimensions`), since `IR.data` itself has no reliable header
/// fields for them. They are verified here against the file's length:
/// a header of `width` u16s followed by a `width * height` u16 payload,
/// and nothing else, so that the data always splits into whole u16s.
///
/// Takes the IR.data file out of the map, so that its bytes move into the
/// result without a copy.
///
/// # Arguments
/// - `files` - The files in which it expects to find `IR_DATA_FILE`.
/// - `width` - The IR frame width from the file's metadata.
/// - `height` - The IR frame height from the file's metadata.
pub fn extract_ir_data(files: &mut Files, width: u16, height: u16) -> (r: Option<IrData>)
    ensures
        final(files)@ == old(files)@.remove(IR_DATA_FILE@),
        match r {
            Some(ir_data) => old(files)@.contains_key(IR_DATA_FILE@) && ir_data.raw@ == old(
                files,
            )@[IR_DATA_FILE@] && ir_data.width == width && ir_data.height == height
                && spec_ir_data_fits(width, height, ir_data.raw@.len()),
            None => !old(files)@.contains_key(IR_DATA_FILE@) || !spec_ir_data_fits(
                width,
                height,
                old(files)@[IR_DATA_FILE@].len(),
            ),
        },
{
    let raw = files.remove(IR_DATA_FILE)?;
    proof {
        lemma_u16_product(width, height);
    }
    let header = width as u64;
    let size = (width as u64) * (height as u64);
    if raw.len() % 2 != 0 || header + size != (raw.len() / 2) as u64 {
        return None;
    }
    Some(IrData { raw, width, height })
}

} // verus!
