//! Decodes a ZIP-based is2 thermogram: unzips it, then decodes each of
//! the files that make up the thermogram.

use std::io::{Cursor, Read};

use vstd::prelude::*;
use zip::ZipArchive;

use crate::markers::{Marker, MarkerView};
use crate::parsing::zip_format::files::Files;
use crate::parsing::zip_format::format::cal_temp_data_rex::{CAL_TEMP_DATA_REX_FILE, Rex, extract_rex, spec_rex};
use crate::parsing::zip_format::format::calibration_data::{
    CALIBRATION_DATA_FILE, CalibrationData, CalibrationDataView, extract_calibration_data,
    spec_calibration_data,
};
use crate::parsing::zip_format::format::camera_info::{
    CAMERA_INFO_FILE, CameraInfo, CameraInfoView, extract_camera_info, spec_camera_info,
};
use crate::parsing::zip_format::format::ir_data::{
    IR_DATA_FILE, IrData, extract_ir_data, extract_ir_dimensions, spec_ir_data_fits,
    spec_ir_dimensions,
};
use crate::parsing::zip_format::format::ir_image_info::{
    IR_IMAGE_INFO_FILE, IrImageInfo, extract_ir_image_info, spec_ir_image_info,
};
use crate::parsing::zip_format::format::markers::{
    CENTERBOX, CENTERPOINT, COLDPOINT, HOTPOINT, extract_markers, markers_view, spec_markers,
};
use crate::parsing::zip_format::format::visuals::{extract_visuals, visual_paths};

verus! {

/// `zip::ZipArchive`, opaque: only carried between the calls below.
#[verifier::external_type_specification]
#[verifier::external_body]
#[verifier::reject_recursive_types(R)]
pub struct ExZipArchive<R>(zip::ZipArchive<R>);

/// `std::io::Cursor`, opaque: the reader an archive is opened on.
#[verifier::external_type_specification]
#[verifier::external_body]
#[verifier::reject_recursive_types(T)]
pub struct ExCursor<T>(std::io::Cursor<T>);

/// Whether `zip::ZipArchive::new` reads these bytes as an archive.
pub uninterp spec fn zip_opens(bytes: Seq<u8>) -> bool;

/// How many entries `zip::ZipArchive::len` counts in the archive these
/// bytes hold.
pub uninterp spec fn zip_file_count(bytes: Seq<u8>) -> nat;

/// The name of entry `index` of the archive these bytes hold, and whether
/// it is a file (`ZipFile::name`, `ZipFile::is_file`), where
/// `ZipArchive::by_index` and the name can be read.
pub uninterp spec fn zip_entry(bytes: Seq<u8>, index: nat) -> Option<(Seq<char>, bool)>;

/// The decompressed content of entry `index` of the archive these bytes
/// hold (`ZipArchive::by_index`, then `Read::read_to_end`), where it can
/// be read and checks out.
pub uninterp spec fn zip_entry_content(bytes: Seq<u8>, index: nat) -> Option<Seq<u8>>;

/// The bytes that an archive was opened on.
pub uninterp spec fn zip_archive_bytes(archive: ZipArchive<Cursor<Vec<u8>>>) -> Seq<u8>;

/// Opens the archive in `bytes` with `zip::ZipArchive::new`, on a copy of
/// them.
///
/// Claims: it succeeds exactly where `zip_opens` holds, and the archive is
/// the one those bytes hold. What `zip` accepts is left to the name.
#[verifier::external_body]
fn zip_open(bytes: &[u8]) -> (r: Option<ZipArchive<Cursor<Vec<u8>>>>)
    ensures
        r is Some <==> zip_opens(bytes@),
        r matches Some(archive) ==> zip_archive_bytes(archive) == bytes@,
{
    ZipArchive::new(Cursor::new(bytes.to_vec())).ok()
}

/// The number of entries, with `zip::ZipArchive::len`.
///
/// Claims: it is `zip_file_count` of the archive's bytes.
#[verifier::external_body]
fn zip_len(archive: &ZipArchive<Cursor<Vec<u8>>>) -> (n: usize)
    ensures
        n == zip_file_count(zip_archive_bytes(*archive)),
{
    archive.len()
}

/// The name of entry `index` and whether it is a file, with
/// `ZipArchive::by_index`, `ZipFile::name` and `ZipFile::is_file`.
///
/// Claims: the result is `zip_entry` of the archive's bytes, which the
/// read leaves as they are.
#[verifier::external_body]
fn zip_entry_header(archive: &mut ZipArchive<Cursor<Vec<u8>>>, index: usize) -> (r: Option<(String, bool)>)
    ensures
        zip_archive_bytes(*final(archive)) == zip_archive_bytes(*old(archive)),
        match r {
            Some((name, is_file)) => zip_entry(zip_archive_bytes(*old(archive)), index as nat) == Some(
                (name@, is_file),
            ),
            None => zip_entry(zip_archive_bytes(*old(archive)), index as nat) is None,
        },
{
    let entry = archive.by_index(index).ok()?;
    let name = entry.name().ok()?.into_owned();
    Some((name, entry.is_file()))
}

/// The decompressed content of entry `index`, with `ZipArchive::by_index`
/// and `Read::read_to_end`.
///
/// Claims: the result is `zip_entry_content` of the archive's bytes, which
/// the read leaves as they are.
#[verifier::external_body]
fn zip_read_entry(archive: &mut ZipArchive<Cursor<Vec<u8>>>, index: usize) -> (r: Option<Vec<u8>>)
    ensures
        zip_archive_bytes(*final(archive)) == zip_archive_bytes(*old(archive)),
        match r {
            Some(content) => zip_entry_content(zip_archive_bytes(*old(archive)), index as nat) == Some(
                content@,
            ),
            None => zip_entry_content(zip_archive_bytes(*old(archive)), index as nat) is None,
        },
{
    let mut entry = archive.by_index(index).ok()?;
    let mut content = Vec::new();
    entry.read_to_end(&mut content).ok()?;
    Some(content)
}

/// The files of the first `n` entries of the archive in `bytes`: every
/// entry's name must read, every file's content too; directories and other
/// non-files are left out, and a later file of a name replaces an earlier.
pub open spec fn unzipped(bytes: Seq<u8>, n: nat) -> Option<Map<Seq<char>, Seq<u8>>>
    decreases n,
{
    if n == 0 {
        Some(Map::empty())
    } else {
        match unzipped(bytes, (n - 1) as nat) {
            Some(files) => match zip_entry(bytes, (n - 1) as nat) {
                Some((name, is_file)) => if is_file {
                    match zip_entry_content(bytes, (n - 1) as nat) {
                        Some(content) => Some(files.insert(name, content)),
                        None => None,
                    }
                } else {
                    Some(files)
                },
                None => None,
            },
            None => None,
        }
    }
}

/// The files of the archive in `bytes`, if it opens and all of it reads.
pub open spec fn spec_unzip(bytes: Seq<u8>) -> Option<Map<Seq<char>, Seq<u8>>> {
    if zip_opens(bytes) {
        unzipped(bytes, zip_file_count(bytes))
    } else {
        None
    }
}

/// Where the first `n` entries fail to unzip, so do the first `m >= n`.
proof fn lemma_unzipped_fails_later(bytes: Seq<u8>, n: nat, m: nat)
    requires
        n <= m,
        unzipped(bytes, n) is None,
    ensures
        unzipped(bytes, m) is None,
    decreases m - n,
{
    if n < m {
        lemma_unzipped_fails_later(bytes, n + 1, m);
    }
}

/// Unzips an is2 archive into its files; see `spec_unzip`.
pub fn unzip(bytes: &[u8]) -> (r: Option<Files>)
    ensures
        match r {
            Some(files) => spec_unzip(bytes@) == Some(files@),
            None => spec_unzip(bytes@) is None,
        },
{
    let mut archive = zip_open(bytes)?;
    let count = zip_len(&archive);
    let mut files = Files::new();
    let mut i: usize = 0;
    while i < count
        invariant
            zip_archive_bytes(archive) == bytes@,
            count == zip_file_count(bytes@),
            zip_opens(bytes@),
            i <= count,
            unzipped(bytes@, i as nat) == Some(files@),
        decreases count - i,
    {
        let (name, is_file) = match zip_entry_header(&mut archive, i) {
            Some(h) => h,
            None => {
                proof {
                    lemma_unzipped_fails_later(bytes@, (i + 1) as nat, count as nat);
                }
                return None;
            },
        };
        if is_file {
            let content = match zip_read_entry(&mut archive, i) {
                Some(c) => c,
                None => {
                    proof {
                        lemma_unzipped_fails_later(bytes@, (i + 1) as nat, count as nat);
                    }
                    return None;
                },
            };
            files.insert(name, content);
        }
        i += 1;
    }
    Some(files)
}

/// The thermal data, whose storage can differ per model.
#[derive(Clone, Debug, PartialEq)]
pub enum ThermalData {
    /// Raw counts in `Images/Main/IR.data` (Ti400, Ti401P, ...)
    IrData(IrData),
    /// Rex family (TiS75+, ...): decicelsius in `CalTempDataRex.gpbenc`
    Rex(Rex),
}

/// `ThermalData`, mathematically.
pub enum ThermalDataView {
    IrData { raw: Seq<u8>, width: u16, height: u16 },
    Rex { decicelsius: Seq<i64>, width: u16, height: u16 },
}

impl View for ThermalData {
    type V = ThermalDataView;

    open spec fn view(&self) -> ThermalDataView {
        match self {
            ThermalData::IrData(ir) => ThermalDataView::IrData { raw: ir.raw@, width: ir.width, height: ir.height },
            ThermalData::Rex(rex) => ThermalDataView::Rex {
                decicelsius: rex.decicelsius@,
                width: rex.width,
                height: rex.height,
            },
        }
    }
}

/// The thermal data holds exactly one sample per pixel of its
/// width × height frame: for IR data, a nonempty frame after a header row
/// of `width` u16s, and nothing more.
pub open spec fn thermal_wf(thermal: ThermalDataView) -> bool {
    match thermal {
        ThermalDataView::IrData { raw, width, height } => width > 0 && height > 0 && raw.len() == 2 * (
        width + width * height),
        ThermalDataView::Rex { decicelsius, width, height } => decicelsius.len() == width * height,
    }
}

/// The width of the thermal frame.
pub open spec fn thermal_width(thermal: ThermalDataView) -> u16 {
    match thermal {
        ThermalDataView::IrData { width, .. } => width,
        ThermalDataView::Rex { width, .. } => width,
    }
}

/// The height of the thermal frame.
pub open spec fn thermal_height(thermal: ThermalDataView) -> u16 {
    match thermal {
        ThermalDataView::IrData { height, .. } => height,
        ThermalDataView::Rex { height, .. } => height,
    }
}

#[derive(Clone, Debug)]
pub struct SerendipZip {
    pub thermal: ThermalData,
    pub ir_image_info: IrImageInfo,
    pub camera_info: CameraInfo,
    pub calibration_data: CalibrationData,
    /// The measurement markers with their coordinates as stored in the
    /// file: in `IrImageInfo`'s width/height space, which is twice the
    /// thermal data size. They cannot index the thermal data directly;
    /// see `Marker::to_thermal_space`.
    pub markers: Vec<Marker>,
    pub visuals: Files,
}

/// `SerendipZip`, mathematically.
pub struct SerendipZipView {
    pub thermal: ThermalDataView,
    pub ir_image_info: IrImageInfo,
    pub camera_info: CameraInfoView,
    pub calibration_data: CalibrationDataView,
    pub markers: Seq<MarkerView>,
    pub visuals: Map<Seq<char>, Seq<u8>>,
}

impl View for SerendipZip {
    type V = SerendipZipView;

    open spec fn view(&self) -> SerendipZipView {
        SerendipZipView {
            thermal: self.thermal@,
            ir_image_info: self.ir_image_info,
            camera_info: self.camera_info@,
            calibration_data: self.calibration_data@,
            markers: markers_view(self.markers@),
            visuals: self.visuals@,
        }
    }
}

impl SerendipZip {
    /// The width of the thermal frame.
    pub fn width(&self) -> (r: u16)
        ensures
            r == thermal_width(self.thermal@),
    {
        match &self.thermal {
            ThermalData::IrData(ir_data) => ir_data.width,
            ThermalData::Rex(rex) => rex.width,
        }
    }

    /// The height of the thermal frame.
    pub fn height(&self) -> (r: u16)
        ensures
            r == thermal_height(self.thermal@),
    {
        match &self.thermal {
            ThermalData::IrData(ir_data) => ir_data.height,
            ThermalData::Rex(rex) => rex.height,
        }
    }
}

/// A file decoded with `decode`, where it is present.
pub open spec fn decoded_file<T>(
    files: Map<Seq<char>, Seq<u8>>,
    path: Seq<char>,
    decode: spec_fn(Seq<u8>) -> Option<T>,
) -> Option<T> {
    if files.contains_key(path) {
        decode(files[path])
    } else {
        None
    }
}

/// The thermal data that the files hold, and the files left once it is
/// taken out: `CalTempDataRex.gpbenc` where present, else `IR.data` with
/// the dimensions that `extract_ir_dimensions` finds.
pub open spec fn spec_thermal_data(files: Map<Seq<char>, Seq<u8>>, info: IrImageInfo) -> Option<
    (ThermalDataView, Map<Seq<char>, Seq<u8>>),
> {
    if files.contains_key(CAL_TEMP_DATA_REX_FILE@) {
        match spec_rex(files[CAL_TEMP_DATA_REX_FILE@], info) {
            Some((decicelsius, width, height)) => Some(
                (
                    ThermalDataView::Rex { decicelsius, width, height },
                    files.remove(CAL_TEMP_DATA_REX_FILE@),
                ),
            ),
            None => None,
        }
    } else if files.contains_key(IR_DATA_FILE@) {
        match spec_ir_dimensions(files[IR_DATA_FILE@], info) {
            Some((width, height)) => if spec_ir_data_fits(width, height, files[IR_DATA_FILE@].len()) {
                Some(
                    (
                        ThermalDataView::IrData { raw: files[IR_DATA_FILE@], width, height },
                        files.remove(IR_DATA_FILE@),
                    ),
                )
            } else {
                None
            },
            None => None,
        }
    } else {
        None
    }
}

/// The files left once the thermal data is taken out, whether or not it
/// decodes: `CalTempDataRex.gpbenc` goes where present; else `IR.data`
/// goes where dimensions that fit it were found.
pub open spec fn thermal_files_left(files: Map<Seq<char>, Seq<u8>>, info: IrImageInfo) -> Map<Seq<char>, Seq<u8>> {
    if files.contains_key(CAL_TEMP_DATA_REX_FILE@) {
        files.remove(CAL_TEMP_DATA_REX_FILE@)
    } else if files.contains_key(IR_DATA_FILE@) && spec_ir_dimensions(files[IR_DATA_FILE@], info) is Some {
        files.remove(IR_DATA_FILE@)
    } else {
        files
    }
}

/// Extracts the thermal data, in whichever layout the file carries; see
/// `spec_thermal_data`.
///
/// `CalTempDataRex.gpbenc` is preferred over `IR.data` as its values are
/// already temperatures, needing no calibration curves. No file has been
/// seen carrying both, however.
pub fn extract_thermal_data(files: &mut Files, ir_image_info: &IrImageInfo) -> (r: Option<ThermalData>)
    ensures
        match r {
            Some(thermal) => spec_thermal_data(old(files)@, *ir_image_info) == Some(
                (thermal@, final(files)@),
            ),
            None => spec_thermal_data(old(files)@, *ir_image_info) is None,
        },
        final(files)@ == thermal_files_left(old(files)@, *ir_image_info),
{
    if files.contains_key(CAL_TEMP_DATA_REX_FILE) {
        return match extract_rex(files, ir_image_info) {
            Some(rex) => Some(ThermalData::Rex(rex)),
            None => None,
        };
    }
    let (width, height) = extract_ir_dimensions(files, ir_image_info)?;
    match extract_ir_data(files, width, height) {
        Some(ir_data) => Some(ThermalData::IrData(ir_data)),
        None => None,
    }
}

/// The thermogram that an is2 archive with these bytes holds: it must
/// unzip, and carry a decodable `IRImageInfo.gpbenc`, `CameraInfo.gpbenc`
/// and `CalibrationData.gpbenc`, and thermal data (see
/// `spec_thermal_data`). The markers (see `extract_markers`) and the
/// visible-light images (see `extract_visuals`) are taken from what
/// remains.
pub open spec fn spec_decode_zip_format(bytes: Seq<u8>) -> Option<SerendipZipView> {
    match spec_unzip(bytes) {
        Some(files) => match (
            decoded_file(files, IR_IMAGE_INFO_FILE@, |d: Seq<u8>| spec_ir_image_info(d)),
            decoded_file(files, CAMERA_INFO_FILE@, |d: Seq<u8>| spec_camera_info(d)),
            decoded_file(files, CALIBRATION_DATA_FILE@, |d: Seq<u8>| spec_calibration_data(d)),
        ) {
            (Some(ir_image_info), Some(camera_info), Some(calibration_data)) => match spec_thermal_data(
                files,
                ir_image_info,
            ) {
                Some((thermal, rest)) => {
                    let remaining = rest.remove(CENTERBOX@).remove(CENTERPOINT@).remove(HOTPOINT@).remove(
                        COLDPOINT@,
                    );
                    Some(
                        SerendipZipView {
                            thermal,
                            ir_image_info,
                            camera_info,
                            calibration_data,
                            markers: spec_markers(rest),
                            visuals: remaining.restrict(visual_paths()),
                        },
                    )
                },
                None => None,
            },
            _ => None,
        },
        None => None,
    }
}

/// Thermal data taken out of the files by `extract_thermal_data` holds
/// one sample per pixel of its frame.
pub proof fn lemma_thermal_data_wf(files: Map<Seq<char>, Seq<u8>>, info: IrImageInfo)
    requires
        spec_thermal_data(files, info) is Some,
    ensures
        thermal_wf(spec_thermal_data(files, info).unwrap().0),
{
}

/// An absent or broken marker file or image never makes decoding fail:
/// whether an archive decodes depends only on whether it unzips, on its
/// image info, camera info and calibration data, and on its thermal data.
pub proof fn lemma_decoding_ignores_markers_and_visuals(bytes: Seq<u8>)
    ensures
        spec_decode_zip_format(bytes) is Some <==> (spec_unzip(bytes) matches Some(files) && decoded_file(
            files,
            IR_IMAGE_INFO_FILE@,
            |d: Seq<u8>| spec_ir_image_info(d),
        ) matches Some(info) && decoded_file(files, CAMERA_INFO_FILE@, |d: Seq<u8>| spec_camera_info(d))
            is Some && decoded_file(
            files,
            CALIBRATION_DATA_FILE@,
            |d: Seq<u8>| spec_calibration_data(d),
        ) is Some && spec_thermal_data(files, info) is Some),
{
}

/// Decodes the bytes of a ZIP-based is2 file; see `spec_decode_zip_format`.
/// The thermal data of the result holds one sample per pixel.
pub fn decode_zip_format(bytes: &[u8]) -> (r: Option<SerendipZip>)
    ensures
        match r {
            Some(zip) => spec_decode_zip_format(bytes@) == Some(zip@) && thermal_wf(zip.thermal@),
            None => spec_decode_zip_format(bytes@) is None,
        },
{
    let mut files = unzip(bytes)?;
    let ghost unzipped = files@;
    let ir_image_info = extract_ir_image_info(&files)?;
    let camera_info = extract_camera_info(&files)?;
    let calibration_data = extract_calibration_data(&files)?;
    let thermal = extract_thermal_data(&mut files, &ir_image_info)?;
    proof {
        lemma_thermal_data_wf(unzipped, ir_image_info);
    }
    let markers = extract_markers(&mut files);
    let visuals = extract_visuals(&mut files);
    Some(SerendipZip { thermal, ir_image_info, camera_info, calibration_data, markers, visuals })
}

} // verus!
