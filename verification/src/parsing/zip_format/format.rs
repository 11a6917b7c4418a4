//! The files inside an is2 archive, one module each.

pub mod camera_info;

pub use camera_info::{CameraInfo, extract_camera_info};
pub mod ir_image_info;

pub use ir_image_info::{IrImageInfo, TemperatureScale, extract_ir_image_info};
pub mod calibration_data;

pub use calibration_data::{CalibrationBand, CalibrationCurve, CalibrationData, extract_calibration_data};
pub mod cal_temp_data_rex;

pub use cal_temp_data_rex::{CAL_TEMP_DATA_REX_FILE, Rex, extract_rex};
pub mod ir_data;

pub use ir_data::{IrData, extract_ir_data, extract_ir_dimensions};
pub mod markers;

pub use markers::{ZipMetadata, ZipPoint, extract_markers};
pub mod visuals;

pub use visuals::extract_visuals;
pub mod image_properties;

pub use image_properties::decode_text;
