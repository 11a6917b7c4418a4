use serendip::parsing::zip_format::files::Files;
use serendip::parsing::zip_format::format::calibration_data::extract_calibration_data;
use serendip::parsing::zip_format::format::cal_temp_data_rex::extract_rex;
use serendip::parsing::zip_format::format::ir_image_info::{IrImageInfo, extract_ir_image_info};
use serendip::parsing::zip_format::format::visuals::extract_visuals;

fn tis75_ir_image_info() -> IrImageInfo {
    IrImageInfo {
        width: 768,
        height: 576,
        ..Default::default()
    }
}

#[test]
fn extract_main_jpgs() {
    let mut files = Files::new();
    files.insert("Images/Main/A.jpg".to_string(), vec![1u8]);
    files.insert("Images/Main/B.JPG".to_string(), vec![2u8]); // case-insensitivity
    files.insert("Images/Main/IR.data".to_string(), vec![3u8]); // wrong extension
    files.insert("Other/C.jpg".to_string(), vec![4u8]); // wrong directory
    let visuals = extract_visuals(&mut files);

    assert_eq!(visuals.len(), 2);
    assert!(visuals.contains_key("Images/Main/A.jpg"));
    assert!(visuals.contains_key("Images/Main/B.JPG"));
    assert_eq!(files.len(), 2); // extracted entries were moved out
}

#[test]
fn cal_temp_data_rex_absent_file_yields_none() {
    assert_eq!(extract_rex(&mut Files::new(), &tis75_ir_image_info()), None);
}

#[test]
fn calibration_data_absent_file_yields_none() {
    assert_eq!(extract_calibration_data(&Files::new()), None);
}

#[test]
fn ir_image_info_absent_file_yields_none() {
    assert_eq!(extract_ir_image_info(&Files::new()), None);
}
