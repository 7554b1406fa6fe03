use std::io::Write;

use reshader::{carve_injector_library, find_zip_offset, ReShaderError};

fn build_zip(entries: &[(&str, &[u8])]) -> Vec<u8> {
    let cursor = std::io::Cursor::new(Vec::new());
    let mut writer = zip::ZipWriter::new(cursor);
    let options = zip::write::SimpleFileOptions::default();
    for (name, content) in entries {
        writer.start_file(*name, options).unwrap();
        writer.write_all(content).unwrap();
    }
    writer.finish().unwrap().into_inner()
}

#[test]
fn offset_found_at_first_occurrence() {
    let data = [0x00u8, 0x50, 0x4b, 0x01, 0x50, 0x4b, 0x03, 0x04, 0x99];
    assert_eq!(find_zip_offset(&data), Some(4));
}

#[test]
fn offset_found_at_start() {
    let data = [0x50u8, 0x4b, 0x03, 0x04];
    assert_eq!(find_zip_offset(&data), Some(0));
}

#[test]
fn offset_reports_the_first_of_two() {
    let data = [
        0x50u8, 0x4b, 0x03, 0x04, 0xff, 0x50, 0x4b, 0x03, 0x04,
    ];
    assert_eq!(find_zip_offset(&data), Some(0));
}

#[test]
fn offset_absent_when_signature_never_occurs() {
    let data = [0x50u8, 0x4b, 0x03, 0x05, 0x50, 0x4b, 0x04, 0x03];
    assert_eq!(find_zip_offset(&data), None);
}

#[test]
fn offset_absent_on_short_streams() {
    assert_eq!(find_zip_offset(&[]), None);
    assert_eq!(find_zip_offset(&[0x50, 0x4b, 0x03]), None);
}

#[test]
fn carve_extracts_entry_bytes_exactly() {
    let payload: Vec<u8> = (0u8..=255).cycle().take(4096).collect();
    let archive = build_zip(&[("ReShade64.dll", &payload), ("setup.cfg", b"x=1")]);
    let mut installer = b"MZ fake installer header, no signature here".to_vec();
    installer.extend_from_slice(&archive);
    let carved = carve_injector_library(&installer).unwrap();
    assert_eq!(carved, payload);
}

#[test]
fn carve_fails_without_signature() {
    let installer = b"MZ fake installer with no archive inside".to_vec();
    let err = carve_injector_library(&installer).unwrap_err();
    assert!(matches!(err, ReShaderError::NoZipFile));
}

#[test]
fn carve_fails_when_entry_is_missing() {
    let archive = build_zip(&[("other.txt", b"hello")]);
    let mut installer = b"MZ header".to_vec();
    installer.extend_from_slice(&archive);
    let err = carve_injector_library(&installer).unwrap_err();
    assert!(matches!(err, ReShaderError::NoReShade64Dll));
}

#[test]
fn carve_fails_on_truncated_archive() {
    let installer = vec![0x10u8, 0x20, 0x50, 0x4b, 0x03, 0x04, 0x00, 0x01];
    let err = carve_injector_library(&installer).unwrap_err();
    assert!(matches!(err, ReShaderError::ReadZipFile));
}
