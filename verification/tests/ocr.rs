use itmpc::ocr::{download_path_from, ocr_lib_present, ocr_path_from};
use itmpc::files::select_image_paths;
use itmpc::number::{greatest_candidate, split_decimal};
use itmpc::ocr::{
    check_if_ocr_lib_downloaded, detect_number, get_download_path, get_ocr_path, read_ocr_result,
    rotation_for_orientation, zip_entry_kind, OcrData, OcrError, OcrResult, Rotation, ZipEntryKind,
};

fn piece(text: &str) -> OcrData {
    OcrData { bounding_box: vec![vec![0, 0], vec![1, 1]], score: 0.9f32.to_bits(), text: text.to_string() }
}

fn strings(v: &[&str]) -> Vec<String> {
    v.iter().map(|s| s.to_string()).collect()
}

#[test]
fn greatest_number_in_answer() {
    let v = OcrResult { code: 100, data: vec![piece("36.5°C"), piece("max 120.25"), piece("9.9.9")] };
    assert_eq!(detect_number(&v), Some("120.25".to_string()));
    let none = OcrResult { code: 100, data: vec![piece("°C"), piece("..")] };
    assert_eq!(detect_number(&none), None);
}

#[test]
fn answer_status_decides() {
    assert_eq!(read_ocr_result(None), Err(OcrError::NotFound));
    let failed = OcrResult { code: 101, data: vec![piece("12")] };
    assert_eq!(read_ocr_result(Some(failed)), Err(OcrError::NotFound));
    let ok = OcrResult { code: 100, data: vec![piece("12"), piece("7.5")] };
    assert_eq!(read_ocr_result(Some(ok)), Ok(Some("12".to_string())));
    let empty = OcrResult { code: 100, data: vec![] };
    assert_eq!(read_ocr_result(Some(empty)), Ok(None));
}

#[test]
fn decimal_comparison_follows_values() {
    assert_eq!(greatest_candidate(&strings(&["9", "10"])), Some("10".to_string()));
    assert_eq!(greatest_candidate(&strings(&["007.50", "7.4999"])), Some("007.50".to_string()));
    assert_eq!(greatest_candidate(&strings(&["1.0", "1", "0.99"])), Some("1.0".to_string()));
    assert_eq!(greatest_candidate(&strings(&[".5", "0.49", "1."])), Some("1.".to_string()));
    assert_eq!(greatest_candidate(&strings(&["", ".", "1.2.3"])), None);
}

#[test]
fn accepted_decimals_parse_as_numbers() {
    for s in ["0", "1.", ".5", "007.50", "123.456", "99999"] {
        assert!(split_decimal(s).is_some());
        assert!(s.parse::<f64>().is_ok());
    }
    for s in ["", ".", "1.2.3", "1a"] {
        assert!(split_decimal(s).is_none());
        assert!(s.parse::<f64>().is_err());
    }
}

#[test]
fn chosen_text_is_the_float_maximum() {
    let cands = strings(&["3.75", "36.49", "36.5", "", "4"]);
    let best = greatest_candidate(&cands).unwrap();
    let mut max = -99999f64;
    for c in &cands {
        max = max.max(c.parse::<f64>().unwrap_or(-99999f64));
    }
    assert_eq!(best.parse::<f64>().unwrap(), max);
}

#[test]
fn orientation_turns() {
    assert_eq!(rotation_for_orientation(Some(1)), Rotation::Keep);
    assert_eq!(rotation_for_orientation(Some(3)), Rotation::Half);
    assert_eq!(rotation_for_orientation(Some(6)), Rotation::Quarter);
    assert_eq!(rotation_for_orientation(Some(8)), Rotation::ThreeQuarters);
    assert_eq!(rotation_for_orientation(Some(5)), Rotation::Keep);
    assert_eq!(rotation_for_orientation(None), Rotation::Keep);
}

#[test]
fn archive_entries() {
    assert_eq!(zip_entry_kind(false, "a/"), ZipEntryKind::Skip);
    assert_eq!(zip_entry_kind(true, "models/"), ZipEntryKind::Directory);
    assert_eq!(zip_entry_kind(true, "models/x.bin"), ZipEntryKind::File);
}

#[test]
fn photos_are_selected_by_extension() {
    let paths = strings(&["a.jpg", "b.png", "c.jpeg", "d.JPG", "ejpg"]);
    assert_eq!(select_image_paths(paths), strings(&["a.jpg", "c.jpeg", "ejpg"]));
}

#[test]
fn engine_location_is_consistent() {
    if let Err(e) = get_ocr_path() {
        assert_eq!(e, "Error");
        assert!(!check_if_ocr_lib_downloaded());
    }
    if let Err(e) = get_download_path() {
        assert_eq!(e, "Error");
    }
}

#[test]
fn engine_location_from_found_directories() {
    assert_eq!(ocr_path_from(None).unwrap_err(), "Error");
    assert_eq!(download_path_from(None).unwrap_err(), "Error");
    let p = download_path_from(Some(std::path::PathBuf::from("/tmp/dl"))).unwrap();
    assert_eq!(p, std::path::PathBuf::from("/tmp/dl/PaddleOCR-json.v1.2.1.zip"));
    assert!(!ocr_lib_present(Err("Error".to_string())));
    assert!(!ocr_lib_present(Ok(std::path::PathBuf::from("/nonexistent/itmpc-dir"))));
    if let Some(dirs) = directories::ProjectDirs::from("com", "com.miaostay.itmpc", "PaddleOCR-json") {
        assert_eq!(ocr_path_from(Some(dirs.clone())).unwrap(), dirs.data_local_dir().to_path_buf());
    }
}

#[test]
fn executable_path_is_inside_the_directory() {
    let p = itmpc::ocr::ocr_executable_path(&std::path::PathBuf::from("/opt/ocr"));
    assert_eq!(p, std::path::PathBuf::from("/opt/ocr/PaddleOCR_json.exe"));
}

#[test]
fn temperature_from_runs_in_text() {
    let v = OcrResult { code: 100, data: vec![piece("T:25.4 M:31.2"), piece("x12a3")] };
    assert_eq!(detect_number(&v), Some("31.2".to_string()));
    let probe = itmpc::ocr::ocr_probe_path(&Ok(std::path::PathBuf::from("/opt/ocr"))).unwrap();
    assert_eq!(probe, std::path::PathBuf::from("/opt/ocr/PaddleOCR_json.exe"));
    assert!(itmpc::ocr::ocr_probe_path(&Err("Error".to_string())).is_none());
}
