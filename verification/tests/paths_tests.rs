use photosort::paths::extension_of;
use photosort::paths::file_name_of;
use photosort::paths::filter_supported;
use photosort::paths::has_supported_extension;
use photosort::paths::is_supported_extension;

#[test]
fn extension_is_the_part_after_the_last_dot() {
    assert_eq!(extension_of("photos/trip/beach.JPG").as_deref(), Some("JPG"));
    assert_eq!(extension_of("a/b/c.tar.gz").as_deref(), Some("gz"));
    assert_eq!(extension_of("plain.png").as_deref(), Some("png"));
}

#[test]
fn files_without_extension_have_none() {
    assert_eq!(extension_of("photos/trip/readme"), None);
    assert_eq!(extension_of("photos/trip/"), None);
    assert_eq!(extension_of(""), None);
}

#[test]
fn a_leading_dot_is_a_hidden_file_not_an_extension() {
    assert_eq!(extension_of("photos/.gif"), None);
    assert_eq!(extension_of(".jpg"), None);
}

#[test]
fn extension_matching_ignores_case() {
    assert!(is_supported_extension("jpg"));
    assert!(is_supported_extension("JPG"));
    assert!(is_supported_extension("Jpeg"));
    assert!(is_supported_extension("PNG"));
    assert!(is_supported_extension("WebP"));
    assert!(is_supported_extension("bmp"));
    assert!(is_supported_extension("GIF"));
}

#[test]
fn unsupported_extensions_are_refused() {
    assert!(!is_supported_extension("txt"));
    assert!(!is_supported_extension("heic"));
    assert!(!is_supported_extension("cr2"));
    assert!(!is_supported_extension("jp"));
    assert!(!is_supported_extension("jpgg"));
    assert!(!is_supported_extension(""));
}

#[test]
fn path_support_combines_extension_and_allow_list() {
    assert!(has_supported_extension("a/b/photo.JPG"));
    assert!(has_supported_extension("photo.jpg"));
    assert!(has_supported_extension("c:\\pics\\photo.webp"));
    assert!(!has_supported_extension("a/b/document.txt"));
    assert!(!has_supported_extension("a/b/noext"));
    assert!(!has_supported_extension("a/b/.gif"));
}

#[test]
fn filtering_keeps_only_supported_paths_in_order() {
    let paths: Vec<String> = vec![
        "x/a.jpg".to_string(),
        "x/b.txt".to_string(),
        "x/c.PNG".to_string(),
        "x/d".to_string(),
        "x/e.GiF".to_string(),
    ];
    let kept = filter_supported(&paths);
    assert_eq!(kept, vec!["x/a.jpg".to_string(), "x/c.PNG".to_string(), "x/e.GiF".to_string()]);
}

#[test]
fn scan_extension_matching_ignores_case_and_takes_raw_formats() {
    assert!(photosort::paths::is_scan_extension("jpg"));
    assert!(photosort::paths::is_scan_extension("JPEG"));
    assert!(photosort::paths::is_scan_extension("png"));
    assert!(photosort::paths::is_scan_extension("HEIC"));
    assert!(photosort::paths::is_scan_extension("heif"));
    assert!(photosort::paths::is_scan_extension("WebP"));
    assert!(photosort::paths::is_scan_extension("CR2"));
    assert!(photosort::paths::is_scan_extension("nef"));
    assert!(photosort::paths::is_scan_extension("Arw"));
    assert!(photosort::paths::is_scan_extension("DNG"));
    // the scan set is broader than the analysis set, but not everything
    assert!(!photosort::paths::is_scan_extension("bmp"));
    assert!(!photosort::paths::is_scan_extension("gif"));
    assert!(!photosort::paths::is_scan_extension("txt"));
    assert!(!photosort::paths::is_scan_extension(""));
}

#[test]
fn scan_path_support_combines_extension_and_scan_list() {
    assert!(photosort::paths::has_scan_extension("a/b/raw.CR2"));
    assert!(photosort::paths::has_scan_extension("a/b/pic.heic"));
    assert!(!photosort::paths::has_scan_extension("a/b/pic.bmp"));
    assert!(!photosort::paths::has_scan_extension("a/b/noext"));
}

#[test]
fn file_name_is_the_last_component() {
    assert_eq!(file_name_of("a/b/c.png"), "c.png");
    assert_eq!(file_name_of("c.png"), "c.png");
    assert_eq!(file_name_of("a\\b\\c.png"), "c.png");
    assert_eq!(file_name_of("a/b/"), "");
}
