use app_updates::inventory::{
    application_name, find_local_programs, installed_version, is_manifest_file, manifest_version,
    ScannedDirectory, EDITION_MARKER, INSTALLED_VERSION_PATTERN, MANIFEST_FILE_NAME,
};

fn directory(name: &str, manifest: Option<&str>) -> ScannedDirectory {
    ScannedDirectory { name: name.to_string(), manifest: manifest.map(|m| m.to_string()) }
}

const MANIFEST: &str = "<?xml version=\"1.0\"?>\n<Configuration>\n  <Data key=\"ProductCode\">\"{PHSP-24.1.0-64-507846D1}\"</Data>\n  <Data key=\"Other\">\"{PHSP-99.9.9-64-0}\"</Data>\n</Configuration>\n";

#[test]
fn constants_have_their_values() {
    assert_eq!(EDITION_MARKER, '2');
    assert_eq!(MANIFEST_FILE_NAME, "application.xml");
    assert_eq!(INSTALLED_VERSION_PATTERN, "\"\\{\\w*-\\d*\\.\\d.*?-64-");
}

#[test]
fn directory_without_marker_is_no_application() {
    assert_eq!(application_name("UtilityTool"), None);
    assert_eq!(application_name(""), None);
    assert_eq!(application_name("Acrobat DC"), None);
    assert_eq!(application_name("Tool 1999"), None);
}

#[test]
fn directory_name_is_cut_at_the_marker_and_trimmed() {
    assert_eq!(application_name("Application 2024"), Some("Application".to_string()));
    assert_eq!(application_name("Adobe Photoshop 2023"), Some("Adobe Photoshop".to_string()));
    assert_eq!(application_name("  Premiere Pro   2022 beta"), Some("Premiere Pro".to_string()));
    assert_eq!(application_name("Media Encoder2020"), Some("Media Encoder".to_string()));
}

#[test]
fn directory_name_is_cut_at_the_first_marker() {
    assert_eq!(application_name("After 2 Effects 2024"), Some("After".to_string()));
    assert_eq!(application_name("2024"), Some(String::new()));
    assert_eq!(application_name("   2"), Some(String::new()));
    assert_eq!(application_name("Version12"), Some("Version1".to_string()));
}

#[test]
fn installed_version_drops_seven_and_four_characters() {
    assert_eq!(installed_version("\"{PHSP-24.1.0-64-"), "24.1.0");
    assert_eq!(installed_version("\"{ILST-27.0-64-"), "27.0");
    assert_eq!(installed_version("12345678901"), "");
    assert_eq!(installed_version("1234567x8901"), "x");
}

#[test]
fn installed_version_of_short_match_is_empty() {
    assert_eq!(installed_version("\"{-1.2-64-"), "");
    assert_eq!(installed_version(""), "");
    assert_eq!(installed_version("1234567890"), "");
}

#[test]
fn manifest_version_takes_the_first_matching_line() {
    assert_eq!(manifest_version(MANIFEST), "24.1.0");
    assert_eq!(manifest_version("\"{AEFT-23.6.2-64-x\r\n\"{AEFT-1.0-64-x\r\n"), "23.6.2");
    assert_eq!(manifest_version("junk\n\njunk \"{PPRO-22.0-64-\" tail"), "22.0");
}

#[test]
fn manifest_without_pattern_gives_empty_version() {
    assert_eq!(manifest_version(""), "");
    assert_eq!(manifest_version("<Configuration>\n</Configuration>\n"), "");
    assert_eq!(manifest_version("{PHSP-24.1.0-64-"), "");
    assert_eq!(manifest_version("\"{PHSP-24-64-"), "");
    assert_eq!(manifest_version("\"{PHSP-24.1.0-32-"), "");
}

#[test]
fn manifest_pattern_does_not_span_lines() {
    assert_eq!(manifest_version("\"{PHSP-24.1.0\n-64-"), "");
}

#[test]
fn manifest_match_too_short_to_trim_gives_empty_version() {
    assert_eq!(manifest_version("\"{-1.2-64-\n\"{PHSP-24.1.0-64-"), "");
}

#[test]
fn manifest_file_name_is_compared_exactly() {
    assert!(is_manifest_file("application.xml"));
    assert!(!is_manifest_file("Application.xml"));
    assert!(!is_manifest_file("application.xml.bak"));
    assert!(!is_manifest_file("my-application.xml"));
    assert!(!is_manifest_file(""));
}

#[test]
fn inventory_drops_unmarked_directories_and_keeps_order() {
    let directories = vec![
        directory("Adobe Photoshop 2023", Some(MANIFEST)),
        directory("UtilityTool", Some(MANIFEST)),
        directory("Application 2024", None),
        directory("Adobe Illustrator 2022", Some("nothing here")),
    ];
    let apps = find_local_programs(&directories);
    assert_eq!(apps.len(), 3);
    assert_eq!(apps[0].name, "Adobe Photoshop");
    assert_eq!(apps[0].version, "24.1.0");
    assert!(apps[0].newest_online.is_none());
    assert_eq!(apps[1].name, "Application");
    assert_eq!(apps[1].version, "");
    assert!(apps[1].newest_online.is_none());
    assert_eq!(apps[2].name, "Adobe Illustrator");
    assert_eq!(apps[2].version, "");
    assert!(apps[2].newest_online.is_none());
}

#[test]
fn inventory_of_nothing_is_empty() {
    assert!(find_local_programs(&Vec::new()).is_empty());
    assert!(find_local_programs(&vec![directory("UtilityTool", None)]).is_empty());
}

#[test]
fn inventory_keeps_duplicate_names() {
    let directories = vec![directory("Tool 2021", None), directory("Tool 2022", None)];
    let apps = find_local_programs(&directories);
    assert_eq!(apps.len(), 2);
    assert_eq!(apps[0].name, "Tool");
    assert_eq!(apps[1].name, "Tool");
}
