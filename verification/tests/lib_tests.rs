use academic_workflow::{library_info, NAME, VERSION};

#[test]
fn test_version() {
    assert!(!VERSION.is_empty());
}

#[test]
fn test_library_info() {
    let info = library_info();
    assert!(info.contains("academic-shared"));
    assert!(info.contains(VERSION));
}

#[test]
fn test_version_format() {
    // Version should be in semver format (X.Y.Z)
    let parts: Vec<&str> = VERSION.split('.').collect();
    assert!(parts.len() >= 2);
}

#[test]
fn library_info_is_name_and_version() {
    assert_eq!(library_info(), format!("{} v{}", NAME, VERSION));
}
