use omni_up::cargo_install::{parse_cargo_crate_name, CargoInstallError};

#[test]
fn cargo_install_simple_crate() {
    let (name, version) = parse_cargo_crate_name("serde").unwrap();
    assert_eq!(name, "serde");
    assert_eq!(version, None);
}

#[test]
fn cargo_install_crate_with_version() {
    let (name, version) = parse_cargo_crate_name("serde@1.0.0").unwrap();
    assert_eq!(name, "serde");
    assert_eq!(version, Some("1.0.0".to_string()));
}

#[test]
fn cargo_install_invalid_multiple_at() {
    let result = parse_cargo_crate_name("serde@1.0.0@latest");
    assert!(matches!(result, Err(CargoInstallError::InvalidCrateName(_))));
}

#[test]
fn cargo_install_test_simple_crate() {
    let (name, version) = parse_cargo_crate_name("serde").unwrap();
    assert_eq!(name, "serde");
    assert_eq!(version, None);
}

#[test]
fn cargo_install_test_crate_with_version() {
    let (name, version) = parse_cargo_crate_name("serde@1.0.0").unwrap();
    assert_eq!(name, "serde");
    assert_eq!(version, Some("1.0.0".to_string()));
}

#[test]
fn cargo_install_test_invalid_multiple_at() {
    let result = parse_cargo_crate_name("serde@1.0.0@latest");
    assert!(matches!(result, Err(CargoInstallError::InvalidCrateName(_))));
}

#[test]
fn invalid_crate_name_is_displayed_with_its_reason() {
    match parse_cargo_crate_name("a@b@c") {
        Err(e) => assert_eq!(e.display_string(), "invalid crate name: multiple @ symbols found"),
        Ok(_) => panic!("expected an error"),
    }
}

#[test]
fn crate_name_with_trailing_at_has_empty_version() {
    let (name, version) = parse_cargo_crate_name("serde@").unwrap();
    assert_eq!(name, "serde");
    assert_eq!(version, Some("".to_string()));
}
