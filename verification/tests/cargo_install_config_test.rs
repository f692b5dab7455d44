use omni_up::cargo_install::{UpConfigCargoInstall, UpConfigCargoInstalls};
use omni_up::config_value::{ConfigErrorKind, ConfigValue};

fn s(x: &str) -> ConfigValue {
    ConfigValue::Str(x.to_string())
}

fn t(entries: Vec<(&str, ConfigValue)>) -> ConfigValue {
    ConfigValue::Table(entries.into_iter().map(|(k, v)| (k.to_string(), v)).collect())
}

#[test]
fn crate_given_as_text_is_exact_when_versioned() {
    let mut errors = Vec::new();
    let c = UpConfigCargoInstall::from_config_value(Some(&s("ripgrep@14.1.0")), "up[0]", &mut errors);
    assert_eq!(c.crate_name, "ripgrep");
    assert_eq!(c.version, Some("14.1.0".to_string()));
    assert!(c.exact);
    assert!(errors.is_empty());

    let c = UpConfigCargoInstall::from_config_value(Some(&s("ripgrep")), "up[0]", &mut errors);
    assert!(!c.exact);
    assert_eq!(c.version, None);
}

#[test]
fn crate_name_with_many_ats_is_reported() {
    let mut errors = Vec::new();
    let c = UpConfigCargoInstall::from_config_value(Some(&s("a@b@c")), "up[0]", &mut errors);
    assert_eq!(c.crate_name, "a@b@c");
    assert_eq!(c.config_error, Some("invalid crate name: multiple @ symbols found".to_string()));
    assert_eq!(errors.len(), 1);
    assert_eq!(errors[0].key, "up[0]");
    assert_eq!(errors[0].kind, ConfigErrorKind::ParsingError);
}

#[test]
fn crate_table_reads_its_settings() {
    let mut errors = Vec::new();
    let cv = t(vec![
        ("crate", s("bat")),
        ("version", s("0.24")),
        ("upgrade", ConfigValue::Bool(true)),
        ("prerelease", s("yes")),
        ("exact", s("true")),
    ]);
    let c = UpConfigCargoInstall::from_config_value(Some(&cv), "cargo", &mut errors);
    assert_eq!(c.crate_name, "bat");
    assert_eq!(c.version, Some("0.24".to_string()));
    assert!(c.exact);
    assert!(c.upgrade);
    assert!(!c.prerelease);
    assert_eq!(errors.len(), 1);
    assert_eq!(errors[0].key, "cargo.prerelease");
    assert_eq!(errors[0].kind, ConfigErrorKind::InvalidValueType);
}

#[test]
fn version_in_both_places_is_refused() {
    let mut errors = Vec::new();
    let cv = t(vec![("crate", s("bat@1")), ("version", s("2"))]);
    let c = UpConfigCargoInstall::from_config_value(Some(&cv), "cargo", &mut errors);
    assert_eq!(c.crate_name, "bat");
    assert_eq!(
        c.config_error,
        Some("version should not be specified in both crate and version fields".to_string())
    );
    assert_eq!(errors.len(), 1);
    assert_eq!(errors[0].key, "cargo.version");
    assert_eq!(errors[0].kind, ConfigErrorKind::UnsupportedValueInContext);
}

#[test]
fn single_key_tables_name_the_crate() {
    let mut errors = Vec::new();
    let c = UpConfigCargoInstall::from_config_value(Some(&t(vec![("fd-find", s("9"))])), "c", &mut errors);
    assert_eq!(c.crate_name, "fd-find");
    assert_eq!(c.version, Some("9".to_string()));
    assert!(!c.exact);

    let c = UpConfigCargoInstall::from_config_value(Some(&t(vec![("fd-find@9", ConfigValue::Null)])), "c", &mut errors);
    assert_eq!(c.crate_name, "fd-find");
    assert_eq!(c.version, Some("9".to_string()));
    assert!(c.exact);
    assert!(errors.is_empty());

    let c = UpConfigCargoInstall::from_config_value(Some(&t(vec![("a", ConfigValue::Null), ("b", ConfigValue::Null)])), "c", &mut errors);
    assert_eq!(c.config_error, Some("crate is required".to_string()));
    assert_eq!(errors.len(), 1);
    assert_eq!(errors[0].kind, ConfigErrorKind::NotExactlyOneKeyInTable);
}

#[test]
fn crate_tables_by_name_are_read_in_name_order() {
    let mut errors = Vec::new();
    let cv = t(vec![
        ("zoxide", s("0.9")),
        ("bat", t(vec![("upgrade", ConfigValue::Bool(true))])),
        ("exa", ConfigValue::Null),
    ]);
    let cs = UpConfigCargoInstalls::from_config_value(Some(&cv), "up.cargo", &mut errors);
    let names: Vec<&str> = cs.crates.iter().map(|c| c.crate_name.as_str()).collect();
    assert_eq!(names, vec!["bat", "exa", "zoxide"]);
    assert!(cs.crates[0].upgrade);
    assert_eq!(cs.crates[2].version, Some("0.9".to_string()));
    assert!(errors.is_empty());
}

#[test]
fn crate_lists_key_errors_by_index() {
    let mut errors = Vec::new();
    let cv = ConfigValue::Array(vec![s("ok"), s("x@y@z")]);
    let cs = UpConfigCargoInstalls::from_config_value(Some(&cv), "up.cargo", &mut errors);
    assert_eq!(cs.crates.len(), 2);
    assert_eq!(errors.len(), 1);
    assert_eq!(errors[0].key, "up.cargo[1]");
    assert!(UpConfigCargoInstalls::from_config_value(None, "k", &mut errors).crates.is_empty());
}
