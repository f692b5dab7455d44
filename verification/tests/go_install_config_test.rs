use omni_up::config_value::ConfigValue;
use omni_up::go_install::{validate_go_install_path, UpConfigGoInstall, UpConfigGoInstalls};

fn s(x: &str) -> ConfigValue {
    ConfigValue::Str(x.to_string())
}

fn t(entries: Vec<(&str, ConfigValue)>) -> ConfigValue {
    ConfigValue::Table(entries.into_iter().map(|(k, v)| (k.to_string(), v)).collect())
}

fn installs(cv: &ConfigValue) -> UpConfigGoInstalls {
    UpConfigGoInstalls::from_config_value(Some(cv))
}

#[test]
fn test_go_installs_string_input() {
    let config = installs(&s("github.com/owner/tool@v1.0.0"));
    assert_eq!(config.tools.len(), 1);
    assert_eq!(config.tools[0].path, "github.com/owner/tool");
    assert_eq!(config.tools[0].version, Some("v1.0.0".to_string()));
    assert!(config.tools[0].exact);
}

#[test]
fn test_go_installs_string_input_no_version() {
    let config = installs(&s("github.com/owner/tool"));
    assert_eq!(config.tools.len(), 1);
    assert_eq!(config.tools[0].path, "github.com/owner/tool");
    assert_eq!(config.tools[0].version, None);
    assert!(!config.tools[0].exact);
}

#[test]
fn test_go_installs_array_input() {
    let config = installs(&ConfigValue::Array(vec![
        s("github.com/owner/tool1@v1.0.0"),
        s("github.com/owner/tool2"),
    ]));
    assert_eq!(config.tools.len(), 2);
    assert_eq!(config.tools[0].path, "github.com/owner/tool1");
    assert_eq!(config.tools[0].version, Some("v1.0.0".to_string()));
    assert_eq!(config.tools[1].path, "github.com/owner/tool2");
    assert_eq!(config.tools[1].version, None);
}

#[test]
fn test_go_installs_object_with_path_key() {
    let config = installs(&t(vec![
        ("path", s("github.com/owner/tool")),
        ("version", s("1.0.0")),
        ("upgrade", ConfigValue::Bool(true)),
    ]));
    assert_eq!(config.tools.len(), 1);
    assert_eq!(config.tools[0].path, "github.com/owner/tool");
    assert_eq!(config.tools[0].version, Some("1.0.0".to_string()));
    assert!(config.tools[0].upgrade);
}

#[test]
fn test_go_installs_map_notation() {
    let config = installs(&t(vec![
        ("github.com/owner/tool1", s("v1.0.0")),
        ("github.com/owner/tool2", s("v2.0.0")),
    ]));
    assert_eq!(config.tools.len(), 2);
    assert_eq!(config.tools[0].path, "github.com/owner/tool1");
    assert_eq!(config.tools[0].version, Some("v1.0.0".to_string()));
    assert!(!config.tools[0].exact);
    assert_eq!(config.tools[1].path, "github.com/owner/tool2");
    assert_eq!(config.tools[1].version, Some("v2.0.0".to_string()));
    assert!(!config.tools[1].exact);
}

#[test]
fn test_go_installs_map_notation_with_object_values() {
    let config = installs(&t(vec![
        (
            "github.com/owner/tool1",
            t(vec![("version", s("1.0.0")), ("upgrade", ConfigValue::Bool(true))]),
        ),
        (
            "github.com/owner/tool2",
            t(vec![("version", s("2.0.0")), ("prerelease", ConfigValue::Bool(true))]),
        ),
    ]));
    assert_eq!(config.tools.len(), 2);
    assert_eq!(config.tools[0].path, "github.com/owner/tool1");
    assert_eq!(config.tools[0].version, Some("1.0.0".to_string()));
    assert!(config.tools[0].upgrade);
    assert_eq!(config.tools[1].path, "github.com/owner/tool2");
    assert_eq!(config.tools[1].version, Some("2.0.0".to_string()));
    assert!(config.tools[1].prerelease);
}

#[test]
fn test_go_installs_map_notation_sorting() {
    let config = installs(&t(vec![
        ("z-path.com/tool", s("v1.0.0")),
        ("a-path.com/tool", s("v2.0.0")),
        ("m-path.com/tool", s("v3.0.0")),
    ]));
    assert_eq!(config.tools.len(), 3);
    assert_eq!(config.tools[0].path, "a-path.com/tool");
    assert_eq!(config.tools[1].path, "m-path.com/tool");
    assert_eq!(config.tools[2].path, "z-path.com/tool");
}

#[test]
fn test_go_install_dirs_single_value() {
    let config = installs(&t(vec![("path", s("github.com/owner/tool")), ("dir", s("/path/to/dir"))]));
    assert_eq!(config.tools.len(), 1);
    assert!(config.tools[0].dirs.contains(&"/path/to/dir".to_string()));
}

#[test]
fn test_go_install_dirs_array_value() {
    let config = installs(&t(vec![
        ("path", s("github.com/owner/tool")),
        ("dir", ConfigValue::Array(vec![s("/path/to/dir1"), s("/path/to/dir2")])),
    ]));
    assert_eq!(config.tools.len(), 1);
    assert_eq!(config.tools[0].dirs.len(), 2);
    assert!(config.tools[0].dirs.contains(&"/path/to/dir1".to_string()));
    assert!(config.tools[0].dirs.contains(&"/path/to/dir2".to_string()));
}

#[test]
fn test_go_install_version_resolves_by_default() {
    let config = installs(&t(vec![("path", s("github.com/owner/tool")), ("version", s("1.0.0"))]));
    assert!(!config.tools[0].exact);
}

#[test]
fn test_go_install_exact_default_without_version() {
    let config = installs(&t(vec![("path", s("github.com/owner/tool"))]));
    assert!(
        !config.tools[0].exact,
        "exact should default to false when version is not specified"
    );
}

#[test]
fn test_go_install_exact_can_be_enabled_explicitly() {
    let config = installs(&t(vec![
        ("path", s("github.com/owner/tool")),
        ("version", s("1.0.0")),
        ("exact", ConfigValue::Bool(true)),
    ]));
    assert!(config.tools[0].exact);
}

#[test]
fn test_go_install_version_conflict_error() {
    let config = installs(&t(vec![
        ("path", s("github.com/owner/tool@v1.0.0")),
        ("version", s("2.0.0")),
    ]));
    assert!(
        config.tools[0].config_error.is_some(),
        "config_error should be set when version is specified in both path and version field"
    );
    assert!(config.tools[0].config_error.as_ref().unwrap().contains("both"));
}

#[test]
fn test_go_install_empty_default() {
    let config = UpConfigGoInstalls::from_config_value(None);
    assert!(config.tools.is_empty());
}

#[test]
fn go_install_invalid_paths_are_kept_with_their_error() {
    let tool = UpConfigGoInstall::from_config_value(Some(&s("a@b@c")));
    assert_eq!(tool.path, "a@b@c");
    assert_eq!(tool.config_error, Some("invalid path: multiple @ symbols found".to_string()));

    let tool = UpConfigGoInstall::from_config_value(None);
    assert_eq!(tool.config_error, Some("no configuration provided".to_string()));

    let tool = UpConfigGoInstall::from_config_value(Some(&ConfigValue::Null));
    assert_eq!(tool.config_error, Some("no import path provided".to_string()));

    let tool = UpConfigGoInstall::from_config_value(Some(&t(vec![("a", ConfigValue::Integer(1)), ("b", ConfigValue::Null)])));
    assert_eq!(tool.config_error, Some("path is required".to_string()));
}

#[test]
fn go_install_single_key_with_null_value_names_the_path() {
    let tool = UpConfigGoInstall::from_config_value(Some(&t(vec![("https://github.com/o/t", ConfigValue::Null)])));
    assert_eq!(tool.path, "github.com/o/t");
    assert_eq!(tool.version, None);
    assert_eq!(tool.config_error, None);
}

#[test]
fn cleaned_go_path_is_clean() {
    for input in ["https://github.com//a///b/", "//x/y", "git://host/p//q", "a"] {
        let q = validate_go_install_path(input).unwrap();
        assert!(!q.is_empty());
        assert!(!q.starts_with('/') && !q.ends_with('/') && !q.contains("//"));
        assert_eq!(validate_go_install_path(&q).unwrap(), q);
    }
}

#[test]
fn pseudo_version_makes_a_tool_exact() {
    let cv = t(vec![("path", s("github.com/a/b")), ("version", s("v0.0.0-20191109021931-daa7c04131f5"))]);
    let g = installs(&cv);
    assert!(!g.tools[0].exact);
    assert!(g.tools[0].exact());
    let cv = t(vec![("path", s("github.com/a/b")), ("version", s("v1.2.3"))]);
    assert!(!installs(&cv).tools[0].exact());
}
