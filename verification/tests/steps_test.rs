use omni_up::askpass::AskPassRequest;
use omni_up::asdf::asdf_tool_path;
use omni_up::bundler::UpConfigBundler;
use omni_up::config_value::{sorted_table_keys, ConfigErrorKind, ConfigValue};
use omni_up::custom::{CustomDownAction, CustomUpAction, UpConfigCustom};
use omni_up::error::UpError;
use omni_up::mise::{
    mise_cache_path, mise_env_location, mise_path, mise_tool_path, mise_where, parse_mise_name,
    MiseEnvOutput, MiseRegistry,
};
use omni_up::nodejs::UpConfigNodejsParams;
use omni_up::path::path_components;
use omni_up::python::UpConfigPythonParams;
use omni_up::up_config::{empty_operation_name, step_form, ParsedStep, StepForm, UpConfig, UpStep};
use omni_up::version_file::{version_file_names, version_from_tool_versions, version_from_version_file};

fn s(x: &str) -> ConfigValue {
    ConfigValue::Str(x.to_string())
}

fn t(entries: Vec<(&str, ConfigValue)>) -> ConfigValue {
    ConfigValue::Table(entries.into_iter().map(|(k, v)| (k.to_string(), v)).collect())
}

fn chars(x: &str) -> Vec<char> {
    x.chars().collect()
}

#[test]
fn tool_paths_are_below_the_data_home() {
    assert_eq!(asdf_tool_path("/d", "python", "3.11"), "/d/asdf/installs/python/3.11");
    assert_eq!(mise_path("/d"), "/d/mise");
    assert_eq!(mise_cache_path("/c"), "/c/mise");
    assert_eq!(mise_tool_path("/d", "node", "20"), "/d/mise/installs/node/20");
}

#[test]
fn askpass_prompt_defaults() {
    assert_eq!(AskPassRequest::new("").prompt(), "Password:");
    assert_eq!(AskPassRequest::new("Passphrase:").prompt(), "Passphrase:");
}

#[test]
fn bundler_defaults() {
    let b = UpConfigBundler::default();
    assert_eq!(b.path, Some("vendor/bundle".to_string()));
    assert_eq!(b.gemfile_name(), "Gemfile");
}

#[test]
fn custom_step_reads_commands_and_names() {
    let cv = t(vec![("meet", s("  make install  ")), ("met?", ConfigValue::Bool(true)), ("unmeet", s("make clean"))]);
    let c = UpConfigCustom::from_config_value(Some(&cv));
    assert_eq!(c.meet, "  make install  ");
    assert_eq!(c.met, Some("true".to_string()));
    assert_eq!(c.dir(), None);
    let up = c.up(Some(true));
    assert_eq!(up.name, "make");
    assert_eq!(up.action, CustomUpAction::SkipAlreadyMet);
    assert_eq!(c.up(None).action, CustomUpAction::RunMeet);
    let down = c.down(Some(false));
    assert_eq!(down.name, "make");
    assert_eq!(down.action, CustomDownAction::SkipNotMet);
    assert_eq!(c.down(None).action, CustomDownAction::Revert);

    let empty = UpConfigCustom::from_config_value(None);
    assert_eq!(empty.meet, "");
    assert_eq!(empty.up(None).name, "custom");
    let down = empty.down(Some(true));
    assert_eq!(down.name, "custom");
    assert_eq!(down.action, CustomDownAction::Nothing);
}

#[test]
fn nodejs_params_default_to_true() {
    let p = UpConfigNodejsParams::from_config_value(None);
    assert!(p.install_engines && p.install_packages);
    let p = UpConfigNodejsParams::from_config_value(Some(&t(vec![("install_packages", s("false"))])));
    assert!(p.install_engines);
    assert!(!p.install_packages);
}

#[test]
fn python_pip_settings() {
    let mut errors = Vec::new();
    let p = UpConfigPythonParams::from_config_value(Some(&t(vec![("pip", s("auto"))])), "python", &mut errors);
    assert!(p.pip_auto && p.pip_files.is_empty());
    let p = UpConfigPythonParams::from_config_value(Some(&t(vec![("pip", ConfigValue::Bool(false))])), "python", &mut errors);
    assert!(p.pip_disabled);
    let p = UpConfigPythonParams::from_config_value(
        Some(&t(vec![("pip", ConfigValue::Array(vec![s("a.txt"), ConfigValue::Null, ConfigValue::Integer(3)]))])),
        "python",
        &mut errors,
    );
    assert_eq!(p.pip_files, vec!["a.txt".to_string(), "3".to_string()]);
    assert_eq!(errors.len(), 1);
    assert_eq!(errors[0].key, "python.pip[1]");
    let p = UpConfigPythonParams::from_config_value(Some(&t(vec![("pip", t(vec![]))])), "python", &mut errors);
    assert!(!p.pip_auto && !p.pip_disabled && p.pip_files.is_empty());
    assert_eq!(errors.len(), 2);
    assert_eq!(errors[1].key, "python.pip");
    assert_eq!(errors[1].kind, ConfigErrorKind::InvalidValueType);
}

#[test]
fn version_files() {
    let contents = "# tools\n  nodejs 18.0.0\npython  3.11.4 system\npython 3.12\n";
    assert_eq!(version_from_tool_versions(contents, "Python"), Some("3.11.4".to_string()));
    assert_eq!(version_from_tool_versions(contents, "node"), Some("18.0.0".to_string()));
    assert_eq!(version_from_tool_versions("ruby system\n", "ruby"), None);
    assert_eq!(version_file_names("GoLang", "golang"), vec![".go-version".to_string(), ".golang-version".to_string()]);
    assert_eq!(version_file_names("node", "go"), vec![".node-version".to_string(), ".nodejs-version".to_string()]);
    assert_eq!(version_file_names("Ruby", "go"), vec![".ruby-version".to_string()]);
    assert_eq!(version_from_version_file("  3.2.1\n"), Some("3.2.1".to_string()));
    assert_eq!(version_from_version_file(" \n"), None);
}

#[test]
fn paths_split_into_components() {
    let comps: Vec<String> = path_components(&chars("/a//b/./c/")).into_iter().map(|c| c.into_iter().collect()).collect();
    assert_eq!(comps, vec!["/", "a", "b", "c"]);
    let comps: Vec<String> = path_components(&chars("./x/../y")).into_iter().map(|c| c.into_iter().collect()).collect();
    assert_eq!(comps, vec![".", "x", "..", "y"]);
}

#[test]
fn mise_where_reads_the_tool_directory() {
    let r = mise_where("python", "3.11", "/d/mise", "/d/mise/installs/python/3.11\n").unwrap();
    assert_eq!(r, "python");
    let e = mise_where("python", "3.11", "/d/mise", "/elsewhere/python/3.11").unwrap_err();
    assert_eq!(e.message(), "mise where for python 3.11 returned invalid location: /elsewhere/python/3.11");
    let e = mise_where("python", "3.11", "/d/mise", "/d/mise/installs").unwrap_err();
    assert_eq!(e.message(), "mise where for python 3.11 does not contain tool name: /d/mise/installs");
}

#[test]
fn mise_env_reads_the_binary_path() {
    let out = MiseEnvOutput { path: "::/d/mise/installs/node/20/bin:/usr/bin".to_string() };
    let paths = out.path();
    assert_eq!(paths, vec!["/d/mise/installs/node/20/bin".to_string(), "/usr/bin".to_string()]);
    let (tool, bin) = mise_env_location("node", "20", "/d/mise", &paths).unwrap();
    assert_eq!(tool, "node");
    assert_eq!(bin, "bin");
    let e = mise_env_location("node", "21", "/d/mise", &paths).unwrap_err();
    assert_eq!(e.message(), "mise env for node 21 returned invalid version: /d/mise/installs/node/20/bin");
    let e = mise_env_location("node", "21", "/d/mise", &vec![]).unwrap_err();
    assert!(matches!(e, UpError::Exec(_)));
    assert_eq!(e.message(), "mise env for node 21 returned empty path");
}

#[test]
fn mise_names_and_registry() {
    assert_eq!(parse_mise_name("ubi:owner/tool@1.2"), ("owner/tool".to_string(), Some("ubi".to_string()), Some("1.2".to_string())));
    assert_eq!(parse_mise_name("python"), ("python".to_string(), None, None));

    let reg = MiseRegistry::parse_output("terraform aqua:hashicorp/terraform asdf:asdf-community/asdf-hashicorp[os=linux]\ngo go:golang.org/dl\n").unwrap();
    assert_eq!(reg.entries.len(), 3);
    assert_eq!(reg.entries[0].short_name, "terraform");
    assert_eq!(reg.entries[0].backend, "aqua");
    assert_eq!(reg.entries[0].repository, None);
    assert_eq!(reg.entries[1].clean_name, "asdf-community/asdf-hashicorp");
    assert_eq!(reg.entries[1].repository, Some("https://github.com/asdf-community/asdf-hashicorp".to_string()));
    assert_eq!(reg.entries[2].repository, Some("https://golang.org/dl".to_string()));

    let (name, backend, repo) = MiseRegistry::parse_full_name("asdf:https://example.com/plugin.git").unwrap();
    assert_eq!(name, "https://example.com/plugin.git");
    assert_eq!(backend, "asdf");
    assert_eq!(repo, Some("https://example.com/plugin.git".to_string()));

    let e = MiseRegistry::parse_line("lonely").unwrap_err();
    assert_eq!(e.message(), "invalid mise registry line: lonely");
    let e = MiseRegistry::parse_full_name("core:python[x").unwrap_err();
    assert_eq!(e.message(), "invalid mise registry full name: core:python[x");
}

#[test]
fn table_keys_in_order() {
    let entries = vec![
        ("b".to_string(), ConfigValue::Null),
        ("a".to_string(), ConfigValue::Null),
        ("ab".to_string(), ConfigValue::Null),
        ("a".to_string(), ConfigValue::Null),
    ];
    assert_eq!(sorted_table_keys(&entries), vec!["a".to_string(), "ab".to_string(), "b".to_string()]);
}

#[test]
fn up_steps_and_empty_operations() {
    for alias in ["cargo-crate", "gh-releases", "go_install", "github"] {
        assert!(empty_operation_name(alias).is_some());
        assert!(matches!(step_form(&s(alias)), StepForm::EmptyOperation(_)));
        assert!(matches!(step_form(&t(vec![(alias, ConfigValue::Null)])), StepForm::EmptyOperation(_)));
    }
    assert_eq!(empty_operation_name("ghrelease"), Some("github-release".to_string()));
    assert_eq!(empty_operation_name("python"), None);
    match step_form(&s("python")) {
        StepForm::NamedTool(n) => assert_eq!(n, "python"),
        _ => panic!("expected a tool name"),
    }
    match step_form(&ConfigValue::Integer(32)) {
        StepForm::NamedTool(n) => assert_eq!(n, "32"),
        _ => panic!("expected a tool name"),
    }
    assert!(matches!(step_form(&t(vec![("cargo-install", t(vec![]))])), StepForm::AsIs));

    let step = UpStep { available: true, was_upped: false, data_paths: vec![], dir: None };
    let up = UpConfig::from_parsed(vec![
        ParsedStep::EmptyOperation("go-install".to_string()),
        ParsedStep::Tool(step),
        ParsedStep::Invalid,
    ], "up");
    assert!(up.has_steps());
    assert!(up.has_errors());
    assert_eq!(
        up.errors(),
        vec![
            UpError::Config("go-install operation details are empty".to_string()),
            UpError::Config("invalid config for step 3".to_string()),
        ]
    );
    assert_eq!(up.records.len(), 1);
    assert_eq!(up.records[0].code, "C002");
    assert_eq!(up.records[0].path, "up[0].go-install");
    assert_eq!(up.records[0].message, "operation details are empty");
}

#[test]
fn empty_operations_are_reported_and_recorded() {
    let parsed: Vec<ParsedStep> = ["cargo-crate", "gh-release", "go-tools"]
        .iter()
        .map(|tag| match step_form(&s(tag)) {
            StepForm::EmptyOperation(op) => ParsedStep::EmptyOperation(op),
            _ => ParsedStep::Invalid,
        })
        .collect();
    let up = UpConfig::from_parsed(parsed, "up");
    assert!(!up.has_steps());
    assert_eq!(
        up.errors(),
        vec![
            UpError::Config("cargo-install operation details are empty".to_string()),
            UpError::Config("github-release operation details are empty".to_string()),
            UpError::Config("go-install operation details are empty".to_string()),
        ]
    );
    assert_eq!(up.records.len(), 3);
    assert!(up.records.iter().all(|r| r.code == "C002"));
    assert_eq!(up.records[1].path, "up[1].github-release");
}

#[test]
fn mise_full_name_with_reversed_brackets_is_an_error() {
    let e = MiseRegistry::parse_full_name("ubi:a]b[c").unwrap_err();
    assert_eq!(e.message(), "invalid mise registry full name: ubi:a]b[c");
    assert!(MiseRegistry::parse_line("tool ubi:a]b[c").is_err());
}
