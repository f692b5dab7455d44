use omni_up::asdf::{
    cleanup_plan, cleanup_report, parse_listed_versions, select_version, version_match, AsdfInstalled,
    UpConfigAsdfBase,
};
use omni_up::config_value::ConfigValue;
use omni_up::detect::{
    detected_dir, detection_message, is_in_vendor, search_dirs, up_text, auto_up_text, DetectedVersions,
};
use omni_up::error::UpError;
use omni_up::nix::{file_name, NixSource, UpConfigNix};
use omni_up::nodejs::{engine_install_target, PackageInstallEngine};
use omni_up::python::{venv_support, VenvSupport};
use omni_up::golang::{extract_version_from_gomod, UpConfigGolang};
use omni_up::nix::flake_archive_paths;
use omni_up::nix::{NixProfile, NixProfileVariable};
use omni_up::mise::{MiseLsOutput, MiseLsVersion, MiseLsVersionSource};
use omni_up::up_config::{cleanup_data_path_report, cleanup_summary, expected_data_paths};
use omni_up::python::version_from_pyproject;
use omni_up::nodejs::{nvmrc_version, package_json_version};
use omni_up::options::UpOptions;

fn s(x: &str) -> ConfigValue {
    ConfigValue::Str(x.to_string())
}

fn a(xs: Vec<ConfigValue>) -> ConfigValue {
    ConfigValue::Array(xs)
}

fn t(entries: Vec<(&str, ConfigValue)>) -> ConfigValue {
    ConfigValue::Table(entries.into_iter().map(|(k, v)| (k.to_string(), v)).collect())
}

fn strings(xs: &[&str]) -> Vec<String> {
    xs.iter().map(|x| x.to_string()).collect()
}

#[test]
fn latest_accepts_plain_releases_only() {
    assert!(version_match("latest", "3.12.1"));
    assert!(version_match("latest", "10"));
    assert!(!version_match("latest", "3.12.1rc1"));
    assert!(!version_match("latest", ".1"));
    assert!(!version_match("latest", "1..2"));
}

#[test]
fn requests_match_by_range_or_prefix() {
    assert!(version_match("3.11", "3.11.4"));
    assert!(!version_match("3.11", "3.12.0"));
    assert!(version_match("^18", "18.19.0"));
    assert!(!version_match("^18", "20.1.0"));
    assert!(version_match("1.2", "1.2.3.4"));
    assert!(!version_match("1.2", "1.2.3-beta"));
}

#[test]
fn the_last_matching_version_is_selected() {
    let available = strings(&["3.10.1", "3.11.0", "3.11.4", "3.12.0", "3.11.9rc1"]);
    assert_eq!(select_version("3.11", &available), "3.11.4");
    assert_eq!(select_version("latest", &available), "3.12.0");
    assert_eq!(select_version("4", &available), "");
}

#[test]
fn listed_versions_are_trimmed_lines() {
    assert_eq!(parse_listed_versions("  1.0\n\n 2.0 \r\n3.0"), strings(&["1.0", "2.0", "3.0"]));
}

#[test]
fn asdf_config_reads_version_and_dirs() {
    let cv = t(vec![("version", s("3.11")), ("dir", a(vec![s("b/./c"), s("a/../a"), s("b/c")]))]);
    let r = UpConfigAsdfBase::from_config_value("python", Some(&cv));
    assert_eq!(r.tool, "python");
    assert_eq!(r.version, "3.11");
    assert_eq!(r.dirs, strings(&["a", "b/c"]));
    let r = UpConfigAsdfBase::from_config_value("python", Some(&ConfigValue::Integer(3)));
    assert_eq!(r.version, "3");
    let r = UpConfigAsdfBase::from_config_value_with_url("ruby", "https://x/y", None);
    assert_eq!(r.version, "latest");
    assert_eq!(r.tool_url, Some("https://x/y".to_string()));
    assert!(r.dirs.is_empty());
    assert_eq!(r.up_dirs(), strings(&[""]));
}

#[test]
fn asdf_version_is_resolved_once() {
    let mut r = UpConfigAsdfBase::new("python", "3.11", &strings(&["z", "a", "z"]));
    assert_eq!(r.dirs, strings(&["a", "z"]));
    let available = strings(&["3.11.1", "3.11.2"]);
    assert_eq!(r.version(Some(&available)), Ok("3.11.2".to_string()));
    assert_eq!(r.version(None), Ok("3.11.2".to_string()));
    let mut none = UpConfigAsdfBase::new("python", "4", &vec![]);
    assert_eq!(
        none.version(Some(&available)),
        Err(UpError::Exec("No python version found matching 4".to_string()))
    );
}

#[test]
fn asdf_runs_once() {
    let mut r = UpConfigAsdfBase::new("python", "3", &vec![]);
    assert!(r.check_not_attempted().is_ok());
    assert!(!r.was_upped());
    r.record_up(true);
    r.record_up(false);
    assert!(r.was_upped());
    assert_eq!(
        r.check_not_attempted(),
        Err(UpError::Exec("up operation already attempted".to_string()))
    );
    let auto = r.new_from_auto("3.12.0", &strings(&["x"]));
    assert_eq!(auto.version, "3.12.0");
    assert_eq!(auto.up_succeeded, None);
}

#[test]
fn asdf_cleanup_plan_drops_requirements() {
    let mut installed = vec![
        AsdfInstalled { tool: "python".into(), version: "3.11".into(), required_by: strings(&["wd1"]) },
        AsdfInstalled { tool: "python".into(), version: "3.12".into(), required_by: strings(&["wd1", "wd2"]) },
        AsdfInstalled { tool: "ruby".into(), version: "3".into(), required_by: strings(&["wd1"]) },
    ];
    let expected = vec![("ruby".to_string(), "3".to_string())];
    let (updated, to_remove) = cleanup_plan(&mut installed, "wd1", &expected);
    assert!(updated);
    assert_eq!(to_remove, vec![0]);
    assert!(installed[0].required_by.is_empty());
    assert_eq!(installed[1].required_by, strings(&["wd2"]));
    assert_eq!(installed[2].required_by, strings(&["wd1"]));
    assert_eq!(
        cleanup_report(&vec![("python".to_string(), "3.11".to_string())]),
        Some("uninstalled python:3.11".to_string())
    );
    assert_eq!(cleanup_report(&vec![]), None);
}

#[test]
fn detected_versions_group_directories() {
    let mut d = DetectedVersions::new();
    assert!(d.is_empty());
    d.insert("3.12".to_string(), "b".to_string());
    d.insert("3.11".to_string(), "z".to_string());
    d.insert("3.12".to_string(), "a".to_string());
    d.insert("3.12".to_string(), "b".to_string());
    assert_eq!(
        d.entries,
        vec![
            ("3.11".to_string(), strings(&["z"])),
            ("3.12".to_string(), strings(&["a", "b"])),
        ]
    );
}

#[test]
fn detection_helpers() {
    assert_eq!(search_dirs(&vec![]), strings(&[""]));
    assert_eq!(search_dirs(&strings(&["//a", "b"])), strings(&["a", "b"]));
    assert_eq!(detected_dir("/x/y/"), "x/y");
    assert_eq!(detection_message("1.0", ""), "detected required version 1.0 at root");
    assert_eq!(detection_message("1.0", "x"), "detected required version 1.0 in x");
    assert!(is_in_vendor("a/vendor/b"));
    assert!(!is_in_vendor("a/vendors/b"));
    assert_eq!(
        auto_up_text("node", &strings(&["18.0.0", "20.1.0"]), &strings(&["16.0.0"])),
        "node 18.0.0, 20.1.0 installed, node 16.0.0 already installed"
    );
    assert_eq!(auto_up_text("node", &vec![], &strings(&["16.0.0"])), "node 16.0.0 already installed");
    assert_eq!(up_text("ruby", "3.3.0", true), "ruby 3.3.0 installed");
    assert_eq!(up_text("ruby", "3.3.0", false), "ruby 3.3.0 already installed");
}

#[test]
fn configured_dirs_are_normalized() {
    let cv = t(vec![("dir", s("/A/foo/../B/./"))]);
    assert_eq!(UpConfigAsdfBase::from_config_value("ruby", Some(&cv)).dirs, strings(&["/A/B"]));
}

#[test]
fn nix_source_is_chosen() {
    let none: Vec<String> = vec![];
    let src = NixSource::new(Some("/wd/flake.nix".into()), &none, "/wd", None).unwrap();
    assert!(matches!(src, NixSource::Flake(ref f) if f == "/wd/flake.nix"));
    assert_eq!(src.name(), "flake.nix");
    let src = NixSource::new(None, &none, "/wd", Some("/wd/shell.nix".into())).unwrap();
    assert!(matches!(src, NixSource::NixFile(ref f) if f == "/wd/shell.nix"));
    assert_eq!(src.desc("/wd"), "packages from shell.nix");
    assert_eq!(
        NixSource::new(None, &none, "/wd", None).unwrap_err(),
        UpError::Exec("no nix file found in /wd".to_string())
    );
    assert_eq!(
        NixSource::new(Some("/other/a.nix".into()), &none, "/wd", None).unwrap_err(),
        UpError::Exec("file /other/a.nix is not in work directory".to_string())
    );
    let src = NixSource::new(None, &strings(&["jq", "git", "jq"]), "/wd", None).unwrap();
    assert!(matches!(src, NixSource::Packages(ref p) if *p == strings(&["git", "jq"])));
    assert_eq!(src.name(), "packages");
    assert_eq!(src.desc("/wd"), "2 packages");
}

#[test]
fn nix_profile_ids_hash_what_they_come_from() {
    let src = NixSource::Packages(strings(&["git", "jq"]));
    let hash = blake3::hash(b"git\njq").to_hex().to_string();
    assert_eq!(src.profile_id(&vec![]), format!("profile-pkgs-{}", &hash[..16]));
    let src = NixSource::NixFile("/wd/shell.nix".to_string());
    let hash = blake3::hash(b"{ }").to_hex().to_string();
    assert_eq!(src.profile_id(&b"{ }".to_vec()), format!("profile-shell.nix-{}", &hash[..16]));
    assert_eq!(file_name("/wd/.."), None);
    assert_eq!(file_name("/"), None);
}

#[test]
fn package_engines_are_ordered_by_weight() {
    let engines = strings(&["yarn"]);
    assert_eq!(PackageInstallEngine::Yarn.weight(&engines, false), 1);
    assert_eq!(PackageInstallEngine::Npm.weight(&engines, true), 2);
    assert_eq!(
        PackageInstallEngine::all_sorted(&engines, false, false, false),
        vec![PackageInstallEngine::Yarn, PackageInstallEngine::Npm, PackageInstallEngine::Pnpm]
    );
    assert_eq!(
        PackageInstallEngine::all_sorted(&vec![], false, false, false),
        vec![PackageInstallEngine::Npm, PackageInstallEngine::Yarn, PackageInstallEngine::Pnpm]
    );
    assert_eq!(
        PackageInstallEngine::all_sorted(&engines, true, false, false),
        vec![PackageInstallEngine::Pnpm, PackageInstallEngine::Yarn, PackageInstallEngine::Npm]
    );
    assert_eq!(PackageInstallEngine::Pnpm.lock_file(), "pnpm-lock.yaml");
    assert_eq!(PackageInstallEngine::Npm.name(), "npm");
    assert_eq!(engine_install_target("node", "18"), None);
    assert_eq!(engine_install_target("pnpm", ">=8"), Some("pnpm@>=8".to_string()));
}

#[test]
fn venv_needs_python_3_3() {
    assert_eq!(venv_support("3.12.1"), VenvSupport::Supported);
    assert_eq!(venv_support("3.3.0"), VenvSupport::Supported);
    assert_eq!(venv_support("3.3.0-rc1"), VenvSupport::TooOld);
    assert_eq!(venv_support("2.7.18"), VenvSupport::TooOld);
    assert_eq!(venv_support("3.12"), VenvSupport::Unsupported);
}

#[test]
fn gomod_versions_come_from_the_go_directive() {
    let contents = "module example.com/x\n\ngo 1.21.5\n\nrequire (\n)\n";
    assert_eq!(extract_version_from_gomod(contents, "go.mod"), Ok(Some("1.21.5".to_string())));
    assert_eq!(extract_version_from_gomod("go 1.22\r\n", "go.mod"), Ok(Some("1.22".to_string())));
    assert_eq!(
        extract_version_from_gomod("module x\ngo 1\ngolang 1.2\n", "/wd/go.mod"),
        Err(UpError::Exec("no version found in version file (/wd/go.mod)".to_string()))
    );
}

#[test]
fn flake_archives_list_store_paths() {
    let archive = r#"{"path":"/nix/store/abc-source","inputs":{"x":{"path":"/nix/store/def-x"}}}"#;
    assert_eq!(
        flake_archive_paths(archive),
        strings(&["/nix/store/abc-source", "/nix/store/def-x"])
    );
    assert!(flake_archive_paths("nothing here").is_empty());
}

#[test]
fn nix_profiles_give_variables_and_paths() {
    let p = NixProfile {
        variables: vec![
            ("NIX_CFLAGS_COMPILE".to_string(), NixProfileVariable::Var("-I/x".to_string())),
            ("PKG_CONFIG_PATH".to_string(), NixProfileVariable::Var("/a:/b".to_string())),
            ("pkgsHostTarget".to_string(), NixProfileVariable::Array(strings(&["/n/a", "/n/a", "/n/b"]))),
            ("pkgsHostHost".to_string(), NixProfileVariable::Array(strings(&["/n/b", "/n/c/"]))),
            ("other".to_string(), NixProfileVariable::Unknown),
        ],
    };
    assert_eq!(p.get_cflags(), Some("-I/x".to_string()));
    assert_eq!(p.get_ldflags(), None);
    assert_eq!(p.get_var("other"), None);
    assert_eq!(p.get_pkg_config_paths(), strings(&["/a", "/b"]));
    assert_eq!(p.candidate_paths(), strings(&["/n/a/bin", "/n/b/bin", "/n/c/bin"]));
}

#[test]
fn mise_ls_output_filters_versions() {
    let v = |version: &str, req: Option<&str>, src: Option<&str>| MiseLsVersion {
        version: version.to_string(),
        requested_version: req.map(|r| r.to_string()),
        source: src.map(|p| MiseLsVersionSource { version_type: "mise.toml".to_string(), path: p.to_string() }),
    };
    let out = MiseLsOutput {
        versions: vec![
            v("system", Some("system"), Some("/wd/mise.toml")),
            v("20.1.0", Some("20"), Some("/wd/mise.toml")),
            v("18.0.0", Some("18"), Some("/wd/sub/.tool-versions")),
            v("16.0.0", None, None),
        ],
    };
    assert_eq!(out.versions(), strings(&["20.1.0", "18.0.0", "16.0.0"]));
    assert_eq!(out.requested_versions("/wd"), strings(&["20"]));
    assert_eq!(out.requested_versions("/wd/sub/"), strings(&["18"]));
    assert!(out.has_version("16.0.0"));
    assert!(!out.has_version("14"));
}

#[test]
fn data_path_cleanup_reports() {
    assert_eq!(
        expected_data_paths("/d/wd", &strings(&["/d/wd/b", "/d/other", "/d/wd/a", "/d/wd/b"])),
        strings(&["/d/wd/a", "/d/wd/b"])
    );
    assert_eq!(cleanup_data_path_report("/d/wd", true, 0), Some("removed workdir data path /d/wd".to_string()));
    assert_eq!(cleanup_data_path_report("/d/wd", false, 0), None);
    assert_eq!(cleanup_data_path_report("/d/wd", false, 1), Some("removed 1 entry from the data path".to_string()));
    assert_eq!(cleanup_data_path_report("/d/wd", false, 3), Some("removed 3 entries from the data path".to_string()));
    assert_eq!(cleanup_summary(&vec![]), "nothing to do");
    assert_eq!(cleanup_summary(&strings(&["a", "b"])), "a, b");
}

#[test]
fn pyproject_versions_come_from_the_usual_places() {
    let doc = t(vec![("project", t(vec![("requires-python", s(">=3.9"))]))]);
    assert_eq!(version_from_pyproject(&doc), Some(">=3.9".to_string()));
    let doc = t(vec![(
        "tool",
        t(vec![("poetry", t(vec![("dependencies", t(vec![("python", t(vec![("version", s("^3.10"))]))]))]))]),
    )]);
    assert_eq!(version_from_pyproject(&doc), Some("^3.10".to_string()));
    let doc = t(vec![(
        "build-system",
        t(vec![("requires", a(vec![s("setuptools>=61"), s("python_version >= '3.8' ")]))]),
    )]);
    assert_eq!(version_from_pyproject(&doc), Some("= 3.8".to_string()));
    let doc = t(vec![("build-system", t(vec![("requires", a(vec![s("python>=3.7")]))]))]);
    assert_eq!(version_from_pyproject(&doc), Some("=3.7".to_string()));
    assert_eq!(version_from_pyproject(&t(vec![])), None);
}

#[test]
fn node_versions_from_package_files() {
    let engines = vec![("npm".to_string(), ">=9".to_string()), ("node".to_string(), ">=18 <21".to_string())];
    assert_eq!(package_json_version("/wd", &engines), Some(">=18 <21".to_string()));
    assert_eq!(package_json_version("/wd/node_modules/x", &engines), None);
    let bad = vec![("node".to_string(), "not a range !!".to_string())];
    assert_eq!(package_json_version("/wd", &bad), None);
    assert_eq!(nvmrc_version("/wd", " 20.1.0\n"), Some("20.1.0".to_string()));
    assert_eq!(nvmrc_version("/wd/node_modules/x/", "20"), None);
}

#[test]
fn options_builders() {
    let o = UpOptions::new();
    assert!(o.read_cache && o.write_cache && !o.upgrade && !o.fail_on_upgrade);
    let o = o.cache_disabled().upgrade(true).fail_on_upgrade(true);
    assert!(!o.read_cache && !o.write_cache && o.upgrade && o.fail_on_upgrade);
    assert!(UpOptions::default().cache(false) == UpOptions { read_cache: false, ..UpOptions::default() });
}

#[test]
fn nodejs_step_reads_tool_and_params() {
    let cv = t(vec![("version", s("20")), ("install_packages", s("false"))]);
    let n = omni_up::nodejs::UpConfigNodejs::from_config_value(Some(&cv));
    assert_eq!(n.asdf_base.tool, "nodejs");
    assert_eq!(n.asdf_base.version, "20");
    assert!(n.params.install_engines);
    assert!(!n.params.install_packages);
}

#[test]
fn nix_bare_step_is_default_configuration() {
    let mut errors = Vec::new();
    let nix = UpConfigNix::from_config_value(None, "up[0].nix", &mut errors);
    assert!(errors.is_empty());
    assert!(nix.packages.is_empty());
    assert!(nix.nixfile.is_none());

    let empty = ConfigValue::Table(Vec::new());
    let nix = UpConfigNix::from_config_value(Some(&empty), "up[0].nix", &mut errors);
    assert!(errors.is_empty());
    assert!(nix.packages.is_empty());
    assert!(nix.nixfile.is_none());

    let other = ConfigValue::Table(vec![("other".to_string(), ConfigValue::Bool(true))]);
    let _ = UpConfigNix::from_config_value(Some(&other), "up[0].nix", &mut errors);
    assert_eq!(errors.len(), 1);
    assert_eq!(errors[0].key, "up[0].nix.packages");
    assert!(errors[0].expected.is_empty());

    let mut errors = Vec::new();
    let _ = UpConfigNix::from_config_value(Some(&ConfigValue::Null), "up[0].nix", &mut errors);
    assert_eq!(errors.len(), 1);
    assert_eq!(errors[0].key, "up[0].nix");
    assert_eq!(errors[0].expected, vec!["string, array or table".to_string()]);
}

#[test]
fn golang_step_configuration() {
    let mut errors = Vec::new();
    let g = UpConfigGolang::from_config_value(Some(&ConfigValue::Str("1.22".to_string())), "up[0].go", &mut errors);
    assert_eq!(g.version, Some("1.22".to_string()));
    assert!(errors.is_empty());

    let cv = ConfigValue::Table(vec![
        ("version_file".to_string(), ConfigValue::Str("go.mod".to_string())),
        ("dir".to_string(), ConfigValue::Array(vec![
            ConfigValue::Str("b/./c".to_string()),
            ConfigValue::Str("a".to_string()),
            ConfigValue::Str("a".to_string()),
        ])),
        ("upgrade".to_string(), ConfigValue::Bool(true)),
    ]);
    let g = UpConfigGolang::from_config_value(Some(&cv), "up[0].go", &mut errors);
    assert_eq!(g.version, None);
    assert_eq!(g.version_file, Some("go.mod".to_string()));
    assert!(g.upgrade);
    assert_eq!(g.dirs, vec!["a".to_string(), "b/c".to_string()]);
    assert!(errors.is_empty());

    let cv = ConfigValue::Table(vec![
        ("version".to_string(), ConfigValue::Bool(true)),
        ("upgrade".to_string(), ConfigValue::Str("yes".to_string())),
    ]);
    let g = UpConfigGolang::from_config_value(Some(&cv), "up[0].go", &mut errors);
    assert_eq!(g.version, None);
    assert!(!g.upgrade);
    assert_eq!(errors.len(), 2);
    assert_eq!(errors[0].key, "up[0].go.version");
    assert_eq!(errors[1].key, "up[0].go.upgrade");
    assert_eq!(UpConfigGolang::new_any_version().version, Some("*".to_string()));
}
