use omni_up::config_value::{ConfigError, ConfigErrorKind, ConfigValue};
use omni_up::error::UpError;
use omni_up::github_release::{
    binary_names, checksum_from_file, AssetNameMatcher, GithubReleaseChecksumAlgorithm,
    GithubReleaseChecksumConfig, UpConfigGithubRelease, UpConfigGithubReleases,
};

fn s(x: &str) -> ConfigValue {
    ConfigValue::Str(x.to_string())
}

fn t(entries: Vec<(&str, ConfigValue)>) -> ConfigValue {
    ConfigValue::Table(entries.into_iter().map(|(k, v)| (k.to_string(), v)).collect())
}

fn multi(cv: &ConfigValue) -> (UpConfigGithubReleases, Vec<ConfigError>) {
    let mut errors = Vec::new();
    let r = UpConfigGithubReleases::from_config_value(Some(cv), "", &mut errors, "linux", "x86_64");
    (r, errors)
}

fn single(cv: &ConfigValue) -> (UpConfigGithubRelease, Vec<ConfigError>) {
    let mut errors = Vec::new();
    let r = UpConfigGithubRelease::from_config_value(Some(cv), "", &mut errors, "linux", "x86_64");
    (r, errors)
}

fn assert_defaults(r: &UpConfigGithubRelease, repository: &str, version: Option<&str>) {
    assert_eq!(r.repository, repository);
    assert_eq!(r.version, version.map(|v| v.to_string()));
    assert!(!r.prerelease);
    assert!(!r.build);
    assert!(r.binary);
    assert_eq!(r.api_url, None);
}

fn full_settings() -> Vec<(&'static str, ConfigValue)> {
    vec![
        ("version", s("2.3.4")),
        ("prerelease", ConfigValue::Bool(true)),
        ("build", ConfigValue::Bool(true)),
        ("binary", ConfigValue::Bool(false)),
        ("api_url", s("https://gh.example.com")),
    ]
}

fn assert_full(r: &UpConfigGithubRelease, repository: &str, version: &str) {
    assert_eq!(r.repository, repository);
    assert_eq!(r.version, Some(version.to_string()));
    assert!(r.prerelease);
    assert!(r.build);
    assert!(!r.binary);
    assert_eq!(r.api_url, Some("https://gh.example.com".to_string()));
}

fn check_empty() {
    let (config, _) = multi(&ConfigValue::Null);
    assert_eq!(config.releases.len(), 0);
}

fn check_str() {
    let (config, _) = multi(&s("owner/repo"));
    assert_eq!(config.releases.len(), 1);
    assert_defaults(&config.releases[0], "owner/repo", None);

    let (config, _) = single(&s("owner/repo"));
    assert_defaults(&config, "owner/repo", None);
}

fn check_object_single() {
    let (config, _) = multi(&t(vec![("repository", s("owner/repo"))]));
    assert_eq!(config.releases.len(), 1);
    assert_defaults(&config.releases[0], "owner/repo", None);
}

fn check_object_multi() {
    let cv = t(vec![
        ("owner/repo", s("1.2.3")),
        ("owner2/repo2", t(full_settings())),
        ("owner3/repo3", t(vec![])),
    ]);
    let (config, _) = multi(&cv);
    assert_eq!(config.releases.len(), 3);
    assert_defaults(&config.releases[0], "owner/repo", Some("1.2.3"));
    assert_full(&config.releases[1], "owner2/repo2", "2.3.4");
    assert_defaults(&config.releases[2], "owner3/repo3", None);
}

fn check_list_multi() {
    let mut second = vec![("repository", s("owner2/repo2"))];
    second.extend(full_settings());
    let cv = ConfigValue::Array(vec![
        s("owner/repo"),
        t(second),
        t(vec![("owner3/repo3", s("3.4.5"))]),
        t(vec![("owner4/repo4", t(vec![("version", s("4.5.6"))]))]),
    ]);
    let (config, _) = multi(&cv);
    assert_eq!(config.releases.len(), 4);
    assert_defaults(&config.releases[0], "owner/repo", None);
    assert_full(&config.releases[1], "owner2/repo2", "2.3.4");
    assert_defaults(&config.releases[2], "owner3/repo3", Some("3.4.5"));
    assert_defaults(&config.releases[3], "owner4/repo4", Some("4.5.6"));
}

fn check_object() {
    let (config, _) = single(&t(vec![("repository", s("owner/repo"))]));
    assert_defaults(&config, "owner/repo", None);
}

fn check_object_repo_alias() {
    let (config, _) = single(&t(vec![("repo", s("owner/repo"))]));
    assert_defaults(&config, "owner/repo", None);
}

fn check_with_all_values() {
    let mut settings = vec![("repository", s("owner/repo"))];
    settings.extend(full_settings());
    settings[1] = ("version", s("1.2.3"));
    let (config, _) = single(&t(settings));
    assert_full(&config, "owner/repo", "1.2.3");
}

#[test]
fn github_release_empty() {
    check_empty();
}

#[test]
fn github_release_str() {
    check_str();
}

#[test]
fn github_release_object_single() {
    check_object_single();
}

#[test]
fn github_release_object_multi() {
    check_object_multi();
}

#[test]
fn github_release_list_multi() {
    check_list_multi();
}

#[test]
fn github_release_object() {
    check_object();
}

#[test]
fn github_release_object_repo_alias() {
    check_object_repo_alias();
}

#[test]
fn github_release_with_all_values() {
    check_with_all_values();
}

#[test]
fn github_release_test_empty() {
    check_empty();
}

#[test]
fn github_release_test_str() {
    check_str();
}

#[test]
fn github_release_test_object_single() {
    check_object_single();
}

#[test]
fn github_release_test_object_multi() {
    check_object_multi();
}

#[test]
fn github_release_test_list_multi() {
    check_list_multi();
}

#[test]
fn github_release_test_object() {
    check_object();
}

#[test]
fn github_release_test_object_repo_alias() {
    check_object_repo_alias();
}

#[test]
fn github_release_test_with_all_values() {
    check_with_all_values();
}

#[test]
fn missing_releases_are_reported_as_empty() {
    let mut errors = Vec::new();
    let r = UpConfigGithubReleases::from_config_value(None, "up.github", &mut errors, "linux", "x86_64");
    assert!(r.releases.is_empty());
    assert_eq!(errors.len(), 1);
    assert_eq!(errors[0].key, "up.github");
    assert_eq!(errors[0].kind, ConfigErrorKind::EmptyKey);
}

#[test]
fn repository_table_is_owner_and_name() {
    let cv = t(vec![("repository", t(vec![("owner", s("me")), ("name", s("tool"))]))]);
    let (r, errors) = single(&cv);
    assert_eq!(r.repository, "me/tool");
    assert!(errors.is_empty());

    let cv = t(vec![("repository", t(vec![("owner", s("me"))]))]);
    let (r, errors) = single(&cv);
    assert_eq!(r.repository, "me/");
    assert_eq!(errors.len(), 1);
    assert_eq!(errors[0].key, "repository.name");
    assert_eq!(errors[0].kind, ConfigErrorKind::MissingKey);
}

#[test]
fn table_without_repository_is_reported() {
    let cv = t(vec![("version", s("1.0")), ("upgrade", ConfigValue::Bool(true))]);
    let (r, errors) = single(&cv);
    assert_eq!(r.repository, "");
    assert_eq!(errors.len(), 1);
    assert_eq!(errors[0].key, "repository");
    assert_eq!(errors[0].kind, ConfigErrorKind::MissingKey);
}

#[test]
fn wrong_flag_type_is_reported_and_defaulted() {
    let cv = t(vec![("repository", s("o/r")), ("binary", s("nope"))]);
    let (r, errors) = single(&cv);
    assert!(r.binary);
    assert_eq!(errors.len(), 1);
    assert_eq!(errors[0].key, "binary");
    assert_eq!(errors[0].kind, ConfigErrorKind::InvalidValueType);
}

#[test]
fn algorithm_names_and_lengths() {
    assert_eq!(GithubReleaseChecksumAlgorithm::from_str("SHA256"), Some(GithubReleaseChecksumAlgorithm::Sha256));
    assert_eq!(GithubReleaseChecksumAlgorithm::from_str("crc32"), None);
    assert_eq!(GithubReleaseChecksumAlgorithm::Sha512.to_str(), "sha512");
    assert_eq!(GithubReleaseChecksumAlgorithm::from_hash(&"a".repeat(32)), Some(GithubReleaseChecksumAlgorithm::Md5));
    assert_eq!(GithubReleaseChecksumAlgorithm::from_hash(&"a".repeat(40)), Some(GithubReleaseChecksumAlgorithm::Sha1));
    assert_eq!(GithubReleaseChecksumAlgorithm::from_hash(&"a".repeat(96)), Some(GithubReleaseChecksumAlgorithm::Sha384));
    assert_eq!(GithubReleaseChecksumAlgorithm::from_hash("abc"), None);
}

#[test]
fn computed_hashes_are_the_known_digests() {
    assert_eq!(
        GithubReleaseChecksumAlgorithm::Sha256.compute_hash(b"abc"),
        "ba7816bf8f01cfea414140de5dae2223b00361a396177a9cb410ff61f20015ad"
    );
    assert_eq!(GithubReleaseChecksumAlgorithm::Md5.compute_hash(b""), "d41d8cd98f00b204e9800998ecf8427e");
    assert_eq!(
        GithubReleaseChecksumAlgorithm::Sha1.compute_hash(b"abc"),
        "a9993e364706816aba3e25717850c26c9cd0d89d"
    );
    assert_eq!(GithubReleaseChecksumAlgorithm::Sha384.compute_hash(b"abc").len(), 96);
    assert_eq!(GithubReleaseChecksumAlgorithm::Sha512.compute_hash(b"abc").len(), 128);
}

#[test]
fn checksum_config_from_string_and_table() {
    let mut errors = Vec::new();
    let c = GithubReleaseChecksumConfig::from_config_value(Some(&s("abcd")), "checksum", &mut errors, "linux", "x86_64");
    assert_eq!(c.value, Some("abcd".to_string()));
    assert!(c.is_enabled());
    assert!(c.is_required());
    assert!(!c.is_default());

    let cv = t(vec![("enabled", ConfigValue::Bool(false)), ("algorithm", s("MD5"))]);
    let c = GithubReleaseChecksumConfig::from_config_value(Some(&cv), "checksum", &mut errors, "linux", "x86_64");
    assert!(!c.is_enabled());
    assert_eq!(c.algorithm, Some(GithubReleaseChecksumAlgorithm::Md5));
    assert!(errors.is_empty());

    let c = GithubReleaseChecksumConfig::from_config_value(Some(&ConfigValue::Integer(3)), "checksum", &mut errors, "linux", "x86_64");
    assert!(c.is_default());
    assert!(!c.is_required());
    assert_eq!(errors.len(), 1);
    assert_eq!(errors[0].key, "checksum");
    assert_eq!(errors[0].kind, ConfigErrorKind::InvalidValueType);
    assert_eq!(errors[0].expected, vec!["table or string".to_string()]);
}

#[test]
fn asset_matchers_follow_the_system() {
    let mut errors = Vec::new();
    let cv = ConfigValue::Array(vec![
        t(vec![("os", s("Linux")), ("patterns", s("*.tar.gz\n  \n*.zip"))]),
        t(vec![("os", s("darwin")), ("patterns", ConfigValue::Array(vec![s(" a "), s("")]))]),
        t(vec![("arch", s("arm64"))]),
        s("tool-*"),
    ]);
    let ms = AssetNameMatcher::from_config_value_multi(Some(&cv), "asset_name", &mut errors, "linux", "x86_64");
    assert_eq!(ms.len(), 3);
    assert_eq!(ms[0].patterns, vec!["*.tar.gz".to_string(), "*.zip".to_string()]);
    assert!(ms[0].enabled());
    assert_eq!(ms[1].patterns, vec!["a".to_string()]);
    assert!(!ms[1].enabled());
    assert_eq!(ms[2].patterns, vec!["tool-*".to_string()]);
    assert_eq!(errors.len(), 1);
    assert_eq!(errors[0].key, "asset_name[2].patterns");
    assert_eq!(errors[0].kind, ConfigErrorKind::MissingKey);
}

#[test]
fn checksum_is_found_in_a_checksum_file() {
    let contents = "aaa  tool-linux.tar.gz\nbbb\ttool-darwin.tar.gz\n";
    assert_eq!(checksum_from_file(contents, "tool-darwin.tar.gz"), Some("bbb".to_string()));
    assert_eq!(checksum_from_file(contents, "tool.zip"), None);
    assert_eq!(checksum_from_file("  cafe  \n", "x"), Some("cafe".to_string()));
    assert_eq!(checksum_from_file("cafe\nbabe\n", "x"), None);
}

#[test]
fn validate_checksum_compares_digests() {
    let digest = GithubReleaseChecksumAlgorithm::Sha256.compute_hash(b"data");
    let mut errors = Vec::new();
    let cv = t(vec![("repository", s("o/r")), ("checksum", s(&digest))]);
    let r = UpConfigGithubRelease::from_config_value(Some(&cv), "", &mut errors, "linux", "x86_64");
    assert!(r.validate_checksum("asset", b"data", None).is_ok());
    let err = r.validate_checksum("asset", b"other", None).unwrap_err();
    assert!(err.message().starts_with("checksum mismatch for asset: expected "));

    let plain = UpConfigGithubRelease::from_config_value(Some(&s("o/r")), "", &mut errors, "linux", "x86_64");
    assert!(plain.validate_checksum("asset", b"data", None).is_ok());
    let file = format!("{}  asset\n", digest);
    assert!(plain.validate_checksum("asset", b"data", Some(("sums.txt", file.as_str()))).is_ok());
    let err = plain.validate_checksum("other", b"data", Some(("sums.txt", file.as_str()))).unwrap_err();
    assert_eq!(err.message(), "checksum not found in sums.txt: other");
    let err = plain
        .validate_checksum("asset", b"data", Some(("sums.txt", "xyz  asset")))
        .unwrap_err();
    assert_eq!(err.message(), "checksum algorithm not found for xyz");
}

#[test]
fn release_hash_only_when_assets_are_selected_differently() {
    let mut errors = Vec::new();
    let plain = UpConfigGithubRelease::from_config_value(Some(&s("o/r")), "", &mut errors, "linux", "x86_64");
    assert_eq!(plain.release_config_hash(), None);
    assert_eq!(plain.version_with_config("1.0.0"), "1.0.0");

    let cv = t(vec![("repository", s("o/r")), ("binary", ConfigValue::Bool(false))]);
    let r = UpConfigGithubRelease::from_config_value(Some(&cv), "", &mut errors, "linux", "x86_64");
    let expected = GithubReleaseChecksumAlgorithm::Sha256.compute_hash(b"disabled_binary");
    let hash = r.release_config_hash().unwrap();
    assert_eq!(hash, expected[0..8].to_string());
    assert_eq!(r.version_with_config("1.0.0"), format!("1.0.0~{}", &expected[0..8]));
}

#[test]
fn release_desc_and_missing_checksum() {
    let mut errors = Vec::new();
    let cv = t(vec![("repository", s("o/r")), ("checksum", t(vec![("required", ConfigValue::Bool(true))]))]);
    let r = UpConfigGithubRelease::from_config_value(Some(&cv), "", &mut errors, "linux", "x86_64");
    assert_eq!(r.desc(), "o/r (latest):");
    let e = r.missing_checksum_error("tool.tgz", false).unwrap();
    assert_eq!(e.message(), "could not find checksum file for tool.tgz");
    assert!(r.missing_checksum_error("tool.tgz", true).is_none());
    let empty = UpConfigGithubRelease::from_config_value(None, "", &mut errors, "linux", "x86_64");
    assert_eq!(empty.desc(), "github release:");
}

#[test]
fn algorithm_names_read_back_in_any_case() {
    for a in [
        GithubReleaseChecksumAlgorithm::Md5,
        GithubReleaseChecksumAlgorithm::Sha1,
        GithubReleaseChecksumAlgorithm::Sha256,
        GithubReleaseChecksumAlgorithm::Sha384,
        GithubReleaseChecksumAlgorithm::Sha512,
    ] {
        let name = a.to_str();
        assert_eq!(GithubReleaseChecksumAlgorithm::from_str(&name), Some(a.clone()));
        assert_eq!(GithubReleaseChecksumAlgorithm::from_str(&name.to_uppercase()), Some(a.clone()));
    }
    assert_eq!(GithubReleaseChecksumAlgorithm::from_str("ShA256"), Some(GithubReleaseChecksumAlgorithm::Sha256));
    assert_eq!(GithubReleaseChecksumAlgorithm::from_str("mD5"), Some(GithubReleaseChecksumAlgorithm::Md5));
    assert_eq!(GithubReleaseChecksumAlgorithm::from_str("sha-256"), None);
    assert_eq!(GithubReleaseChecksumAlgorithm::from_str(""), None);
}

#[test]
fn binaries_found_in_a_release_are_named_by_file() {
    let found = vec!["/tmp/x/bin/tool".to_string(), "/tmp/x/other".to_string()];
    assert_eq!(binary_names(&found).unwrap(), vec!["tool".to_string(), "other".to_string()]);
    match binary_names(&Vec::new()) {
        Err(UpError::Exec(m)) => assert_eq!(m, "no binaries found"),
        other => panic!("unexpected {:?}", other),
    }
}
