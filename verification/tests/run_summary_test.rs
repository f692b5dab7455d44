use omni_up::cargo_install::{CargoInstallHandled, UpConfigCargoInstall, UpConfigCargoInstalls};
use omni_up::config_value::ConfigValue;
use omni_up::error::UpError;
use omni_up::github_release::{GithubReleaseHandled, UpConfigGithubRelease, UpConfigGithubReleases};
use omni_up::go_install::{GoInstallHandled, UpConfigGoInstalls};
use omni_up::homebrew::{cask_bin_dirs, CaskBinCandidate, HomebrewHandled, HomebrewInstall, HomebrewTap, UpConfigHomebrew};

fn s(x: &str) -> ConfigValue {
    ConfigValue::Str(x.to_string())
}

fn a(xs: Vec<ConfigValue>) -> ConfigValue {
    ConfigValue::Array(xs)
}

fn t(entries: Vec<(&str, ConfigValue)>) -> ConfigValue {
    ConfigValue::Table(entries.into_iter().map(|(k, v)| (k.to_string(), v)).collect())
}

fn crates(names: &[&str]) -> UpConfigCargoInstalls {
    let mut errors = Vec::new();
    let cv = a(names.iter().map(|n| s(n)).collect());
    UpConfigCargoInstalls::from_config_value(Some(&cv), "up[0]", &mut errors)
}

#[test]
fn cargo_summary_counts_and_sorts() {
    let mut c = crates(&["zoxide", "bat", "ripgrep"]);
    assert_eq!(c.get_up_message(), "nothing done");
    assert!(!c.was_upped());
    assert_eq!(c.crates[0].handle_installed("0.9.4", Ok(true)), Ok(true));
    assert_eq!(c.crates[1].handle_installed("0.24.0", Ok(false)), Ok(false));
    assert_eq!(c.crates[0].handling(), CargoInstallHandled::Handled);
    assert_eq!(c.crates[1].handling(), CargoInstallHandled::Noop);
    assert_eq!(c.crates[2].handling(), CargoInstallHandled::Unhandled);
    assert!(c.was_upped());
    assert_eq!(
        c.get_up_message(),
        "1 installed, 1 already installed (bat@0.24.0, zoxide@0.9.4)"
    );
}

#[test]
fn cargo_handle_installed_records_once() {
    let mut c = crates(&["bat"]);
    let failed = c.crates[0].handle_installed("1.0.0", Err(UpError::Exec("boom".to_string())));
    assert_eq!(failed, Err(UpError::Exec("boom".to_string())));
    assert_eq!(c.crates[0].actual_version, None);
    assert_eq!(c.crates[0].handle_installed("1.0.0", Ok(true)), Ok(true));
    assert_eq!(c.crates[0].actual_version, Some("1.0.0".to_string()));
    assert_eq!(
        c.crates[0].handle_installed("2.0.0", Ok(false)),
        Err(UpError::Exec("failed to set actual version".to_string()))
    );
    assert_eq!(c.crates[0].actual_version, Some("1.0.0".to_string()));
    assert_eq!(c.crates[0].was_handled, Some(CargoInstallHandled::Handled));
}

#[test]
fn cargo_headings_and_short_names() {
    let mut errors = Vec::new();
    let c = UpConfigCargoInstall::from_config_value(Some(&s("owner/tool@1.2")), "k", &mut errors);
    assert_eq!(c.short_crate_name(), "tool");
    assert_eq!(c.desc(), "tool (1.2):");
    let c = UpConfigCargoInstall::from_config_value(Some(&s("ripgrep")), "k", &mut errors);
    assert_eq!(c.desc(), "ripgrep (latest):");
    let c = UpConfigCargoInstall::from_config_value(Some(&s("a@b@c")), "k", &mut errors);
    assert_eq!(c.desc(), "a@b@c:");
    let c = UpConfigCargoInstall::from_config_value(None, "k", &mut errors);
    assert_eq!(c.desc(), "go install:");
}

#[test]
fn cargo_cleanup_reports() {
    let none: Vec<String> = vec![];
    assert_eq!(
        UpConfigCargoInstalls::cleanup_report("/d/cargo", true, 3, &none),
        Some("removed all crates".to_string())
    );
    assert_eq!(UpConfigCargoInstalls::cleanup_report("/d/cargo", false, 0, &none), None);
    assert_eq!(
        UpConfigCargoInstalls::cleanup_report("/d/cargo", false, 2, &vec!["/elsewhere/x".to_string()]),
        Some("removed 2 cargo-installed crates".to_string())
    );
    assert_eq!(
        UpConfigCargoInstalls::cleanup_report(
            "/d/cargo",
            false,
            2,
            &vec!["/d/cargo/bat".to_string(), "/d/cargo/rg".to_string()]
        ),
        Some("removed bat (all versions), rg (all versions)".to_string())
    );
    assert_eq!(
        UpConfigCargoInstalls::cleanup_report(
            "/d/cargo",
            false,
            2,
            &vec!["/d/cargo/bat/0.24.0".to_string(), "/d/cargo/rg/14.1.0/x".to_string(), "/d/cargo".to_string()]
        ),
        Some("removed bat@0.24.0".to_string())
    );
}

#[test]
fn go_summary_and_cleanup() {
    let cv = a(vec![s("github.com/a/tool@v1.0.0"), s("golang.org/x/tools/gopls")]);
    let mut g = UpConfigGoInstalls::from_config_value(Some(&cv));
    assert_eq!(g.tools[0].short_path(), "tool");
    assert_eq!(g.tools[0].desc(), "tool (v1.0.0):");
    assert_eq!(g.tools[1].desc(), "gopls (latest):");
    assert_eq!(g.tools[1].handle_installed("v0.16.0", Ok(true)), Ok(true));
    assert_eq!(g.tools[1].handling(), GoInstallHandled::Handled);
    assert_eq!(g.get_up_message(), "1 installed (golang.org/x/tools/gopls@v0.16.0)");
    assert!(g.was_upped());

    let removed = vec![
        "/d/go/github.com/a/tool/v1.0.0".to_string(),
        "/d/go/github.com/a/other".to_string(),
        "/d/go/x".to_string(),
    ];
    assert_eq!(
        UpConfigGoInstalls::cleanup_report("/d/go", false, 3, &removed),
        Some("removed github.com/a/tool@v1.0.0, github.com/a/other (all versions)".to_string())
    );
    assert_eq!(
        UpConfigGoInstalls::cleanup_report("/d/go", false, 1, &vec!["/d/go/x".to_string()]),
        Some("removed 1 tool".to_string())
    );
    assert_eq!(
        UpConfigGoInstalls::cleanup_report("/d/go", true, 1, &removed),
        Some("removed all go install".to_string())
    );
}

#[test]
fn github_release_state_and_summary() {
    let mut errors = Vec::new();
    let cv = a(vec![s("owner/one"), s("owner/two")]);
    let mut r = UpConfigGithubReleases::from_config_value(Some(&cv), "up", &mut errors, "linux", "x86_64");
    assert_eq!(
        r.releases[0].version(),
        Err(UpError::Exec("version not set".to_string()))
    );
    assert_eq!(r.releases[1].handle_downloaded("2.0.0", Ok(false)), Ok(false));
    assert_eq!(r.releases[1].handling(), GithubReleaseHandled::Noop);
    assert_eq!(r.releases[1].version(), Ok("2.0.0".to_string()));
    assert_eq!(r.get_up_message(), "1 already installed (owner/two 2.0.0)");

    let n = UpConfigGithubRelease::new_with_version("owner/x", "1.2.3");
    assert_eq!(n.repository, "owner/x");
    assert_eq!(n.version, Some("1.2.3".to_string()));
    assert!(n.upgrade);
    assert!(n.binary);
}

#[test]
fn github_api_hostname() {
    let mut n = UpConfigGithubRelease::new_with_version("owner/x", "1");
    assert_eq!(n.get_api_hostname(), "github.com");
    n.api_url = Some("https://ghe.example.com/api/v3".to_string());
    assert_eq!(n.get_api_hostname(), "ghe.example.com");
    n.api_url = Some("not a url".to_string());
    assert_eq!(n.get_api_hostname(), "not a url");
}

#[test]
fn github_release_cleanup_reports() {
    let removed = vec![
        "/d/gh/owner/repo/1.0.0".to_string(),
        "/d/gh/owner/other".to_string(),
        "/d/gh/someone".to_string(),
        "/d/gh/a/b/c/d".to_string(),
    ];
    assert_eq!(
        UpConfigGithubReleases::cleanup_report("/d/gh", false, 4, &removed),
        Some(
            "removed owner/repo 1.0.0, owner/other (all versions), someone (all releases)".to_string()
        )
    );
    assert_eq!(
        UpConfigGithubReleases::cleanup_report("/d/gh", false, 1, &vec!["/d/gh/a/b/c/d".to_string()]),
        Some("removed 1 release".to_string())
    );
}

#[test]
fn homebrew_summary_and_outcomes() {
    let cv = t(vec![
        ("install", a(vec![s("jq"), t(vec![("cask", s("firefox"))]), s("owner/tap/tool")])),
        ("tap", a(vec![s("owner/extra")])),
    ]);
    let mut h = UpConfigHomebrew::from_config_value(Some(&cv));
    assert_eq!(h.get_up_message(), "nothing done");
    assert_eq!(h.tap.len(), 2);
    assert_eq!(h.tap[0].name, "owner/extra");
    assert_eq!(h.tap[1].name, "owner/tap");
    assert_eq!(h.tap[0].handle_tapped(false, false), "tapped");
    assert_eq!(h.tap[1].handle_tapped(true, false), "up to date (cached)");
    assert_eq!(h.install[0].handle_installed(true, true), "updated");
    assert_eq!(h.install[1].handle_installed(false, true), "installed");
    assert_eq!(h.install[0].handling(), HomebrewHandled::Updated);
    assert!(h.was_upped());
    assert_eq!(
        h.get_up_message(),
        "+1, 1 taps (owner/extra, owner/tap) and +1, ^1 formulas (firefox, jq)"
    );
    assert!(h.install[1].is_cask());
    assert!(!h.install[0].skips_install(true));
}

#[test]
fn homebrew_cleanup_report() {
    let mut tap = HomebrewTap::from_config_value(Some(&t(vec![("tap", s("a/b"))])), &vec![]);
    tap[0].handle_untapped();
    let mut gone = HomebrewInstall::from_cache("wget", Some("1.2"), false);
    gone.handle_uninstalled();
    let kept = HomebrewInstall::from_cache("curl", None, true);
    assert_eq!(gone.name(), "wget");
    assert_eq!(gone.version(), Some("1.2".to_string()));
    assert_eq!(
        UpConfigHomebrew::cleanup_report(&tap, &vec![gone, kept]),
        Some("-1 tap (a/b) and -1 formula (wget)".to_string())
    );
    assert_eq!(UpConfigHomebrew::cleanup_report(&vec![], &vec![]), None);
}

fn cask_candidate(components: &[&str], canonical: &str, executables: &[&str]) -> CaskBinCandidate {
    CaskBinCandidate {
        components: components.iter().map(|s| s.to_string()).collect(),
        canonical: canonical.to_string(),
        executables: executables.iter().map(|s| s.to_string()).collect(),
    }
}

#[test]
fn cask_bin_dirs_keep_visible_dirs_with_plain_binaries_once() {
    let candidates = vec![
        cask_candidate(&["1.0", "bin"], "/brew/Caskroom/tool/1.0/bin", &["tool"]),
        cask_candidate(&["1.0", ".hidden", "bin"], "/brew/Caskroom/tool/1.0/.hidden/bin", &["tool"]),
        cask_candidate(&["1.0", "lib", "bin"], "/brew/Caskroom/tool/1.0/lib/bin", &["helper.sh"]),
        cask_candidate(&["latest", "bin"], "/brew/Caskroom/tool/1.0/bin", &["tool"]),
        cask_candidate(&["1.0", "extra", "bin"], "/brew/Caskroom/tool/1.0/extra/bin", &["run.py", "other"]),
        cask_candidate(&["1.0", "empty", "bin"], "/brew/Caskroom/tool/1.0/empty/bin", &[]),
    ];
    assert_eq!(
        cask_bin_dirs(&candidates),
        vec![
            "/brew/Caskroom/tool/1.0/bin".to_string(),
            "/brew/Caskroom/tool/1.0/extra/bin".to_string(),
        ]
    );
    assert!(cask_bin_dirs(&Vec::new()).is_empty());
}

#[test]
fn homebrew_unreadable_configuration_is_refused() {
    let ok = t(vec![("install", a(vec![s("git")]))]);
    let h = UpConfigHomebrew::try_from_config_value(Some(&ok)).unwrap();
    assert_eq!(h.install.len(), 1);
    let bad_install = t(vec![("install", a(vec![t(vec![("formula", ConfigValue::Integer(3))])]))]);
    assert!(UpConfigHomebrew::try_from_config_value(Some(&bad_install)).is_none());
    let bad_tap = t(vec![("tap", a(vec![t(vec![("repo", s("a/b")), ("url", ConfigValue::Bool(true))])]))]);
    assert!(UpConfigHomebrew::try_from_config_value(Some(&bad_tap)).is_none());
    assert!(UpConfigHomebrew::try_from_config_value(None).is_some());
}
