use omni_up::error::UpError;
use omni_up::mise::UpConfigMise;
use omni_up::resolution::{resolution_step, Resolution, ResolutionAction, ResolutionEvent, ResolutionPhase};

fn start() -> Resolution {
    Resolution { phase: ResolutionPhase::Start, listing: None }
}

#[test]
fn exact_latest_is_a_configuration_error() {
    let (_, a) = resolution_step(true, None, false, true, false, &start(), ResolutionEvent::Start);
    match a {
        ResolutionAction::Fail(UpError::Config(m)) => assert_eq!(m, "exact version cannot be 'latest'"),
        other => panic!("unexpected action {:?}", other),
    }
    let (s, a) = resolution_step(true, Some("1.2.3"), false, true, false, &start(), ResolutionEvent::Start);
    assert!(matches!(a, ResolutionAction::Install(ref v) if v == "1.2.3"));
    let (_, a) = resolution_step(true, Some("1.2.3"), false, true, false, &s, ResolutionEvent::Installed(Ok(true)));
    assert!(matches!(a, ResolutionAction::Done(ref v, true) if v == "1.2.3"));
}

#[test]
fn installed_match_is_used_without_upgrade() {
    let (s, a) = resolution_step(false, Some("1.2"), false, true, false, &start(), ResolutionEvent::Start);
    assert!(matches!(a, ResolutionAction::MatchInstalled(ref v) if v == "1.2"));
    let (_, a) = resolution_step(
        false,
        Some("1.2"),
        false,
        true,
        false,
        &s,
        ResolutionEvent::InstalledMatched(Some("1.2.7".to_string())),
    );
    assert!(matches!(a, ResolutionAction::Done(ref v, false) if v == "1.2.7"));
}

#[test]
fn latest_is_matched_then_listed_versions_are_installed() {
    let cfg = (false, None, false, true, false);
    let (s, a) = resolution_step(cfg.0, cfg.1, cfg.2, cfg.3, cfg.4, &start(), ResolutionEvent::Start);
    assert!(matches!(a, ResolutionAction::ListVersions(true)));
    let (s, a) = resolution_step(
        cfg.0,
        cfg.1,
        cfg.2,
        cfg.3,
        cfg.4,
        &s,
        ResolutionEvent::Listed(Ok("2.0.0".to_string()), Ok("2.0.0".to_string()), false),
    );
    assert!(matches!(a, ResolutionAction::MatchInstalled(ref v) if v == "2.0.0"));
    let (s, a) = resolution_step(cfg.0, cfg.1, cfg.2, cfg.3, cfg.4, &s, ResolutionEvent::InstalledMatched(None));
    assert!(matches!(a, ResolutionAction::Install(ref v) if v == "2.0.0"));
    let (_, a) = resolution_step(cfg.0, cfg.1, cfg.2, cfg.3, cfg.4, &s, ResolutionEvent::Installed(Ok(true)));
    assert!(matches!(a, ResolutionAction::Done(ref v, true) if v == "2.0.0"));
}

#[test]
fn stale_cache_is_listed_again_and_failed_install_falls_back() {
    let (s, a) = resolution_step(false, Some("3"), true, true, false, &start(), ResolutionEvent::Start);
    assert!(matches!(a, ResolutionAction::ListVersions(true)));
    let none = Err(UpError::Exec("no match".to_string()));
    let (s, a) = resolution_step(false, Some("3"), true, true, false, &s, ResolutionEvent::Listed(Ok("2.0.0".to_string()), none, false));
    assert!(matches!(a, ResolutionAction::ListVersions(false)));
    let (s, a) = resolution_step(
        false,
        Some("3"),
        true,
        true,
        false,
        &s,
        ResolutionEvent::Listed(Ok("3.1.0".to_string()), Ok("3.1.0".to_string()), true),
    );
    assert!(matches!(a, ResolutionAction::Install(ref v) if v == "3.1.0"));
    let (s2, a) = resolution_step(
        false,
        Some("3"),
        true,
        true,
        false,
        &s,
        ResolutionEvent::Installed(Err(UpError::Exec("download failed".to_string()))),
    );
    assert!(matches!(a, ResolutionAction::MatchInstalledFallback));
    let (_, a) = resolution_step(false, Some("3"), true, true, false, &s2, ResolutionEvent::InstalledMatched(None));
    assert!(matches!(a, ResolutionAction::Fail(UpError::Exec(ref m)) if m == "download failed"));
    let (_, a) = resolution_step(
        false,
        Some("3"),
        true,
        true,
        true,
        &s,
        ResolutionEvent::Installed(Err(UpError::Exec("download failed".to_string()))),
    );
    assert!(matches!(a, ResolutionAction::Fail(_)));
}

#[test]
fn mise_tool_runs_once_and_commits_its_versions() {
    let mut m = UpConfigMise::new("core:node@20", "20", &vec!["b".to_string(), "a".to_string(), "b".to_string()], false);
    assert_eq!(m.requested_tool, "node");
    assert_eq!(m.backend, Some("core".to_string()));
    assert_eq!(m.dirs, vec!["a".to_string(), "b".to_string()]);
    assert!(m.check_not_attempted().is_ok());
    assert!(m.version().is_err());
    assert!(m.committed_versions().is_err());
    m.record_version("20.1.0".to_string());
    m.record_version("19.0.0".to_string());
    assert_eq!(m.version().unwrap(), "20.1.0");
    assert_eq!(m.committed_versions().unwrap(), vec!["20.1.0".to_string()]);
    m.record_up(true);
    m.record_up(false);
    assert!(m.was_upped());
    assert!(matches!(m.check_not_attempted(), Err(UpError::Exec(ref s)) if s == "up operation already attempted"));

    let mut auto = UpConfigMise::new_any_version("python");
    assert_eq!(auto.version, "*");
    auto.record_versions(vec!["3.11.0".to_string(), "3.12.1".to_string()]);
    assert_eq!(auto.committed_versions().unwrap(), vec!["3.11.0".to_string(), "3.12.1".to_string()]);
}

#[test]
fn mise_up_is_attempted_once() {
    let mut m = UpConfigMise::new("node", "20", &vec![], false);
    assert!(matches!(m.begin_up(false), Err(UpError::Exec(ref s)) if s == "mise operations (node) are not allowed"));
    assert!(m.begin_up(true).is_ok());
    let r = m.finish_up(Err(UpError::Exec("install failed".to_string())));
    assert!(r.is_err());
    assert!(!m.was_upped());
    assert!(matches!(m.begin_up(true), Err(UpError::Exec(ref s)) if s == "up operation already attempted"));
    let _ = m.finish_up(Ok(()));
    assert!(!m.was_upped());
}
