//! Choosing which version of a tool to bring up: the decisions that a
//! crate, a go tool or a github release go through, between the calls
//! that list versions, match them and install one. The caller makes each
//! call the step asks for and hands back what came of it.
use vstd::prelude::*;

use crate::error::{UpError, UpErrorKind, UpErrorView};
use crate::text::{chars_eq, copy_string, to_chars};

verus! {

/// What the caller is asked to do next.
#[derive(Debug)]
pub enum ResolutionAction {
    /// Stop with this error.
    Fail(UpError),
    /// Install this version, then report `Installed`.
    Install(String),
    /// List the available versions, from the cache when `true`, then
    /// report `Listed`.
    ListVersions(bool),
    /// Look among the installed versions for one that matches this
    /// requirement, then report `InstalledMatched`.
    MatchInstalled(String),
    /// Look among the installed versions for one that matches the
    /// configured version, then report `InstalledMatched`.
    MatchInstalledFallback,
    /// Stop: this version is the one brought up; `true` when it was
    /// installed by this run.
    Done(String, bool),
}

/// What came of the action the caller was asked to do.
#[derive(Debug)]
pub enum ResolutionEvent {
    /// Nothing yet: the resolution begins.
    Start,
    /// The versions were listed: the latest of them (or why there is
    /// none), the version that the configuration resolves to among them
    /// (or why none does), and whether the list was fetched just now.
    Listed(Result<String, UpError>, Result<String, UpError>, bool),
    /// The installed version that matched, if any.
    InstalledMatched(Option<String>),
    /// The install was done (`true`), not needed (`false`), or failed.
    Installed(Result<bool, UpError>),
    /// The asked action failed.
    Failed(UpError),
}

/// Where the resolution stands.
#[derive(Debug)]
pub enum ResolutionPhase {
    Start,
    ExactInstalling(String),
    ListingForLatest,
    MatchingInstalled(String),
    Listing,
    Relisting,
    Installing(String),
    FallingBack(UpError),
    Finished(ResolutionAction),
}

/// The state of a resolution: its phase, and the versions listed before
/// the installed ones were matched (what they resolve to, and whether
/// they were fresh), kept for when no installed version matches.
#[derive(Debug)]
pub struct Resolution {
    pub phase: ResolutionPhase,
    pub listing: Option<(Result<String, UpError>, bool)>,
}

pub enum ActionView {
    Fail(UpErrorView),
    Install(Seq<char>),
    ListVersions(bool),
    MatchInstalled(Seq<char>),
    MatchInstalledFallback,
    Done(Seq<char>, bool),
}

pub enum EventView {
    Start,
    Listed(Result<Seq<char>, UpErrorView>, Result<Seq<char>, UpErrorView>, bool),
    InstalledMatched(Option<Seq<char>>),
    Installed(Result<bool, UpErrorView>),
    Failed(UpErrorView),
}

pub enum PhaseView {
    Start,
    ExactInstalling(Seq<char>),
    ListingForLatest,
    MatchingInstalled(Seq<char>),
    Listing,
    Relisting,
    Installing(Seq<char>),
    FallingBack(UpErrorView),
    Finished(ActionView),
}

pub struct ResolutionView {
    pub phase: PhaseView,
    pub listing: Option<(Result<Seq<char>, UpErrorView>, bool)>,
}

/// What stays fixed during a resolution: whether the version is exact,
/// the configured version, whether to upgrade, whether the cache may be
/// read, and whether a failed install fails the step.
pub struct ResolutionConfig {
    pub exact: bool,
    pub version: Option<Seq<char>>,
    pub upgrade: bool,
    pub read_cache: bool,
    pub fail_on_upgrade: bool,
}

pub open spec fn result_view(r: Result<String, UpError>) -> Result<Seq<char>, UpErrorView> {
    match r {
        Ok(s) => Ok(s@),
        Err(e) => Err(e@),
    }
}

impl View for ResolutionAction {
    type V = ActionView;

    open spec fn view(&self) -> ActionView {
        match self {
            ResolutionAction::Fail(e) => ActionView::Fail(e@),
            ResolutionAction::Install(v) => ActionView::Install(v@),
            ResolutionAction::ListVersions(c) => ActionView::ListVersions(*c),
            ResolutionAction::MatchInstalled(v) => ActionView::MatchInstalled(v@),
            ResolutionAction::MatchInstalledFallback => ActionView::MatchInstalledFallback,
            ResolutionAction::Done(v, b) => ActionView::Done(v@, *b),
        }
    }
}

impl View for ResolutionEvent {
    type V = EventView;

    open spec fn view(&self) -> EventView {
        match self {
            ResolutionEvent::Start => EventView::Start,
            ResolutionEvent::Listed(l, r, f) => EventView::Listed(result_view(*l), result_view(*r), *f),
            ResolutionEvent::InstalledMatched(m) => EventView::InstalledMatched(
                match m {
                    Some(v) => Some(v@),
                    None => None,
                },
            ),
            ResolutionEvent::Installed(r) => EventView::Installed(
                match r {
                    Ok(b) => Ok(*b),
                    Err(e) => Err(e@),
                },
            ),
            ResolutionEvent::Failed(e) => EventView::Failed(e@),
        }
    }
}

impl View for ResolutionPhase {
    type V = PhaseView;

    open spec fn view(&self) -> PhaseView {
        match self {
            ResolutionPhase::Start => PhaseView::Start,
            ResolutionPhase::ExactInstalling(v) => PhaseView::ExactInstalling(v@),
            ResolutionPhase::ListingForLatest => PhaseView::ListingForLatest,
            ResolutionPhase::MatchingInstalled(v) => PhaseView::MatchingInstalled(v@),
            ResolutionPhase::Listing => PhaseView::Listing,
            ResolutionPhase::Relisting => PhaseView::Relisting,
            ResolutionPhase::Installing(v) => PhaseView::Installing(v@),
            ResolutionPhase::FallingBack(e) => PhaseView::FallingBack(e@),
            ResolutionPhase::Finished(a) => PhaseView::Finished(a@),
        }
    }
}

impl View for Resolution {
    type V = ResolutionView;

    open spec fn view(&self) -> ResolutionView {
        ResolutionView {
            phase: self.phase@,
            listing: match self.listing {
                Some((r, f)) => Some((result_view(r), f)),
                None => None,
            },
        }
    }
}

/// The error for an exact version asked as `latest`.
pub open spec fn exact_latest_error() -> UpErrorView {
    UpErrorView { kind: UpErrorKind::Config, text: "exact version cannot be 'latest'"@, step: None }
}

/// A finished resolution whose last action is `a`.
pub open spec fn finish(a: ActionView) -> (ResolutionView, ActionView) {
    (ResolutionView { phase: PhaseView::Finished(a), listing: None }, a)
}

pub open spec fn at(p: PhaseView) -> ResolutionView {
    ResolutionView { phase: p, listing: None }
}

/// How a resolution begins. An exact version is installed as it is (and
/// `latest` cannot be exact). Without an upgrade, an installed version
/// that matches is looked for first: one matching the configured
/// version, or, for `latest` or no version, the latest version listed.
/// With an upgrade, the versions are listed.
pub open spec fn begin(c: ResolutionConfig) -> (ResolutionView, ActionView) {
    if c.exact {
        let v = match c.version {
            Some(v) => v,
            None => "latest"@,
        };
        if v == "latest"@ {
            finish(ActionView::Fail(exact_latest_error()))
        } else {
            (at(PhaseView::ExactInstalling(v)), ActionView::Install(v))
        }
    } else if !c.upgrade {
        match c.version {
            Some(v) if v != "latest"@ => (at(PhaseView::MatchingInstalled(v)), ActionView::MatchInstalled(v)),
            _ => (at(PhaseView::ListingForLatest), ActionView::ListVersions(c.read_cache)),
        }
    } else {
        (at(PhaseView::Listing), ActionView::ListVersions(c.read_cache))
    }
}

/// What a listing leads to: installing the version it resolves to; when
/// none does, listing again without the cache if the list came from a
/// stale cache, else failing.
pub open spec fn from_listing(c: ResolutionConfig, resolved: Result<Seq<char>, UpErrorView>, fresh: bool) -> (
    ResolutionView,
    ActionView,
) {
    match resolved {
        Ok(v) => (at(PhaseView::Installing(v)), ActionView::Install(v)),
        Err(e) => if c.read_cache && !fresh {
            (at(PhaseView::Relisting), ActionView::ListVersions(false))
        } else {
            finish(ActionView::Fail(e))
        },
    }
}

/// The action a phase waits on the result of.
pub open spec fn awaited(c: ResolutionConfig, s: ResolutionView) -> ActionView {
    match s.phase {
        PhaseView::Start => begin(c).1,
        PhaseView::ExactInstalling(v) => ActionView::Install(v),
        PhaseView::ListingForLatest => ActionView::ListVersions(c.read_cache),
        PhaseView::MatchingInstalled(v) => ActionView::MatchInstalled(v),
        PhaseView::Listing => ActionView::ListVersions(c.read_cache),
        PhaseView::Relisting => ActionView::ListVersions(false),
        PhaseView::Installing(v) => ActionView::Install(v),
        PhaseView::FallingBack(_) => ActionView::MatchInstalledFallback,
        PhaseView::Finished(a) => a,
    }
}

/// One step of a resolution: from the state and what came of the last
/// action, the next state and action.
/// - A failed action fails the resolution with its error.
/// - The latest version listed (or the configured one) is matched
///   against the installed versions; a match is the version brought up,
///   with nothing installed.
/// - Otherwise the listed versions are resolved (see `from_listing`) and
///   the version found is installed.
/// - A failed install falls back, unless failing on upgrade, to an
///   installed version that matches the configured one; with none, the
///   install's error fails the resolution.
/// - A finished resolution stays finished; an event that the phase does
///   not wait for changes nothing, and the awaited action is asked again.
pub open spec fn resolution_step_of(c: ResolutionConfig, s: ResolutionView, ev: EventView) -> (
    ResolutionView,
    ActionView,
) {
    match s.phase {
        PhaseView::Start => begin(c),
        PhaseView::Finished(a) => (s, a),
        _ => match ev {
            EventView::Failed(e) => finish(ActionView::Fail(e)),
            _ => match (s.phase, ev) {
                (PhaseView::ExactInstalling(v), EventView::Installed(Ok(b))) => finish(ActionView::Done(v, b)),
                (PhaseView::ExactInstalling(_), EventView::Installed(Err(e))) => finish(ActionView::Fail(e)),
                (PhaseView::ListingForLatest, EventView::Listed(latest, resolved, fresh)) => match latest {
                    Err(e) => finish(ActionView::Fail(e)),
                    Ok(l) => (
                        ResolutionView {
                            phase: PhaseView::MatchingInstalled(l),
                            listing: Some((resolved, fresh)),
                        },
                        ActionView::MatchInstalled(l),
                    ),
                },
                (PhaseView::MatchingInstalled(_), EventView::InstalledMatched(Some(iv))) => finish(
                    ActionView::Done(iv, false),
                ),
                (PhaseView::MatchingInstalled(_), EventView::InstalledMatched(None)) => match s.listing {
                    Some((r, f)) => from_listing(c, r, f),
                    None => (at(PhaseView::Listing), ActionView::ListVersions(c.read_cache)),
                },
                (PhaseView::Listing, EventView::Listed(_, resolved, fresh)) => from_listing(c, resolved, fresh),
                (PhaseView::Relisting, EventView::Listed(_, resolved, _)) => match resolved {
                    Ok(v) => (at(PhaseView::Installing(v)), ActionView::Install(v)),
                    Err(e) => finish(ActionView::Fail(e)),
                },
                (PhaseView::Installing(v), EventView::Installed(Ok(b))) => finish(ActionView::Done(v, b)),
                (PhaseView::Installing(_), EventView::Installed(Err(e))) => if c.fail_on_upgrade {
                    finish(ActionView::Fail(e))
                } else {
                    (at(PhaseView::FallingBack(e)), ActionView::MatchInstalledFallback)
                },
                (PhaseView::FallingBack(_), EventView::InstalledMatched(Some(iv))) => finish(
                    ActionView::Done(iv, false),
                ),
                (PhaseView::FallingBack(e), EventView::InstalledMatched(None)) => finish(ActionView::Fail(e)),
                _ => (s, awaited(c, s)),
            },
        },
    }
}

pub open spec fn config_of(
    exact: bool,
    version: Option<&str>,
    upgrade: bool,
    read_cache: bool,
    fail_on_upgrade: bool,
) -> ResolutionConfig {
    ResolutionConfig {
        exact,
        version: match version {
            Some(v) => Some(v@),
            None => None,
        },
        upgrade,
        read_cache,
        fail_on_upgrade,
    }
}

fn copy_action(a: &ResolutionAction) -> (r: ResolutionAction)
    ensures
        r@ == a@,
{
    match a {
        ResolutionAction::Fail(e) => ResolutionAction::Fail(e.duplicate()),
        ResolutionAction::Install(v) => ResolutionAction::Install(copy_string(v)),
        ResolutionAction::ListVersions(c) => ResolutionAction::ListVersions(*c),
        ResolutionAction::MatchInstalled(v) => ResolutionAction::MatchInstalled(copy_string(v)),
        ResolutionAction::MatchInstalledFallback => ResolutionAction::MatchInstalledFallback,
        ResolutionAction::Done(v, b) => ResolutionAction::Done(copy_string(v), *b),
    }
}

fn copy_result(r: &Result<String, UpError>) -> (o: Result<String, UpError>)
    ensures
        result_view(o) == result_view(*r),
{
    match r {
        Ok(s) => Ok(copy_string(s)),
        Err(e) => Err(e.duplicate()),
    }
}

fn finished(a: ResolutionAction) -> (r: (Resolution, ResolutionAction))
    ensures
        r.0@ == finish(a@).0,
        r.1@ == a@,
{
    let b = copy_action(&a);
    (Resolution { phase: ResolutionPhase::Finished(a), listing: None }, b)
}

fn at_phase(p: ResolutionPhase) -> (r: Resolution)
    ensures
        r@ == at(p@),
{
    Resolution { phase: p, listing: None }
}

fn is_latest(v: &str) -> (r: bool)
    ensures
        r == (v@ == "latest"@),
{
    let l = to_chars("latest");
    chars_eq(&to_chars(v), &l)
}

fn begin_exec(exact: bool, version: Option<&str>, upgrade: bool, read_cache: bool) -> (r: (
    Resolution,
    ResolutionAction,
))
    ensures
        ({
            let (s, a) = begin(config_of(exact, version, upgrade, read_cache, false));
            r.0@ == s && r.1@ == a
        }),
{
    if exact {
        let v = match version {
            Some(v) => crate::text::from_chars(to_chars(v).as_slice()),
            None => String::from_str("latest"),
        };
        if is_latest(v.as_str()) {
            finished(ResolutionAction::Fail(UpError::Config(String::from_str("exact version cannot be 'latest'"))))
        } else {
            let w = copy_string(&v);
            (at_phase(ResolutionPhase::ExactInstalling(v)), ResolutionAction::Install(w))
        }
    } else if !upgrade {
        match version {
            Some(v) if !is_latest(v) => {
                let a = crate::text::from_chars(to_chars(v).as_slice());
                let b = crate::text::from_chars(to_chars(v).as_slice());
                (at_phase(ResolutionPhase::MatchingInstalled(a)), ResolutionAction::MatchInstalled(b))
            },
            _ => (at_phase(ResolutionPhase::ListingForLatest), ResolutionAction::ListVersions(read_cache)),
        }
    } else {
        (at_phase(ResolutionPhase::Listing), ResolutionAction::ListVersions(read_cache))
    }
}

fn from_listing_exec(read_cache: bool, resolved: Result<String, UpError>, fresh: bool) -> (r: (
    Resolution,
    ResolutionAction,
))
    ensures
        ({
            let c = ResolutionConfig {
                exact: false,
                version: None,
                upgrade: false,
                read_cache,
                fail_on_upgrade: false,
            };
            let (s, a) = from_listing(c, result_view(resolved), fresh);
            r.0@ == s && r.1@ == a
        }),
{
    match resolved {
        Ok(v) => {
            let w = copy_string(&v);
            (at_phase(ResolutionPhase::Installing(v)), ResolutionAction::Install(w))
        },
        Err(e) => if read_cache && !fresh {
            (at_phase(ResolutionPhase::Relisting), ResolutionAction::ListVersions(false))
        } else {
            finished(ResolutionAction::Fail(e))
        },
    }
}

fn awaited_exec(exact: bool, version: Option<&str>, upgrade: bool, read_cache: bool, s: &Resolution) -> (r:
    ResolutionAction)
    ensures
        r@ == awaited(config_of(exact, version, upgrade, read_cache, false), s@),
{
    match &s.phase {
        ResolutionPhase::Start => begin_exec(exact, version, upgrade, read_cache).1,
        ResolutionPhase::ExactInstalling(v) => ResolutionAction::Install(copy_string(v)),
        ResolutionPhase::ListingForLatest => ResolutionAction::ListVersions(read_cache),
        ResolutionPhase::MatchingInstalled(v) => ResolutionAction::MatchInstalled(copy_string(v)),
        ResolutionPhase::Listing => ResolutionAction::ListVersions(read_cache),
        ResolutionPhase::Relisting => ResolutionAction::ListVersions(false),
        ResolutionPhase::Installing(v) => ResolutionAction::Install(copy_string(v)),
        ResolutionPhase::FallingBack(_) => ResolutionAction::MatchInstalledFallback,
        ResolutionPhase::Finished(a) => copy_action(a),
    }
}

fn copy_resolution(s: &Resolution) -> (r: Resolution)
    ensures
        r@ == s@,
{
    let phase = match &s.phase {
        ResolutionPhase::Start => ResolutionPhase::Start,
        ResolutionPhase::ExactInstalling(v) => ResolutionPhase::ExactInstalling(copy_string(v)),
        ResolutionPhase::ListingForLatest => ResolutionPhase::ListingForLatest,
        ResolutionPhase::MatchingInstalled(v) => ResolutionPhase::MatchingInstalled(copy_string(v)),
        ResolutionPhase::Listing => ResolutionPhase::Listing,
        ResolutionPhase::Relisting => ResolutionPhase::Relisting,
        ResolutionPhase::Installing(v) => ResolutionPhase::Installing(copy_string(v)),
        ResolutionPhase::FallingBack(e) => ResolutionPhase::FallingBack(e.duplicate()),
        ResolutionPhase::Finished(a) => ResolutionPhase::Finished(copy_action(a)),
    };
    let listing = match &s.listing {
        Some((r, f)) => Some((copy_result(r), *f)),
        None => None,
    };
    Resolution { phase, listing }
}

/// One step of choosing the version to bring up (see
/// `resolution_step_of`): `exact`, `version`, `upgrade`, `read_cache` and
/// `fail_on_upgrade` are the same at every step of one resolution.
pub fn resolution_step(
    exact: bool,
    version: Option<&str>,
    upgrade: bool,
    read_cache: bool,
    fail_on_upgrade: bool,
    state: &Resolution,
    event: ResolutionEvent,
) -> (r: (Resolution, ResolutionAction))
    ensures
        ({
            let (s, a) = resolution_step_of(
                config_of(exact, version, upgrade, read_cache, fail_on_upgrade),
                state@,
                event@,
            );
            r.0@ == s && r.1@ == a
        }),
{
    let ghost c = config_of(exact, version, upgrade, read_cache, fail_on_upgrade);
    let ghost ev = event@;
    match &state.phase {
        ResolutionPhase::Start => {
            return begin_exec(exact, version, upgrade, read_cache);
        },
        ResolutionPhase::Finished(a) => {
            return (copy_resolution(state), copy_action(a));
        },
        _ => {},
    }
    match event {
        ResolutionEvent::Failed(e) => finished(ResolutionAction::Fail(e)),
        ResolutionEvent::Installed(res) => match &state.phase {
            ResolutionPhase::ExactInstalling(v) => match res {
                Ok(b) => finished(ResolutionAction::Done(copy_string(v), b)),
                Err(e) => finished(ResolutionAction::Fail(e)),
            },
            ResolutionPhase::Installing(v) => match res {
                Ok(b) => finished(ResolutionAction::Done(copy_string(v), b)),
                Err(e) => if fail_on_upgrade {
                    finished(ResolutionAction::Fail(e))
                } else {
                    (at_phase(ResolutionPhase::FallingBack(e)), ResolutionAction::MatchInstalledFallback)
                },
            },
            _ => (copy_resolution(state), awaited_exec(exact, version, upgrade, read_cache, state)),
        },
        ResolutionEvent::Listed(latest, resolved, fresh) => match &state.phase {
            ResolutionPhase::ListingForLatest => match latest {
                Err(e) => finished(ResolutionAction::Fail(e)),
                Ok(l) => {
                    let m = copy_string(&l);
                    (
                        Resolution { phase: ResolutionPhase::MatchingInstalled(l), listing: Some((resolved, fresh)) },
                        ResolutionAction::MatchInstalled(m),
                    )
                },
            },
            ResolutionPhase::Listing => from_listing_exec(read_cache, resolved, fresh),
            ResolutionPhase::Relisting => match resolved {
                Ok(v) => {
                    let w = copy_string(&v);
                    (at_phase(ResolutionPhase::Installing(v)), ResolutionAction::Install(w))
                },
                Err(e) => finished(ResolutionAction::Fail(e)),
            },
            _ => (copy_resolution(state), awaited_exec(exact, version, upgrade, read_cache, state)),
        },
        ResolutionEvent::InstalledMatched(m) => match &state.phase {
            ResolutionPhase::MatchingInstalled(_) => match m {
                Some(iv) => finished(ResolutionAction::Done(iv, false)),
                None => match &state.listing {
                    Some((r, f)) => from_listing_exec(read_cache, copy_result(r), *f),
                    None => (at_phase(ResolutionPhase::Listing), ResolutionAction::ListVersions(read_cache)),
                },
            },
            ResolutionPhase::FallingBack(e) => match m {
                Some(iv) => finished(ResolutionAction::Done(iv, false)),
                None => finished(ResolutionAction::Fail(e.duplicate())),
            },
            _ => (copy_resolution(state), awaited_exec(exact, version, upgrade, read_cache, state)),
        },
        ResolutionEvent::Start => (copy_resolution(state), awaited_exec(exact, version, upgrade, read_cache, state)),
    }
}

/// After a failed install, a version found among the installed ones that
/// matches the configuration is the one brought up, with nothing
/// installed: the resolution finishes with `Done(v, false)`; with none
/// found, it fails with the install's error.
pub proof fn law_fallback_uses_installed_match(c: ResolutionConfig, s: ResolutionView, e: UpErrorView, v: Seq<char>)
    requires
        s.phase == PhaseView::FallingBack(e),
    ensures
        resolution_step_of(c, s, EventView::InstalledMatched(Some(v))).1 == ActionView::Done(v, false),
        resolution_step_of(c, s, EventView::InstalledMatched(Some(v))).0.phase == PhaseView::Finished(
            ActionView::Done(v, false),
        ),
        resolution_step_of(c, s, EventView::InstalledMatched(None)).1 == ActionView::Fail(e),
{
}

/// A failed install falls back to the installed versions unless a
/// failed upgrade must fail the step, in which case the install's error
/// ends the resolution; an install that went through brings up the
/// version installed, saying whether it was installed now.
pub proof fn law_install_outcome(c: ResolutionConfig, s: ResolutionView, v: Seq<char>, e: UpErrorView, b: bool)
    requires
        s.phase == PhaseView::Installing(v),
    ensures
        resolution_step_of(c, s, EventView::Installed(Ok(b))).1 == ActionView::Done(v, b),
        c.fail_on_upgrade ==> resolution_step_of(c, s, EventView::Installed(Err(e))).1 == ActionView::Fail(e),
        !c.fail_on_upgrade ==> resolution_step_of(c, s, EventView::Installed(Err(e))).1
            == ActionView::MatchInstalledFallback,
{
}

/// An installed version that matches what is asked for is brought up as
/// it is, and a resolution that found none goes on to the listed
/// versions: the ones already listed when there are some, else a new
/// listing (from the cache when it may be read).
pub proof fn law_installed_match_is_used(c: ResolutionConfig, s: ResolutionView, req: Seq<char>, v: Seq<char>)
    requires
        s.phase == PhaseView::MatchingInstalled(req),
    ensures
        resolution_step_of(c, s, EventView::InstalledMatched(Some(v))).1 == ActionView::Done(v, false),
        s.listing is None ==> resolution_step_of(c, s, EventView::InstalledMatched(None)).1
            == ActionView::ListVersions(c.read_cache),
        s.listing matches Some((Ok(w), _)) ==> resolution_step_of(c, s, EventView::InstalledMatched(None)).1
            == ActionView::Install(w),
{
}

/// A listing that resolves to a version installs it; one that resolves
/// to none lists again without the cache when the list came from a stale
/// cache, and fails with its error otherwise.
pub proof fn law_listing_outcome(
    c: ResolutionConfig,
    s: ResolutionView,
    latest: Result<Seq<char>, UpErrorView>,
    v: Seq<char>,
    e: UpErrorView,
    fresh: bool,
)
    requires
        s.phase == PhaseView::Listing,
    ensures
        resolution_step_of(c, s, EventView::Listed(latest, Ok(v), fresh)).1 == ActionView::Install(v),
        c.read_cache && !fresh ==> resolution_step_of(c, s, EventView::Listed(latest, Err(e), fresh)).1
            == ActionView::ListVersions(false),
        !(c.read_cache && !fresh) ==> resolution_step_of(c, s, EventView::Listed(latest, Err(e), fresh)).1
            == ActionView::Fail(e),
{
}

/// How a resolution begins: an exact version is installed as asked (an
/// exact `latest`, or no version, is a configuration error); otherwise,
/// without an upgrade, the installed versions are looked at first for
/// the version asked (or, for `latest` or none, the versions are listed
/// to find the latest); with an upgrade the versions are listed.
pub proof fn law_resolution_begins(c: ResolutionConfig, s: ResolutionView, ev: EventView)
    requires
        s.phase == PhaseView::Start,
    ensures
        c.exact && (c.version is None || c.version == Some("latest"@)) ==> resolution_step_of(c, s, ev).1
            == ActionView::Fail(exact_latest_error()),
        c.exact && c.version is Some && c.version->0 != "latest"@ ==> resolution_step_of(c, s, ev).1
            == ActionView::Install(c.version->0),
        !c.exact && !c.upgrade && c.version is Some && c.version->0 != "latest"@ ==> resolution_step_of(c, s, ev).1
            == ActionView::MatchInstalled(c.version->0),
        !c.exact && !c.upgrade && (c.version is None || c.version == Some("latest"@)) ==> resolution_step_of(c, s, ev).1
            == ActionView::ListVersions(c.read_cache),
        !c.exact && c.upgrade ==> resolution_step_of(c, s, ev).1 == ActionView::ListVersions(c.read_cache),
{
}

} // verus!
