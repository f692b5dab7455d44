//! Tools installed through mise: where they live, how mise answers about
//! them, and how its registry is read.
use vstd::prelude::*;

use crate::error::{UpError, UpErrorKind, UpErrorView};
use crate::path::{components, path_components, relative_text, strip_path_components, strip_components};
use crate::text::{
    copy_string,
    from_chars, join_chars, keep_non_empty, lines, non_empty, push_str, slice, split,
    split_char, split_lines, split_once, split_once_at, split_words, to_chars, trim, trim_chars,
    views, words, find, find_pat,
};

verus! {

/// Where mise keeps its data, below the data home.
pub open spec fn mise_path_of(data_home: Seq<char>) -> Seq<char> {
    data_home + "/mise"@
}

/// The mise data directory below `data_home`.
pub fn mise_path(data_home: &str) -> (r: String)
    ensures
        r@ == mise_path_of(data_home@),
{
    let mut out = to_chars(data_home);
    push_str(&mut out, "/mise");
    from_chars(out.as_slice())
}

/// The mise cache directory below `cache_home`.
pub fn mise_cache_path(cache_home: &str) -> (r: String)
    ensures
        r@ == cache_home@ + "/mise"@,
{
    let mut out = to_chars(cache_home);
    push_str(&mut out, "/mise");
    from_chars(out.as_slice())
}

/// Where mise installs `version` of `tool`, below `data_home`.
pub fn mise_tool_path(data_home: &str, tool: &str, version: &str) -> (r: String)
    ensures
        r@ == mise_path_of(data_home@) + "/installs/"@ + tool@ + "/"@ + version@,
{
    let mut out = to_chars(data_home);
    push_str(&mut out, "/mise");
    push_str(&mut out, "/installs/");
    push_str(&mut out, tool);
    push_str(&mut out, "/");
    push_str(&mut out, version);
    from_chars(out.as_slice())
}

/// `mise {kind} for {tool} {version} {what}: {location}`.
pub open spec fn mise_msg(
    kind: Seq<char>,
    tool: Seq<char>,
    version: Seq<char>,
    what: Seq<char>,
    location: Seq<char>,
) -> Seq<char> {
    "mise "@ + kind + " for "@ + tool + " "@ + version + " "@ + what + ": "@ + location
}

fn mise_msg_exec(kind: &str, tool: &str, version: &str, what: &str, location: &Vec<char>) -> (r: UpError)
    ensures
        r == UpError::Exec(r->Exec_0),
        r->Exec_0@ == mise_msg(kind@, tool@, version@, what@, location@),
{
    let mut out = to_chars("mise ");
    push_str(&mut out, kind);
    push_str(&mut out, " for ");
    push_str(&mut out, tool);
    push_str(&mut out, " ");
    push_str(&mut out, version);
    push_str(&mut out, " ");
    push_str(&mut out, what);
    push_str(&mut out, ": ");
    crate::text::append(&mut out, location);
    UpError::Exec(from_chars(out.as_slice()))
}

/// The components of the directory where mise installs tools.
pub open spec fn installs_components(mise_path: Seq<char>) -> Seq<Seq<char>> {
    components(mise_path).push("installs"@)
}

fn installs_components_exec(mise_path: &str) -> (r: Vec<Vec<char>>)
    ensures
        views(r@) == installs_components(mise_path@),
{
    let mut r = path_components(&to_chars(mise_path));
    let ghost before = views(r@);
    r.push(to_chars("installs"));
    assert(views(r@) =~= before.push("installs"@));
    r
}

/// What `mise where` answers, read from its output: the location of the
/// tool below the installs directory, without the version directory.
pub open spec fn mise_where_of(tool: Seq<char>, version: Seq<char>, mise_path: Seq<char>, stdout: Seq<char>) -> Result<
    Seq<char>,
    Seq<char>,
> {
    let location = trim(stdout);
    match strip_components(components(location), installs_components(mise_path)) {
        None => Err(mise_msg("where"@, tool, version, "returned invalid location"@, location)),
        Some(rest) => if rest.len() == 0 {
            Err(mise_msg("where"@, tool, version, "does not contain tool name"@, location))
        } else {
            Ok(relative_text(rest.drop_last()))
        },
    }
}

/// Reads the output of `mise where {tool} {version}`: the location must lie
/// below `{mise_path}/installs`, and the tool's directory there is returned
/// (the location without its last component), its components joined by `/`.
pub fn mise_where(tool: &str, version: &str, mise_path: &str, stdout: &str) -> (r: Result<String, UpError>)
    ensures
        match mise_where_of(tool@, version@, mise_path@, stdout@) {
            Ok(p) => r matches Ok(s) && s@ == p,
            Err(m) => r == Err::<String, UpError>(UpError::Exec(r->Err_0->Exec_0)) && r->Err_0->Exec_0@
                == m,
        },
{
    let location = trim_chars(&to_chars(stdout));
    let comps = path_components(&location);
    let base = installs_components_exec(mise_path);
    match strip_path_components(&comps, &base) {
        None => Err(mise_msg_exec("where", tool, version, "returned invalid location", &location)),
        Some(rest) => {
            if rest.len() == 0 {
                return Err(mise_msg_exec("where", tool, version, "does not contain tool name", &location));
            }
            let mut parent: Vec<Vec<char>> = Vec::new();
            let mut i: usize = 0;
            while i + 1 < rest.len()
                invariant
                    rest@.len() >= 1,
                    i + 1 <= rest@.len(),
                    views(parent@) == views(rest@).subrange(0, i as int),
                decreases rest.len() - i,
            {
                let ghost before = views(parent@);
                parent.push(rest[i].clone());
                assert(views(parent@) =~= before.push(views(rest@)[i as int]));
                assert(views(parent@) =~= views(rest@).subrange(0, i + 1));
                i = i + 1;
            }
            assert(views(rest@).drop_last() =~= views(rest@).subrange(0, i as int));
            let slash = vec!['/'];
            assert(slash@ =~= seq!['/']);
            Ok(from_chars(join_chars(&parent, &slash).as_slice()))
        },
    }
}

/// The output of `mise env --json`: the `PATH` it would set.
#[derive(Debug, Clone)]
pub struct MiseEnvOutput {
    pub path: String,
}

impl MiseEnvOutput {
    /// The non-empty entries of `PATH`, in order; the caller keeps those
    /// that exist on disk.
    pub fn path(&self) -> (r: Vec<String>)
        ensures
            Seq::new(r@.len(), |k: int| r@[k]@) == non_empty(split(self.path@, ':')),
    {
        let parts = keep_non_empty(split_char(&to_chars(self.path.as_str()), ':'));
        let mut r: Vec<String> = Vec::new();
        let mut i: usize = 0;
        while i < parts.len()
            invariant
                i <= parts@.len(),
                views(parts@) == non_empty(split(self.path@, ':')),
                Seq::new(r@.len(), |k: int| r@[k]@) == views(parts@).subrange(0, i as int),
            decreases parts.len() - i,
        {
            let ghost before = Seq::new(r@.len(), |k: int| r@[k]@);
            let s = from_chars(parts[i].as_slice());
            r.push(s);
            assert(Seq::new(r@.len(), |k: int| r@[k]@) =~= before.push(views(parts@)[i as int]));
            assert(Seq::new(r@.len(), |k: int| r@[k]@) =~= views(parts@).subrange(0, i + 1));
            i = i + 1;
        }
        assert(views(parts@).subrange(0, i as int) =~= views(parts@));
        r
    }
}

/// `mise env for {tool} {version} returned empty path`.
pub open spec fn empty_env_msg(tool: Seq<char>, version: Seq<char>) -> Seq<char> {
    "mise env for "@ + tool + " "@ + version + " returned empty path"@
}

/// Where a tool lives, read from the first existing entry of the `PATH`
/// that `mise env` gives: the tool's directory name and the path inside
/// the version directory where its binaries are.
pub open spec fn mise_env_location_of(
    tool: Seq<char>,
    version: Seq<char>,
    mise_path: Seq<char>,
    paths: Seq<Seq<char>>,
) -> Result<(Seq<char>, Seq<char>), Seq<char>> {
    if paths.len() == 0 {
        Err(empty_env_msg(tool, version))
    } else {
        let location = paths[0];
        match strip_components(components(location), installs_components(mise_path)) {
            None => Err(mise_msg("where"@, tool, version, "returned invalid location"@, location)),
            Some(rest) => if rest.len() == 0 {
                Err(mise_msg("env"@, tool, version, "does not contain tool name"@, location))
            } else if rest.len() == 1 {
                Err(mise_msg("env"@, tool, version, "does not contain tool version"@, location))
            } else if rest[1] != version {
                Err(mise_msg("env"@, tool, version, "returned invalid version"@, location))
            } else {
                Ok((rest[0], relative_text(rest.subrange(2, rest.len() as int))))
            },
        }
    }
}

/// Reads where a tool was installed from the existing `PATH` entries that
/// `mise env` gave for it (see `mise_env_location_of`).
pub fn mise_env_location(tool: &str, version: &str, mise_path: &str, paths: &Vec<String>) -> (r: Result<
    (String, String),
    UpError,
>)
    ensures
        match mise_env_location_of(
            tool@,
            version@,
            mise_path@,
            Seq::new(paths@.len(), |k: int| paths@[k]@),
        ) {
            Ok((name, bin)) => r matches Ok((n, b)) && n@ == name && b@ == bin,
            Err(m) => r == Err::<(String, String), UpError>(UpError::Exec(r->Err_0->Exec_0))
                && r->Err_0->Exec_0@ == m,
        },
{
    let ghost pv = Seq::new(paths@.len(), |k: int| paths@[k]@);
    if paths.len() == 0 {
        let mut out = to_chars("mise env for ");
        push_str(&mut out, tool);
        push_str(&mut out, " ");
        push_str(&mut out, version);
        push_str(&mut out, " returned empty path");
        return Err(UpError::Exec(from_chars(out.as_slice())));
    }
    let location = to_chars(paths[0].as_str());
    assert(location@ == pv[0]);
    let comps = path_components(&location);
    let base = installs_components_exec(mise_path);
    match strip_path_components(&comps, &base) {
        None => Err(mise_msg_exec("where", tool, version, "returned invalid location", &location)),
        Some(rest) => {
            if rest.len() == 0 {
                return Err(mise_msg_exec("env", tool, version, "does not contain tool name", &location));
            }
            if rest.len() == 1 {
                return Err(
                    mise_msg_exec("env", tool, version, "does not contain tool version", &location),
                );
            }
            if !crate::text::chars_eq(&rest[1], &to_chars(version)) {
                return Err(mise_msg_exec("env", tool, version, "returned invalid version", &location));
            }
            let mut bin: Vec<Vec<char>> = Vec::new();
            let mut i: usize = 2;
            while i < rest.len()
                invariant
                    2 <= i <= rest@.len(),
                    views(bin@) == views(rest@).subrange(2, i as int),
                decreases rest.len() - i,
            {
                let ghost before = views(bin@);
                bin.push(rest[i].clone());
                assert(views(bin@) =~= before.push(views(rest@)[i as int]));
                assert(views(bin@) =~= views(rest@).subrange(2, i + 1));
                i = i + 1;
            }
            let slash = vec!['/'];
            assert(slash@ =~= seq!['/']);
            Ok((from_chars(rest[0].as_slice()), from_chars(join_chars(&bin, &slash).as_slice())))
        },
    }
}

/// A tool brought up through mise, as configured, and how far its run
/// got.
#[derive(Debug, Clone)]
pub struct UpConfigMise {
    /// The tool asked for, without its backend.
    pub requested_tool: String,
    /// The backend asked for, if any.
    pub backend: Option<String>,
    /// The version asked for: a version, a range, `latest`, `auto` or `*`.
    pub version: String,
    /// Whether to always upgrade rather than use an installed version.
    pub upgrade: bool,
    /// The directories the tool is installed for, each once, in
    /// increasing order.
    pub dirs: Vec<String>,
    /// The version brought up, once resolved.
    pub actual_version: Option<String>,
    /// The versions brought up for `auto`, once installed.
    pub actual_versions: Option<Vec<String>>,
    /// Whether the run succeeded, once it was attempted.
    pub up_succeeded: Option<bool>,
}

pub struct MiseView {
    pub requested_tool: Seq<char>,
    pub backend: Option<Seq<char>>,
    pub version: Seq<char>,
    pub upgrade: bool,
    pub dirs: Seq<Seq<char>>,
    pub actual_version: Option<Seq<char>>,
    pub actual_versions: Option<Seq<Seq<char>>>,
    pub up_succeeded: Option<bool>,
}

impl View for UpConfigMise {
    type V = MiseView;

    open spec fn view(&self) -> MiseView {
        MiseView {
            requested_tool: self.requested_tool@,
            backend: opt_view(self.backend),
            version: self.version@,
            upgrade: self.upgrade,
            dirs: crate::config_value::string_views(self.dirs@),
            actual_version: opt_view(self.actual_version),
            actual_versions: match self.actual_versions {
                Some(v) => Some(crate::config_value::string_views(v@)),
                None => None,
            },
            up_succeeded: self.up_succeeded,
        }
    }
}

/// What a result without value holds: nothing, or its error.
pub open spec fn outcome_view(r: Result<(), UpError>) -> Result<(), UpErrorView> {
    match r {
        Ok(()) => Ok(()),
        Err(e) => Err(e@),
    }
}

/// Whether a run may start: not when one was attempted, nor when mise
/// operations are not allowed.
pub open spec fn up_start_of(m: MiseView, allowed: bool) -> Result<(), UpErrorView> {
    if m.up_succeeded is Some {
        Err(UpErrorView { kind: UpErrorKind::Exec, text: "up operation already attempted"@, step: None })
    } else if !allowed {
        Err(
            UpErrorView {
                kind: UpErrorKind::Exec,
                text: "mise operations ("@ + m.requested_tool + ") are not allowed"@,
                step: None,
            },
        )
    } else {
        Ok(())
    }
}

/// The tool once a run that succeeded (`ok`) or failed is recorded; only
/// the first record counts.
pub open spec fn up_recorded(m: MiseView, ok: bool) -> MiseView {
    MiseView { up_succeeded: if m.up_succeeded is Some { m.up_succeeded } else { Some(ok) }, ..m }
}

/// A tool that ran is not run again, and was brought up exactly when its
/// first run succeeded: once a run's outcome is recorded, every later
/// start is refused, whatever the outcome and whether mise operations
/// are allowed, and later records change nothing.
pub proof fn law_mise_runs_once(m: MiseView, ok: bool, later: bool, allowed: bool)
    requires
        m.up_succeeded is None,
    ensures
        up_recorded(m, ok).up_succeeded == Some(ok),
        up_start_of(up_recorded(m, ok), allowed) == Err::<(), UpErrorView>(
            UpErrorView { kind: UpErrorKind::Exec, text: "up operation already attempted"@, step: None },
        ),
        up_recorded(up_recorded(m, ok), later) == up_recorded(m, ok),
{
}

/// The error of a version asked for before one was resolved.
pub open spec fn version_not_set_msg() -> Seq<char> {
    "actual version not set"@
}

impl UpConfigMise {
    /// A tool named `[backend:]tool[@version]` asking for `version` in the
    /// directories `dirs` (each kept once, in increasing order), that has
    /// not run yet; a version in the name is ignored.
    pub fn new(tool: &str, version: &str, dirs: &Vec<String>, upgrade: bool) -> (r: UpConfigMise)
        ensures
            r@.requested_tool == mise_name_parts(tool@).0,
            r@.backend == mise_name_parts(tool@).1,
            r@.version == version@,
            r@.upgrade == upgrade,
            r@.dirs == crate::config_value::keys_in_order(
                crate::config_value::string_views(dirs@),
                None,
                (dirs@.len() + 1) as nat,
            ),
            r@.actual_version is None,
            r@.actual_versions is None,
            r@.up_succeeded is None,
    {
        let (requested_tool, backend, _in_name) = parse_mise_name(tool);
        UpConfigMise {
            requested_tool,
            backend,
            version: crate::text::from_chars(to_chars(version).as_slice()),
            upgrade,
            dirs: crate::config_value::sorted_distinct(dirs),
            actual_version: None,
            actual_versions: None,
            up_succeeded: None,
        }
    }

    /// A tool named `[backend:]tool[@version]` asking for any version
    /// (`*`), for no directory.
    pub fn new_any_version(tool: &str) -> (r: UpConfigMise)
        ensures
            r@.requested_tool == mise_name_parts(tool@).0,
            r@.backend == mise_name_parts(tool@).1,
            r@.version == "*"@,
            !r@.upgrade,
            r@.dirs.len() == 0,
            r@.actual_version is None,
            r@.actual_versions is None,
            r@.up_succeeded is None,
    {
        let (requested_tool, backend, _in_name) = parse_mise_name(tool);
        let r = UpConfigMise {
            requested_tool,
            backend,
            version: String::from_str("*"),
            upgrade: false,
            dirs: Vec::new(),
            actual_version: None,
            actual_versions: None,
            up_succeeded: None,
        };
        assert(r@.dirs =~= Seq::<Seq<char>>::empty());
        r
    }

    /// Whether the run was attempted and succeeded.
    pub fn was_upped(&self) -> (r: bool)
        ensures
            r == (self.up_succeeded == Some(true)),
    {
        match self.up_succeeded {
            Some(b) => b,
            None => false,
        }
    }

    /// Refuses a second run: a tool runs once.
    pub fn check_not_attempted(&self) -> (r: Result<(), UpError>)
        ensures
            self.up_succeeded is None ==> r is Ok,
            self.up_succeeded is Some ==> (r matches Err(UpError::Exec(m)) && m@ == "up operation already attempted"@),
    {
        if self.up_succeeded.is_some() {
            return Err(UpError::Exec(String::from_str("up operation already attempted")));
        }
        Ok(())
    }

    /// Records whether the run succeeded; only the first record counts.
    pub fn record_up(&mut self, succeeded: bool)
        ensures
            final(self)@ == (MiseView {
                up_succeeded: if old(self).up_succeeded is Some {
                    old(self).up_succeeded
                } else {
                    Some(succeeded)
                },
                ..old(self)@
            }),
    {
        if self.up_succeeded.is_none() {
            self.up_succeeded = Some(succeeded);
        }
    }

    /// Whether a run may start (see `up_start_of`); `allowed` tells whether
    /// the configuration allows mise operations.
    pub fn begin_up(&self, allowed: bool) -> (r: Result<(), UpError>)
        ensures
            outcome_view(r) == up_start_of(self@, allowed),
    {
        if self.up_succeeded.is_some() {
            return Err(UpError::Exec(String::from_str("up operation already attempted")));
        }
        if !allowed {
            let mut m = to_chars("mise operations (");
            crate::text::append(&mut m, &to_chars(self.requested_tool.as_str()));
            push_str(&mut m, ") are not allowed");
            return Err(UpError::Exec(crate::text::from_chars(m.as_slice())));
        }
        Ok(())
    }

    /// Ends a run: records whether it succeeded (see `up_recorded`) and
    /// gives its result back.
    pub fn finish_up(&mut self, result: Result<(), UpError>) -> (r: Result<(), UpError>)
        ensures
            final(self)@ == up_recorded(old(self)@, result is Ok),
            outcome_view(r) == outcome_view(result),
    {
        self.record_up(result.is_ok());
        result
    }

    /// Records the version brought up; only the first record counts.
    pub fn record_version(&mut self, version: String)
        ensures
            final(self)@ == (MiseView {
                actual_version: if old(self)@.actual_version is Some {
                    old(self)@.actual_version
                } else {
                    Some(version@)
                },
                ..old(self)@
            }),
    {
        if self.actual_version.is_none() {
            self.actual_version = Some(version);
        }
    }

    /// Records the versions brought up for `auto`; only the first record
    /// counts.
    pub fn record_versions(&mut self, versions: Vec<String>)
        ensures
            final(self)@ == (MiseView {
                actual_versions: if old(self)@.actual_versions is Some {
                    old(self)@.actual_versions
                } else {
                    Some(crate::config_value::string_views(versions@))
                },
                ..old(self)@
            }),
    {
        if self.actual_versions.is_none() {
            self.actual_versions = Some(versions);
        }
    }

    /// The version brought up, or an error when none was resolved yet.
    pub fn version(&self) -> (r: Result<String, UpError>)
        ensures
            match self@.actual_version {
                Some(v) => r matches Ok(x) && x@ == v,
                None => r matches Err(UpError::Exec(m)) && m@ == version_not_set_msg(),
            },
    {
        match &self.actual_version {
            Some(v) => Ok(copy_string(v)),
            None => Err(UpError::Exec(String::from_str("actual version not set"))),
        }
    }

    /// The versions a commit records as required: the version brought
    /// up, else those brought up for `auto`, else an error.
    pub fn committed_versions(&self) -> (r: Result<Vec<String>, UpError>)
        ensures
            match (self@.actual_version, self@.actual_versions) {
                (Some(v), _) => r matches Ok(x) && crate::config_value::string_views(x@) == seq![v],
                (None, Some(vs)) => r matches Ok(x) && crate::config_value::string_views(x@) == vs,
                (None, None) => r matches Err(UpError::Exec(m)) && m@ == "failed to get version"@,
            },
    {
        match &self.actual_version {
            Some(v) => {
                let r = vec![copy_string(v)];
                assert(crate::config_value::string_views(r@) =~= seq![v@]);
                Ok(r)
            },
            None => match &self.actual_versions {
                Some(vs) => {
                    let mut out: Vec<String> = Vec::new();
                    let mut i: usize = 0;
                    while i < vs.len()
                        invariant
                            i <= vs@.len(),
                            crate::config_value::string_views(out@) == crate::config_value::string_views(vs@).subrange(0, i as int),
                        decreases vs.len() - i,
                    {
                        let ghost prev = crate::config_value::string_views(out@);
                        let c = copy_string(&vs[i]);
                        out.push(c);
                        assert(crate::config_value::string_views(out@) =~= prev.push(vs@[i as int]@));
                        assert(crate::config_value::string_views(out@) =~= crate::config_value::string_views(vs@).subrange(0, i + 1));
                        i = i + 1;
                    }
                    assert(crate::config_value::string_views(vs@).subrange(0, i as int) =~= crate::config_value::string_views(vs@));
                    Ok(out)
                },
                None => Err(UpError::Exec(String::from_str("failed to get version"))),
            },
        }
    }
}

/// Parameters given to a mise step by the operation that created it.
#[derive(Debug, Clone)]
pub struct UpConfigMiseParams {
    pub tool_url: Option<String>,
}

/// A version of a tool installed through mise, and the directories that
/// asked for it (each once, in increasing order).
#[derive(Debug, Clone)]
pub struct MiseToolUpVersion {
    pub version: String,
    pub dirs: Vec<String>,
}

/// The tool, backend and version in `[backend:]tool[@version]`.
pub open spec fn mise_name_parts(name: Seq<char>) -> (Seq<char>, Option<Seq<char>>, Option<Seq<char>>) {
    let (tool, version) = match split_once(name, seq!['@']) {
        Some((t, v)) => (t, Some(v)),
        None => (name, None),
    };
    match split_once(tool, seq![':']) {
        Some((b, t)) => (t, Some(b), version),
        None => (tool, None, version),
    }
}

fn opt_chars(o: Option<Vec<char>>) -> (r: Option<String>)
    ensures
        match o {
            Some(v) => r matches Some(s) && s@ == v@,
            None => r is None,
        },
{
    match o {
        Some(v) => Some(from_chars(v.as_slice())),
        None => None,
    }
}

/// Splits `[backend:]tool[@version]` at the first `@`, then the part
/// before it at the first `:`.
pub fn parse_mise_name(name: &str) -> (r: (String, Option<String>, Option<String>))
    ensures
        ({
            let (tool, backend, version) = mise_name_parts(name@);
            &&& r.0@ == tool
            &&& match r.1 {
                Some(b) => backend == Some(b@),
                None => backend is None,
            }
            &&& match r.2 {
                Some(v) => version == Some(v@),
                None => version is None,
            }
        }),
{
    let n = to_chars(name);
    let at = vec!['@'];
    assert(at@ =~= seq!['@']);
    let colon = vec![':'];
    assert(colon@ =~= seq![':']);
    let (tool, version) = match split_once_at(&n, &at) {
        Some((t, v)) => (t, Some(v)),
        None => (n, None),
    };
    match split_once_at(&tool, &colon) {
        Some((b, t)) => (from_chars(t.as_slice()), Some(from_chars(b.as_slice())), opt_chars(version)),
        None => (from_chars(tool.as_slice()), None, opt_chars(version)),
    }
}


/// Whether `url::Url::parse` accepts the text as an absolute URL.
pub uninterp spec fn url_parses(s: Seq<char>) -> bool;

/// The host that `url::Url::host_str` gives for the URL that
/// `url::Url::parse` reads from the text, if it has one.
pub uninterp spec fn url_host(s: Seq<char>) -> Option<Seq<char>>;

/// `url::Url::parse(s)`, then `host_str` of the URL it gives: `None` when
/// the parser of the url crate refuses `s`, else the host, if any. What
/// the parser accepts, and the host it finds, are named, not spelled out.
#[verifier::external_body]
pub(crate) fn parse_url_host(s: &str) -> (r: Option<Option<String>>)
    ensures
        r is Some <==> url_parses(s@),
        r matches Some(h) ==> match h {
            Some(x) => url_host(s@) == Some(x@),
            None => url_host(s@) is None,
        },
{
    match url::Url::parse(s) {
        Ok(u) => match u.host_str() {
            Some(h) => Some(Some(h.to_string())),
            None => Some(None),
        },
        Err(_) => None,
    }
}

/// An entry of the mise registry: a short name, and one of the full names
/// it stands for, read as backend, name and repository.
#[derive(Debug, Clone)]
pub struct MiseRegistryEntry {
    pub short_name: String,
    pub full_name: String,
    pub clean_name: String,
    pub backend: String,
    pub repository: Option<String>,
}

pub struct MiseRegistryEntryView {
    pub short_name: Seq<char>,
    pub full_name: Seq<char>,
    pub clean_name: Seq<char>,
    pub backend: Seq<char>,
    pub repository: Option<Seq<char>>,
}

impl View for MiseRegistryEntry {
    type V = MiseRegistryEntryView;

    open spec fn view(&self) -> MiseRegistryEntryView {
        MiseRegistryEntryView {
            short_name: self.short_name@,
            full_name: self.full_name@,
            clean_name: self.clean_name@,
            backend: self.backend@,
            repository: match self.repository {
                Some(r) => Some(r@),
                None => None,
            },
        }
    }
}

pub open spec fn entry_views(v: Seq<MiseRegistryEntry>) -> Seq<MiseRegistryEntryView> {
    Seq::new(v.len(), |k: int| v[k]@)
}

/// The repository a registry name points to, by backend.
pub open spec fn registry_repository(backend: Seq<char>, name: Seq<char>) -> Option<Seq<char>> {
    if backend == "asdf"@ {
        if url_parses(name) {
            Some(name)
        } else {
            Some("https://github.com/"@ + name)
        }
    } else if backend == "go"@ {
        Some("https://"@ + name)
    } else if backend == "ubi"@ || backend == "vfox"@ {
        Some("https://github.com/"@ + name)
    } else {
        None
    }
}

/// `backend:name` or `backend:name[conditions]`, read as (name, backend,
/// repository); `None` when it has no `:`, only one of the brackets, or
/// its `]` before its `[`.
pub open spec fn full_name_of(full: Seq<char>) -> Option<(Seq<char>, Seq<char>, Option<Seq<char>>)> {
    match split_once(full, seq![':']) {
        None => None,
        Some((backend, rest)) => {
            let name = match (find(rest, seq!['[']), find(rest, seq![']'])) {
                (Some(start), Some(end)) => if end < start {
                    None
                } else {
                    Some(rest.subrange(0, start))
                },
                (None, None) => Some(rest),
                _ => None,
            };
            match name {
                None => None,
                Some(n) => Some((n, backend, registry_repository(backend, n))),
            }
        },
    }
}

/// `invalid mise registry full name: {full}`.
pub open spec fn full_name_msg(full: Seq<char>) -> Seq<char> {
    "invalid mise registry full name: "@ + full
}

/// `invalid mise registry line: {line}`.
pub open spec fn registry_line_msg(line: Seq<char>) -> Seq<char> {
    "invalid mise registry line: "@ + line
}

/// What reading part of the registry gives.
pub enum RegistryOutcome {
    Entries(Seq<MiseRegistryEntryView>),
    Failed(Seq<char>),
}

/// The entries for the full names `ws[k..]` of the short name `short`.
pub open spec fn entries_from(short: Seq<char>, ws: Seq<Seq<char>>, k: int) -> RegistryOutcome
    decreases ws.len() - k,
{
    if k < 0 || k >= ws.len() {
        RegistryOutcome::Entries(Seq::empty())
    } else {
        match full_name_of(ws[k]) {
            None => RegistryOutcome::Failed(full_name_msg(ws[k])),
            Some((clean, backend, repository)) => {
                let e = MiseRegistryEntryView {
                    short_name: short,
                    full_name: ws[k],
                    clean_name: clean,
                    backend,
                    repository,
                };
                match entries_from(short, ws, k + 1) {
                    RegistryOutcome::Entries(rest) => RegistryOutcome::Entries(seq![e] + rest),
                    other => other,
                }
            },
        }
    }
}

/// The entries of one registry line: a short name, then full names.
pub open spec fn line_entries(line: Seq<char>) -> RegistryOutcome {
    let ws = words(line);
    if ws.len() < 2 {
        RegistryOutcome::Failed(registry_line_msg(line))
    } else {
        entries_from(ws[0], ws, 1)
    }
}

/// The entries of the lines `ls[i..]`, in order.
pub open spec fn output_entries(ls: Seq<Seq<char>>, i: int) -> RegistryOutcome
    decreases ls.len() - i,
{
    if i < 0 || i >= ls.len() {
        RegistryOutcome::Entries(Seq::empty())
    } else {
        match line_entries(ls[i]) {
            RegistryOutcome::Entries(es) => match output_entries(ls, i + 1) {
                RegistryOutcome::Entries(rest) => RegistryOutcome::Entries(es + rest),
                other => other,
            },
            other => other,
        }
    }
}

fn opt_string(o: Option<Vec<char>>) -> (r: Option<String>)
    ensures
        match o {
            Some(v) => r matches Some(s) && s@ == v@,
            None => r is None,
        },
{
    opt_chars(o)
}

fn is_word(v: &Vec<char>, w: &str) -> (r: bool)
    ensures
        r == (v@ == w@),
{
    crate::text::chars_eq(v, &to_chars(w))
}

fn registry_repository_exec(backend: &Vec<char>, name: &Vec<char>) -> (r: Option<Vec<char>>)
    ensures
        match registry_repository(backend@, name@) {
            Some(x) => r matches Some(v) && v@ == x,
            None => r is None,
        },
{
    if is_word(backend, "asdf") {
        let n = from_chars(name.as_slice());
        if parse_url_host(n.as_str()).is_some() {
            Some(name.clone())
        } else {
            let mut out = to_chars("https://github.com/");
            crate::text::append(&mut out, name);
            Some(out)
        }
    } else if is_word(backend, "go") {
        let mut out = to_chars("https://");
        crate::text::append(&mut out, name);
        Some(out)
    } else if is_word(backend, "ubi") || is_word(backend, "vfox") {
        let mut out = to_chars("https://github.com/");
        crate::text::append(&mut out, name);
        Some(out)
    } else {
        None
    }
}

fn full_name_exec(full: &Vec<char>) -> (r: Result<(Vec<char>, Vec<char>, Option<Vec<char>>), UpError>)
    ensures
        match full_name_of(full@) {
            Some((n, b, repo)) => r matches Ok((x, y, z)) && x@ == n && y@ == b && (match z {
                Some(w) => repo == Some(w@),
                None => repo is None,
            }),
            None => r == Err::<(Vec<char>, Vec<char>, Option<Vec<char>>), UpError>(
                UpError::Exec(r->Err_0->Exec_0),
            ) && r->Err_0->Exec_0@ == full_name_msg(full@),
        },
{
    let colon = vec![':'];
    assert(colon@ =~= seq![':']);
    let open_b = vec!['['];
    assert(open_b@ =~= seq!['[']);
    let close_b = vec![']'];
    assert(close_b@ =~= seq![']']);
    match split_once_at(full, &colon) {
        None => {
            let mut out = to_chars("invalid mise registry full name: ");
            crate::text::append(&mut out, full);
            Err(UpError::Exec(from_chars(out.as_slice())))
        },
        Some((backend, rest)) => {
            let name = match (find_pat(&rest, &open_b), find_pat(&rest, &close_b)) {
                (Some(start), Some(end)) => {
                    if end < start {
                        None
                    } else {
                        proof {
                            crate::text::lemma_find_from_bounds(rest@, open_b@, 0);
                        }
                        Some(slice(&rest, 0, start))
                    }
                },
                (None, None) => Some(rest),
                _ => None,
            };
            match name {
                None => {
                    let mut out = to_chars("invalid mise registry full name: ");
                    crate::text::append(&mut out, full);
                    Err(UpError::Exec(from_chars(out.as_slice())))
                },
                Some(n) => {
                    let repo = registry_repository_exec(&backend, &n);
                    Ok((n, backend, repo))
                },
            }
        },
    }
}

fn duplicate_entry(e: &MiseRegistryEntry) -> (r: MiseRegistryEntry)
    ensures
        r@ == e@,
{
    MiseRegistryEntry {
        short_name: copy_string(&e.short_name),
        full_name: copy_string(&e.full_name),
        clean_name: copy_string(&e.clean_name),
        backend: copy_string(&e.backend),
        repository: match &e.repository {
            Some(x) => Some(copy_string(x)),
            None => None,
        },
    }
}

/// A registry, as read from the output of `mise registry`.
#[derive(Debug, Clone)]
pub struct MiseRegistry {
    pub entries: Vec<MiseRegistryEntry>,
}

impl MiseRegistry {
    /// Reads a full name (`backend:name`, `backend:name[conditions]`) as
    /// its name, backend and repository.
    pub fn parse_full_name(full_name: &str) -> (r: Result<(String, String, Option<String>), UpError>)
        ensures
            match full_name_of(full_name@) {
                Some((n, b, repo)) => r matches Ok((x, y, z)) && x@ == n && y@ == b && (match z {
                    Some(w) => repo == Some(w@),
                    None => repo is None,
                }),
                None => r == Err::<(String, String, Option<String>), UpError>(
                    UpError::Exec(r->Err_0->Exec_0),
                ) && r->Err_0->Exec_0@ == full_name_msg(full_name@),
            },
    {
        match full_name_exec(&to_chars(full_name)) {
            Ok((n, b, repo)) => Ok((from_chars(n.as_slice()), from_chars(b.as_slice()), opt_string(repo))),
            Err(e) => Err(e),
        }
    }

    /// Reads one line of the registry: its short name and the entries for
    /// each of its full names.
    pub fn parse_line(line: &str) -> (r: Result<Vec<MiseRegistryEntry>, UpError>)
        ensures
            match line_entries(line@) {
                RegistryOutcome::Entries(es) => r matches Ok(v) && entry_views(v@) == es,
                RegistryOutcome::Failed(m) => r == Err::<Vec<MiseRegistryEntry>, UpError>(
                    UpError::Exec(r->Err_0->Exec_0),
                ) && r->Err_0->Exec_0@ == m,
            },
    {
        let l = to_chars(line);
        let ws = split_words(&l);
        if ws.len() < 2 {
            let mut out = to_chars("invalid mise registry line: ");
            crate::text::append(&mut out, &l);
            return Err(UpError::Exec(from_chars(out.as_slice())));
        }
        let short = from_chars(ws[0].as_slice());
        let ghost wv = views(ws@);
        let mut entries: Vec<MiseRegistryEntry> = Vec::new();
        let mut k: usize = 1;
        while k < ws.len()
            invariant
                1 <= k <= ws@.len(),
                wv == views(ws@),
                wv == words(line@),
                short@ == wv[0],
                entries_from(wv[0], wv, 1) == (match entries_from(wv[0], wv, k as int) {
                    RegistryOutcome::Entries(rest) => RegistryOutcome::Entries(
                        entry_views(entries@) + rest,
                    ),
                    other => other,
                }),
            decreases ws.len() - k,
        {
            match full_name_exec(&ws[k]) {
                Err(e) => {
                    return Err(e);
                },
                Ok((clean, backend, repo)) => {
                    let ghost before = entry_views(entries@);
                    let e = MiseRegistryEntry {
                        short_name: from_chars(ws[0].as_slice()),
                        full_name: from_chars(ws[k].as_slice()),
                        clean_name: from_chars(clean.as_slice()),
                        backend: from_chars(backend.as_slice()),
                        repository: opt_string(repo),
                    };
                    entries.push(e);
                    assert(entry_views(entries@) =~= before.push(e@));
                    proof {
                        let ev = e@;
                        match entries_from(wv[0], wv, k + 1) {
                            RegistryOutcome::Entries(rest) => {
                                assert(entries_from(wv[0], wv, k as int) == RegistryOutcome::Entries(
                                    seq![ev] + rest,
                                ));
                                assert(before + (seq![ev] + rest) =~= before.push(ev) + rest);
                            },
                            _ => {},
                        }
                    }
                },
            }
            k = k + 1;
        }
        Ok(entries)
    }

    /// Reads the whole output of `mise registry`, line by line.
    pub fn parse_output(stdout: &str) -> (r: Result<MiseRegistry, UpError>)
        ensures
            match output_entries(lines(stdout@), 0) {
                RegistryOutcome::Entries(es) => r matches Ok(reg) && entry_views(reg.entries@) == es,
                RegistryOutcome::Failed(m) => r matches Err(e) && e == UpError::Exec(e->Exec_0)
                    && e->Exec_0@ == m,
            },
    {
        let ls = split_lines(&to_chars(stdout));
        let ghost lv = views(ls@);
        let mut entries: Vec<MiseRegistryEntry> = Vec::new();
        let mut i: usize = 0;
        while i < ls.len()
            invariant
                i <= ls@.len(),
                lv == views(ls@),
                lv == lines(stdout@),
                output_entries(lv, 0) == (match output_entries(lv, i as int) {
                    RegistryOutcome::Entries(rest) => RegistryOutcome::Entries(
                        entry_views(entries@) + rest,
                    ),
                    other => other,
                }),
            decreases ls.len() - i,
        {
            let line = from_chars(ls[i].as_slice());
            match MiseRegistry::parse_line(line.as_str()) {
                Err(e) => {
                    return Err(e);
                },
                Ok(found) => {
                    let ghost before = entry_views(entries@);
                    let ghost fv = entry_views(found@);
                    let mut k: usize = 0;
                    while k < found.len()
                        invariant
                            k <= found@.len(),
                            fv == entry_views(found@),
                            entry_views(entries@) == before + fv.subrange(0, k as int),
                        decreases found.len() - k,
                    {
                        let ghost mid = entry_views(entries@);
                        let e = duplicate_entry(&found[k]);
                        entries.push(e);
                        assert(entry_views(entries@) =~= mid.push(fv[k as int]));
                        assert(entry_views(entries@) =~= before + fv.subrange(0, k + 1));
                        k = k + 1;
                    }
                    assert(fv.subrange(0, k as int) =~= fv);
                    proof {
                        match output_entries(lv, i + 1) {
                            RegistryOutcome::Entries(rest) => {
                                assert(before + (fv + rest) =~= (before + fv) + rest);
                            },
                            _ => {},
                        }
                    }
                },
            }
            i = i + 1;
        }
        Ok(MiseRegistry { entries })
    }
}


/// Whether `char::is_alphanumeric` holds of `c` (Unicode's alphabetic or
/// numeric characters; the tables are named, not spelled out).
pub uninterp spec fn unicode_alphanumeric(c: char) -> bool;

/// `char::is_alphanumeric`.
#[verifier::external_body]
fn is_alphanumeric(c: char) -> (r: bool)
    ensures
        r == unicode_alphanumeric(c),
{
    c.is_alphanumeric()
}

/// Whether a tool name installed from a URL holds only alphanumeric
/// characters, `-` and `_`.
pub open spec fn plain_tool_name(tool: Seq<char>) -> bool {
    forall|i: int| 0 <= i < tool.len() ==> unicode_alphanumeric(#[trigger] tool[i]) || tool[i] == '-' || tool[i]
        == '_'
}

/// A tool as mise knows it: its name, its plugin, the backend it comes
/// from, and the name under which mise installs it.
#[derive(Debug, Clone)]
pub struct FullyQualifiedToolName {
    pub tool: String,
    pub plugin_name: String,
    pub backend: Option<String>,
    pub fully_qualified_plugin_name: String,
    /// Whether the plugin is installed and removed by omni.
    pub requires_plugin_management: bool,
    /// Where the tool's binaries are in its version directory, once known.
    pub bin_path: Option<String>,
    /// The name mise gives the plugin, once known.
    pub normalized_plugin_name: Option<String>,
}

pub struct ToolNameView {
    pub tool: Seq<char>,
    pub plugin_name: Seq<char>,
    pub backend: Option<Seq<char>>,
    pub fully_qualified_plugin_name: Seq<char>,
    pub requires_plugin_management: bool,
    pub bin_path: Option<Seq<char>>,
    pub normalized_plugin_name: Option<Seq<char>>,
}

pub open spec fn opt_view(o: Option<String>) -> Option<Seq<char>> {
    match o {
        Some(s) => Some(s@),
        None => None,
    }
}

impl View for FullyQualifiedToolName {
    type V = ToolNameView;

    open spec fn view(&self) -> ToolNameView {
        ToolNameView {
            tool: self.tool@,
            plugin_name: self.plugin_name@,
            backend: opt_view(self.backend),
            fully_qualified_plugin_name: self.fully_qualified_plugin_name@,
            requires_plugin_management: self.requires_plugin_management,
            bin_path: opt_view(self.bin_path),
            normalized_plugin_name: opt_view(self.normalized_plugin_name),
        }
    }
}

/// The source URL of a tool's plugin, and whether the plugin's name must
/// tell it apart: a URL given by the operation overriding the tool's own,
/// or the default source configured for the tool, are told apart; the
/// tool's own URL is not.
pub open spec fn plugin_source_of(
    url: Option<Seq<char>>,
    override_url: Option<Seq<char>>,
    default_source: Option<Seq<char>>,
) -> (bool, Option<Seq<char>>) {
    match override_url {
        Some(u) => (true, Some(u)),
        None => match default_source {
            Some(u) => (true, Some(u)),
            None => (false, url),
        },
    }
}

/// The plugin name for `tool` installed from `url`: the tool's name, and
/// when `suffix` holds, `-` and the first 8 hex digits of the URL's
/// SHA-256.
pub open spec fn url_plugin_name(tool: Seq<char>, url: Seq<char>, suffix: bool) -> Seq<char> {
    if suffix {
        tool + seq!['-'] + crate::github_release::hex(
            crate::github_release::sha256_digest(vstd::utf8::encode_utf8(url)),
        ).subrange(0, 8)
    } else {
        tool
    }
}

/// What naming a tool installed from a URL gives, given whether custom
/// sources are allowed and whether this URL is an allowed source.
pub open spec fn url_tool_of(
    tool: Seq<char>,
    url: Seq<char>,
    suffix: bool,
    backend: Option<Seq<char>>,
    custom_allowed: bool,
    source_allowed: bool,
) -> Result<ToolNameView, Seq<char>> {
    if backend is Some {
        Err("cannot specify a backend when using a custom URL for tool "@ + tool)
    } else if !custom_allowed {
        Err("cannot use custom URLs for tool installations"@)
    } else if !plain_tool_name(tool) {
        Err("invalid tool name: "@ + tool)
    } else if !source_allowed {
        Err("cannot use URL "@ + url + " as a source for tool installations"@)
    } else {
        let name = url_plugin_name(tool, url, suffix);
        Ok(
            ToolNameView {
                tool,
                plugin_name: name,
                backend: None,
                fully_qualified_plugin_name: name,
                requires_plugin_management: true,
                bin_path: Some("bin"@),
                normalized_plugin_name: Some(name),
            },
        )
    }
}

/// Whether registry entry `e` matches `name` and `backend`.
pub open spec fn entry_matches(e: MiseRegistryEntryView, name: Seq<char>, backend: Option<Seq<char>>) -> bool {
    (backend is None || backend == Some(e.backend)) && (name == e.short_name || name == e.clean_name
        || name == e.full_name || name == e.backend + seq![':'] + e.clean_name)
}

/// The first entry among `es[i..]` that matches and is allowed.
pub open spec fn first_entry_from(
    es: Seq<MiseRegistryEntryView>,
    allowed: Seq<bool>,
    name: Seq<char>,
    backend: Option<Seq<char>>,
    i: int,
) -> Option<int>
    decreases es.len() - i,
{
    if i < 0 || i >= es.len() {
        None
    } else if allowed[i] && entry_matches(es[i], name, backend) {
        Some(i)
    } else {
        first_entry_from(es, allowed, name, backend, i + 1)
    }
}

/// The tool a registry entry describes; a `core:` prefix is dropped from
/// the name mise installs it under.
pub open spec fn registry_tool_of(e: MiseRegistryEntryView) -> ToolNameView {
    ToolNameView {
        tool: e.short_name,
        plugin_name: e.clean_name,
        backend: Some(e.backend),
        fully_qualified_plugin_name: if e.backend == "core"@ && crate::text::has_prefix(
            e.full_name,
            seq!['c', 'o', 'r', 'e', ':'],
        ) {
            e.full_name.subrange(5, e.full_name.len() as int)
        } else {
            e.full_name
        },
        requires_plugin_management: false,
        bin_path: None,
        normalized_plugin_name: None,
    }
}

fn opt_copy(o: &Option<String>) -> (r: Option<String>)
    ensures
        opt_view(r) == opt_view(*o),
{
    match o {
        Some(s) => Some(copy_string(s)),
        None => None,
    }
}

impl MiseRegistry {
    /// The first entry that matches `name` (its short name, clean name,
    /// full name, or `backend:clean name`) and `backend` (when given), among
    /// those the configuration allows (`allowed`, one flag per entry).
    pub fn find_entry(&self, name: &str, backend: Option<&str>, allowed: &Vec<bool>) -> (r: Option<usize>)
        requires
            allowed@.len() == self.entries@.len(),
        ensures
            r matches Some(i) ==> first_entry_from(
                entry_views(self.entries@),
                allowed@,
                name@,
                match backend {
                    Some(b) => Some(b@),
                    None => None,
                },
                0,
            ) == Some(i as int),
            r is None ==> first_entry_from(
                entry_views(self.entries@),
                allowed@,
                name@,
                match backend {
                    Some(b) => Some(b@),
                    None => None,
                },
                0,
            ) is None,
    {
        let ghost bv = match backend {
            Some(b) => Some(b@),
            None => None,
        };
        let ghost es = entry_views(self.entries@);
        let n = to_chars(name);
        let mut i: usize = 0;
        while i < self.entries.len()
            invariant
                i <= self.entries@.len(),
                allowed@.len() == self.entries@.len(),
                es == entry_views(self.entries@),
                n@ == name@,
                bv == match backend {
                    Some(b) => Some(b@),
                    None => None,
                },
                first_entry_from(es, allowed@, name@, bv, 0) == first_entry_from(es, allowed@, name@, bv, i as int),
            decreases self.entries.len() - i,
        {
            let e = &self.entries[i];
            assert(es[i as int] == e@);
            let backend_ok = match backend {
                None => true,
                Some(b) => crate::text::chars_eq(&to_chars(b), &to_chars(e.backend.as_str())),
            };
            let mut qualified = to_chars(e.backend.as_str());
            qualified.push(':');
            crate::text::append(&mut qualified, &to_chars(e.clean_name.as_str()));
            let name_ok = crate::text::chars_eq(&n, &to_chars(e.short_name.as_str()))
                || crate::text::chars_eq(&n, &to_chars(e.clean_name.as_str()))
                || crate::text::chars_eq(&n, &to_chars(e.full_name.as_str()))
                || crate::text::chars_eq(&n, &qualified);
            assert(qualified@ =~= e.backend@ + seq![':'] + e.clean_name@);
            if allowed[i] && backend_ok && name_ok {
                assert(entry_matches(es[i as int], name@, bv));
                return Some(i);
            }
            assert(!(allowed@[i as int] && entry_matches(es[i as int], name@, bv)));
            i = i + 1;
        }
        None
    }
}

impl FullyQualifiedToolName {
    /// The name of the tool.
    pub fn tool(&self) -> (r: &str)
        ensures
            r@ == self.tool@,
    {
        self.tool.as_str()
    }

    /// The name of the plugin, without its backend.
    pub fn plugin_name(&self) -> (r: &str)
        ensures
            r@ == self.plugin_name@,
    {
        self.plugin_name.as_str()
    }

    /// The name mise installs the tool under, with its backend.
    pub fn fully_qualified_plugin_name(&self) -> (r: &str)
        ensures
            r@ == self.fully_qualified_plugin_name@,
    {
        self.fully_qualified_plugin_name.as_str()
    }

    /// Whether the plugin is installed and removed by omni.
    pub fn requires_plugin_management(&self) -> (r: bool)
        ensures
            r == self.requires_plugin_management,
    {
        self.requires_plugin_management
    }

    /// The bin path of the tool when it is known without asking mise: the
    /// one recorded before, or the empty path for rust (which is then
    /// recorded).
    pub fn known_bin_path(&mut self) -> (r: Option<String>)
        ensures
            match old(self)@.bin_path {
                Some(p) => r matches Some(x) && x@ == p && final(self)@ == old(self)@,
                None => if old(self)@.tool == "rust"@ {
                    r matches Some(x) && x@ == Seq::<char>::empty() && final(self)@ == (ToolNameView {
                        bin_path: Some(Seq::empty()),
                        ..old(self)@
                    })
                } else {
                    r is None && final(self)@ == old(self)@
                },
            },
    {
        match &self.bin_path {
            Some(p) => Some(from_chars(to_chars(p.as_str()).as_slice())),
            None => {
                if crate::text::chars_eq(&to_chars(self.tool.as_str()), &to_chars("rust")) {
                    self.bin_path = Some(String::new());
                    Some(String::new())
                } else {
                    None
                }
            },
        }
    }

    /// Records what `mise env` found for the tool: the name mise gives the
    /// plugin (kept when one was recorded before) and the bin path, which
    /// is given back.
    pub fn record_bin_path(&mut self, normalized_name: String, bin_path: String) -> (r: String)
        ensures
            r@ == bin_path@,
            final(self)@ == (ToolNameView {
                bin_path: Some(bin_path@),
                normalized_plugin_name: if old(self)@.normalized_plugin_name is Some {
                    old(self)@.normalized_plugin_name
                } else {
                    Some(normalized_name@)
                },
                ..old(self)@
            }),
    {
        if self.normalized_plugin_name.is_none() {
            self.normalized_plugin_name = Some(normalized_name);
        }
        let r = from_chars(to_chars(bin_path.as_str()).as_slice());
        self.bin_path = Some(bin_path);
        r
    }

    /// Records the name `mise where` gives the plugin, unless one was
    /// recorded before, and gives back the name recorded.
    pub fn record_normalized_plugin_name(&mut self, name: String) -> (r: String)
        ensures
            final(self)@ == (ToolNameView {
                normalized_plugin_name: if old(self)@.normalized_plugin_name is Some {
                    old(self)@.normalized_plugin_name
                } else {
                    Some(name@)
                },
                ..old(self)@
            }),
            Some(r@) == final(self)@.normalized_plugin_name,
    {
        if self.normalized_plugin_name.is_none() {
            self.normalized_plugin_name = Some(name);
        }
        match &self.normalized_plugin_name {
            Some(n) => from_chars(to_chars(n.as_str()).as_slice()),
            None => String::new(),
        }
    }
}

impl FullyQualifiedToolName {
    /// The source URL of a tool's plugin (see `plugin_source_of`), where
    /// `default_source` is the source configured for the tool, if any.
    pub fn plugin_source(url: Option<String>, override_url: Option<String>, default_source: Option<String>) -> (r: (
        bool,
        Option<String>,
    ))
        ensures
            (r.0, opt_view(r.1)) == plugin_source_of(opt_view(url), opt_view(override_url), opt_view(default_source)),
    {
        match override_url {
            Some(u) => (true, Some(u)),
            None => match default_source {
                Some(u) => (true, Some(u)),
                None => (false, url),
            },
        }
    }

    /// Names a tool installed from a URL (see `url_tool_of`).
    #[verifier::loop_isolation(false)]
    pub fn from_url(
        tool: &str,
        url: &str,
        suffix: bool,
        backend: Option<String>,
        custom_allowed: bool,
        source_allowed: bool,
    ) -> (r: Result<FullyQualifiedToolName, UpError>)
        ensures
            match url_tool_of(tool@, url@, suffix, opt_view(backend), custom_allowed, source_allowed) {
                Ok(v) => r matches Ok(x) && x@ == v,
                Err(m) => r matches Err(e) && e == UpError::Exec(e->Exec_0) && e->Exec_0@ == m,
            },
    {
        if backend.is_some() {
            let mut out = to_chars("cannot specify a backend when using a custom URL for tool ");
            push_str(&mut out, tool);
            return Err(UpError::Exec(from_chars(out.as_slice())));
        }
        if !custom_allowed {
            return Err(UpError::Exec(String::from_str("cannot use custom URLs for tool installations")));
        }
        let t = to_chars(tool);
        let mut i: usize = 0;
        while i < t.len()
            invariant
                t@ == tool@,
                i <= t@.len(),
                forall|k: int| 0 <= k < i ==> unicode_alphanumeric(#[trigger] t@[k]) || t@[k] == '-' || t@[k] == '_',
            decreases t.len() - i,
        {
            if !is_alphanumeric(t[i]) && t[i] != '-' && t[i] != '_' {
                let mut out = to_chars("invalid tool name: ");
                push_str(&mut out, tool);
                return Err(UpError::Exec(from_chars(out.as_slice())));
            }
            i = i + 1;
        }
        if !source_allowed {
            let mut out = to_chars("cannot use URL ");
            push_str(&mut out, url);
            push_str(&mut out, " as a source for tool installations");
            return Err(UpError::Exec(from_chars(out.as_slice())));
        }
        let name = if suffix {
            let digest = crate::github_release::sha256_of(url.as_bytes());
            proof {
                crate::github_release::lemma_hex_len(digest@);
            }
            let full = to_chars(crate::github_release::hex_string(digest.as_slice()).as_str());
            let mut out = to_chars(tool);
            out.push('-');
            let short = slice(&full, 0, 8);
            crate::text::append(&mut out, &short);
            assert(out@ =~= tool@ + seq!['-'] + full@.subrange(0, 8));
            assert(out@ == url_plugin_name(tool@, url@, suffix));
            from_chars(out.as_slice())
        } else {
            from_chars(t.as_slice())
        };
        Ok(
            FullyQualifiedToolName {
                tool: from_chars(t.as_slice()),
                plugin_name: copy_string(&name),
                backend: None,
                fully_qualified_plugin_name: copy_string(&name),
                requires_plugin_management: true,
                bin_path: Some(String::from_str("bin")),
                normalized_plugin_name: Some(name),
            },
        )
    }

    /// Names a tool found in the mise registry (see `registry_tool_of`).
    pub fn from_registry_entry(e: &MiseRegistryEntry) -> (r: FullyQualifiedToolName)
        ensures
            r@ == registry_tool_of(e@),
    {
        let full = to_chars(e.full_name.as_str());
        let core = vec!['c', 'o', 'r', 'e', ':'];
        assert(core@ =~= seq!['c', 'o', 'r', 'e', ':']);
        let fqpn = if crate::text::chars_eq(&to_chars(e.backend.as_str()), &to_chars("core")) {
            match crate::text::strip_prefix(&full, &core) {
                Some(rest) => rest,
                None => full,
            }
        } else {
            full
        };
        FullyQualifiedToolName {
            tool: copy_string(&e.short_name),
            plugin_name: copy_string(&e.clean_name),
            backend: Some(copy_string(&e.backend)),
            fully_qualified_plugin_name: from_chars(fqpn.as_slice()),
            requires_plugin_management: false,
            bin_path: None,
            normalized_plugin_name: None,
        }
    }
}

/// Where `mise ls` found a version asked for: the kind and path of the file.
#[derive(Debug, Clone)]
pub struct MiseLsVersionSource {
    pub version_type: String,
    pub path: String,
}

/// A version that `mise ls` lists: the version, the version asked for and
/// where it was asked for, when known.
#[derive(Debug, Clone)]
pub struct MiseLsVersion {
    pub version: String,
    pub requested_version: Option<String>,
    pub source: Option<MiseLsVersionSource>,
}

/// What `mise ls` lists for a tool.
#[derive(Debug, Clone)]
pub struct MiseLsOutput {
    pub versions: Vec<MiseLsVersion>,
}

/// Whether `dir` is the directory holding the path `p`, as
/// `Path::parent` and the equality of paths see it (component by
/// component).
pub open spec fn parent_is(p: Seq<char>, dir: Seq<char>) -> bool {
    let cs = crate::path::components(p);
    cs.len() > 0 && cs.last() != seq!['/'] && cs.drop_last() == crate::path::components(dir)
}

/// The versions listed, other than `system`, in order.
pub open spec fn listed_versions_of(vs: Seq<MiseLsVersion>) -> Seq<Seq<char>>
    decreases vs.len(),
{
    if vs.len() == 0 {
        Seq::empty()
    } else if vs.last().version@ == "system"@ {
        listed_versions_of(vs.drop_last())
    } else {
        listed_versions_of(vs.drop_last()).push(vs.last().version@)
    }
}

/// The versions asked for by a file directly in `dir`, other than
/// `system`, in order.
pub open spec fn requested_in(vs: Seq<MiseLsVersion>, dir: Seq<char>) -> Seq<Seq<char>>
    decreases vs.len(),
{
    if vs.len() == 0 {
        Seq::empty()
    } else {
        let rest = requested_in(vs.drop_last(), dir);
        let v = vs.last();
        match (v.source, v.requested_version) {
            (Some(src), Some(req)) => if parent_is(src.path@, dir) && req@ != "system"@ {
                rest.push(req@)
            } else {
                rest
            },
            _ => rest,
        }
    }
}

fn parent_is_exec(p: &str, dir: &str) -> (r: bool)
    ensures
        r == parent_is(p@, dir@),
{
    let cs = crate::path::path_components(&to_chars(p));
    let ds = crate::path::path_components(&to_chars(dir));
    assert(views(cs@) == crate::path::components(p@));
    assert(views(ds@) == crate::path::components(dir@));
    if cs.len() == 0 {
        return false;
    }
    let root = vec!['/'];
    assert(root@ =~= seq!['/']);
    assert(views(cs@).last() == cs@[cs@.len() - 1]@);
    if crate::text::chars_eq(&cs[cs.len() - 1], &root) {
        return false;
    }
    if ds.len() != cs.len() - 1 {
        assert(views(cs@).drop_last().len() != views(ds@).len());
        return false;
    }
    let mut i: usize = 0;
    while i < ds.len()
        invariant
            ds@.len() == cs@.len() - 1,
            i <= ds@.len(),
            views(cs@) == crate::path::components(p@),
            views(ds@) == crate::path::components(dir@),
            forall|k: int| 0 <= k < i ==> views(cs@)[k] == views(ds@)[k],
        decreases ds.len() - i,
    {
        if !crate::text::chars_eq(&cs[i], &ds[i]) {
            assert(views(cs@).drop_last()[i as int] != views(ds@)[i as int]);
            return false;
        }
        i = i + 1;
    }
    assert(views(cs@).drop_last() =~= views(ds@));
    true
}

impl MiseLsOutput {
    /// The versions listed, other than `system`.
    pub fn versions(&self) -> (r: Vec<String>)
        ensures
            crate::order::string_seq(r@) == listed_versions_of(self.versions@),
    {
        let mut r: Vec<String> = Vec::new();
        let mut i: usize = 0;
        assert(self.versions@.subrange(0, 0) =~= Seq::<MiseLsVersion>::empty());
        assert(crate::order::string_seq(r@) =~= Seq::<Seq<char>>::empty());
        while i < self.versions.len()
            invariant
                i <= self.versions@.len(),
                crate::order::string_seq(r@) == listed_versions_of(self.versions@.subrange(0, i as int)),
            decreases self.versions.len() - i,
        {
            assert(self.versions@.subrange(0, i + 1).drop_last() =~= self.versions@.subrange(0, i as int));
            let ghost before = crate::order::string_seq(r@);
            let v = &self.versions[i];
            if !crate::text::chars_eq(&to_chars(v.version.as_str()), &to_chars("system")) {
                r.push(from_chars(to_chars(v.version.as_str()).as_slice()));
                assert(crate::order::string_seq(r@) =~= before.push(v.version@));
            }
            i = i + 1;
        }
        assert(self.versions@.subrange(0, i as int) =~= self.versions@);
        r
    }

    /// The versions asked for by a file directly in `dir` (see
    /// `requested_in`).
    pub fn requested_versions(&self, dir: &str) -> (r: Vec<String>)
        ensures
            crate::order::string_seq(r@) == requested_in(self.versions@, dir@),
    {
        let mut r: Vec<String> = Vec::new();
        let mut i: usize = 0;
        assert(self.versions@.subrange(0, 0) =~= Seq::<MiseLsVersion>::empty());
        assert(crate::order::string_seq(r@) =~= Seq::<Seq<char>>::empty());
        while i < self.versions.len()
            invariant
                i <= self.versions@.len(),
                crate::order::string_seq(r@) == requested_in(self.versions@.subrange(0, i as int), dir@),
            decreases self.versions.len() - i,
        {
            assert(self.versions@.subrange(0, i + 1).drop_last() =~= self.versions@.subrange(0, i as int));
            let ghost before = crate::order::string_seq(r@);
            let v = &self.versions[i];
            match (&v.source, &v.requested_version) {
                (Some(src), Some(req)) => {
                    if parent_is_exec(src.path.as_str(), dir) && !crate::text::chars_eq(
                        &to_chars(req.as_str()),
                        &to_chars("system"),
                    ) {
                        r.push(from_chars(to_chars(req.as_str()).as_slice()));
                        assert(crate::order::string_seq(r@) =~= before.push(req@));
                    }
                },
                _ => {},
            }
            i = i + 1;
        }
        assert(self.versions@.subrange(0, i as int) =~= self.versions@);
        r
    }

    /// Whether `version` is among the versions listed.
    pub fn has_version(&self, version: &str) -> (r: bool)
        ensures
            r == exists|k: int| 0 <= k < self.versions@.len() && #[trigger] self.versions@[k].version@ == version@,
    {
        let v = to_chars(version);
        let mut i: usize = 0;
        while i < self.versions.len()
            invariant
                i <= self.versions@.len(),
                v@ == version@,
                forall|k: int| 0 <= k < i ==> #[trigger] self.versions@[k].version@ != version@,
            decreases self.versions.len() - i,
        {
            if crate::text::chars_eq(&to_chars(self.versions[i].version.as_str()), &v) {
                return true;
            }
            i = i + 1;
        }
        false
    }
}

} // verus!
