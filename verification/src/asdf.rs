//! Tools installed through asdf: how they are configured, which version
//! of them a request means, and what a run and a cleanup report.
use vstd::prelude::*;

use crate::config_value::{deref_opt, ConfigValue};
use crate::detect::{insert_sorted, strictly_sorted};
use crate::error::UpError;
use crate::order::string_seq;
use crate::path::{normalize_path_text, normalized_path};
use crate::text::{
    chars_eq, from_chars, has_prefix, is_ascii_digit, join, join_chars, keep_non_empty, lines, non_empty,
    push_str, split_lines, to_chars, trim, trim_chars, views,
};

verus! {

/// Where asdf installs `version` of `tool`, below the data home.
pub fn asdf_tool_path(data_home: &str, tool: &str, version: &str) -> (r: String)
    ensures
        r@ == data_home@ + "/asdf"@ + "/installs/"@ + tool@ + "/"@ + version@,
{
    let mut out = to_chars(data_home);
    push_str(&mut out, "/asdf");
    push_str(&mut out, "/installs/");
    push_str(&mut out, tool);
    push_str(&mut out, "/");
    push_str(&mut out, version);
    from_chars(out.as_slice())
}

/// A version of a tool brought up through asdf, the directories that asked
/// for it (each once, in increasing order), and whether it was installed by
/// this run.
#[derive(Debug, Clone)]
pub struct AsdfToolUpVersion {
    pub version: String,
    pub dirs: Vec<String>,
    pub installed: bool,
}

/// Whether the node-semver crate reads `range` as a range, reads
/// `version` as a version, and finds that the version satisfies the range.
pub uninterp spec fn node_satisfies(range: Seq<char>, version: Seq<char>) -> bool;

/// Whether a version is made of digits and dots, with no dot first and no
/// two dots in a row (what `latest` accepts).
pub open spec fn release_like(v: Seq<char>) -> bool {
    forall|i: int|
        0 <= i < v.len() ==> is_ascii_digit(#[trigger] v[i]) || (v[i] == '.' && i > 0 && v[i - 1] != '.')
}

/// Whether every character is a digit or a dot.
pub open spec fn digits_and_dots(v: Seq<char>) -> bool {
    forall|i: int| 0 <= i < v.len() ==> is_ascii_digit(#[trigger] v[i]) || v[i] == '.'
}

/// Whether an available version answers a request: for `latest`, any
/// version of digits and dots; else one in the requested range, or one
/// that extends the request with `.` and digits and dots.
pub open spec fn version_matches(expect: Seq<char>, version: Seq<char>) -> bool {
    if expect == "latest"@ {
        release_like(version)
    } else {
        node_satisfies(expect, version) || (has_prefix(version, expect + "."@) && digits_and_dots(
            version.subrange(expect.len() + 1int, version.len() as int),
        ))
    }
}

fn is_release_like(v: &Vec<char>) -> (r: bool)
    ensures
        r == release_like(v@),
{
    let mut prev = '.';
    let mut i: usize = 0;
    while i < v.len()
        invariant
            i <= v@.len(),
            prev == if i == 0 {
                '.'
            } else {
                v@[i - 1]
            },
            forall|k: int| 0 <= k < i ==> is_ascii_digit(#[trigger] v@[k]) || (v@[k] == '.' && k > 0 && v@[k - 1] != '.'),
        decreases v.len() - i,
    {
        let c = v[i];
        if !('0' <= c && c <= '9') {
            if c == '.' {
                if prev == '.' {
                    return false;
                }
            } else {
                return false;
            }
        }
        prev = c;
        i = i + 1;
    }
    true
}

fn all_digits_and_dots(v: &Vec<char>, from: usize) -> (r: bool)
    requires
        from <= v@.len(),
    ensures
        r == digits_and_dots(v@.subrange(from as int, v@.len() as int)),
{
    let mut i: usize = from;
    while i < v.len()
        invariant
            from <= i <= v@.len(),
            forall|k: int| from <= k < i ==> is_ascii_digit(#[trigger] v@[k]) || v@[k] == '.',
        decreases v.len() - i,
    {
        let c = v[i];
        if !(('0' <= c && c <= '9') || c == '.') {
            assert(v@.subrange(from as int, v@.len() as int)[i - from] == c);
            return false;
        }
        i = i + 1;
    }
    assert forall|k: int| 0 <= k < v@.len() - from implies is_ascii_digit(
        #[trigger] v@.subrange(from as int, v@.len() as int)[k],
    ) || v@.subrange(from as int, v@.len() as int)[k] == '.' by {
        assert(v@.subrange(from as int, v@.len() as int)[k] == v@[from + k]);
    }
    true
}

/// Whether an available version answers a request (see `version_matches`).
pub fn version_match(expect: &str, version: &str) -> (r: bool)
    ensures
        r == version_matches(expect@, version@),
{
    let e = to_chars(expect);
    let v = to_chars(version);
    if chars_eq(&e, &to_chars("latest")) {
        return is_release_like(&v);
    }
    if crate::nodejs::node_semver_check(expect, version).1 {
        return true;
    }
    let mut prefix = to_chars(expect);
    push_str(&mut prefix, ".");
    proof {
        reveal_strlit(".");
    }
    assert(prefix@ == expect@ + "."@);
    if !crate::text::starts_with(&v, &prefix) {
        return false;
    }
    all_digits_and_dots(&v, prefix.len())
}

/// The last of the available versions `vs` that answers the request, or
/// nothing (the empty version).
pub open spec fn last_match(expect: Seq<char>, vs: Seq<Seq<char>>) -> Seq<char>
    decreases vs.len(),
{
    if vs.len() == 0 {
        Seq::empty()
    } else if version_matches(expect, vs.last()) {
        vs.last()
    } else {
        last_match(expect, vs.drop_last())
    }
}

/// The last available version that answers the request, or the empty
/// version when none does.
pub fn select_version(expect: &str, available: &Vec<String>) -> (r: String)
    ensures
        r@ == last_match(expect@, string_seq(available@)),
{
    let ghost vs = string_seq(available@);
    let mut i: usize = available.len();
    assert(vs.subrange(0, vs.len() as int) =~= vs);
    while i > 0
        invariant
            i <= available@.len(),
            vs == string_seq(available@),
            last_match(expect@, vs) == last_match(expect@, vs.subrange(0, i as int)),
        decreases i,
    {
        let ghost pre = vs.subrange(0, i as int);
        assert(pre.drop_last() =~= vs.subrange(0, i - 1));
        assert(pre.last() == available@[i - 1]@);
        if version_match(expect, available[i - 1].as_str()) {
            return from_chars(to_chars(available[i - 1].as_str()).as_slice());
        }
        i = i - 1;
    }
    String::new()
}

/// The versions that `asdf list all` prints: its lines, trimmed, without
/// the empty ones.
pub open spec fn listed_versions(stdout: Seq<char>) -> Seq<Seq<char>> {
    non_empty(Seq::new(lines(stdout).len(), |k: int| trim(lines(stdout)[k])))
}

/// Reads the versions that `asdf list all` prints (see `listed_versions`).
pub fn parse_listed_versions(stdout: &str) -> (r: Vec<String>)
    ensures
        string_seq(r@) == listed_versions(stdout@),
{
    let ls = split_lines(&to_chars(stdout));
    let mut trimmed: Vec<Vec<char>> = Vec::new();
    let mut i: usize = 0;
    while i < ls.len()
        invariant
            i <= ls@.len(),
            views(ls@) == lines(stdout@),
            views(trimmed@) == Seq::new(i as nat, |k: int| trim(lines(stdout@)[k])),
        decreases ls.len() - i,
    {
        let ghost before = views(trimmed@);
        let t = trim_chars(&ls[i]);
        assert(ls@[i as int]@ == views(ls@)[i as int]);
        assert(ls@[i as int]@ == lines(stdout@)[i as int]);
        trimmed.push(t);
        assert(views(trimmed@) =~= before.push(trim(lines(stdout@)[i as int])));
        assert(views(trimmed@) =~= Seq::new((i + 1) as nat, |k: int| trim(lines(stdout@)[k])));
        i = i + 1;
    }
    let kept = keep_non_empty(trimmed);
    let mut r: Vec<String> = Vec::new();
    let mut j: usize = 0;
    while j < kept.len()
        invariant
            j <= kept@.len(),
            string_seq(r@) == views(kept@).subrange(0, j as int),
        decreases kept.len() - j,
    {
        let ghost before = string_seq(r@);
        r.push(from_chars(kept[j].as_slice()));
        assert(string_seq(r@) =~= before.push(kept@[j as int]@));
        assert(string_seq(r@) =~= views(kept@).subrange(0, j + 1));
        j = j + 1;
    }
    assert(views(kept@).subrange(0, j as int) =~= views(kept@));
    r
}

/// A tool brought up through asdf, as configured, and how far its run got.
#[derive(Debug, Clone)]
pub struct UpConfigAsdfBase {
    /// The name of the tool.
    pub tool: String,
    /// Where the asdf plugin of the tool comes from, if not the default.
    pub tool_url: Option<String>,
    /// The version asked for: a version, a range, `latest` or `auto`.
    pub version: String,
    /// The directories the tool is installed for, each once, in increasing
    /// order.
    pub dirs: Vec<String>,
    /// The version the request resolved to, once resolved (empty when no
    /// version answered it).
    pub actual_version: Option<String>,
    /// The versions installed for `auto`, once installed.
    pub actual_versions: Option<Vec<String>>,
    /// Whether the run succeeded, once it was attempted.
    pub up_succeeded: Option<bool>,
}

pub struct AsdfView {
    pub tool: Seq<char>,
    pub tool_url: Option<Seq<char>>,
    pub version: Seq<char>,
    pub dirs: Seq<Seq<char>>,
    pub actual_version: Option<Seq<char>>,
    pub actual_versions: Option<Seq<Seq<char>>>,
    pub up_succeeded: Option<bool>,
}

pub open spec fn opt_text(o: Option<String>) -> Option<Seq<char>> {
    match o {
        Some(s) => Some(s@),
        None => None,
    }
}

impl View for UpConfigAsdfBase {
    type V = AsdfView;

    open spec fn view(&self) -> AsdfView {
        AsdfView {
            tool: self.tool@,
            tool_url: opt_text(self.tool_url),
            version: self.version@,
            dirs: string_seq(self.dirs@),
            actual_version: opt_text(self.actual_version),
            actual_versions: match self.actual_versions {
                Some(v) => Some(string_seq(v@)),
                None => None,
            },
            up_succeeded: self.up_succeeded,
        }
    }
}

/// The directories given under `dir`: one string, or the entries of a
/// list that read as strings.
pub open spec fn raw_dirs(cv: ConfigValue) -> Seq<Seq<char>> {
    match cv.get_of("dir"@) {
        Some(ConfigValue::Str(s)) => seq![s@],
        Some(ConfigValue::Array(a)) => crate::go_install::dir_list(a@),
        _ => Seq::empty(),
    }
}

/// The version asked for by a configuration: `latest` by default, the
/// value itself when it is a string or a number, else its `version`.
pub open spec fn asdf_version_of(cv: Option<ConfigValue>) -> Seq<char> {
    match cv {
        None => "latest"@,
        Some(ConfigValue::Str(s)) => s@,
        Some(ConfigValue::Integer(n)) => crate::config_value::int_text(n as int),
        Some(v) => match v.get_of("version"@) {
            Some(x) => match x.str_forced_of() {
                Some(t) => t,
                None => "latest"@,
            },
            None => "latest"@,
        },
    }
}

/// The directories asked for by a configuration, before they are
/// normalized (none when the value is a string or a number).
pub open spec fn asdf_raw_dirs_of(cv: Option<ConfigValue>) -> Seq<Seq<char>> {
    match cv {
        None => Seq::empty(),
        Some(ConfigValue::Str(_)) => Seq::empty(),
        Some(ConfigValue::Integer(_)) => Seq::empty(),
        Some(v) => raw_dirs(v),
    }
}

/// The directories `raw`, each normalized.
pub open spec fn normalized_dirs(raw: Seq<Seq<char>>) -> Seq<Seq<char>> {
    Seq::new(raw.len(), |k: int| normalized_path(raw[k]))
}

/// A tool that has not run yet.
pub open spec fn fresh(a: AsdfView) -> bool {
    a.actual_version is None && a.actual_versions is None && a.up_succeeded is None
}

pub(crate) fn sorted_set_of(raw: &Vec<String>, normalize: bool) -> (r: Vec<String>)
    ensures
        strictly_sorted(string_seq(r@)),
        forall|y: Seq<char>| #[trigger] string_seq(r@).contains(y) <==> (if normalize {
            normalized_dirs(string_seq(raw@))
        } else {
            string_seq(raw@)
        }).contains(y),
{
    let ghost src = if normalize {
        normalized_dirs(string_seq(raw@))
    } else {
        string_seq(raw@)
    };
    let mut r: Vec<String> = Vec::new();
    let mut i: usize = 0;
    while i < raw.len()
        invariant
            i <= raw@.len(),
            src == (if normalize {
                normalized_dirs(string_seq(raw@))
            } else {
                string_seq(raw@)
            }),
            src.len() == raw@.len(),
            strictly_sorted(string_seq(r@)),
            forall|y: Seq<char>| #[trigger] string_seq(r@).contains(y) <==> src.subrange(0, i as int).contains(y),
        decreases raw.len() - i,
    {
        let x = if normalize {
            normalize_path_text(raw[i].as_str())
        } else {
            from_chars(to_chars(raw[i].as_str()).as_slice())
        };
        assert(x@ == src[i as int]);
        let ghost before = string_seq(r@);
        insert_sorted(&mut r, x);
        proof {
            assert forall|y: Seq<char>| #[trigger] string_seq(r@).contains(y) <==> src.subrange(0, i + 1).contains(y) by {
                let pre = src.subrange(0, i as int);
                let post = src.subrange(0, i + 1);
                assert(post =~= pre.push(src[i as int]));
                if post.contains(y) {
                    let j = choose|j: int| 0 <= j < post.len() && post[j] == y;
                    if j < i {
                        assert(pre[j] == y);
                    }
                }
                if pre.contains(y) {
                    let j = choose|j: int| 0 <= j < pre.len() && pre[j] == y;
                    assert(post[j] == y);
                }
                if y == src[i as int] {
                    assert(post[i as int] == y);
                }
            }
        }
        i = i + 1;
    }
    assert(src.subrange(0, i as int) =~= src);
    r
}

pub(crate) fn raw_dirs_exec(cv: &ConfigValue) -> (r: Vec<String>)
    ensures
        string_seq(r@) == raw_dirs(*cv),
{
    let mut r: Vec<String> = Vec::new();
    match cv.get("dir") {
        Some(ConfigValue::Str(s)) => {
            r.push(from_chars(to_chars(s.as_str()).as_slice()));
            assert(string_seq(r@) =~= seq![s@]);
            r
        },
        Some(ConfigValue::Array(a)) => {
            let ghost all = crate::go_install::dir_list(a@);
            let mut i: usize = 0;
            assert(a@.subrange(0, 0) =~= Seq::<ConfigValue>::empty());
            assert(string_seq(r@) =~= Seq::<Seq<char>>::empty());
            while i < a.len()
                invariant
                    i <= a@.len(),
                    string_seq(r@) == crate::go_install::dir_list(a@.subrange(0, i as int)),
                decreases a.len() - i,
            {
                assert(a@.subrange(0, i + 1).drop_last() =~= a@.subrange(0, i as int));
                let ghost before = string_seq(r@);
                match a[i].as_str_forced() {
                    Some(t) => {
                        r.push(t);
                        assert(string_seq(r@) =~= before.push(a@[i as int].str_forced_of()->0));
                    },
                    None => {},
                }
                i = i + 1;
            }
            assert(a@.subrange(0, i as int) =~= a@);
            r
        },
        _ => {
            assert(string_seq(r@) =~= Seq::<Seq<char>>::empty());
            r
        },
    }
}

impl UpConfigAsdfBase {
    /// A tool asking for `version` in the directories `dirs` (each kept
    /// once, in increasing order), that has not run yet.
    pub fn new(tool: &str, version: &str, dirs: &Vec<String>) -> (r: UpConfigAsdfBase)
        ensures
            r@.tool == tool@,
            r@.tool_url is None,
            r@.version == version@,
            strictly_sorted(r@.dirs),
            forall|y: Seq<char>| #[trigger] r@.dirs.contains(y) <==> string_seq(dirs@).contains(y),
            fresh(r@),
    {
        UpConfigAsdfBase {
            tool: from_chars(to_chars(tool).as_slice()),
            tool_url: None,
            version: from_chars(to_chars(version).as_slice()),
            dirs: sorted_set_of(dirs, false),
            actual_version: None,
            actual_versions: None,
            up_succeeded: None,
        }
    }

    /// The same tool asking for a version found for `auto`, in the
    /// directories that asked for it.
    pub fn new_from_auto(&self, version: &str, dirs: &Vec<String>) -> (r: UpConfigAsdfBase)
        ensures
            r@.tool == self@.tool,
            r@.tool_url == self@.tool_url,
            r@.version == version@,
            strictly_sorted(r@.dirs),
            forall|y: Seq<char>| #[trigger] r@.dirs.contains(y) <==> string_seq(dirs@).contains(y),
            fresh(r@),
    {
        UpConfigAsdfBase {
            tool: from_chars(to_chars(self.tool.as_str()).as_slice()),
            tool_url: match &self.tool_url {
                Some(u) => Some(from_chars(to_chars(u.as_str()).as_slice())),
                None => None,
            },
            version: from_chars(to_chars(version).as_slice()),
            dirs: sorted_set_of(dirs, false),
            actual_version: None,
            actual_versions: None,
            up_succeeded: None,
        }
    }

    /// Reads the configuration of the tool (see `asdf_version_of` and
    /// `asdf_raw_dirs_of`), for the default plugin.
    pub fn from_config_value(tool: &str, config_value: Option<&ConfigValue>) -> (r: UpConfigAsdfBase)
        ensures
            r@.tool == tool@,
            r@.tool_url is None,
            r@.version == asdf_version_of(deref_opt(config_value)),
            strictly_sorted(r@.dirs),
            forall|y: Seq<char>| #[trigger] r@.dirs.contains(y) <==> normalized_dirs(
                asdf_raw_dirs_of(deref_opt(config_value)),
            ).contains(y),
            fresh(r@),
    {
        UpConfigAsdfBase::from_config_value_with_params(tool, None, config_value)
    }

    /// Reads the configuration of the tool, for the plugin at `tool_url`.
    pub fn from_config_value_with_url(tool: &str, tool_url: &str, config_value: Option<&ConfigValue>) -> (r: UpConfigAsdfBase)
        ensures
            r@.tool == tool@,
            r@.tool_url == Some(tool_url@),
            r@.version == asdf_version_of(deref_opt(config_value)),
            strictly_sorted(r@.dirs),
            forall|y: Seq<char>| #[trigger] r@.dirs.contains(y) <==> normalized_dirs(
                asdf_raw_dirs_of(deref_opt(config_value)),
            ).contains(y),
            fresh(r@),
    {
        UpConfigAsdfBase::from_config_value_with_params(
            tool,
            Some(from_chars(to_chars(tool_url).as_slice())),
            config_value,
        )
    }

    /// Reads the configuration of the tool: its version and its
    /// directories, each normalized and kept once, in increasing order.
    pub fn from_config_value_with_params(
        tool: &str,
        tool_url: Option<String>,
        config_value: Option<&ConfigValue>,
    ) -> (r: UpConfigAsdfBase)
        ensures
            r@.tool == tool@,
            r@.tool_url == opt_text(tool_url),
            r@.version == asdf_version_of(deref_opt(config_value)),
            strictly_sorted(r@.dirs),
            forall|y: Seq<char>| #[trigger] r@.dirs.contains(y) <==> normalized_dirs(
                asdf_raw_dirs_of(deref_opt(config_value)),
            ).contains(y),
            fresh(r@),
    {
        let mut version = String::from_str("latest");
        let mut raw: Vec<String> = Vec::new();
        match config_value {
            None => {},
            Some(cv) => match cv {
                ConfigValue::Str(s) => {
                    version = from_chars(to_chars(s.as_str()).as_slice());
                },
                ConfigValue::Integer(_) => {
                    match cv.as_str_forced() {
                        Some(t) => {
                            version = t;
                        },
                        None => {},
                    }
                },
                _ => {
                    match cv.get("version") {
                        Some(x) => match x.as_str_forced() {
                            Some(t) => {
                                version = t;
                            },
                            None => {},
                        },
                        None => {},
                    }
                    raw = raw_dirs_exec(cv);
                },
            },
        }
        assert(string_seq(raw@) == asdf_raw_dirs_of(deref_opt(config_value)));
        UpConfigAsdfBase {
            tool: from_chars(to_chars(tool).as_slice()),
            tool_url,
            version,
            dirs: sorted_set_of(&raw, true),
            actual_version: None,
            actual_versions: None,
            up_succeeded: None,
        }
    }

    /// Whether the run was attempted and succeeded.
    pub fn was_upped(&self) -> (r: bool)
        ensures
            r == (self.up_succeeded == Some(true)),
    {
        match self.up_succeeded {
            Some(b) => b,
            None => false,
        }
    }

    /// Refuses a second run: a tool runs once.
    pub fn check_not_attempted(&self) -> (r: Result<(), UpError>)
        ensures
            self.up_succeeded is None ==> r is Ok,
            self.up_succeeded is Some ==> (r matches Err(UpError::Exec(m)) && m@ == "up operation already attempted"@),
    {
        if self.up_succeeded.is_some() {
            return Err(UpError::Exec(String::from_str("up operation already attempted")));
        }
        Ok(())
    }

    /// Records whether the run succeeded; only the first record counts.
    pub fn record_up(&mut self, succeeded: bool)
        ensures
            final(self)@ == (AsdfView {
                up_succeeded: if old(self).up_succeeded is Some {
                    old(self).up_succeeded
                } else {
                    Some(succeeded)
                },
                ..old(self)@
            }),
    {
        if self.up_succeeded.is_none() {
            self.up_succeeded = Some(succeeded);
        }
    }

    /// The version the request resolves to. It is resolved once, the
    /// first time, from the versions available (`None` when they could
    /// not be listed): the last that answers the request. It is an error
    /// when none does.
    pub fn version(&mut self, available: Option<&Vec<String>>) -> (r: Result<String, UpError>)
        ensures
            ({
                let resolved = match old(self)@.actual_version {
                    Some(v) => v,
                    None => match available {
                        Some(vs) => last_match(old(self)@.version, string_seq(vs@)),
                        None => Seq::empty(),
                    },
                };
                &&& final(self)@ == (AsdfView { actual_version: Some(resolved), ..old(self)@ })
                &&& resolved.len() > 0 ==> (r matches Ok(v) && v@ == resolved)
                &&& resolved.len() == 0 ==> (r matches Err(UpError::Exec(m)) && m@ == "No "@ + old(self)@.tool
                    + " version found matching "@ + old(self)@.version)
            }),
    {
        if self.actual_version.is_none() {
            let v = match available {
                Some(vs) => select_version(self.version.as_str(), vs),
                None => String::new(),
            };
            self.actual_version = Some(v);
        }
        let v = match &self.actual_version {
            Some(v) => from_chars(to_chars(v.as_str()).as_slice()),
            None => String::new(),
        };
        if v.as_str().unicode_len() == 0 {
            let mut m = to_chars("No ");
            push_str(&mut m, self.tool.as_str());
            push_str(&mut m, " version found matching ");
            push_str(&mut m, self.version.as_str());
            return Err(UpError::Exec(from_chars(m.as_slice())));
        }
        Ok(v)
    }

    /// Records the versions installed for `auto`; only the first record
    /// counts.
    pub fn record_versions(&mut self, versions: Vec<String>)
        ensures
            final(self)@ == (AsdfView {
                actual_versions: if old(self)@.actual_versions is Some {
                    old(self)@.actual_versions
                } else {
                    Some(string_seq(versions@))
                },
                ..old(self)@
            }),
    {
        if self.actual_versions.is_none() {
            self.actual_versions = Some(versions);
        }
    }

    /// The directories a version installed for one request is for: those
    /// configured, or the work directory itself (the empty path).
    pub fn up_dirs(&self) -> (r: Vec<String>)
        ensures
            string_seq(r@) == if self@.dirs.len() == 0 {
                seq![Seq::<char>::empty()]
            } else {
                self@.dirs
            },
    {
        let mut r: Vec<String> = Vec::new();
        if self.dirs.len() == 0 {
            r.push(String::new());
            assert(string_seq(r@) =~= seq![Seq::<char>::empty()]);
            return r;
        }
        let mut i: usize = 0;
        while i < self.dirs.len()
            invariant
                i <= self.dirs@.len(),
                string_seq(r@) == string_seq(self.dirs@).subrange(0, i as int),
            decreases self.dirs.len() - i,
        {
            let ghost before = string_seq(r@);
            r.push(from_chars(to_chars(self.dirs[i].as_str()).as_slice()));
            assert(string_seq(r@) =~= before.push(self.dirs@[i as int]@));
            assert(string_seq(r@) =~= string_seq(self.dirs@).subrange(0, i + 1));
            i = i + 1;
        }
        assert(string_seq(self.dirs@).subrange(0, i as int) =~= string_seq(self.dirs@));
        r
    }
}

/// What an asdf cleanup reports: the `tool:version`s it uninstalled, or
/// nothing when it uninstalled none.
pub open spec fn asdf_cleanup_report(uninstalled: Seq<(Seq<char>, Seq<char>)>) -> Option<Seq<char>> {
    if uninstalled.len() == 0 {
        None
    } else {
        Some(
            "uninstalled "@ + join(
                Seq::new(uninstalled.len(), |k: int| uninstalled[k].0 + ":"@ + uninstalled[k].1),
                ", "@,
            ),
        )
    }
}

/// Builds what an asdf cleanup reports (see `asdf_cleanup_report`).
pub fn cleanup_report(uninstalled: &Vec<(String, String)>) -> (r: Option<String>)
    ensures
        match asdf_cleanup_report(Seq::new(uninstalled@.len(), |k: int| (uninstalled@[k].0@, uninstalled@[k].1@))) {
            Some(x) => r matches Some(y) && y@ == x,
            None => r is None,
        },
{
    let ghost u = Seq::new(uninstalled@.len(), |k: int| (uninstalled@[k].0@, uninstalled@[k].1@));
    if uninstalled.len() == 0 {
        return None;
    }
    let mut items: Vec<Vec<char>> = Vec::new();
    let mut i: usize = 0;
    while i < uninstalled.len()
        invariant
            i <= uninstalled@.len(),
            u == Seq::new(uninstalled@.len(), |k: int| (uninstalled@[k].0@, uninstalled@[k].1@)),
            views(items@) == Seq::new(i as nat, |k: int| u[k].0 + ":"@ + u[k].1),
        decreases uninstalled.len() - i,
    {
        let mut item = to_chars(uninstalled[i].0.as_str());
        push_str(&mut item, ":");
        push_str(&mut item, uninstalled[i].1.as_str());
        let ghost before = views(items@);
        items.push(item);
        assert(views(items@) =~= before.push(u[i as int].0 + ":"@ + u[i as int].1));
        assert(views(items@) =~= Seq::new((i + 1) as nat, |k: int| u[k].0 + ":"@ + u[k].1));
        i = i + 1;
    }
    let mut out = to_chars("uninstalled ");
    crate::text::append(&mut out, &join_chars(&items, &to_chars(", ")));
    Some(from_chars(out.as_slice()))
}

/// A version of a tool that asdf installed, and the work directories that
/// require it.
#[derive(Debug, Clone)]
pub struct AsdfInstalled {
    pub tool: String,
    pub version: String,
    pub required_by: Vec<String>,
}

/// Whether the work directory still expects `tool` at `version`.
pub open spec fn expects(expected: Seq<(String, String)>, tool: Seq<char>, version: Seq<char>) -> bool {
    exists|k: int| 0 <= k < expected.len() && #[trigger] expected[k].0@ == tool && expected[k].1@ == version
}

/// Whether the work directory `wid` stops requiring an installed version:
/// it required it, and no longer expects it.
pub open spec fn drops_requirement(i: AsdfInstalled, wid: Seq<char>, expected: Seq<(String, String)>) -> bool {
    string_seq(i.required_by@).contains(wid) && !expects(expected, i.tool@, i.version@)
}

/// The work directories of `rb` other than `wid`, in order.
pub open spec fn without(rb: Seq<Seq<char>>, wid: Seq<char>) -> Seq<Seq<char>>
    decreases rb.len(),
{
    if rb.len() == 0 {
        rb
    } else if rb.last() == wid {
        without(rb.drop_last(), wid)
    } else {
        without(rb.drop_last(), wid).push(rb.last())
    }
}

/// The positions, in increasing order, of the installed versions of `is`
/// that no work directory requires.
pub open spec fn unrequired(is: Seq<AsdfInstalled>) -> Seq<usize>
    decreases is.len(),
{
    if is.len() == 0 {
        Seq::empty()
    } else if is.last().required_by@.len() == 0 {
        unrequired(is.drop_last()).push((is.len() - 1) as usize)
    } else {
        unrequired(is.drop_last())
    }
}

fn expects_exec(expected: &Vec<(String, String)>, tool: &String, version: &String) -> (r: bool)
    ensures
        r == expects(expected@, tool@, version@),
{
    let t = to_chars(tool.as_str());
    let v = to_chars(version.as_str());
    let mut i: usize = 0;
    while i < expected.len()
        invariant
            i <= expected@.len(),
            t@ == tool@,
            v@ == version@,
            forall|k: int| 0 <= k < i ==> !(#[trigger] expected@[k].0@ == tool@ && expected@[k].1@ == version@),
        decreases expected.len() - i,
    {
        if chars_eq(&to_chars(expected[i].0.as_str()), &t) && chars_eq(&to_chars(expected[i].1.as_str()), &v) {
            return true;
        }
        i = i + 1;
    }
    false
}

fn without_exec(rb: &Vec<String>, wid: &str) -> (r: (Vec<String>, bool))
    ensures
        string_seq(r.0@) == without(string_seq(rb@), wid@),
        r.1 == string_seq(rb@).contains(wid@),
{
    let w = to_chars(wid);
    let ghost s = string_seq(rb@);
    let mut out: Vec<String> = Vec::new();
    let mut found = false;
    let mut i: usize = 0;
    assert(s.subrange(0, 0) =~= Seq::<Seq<char>>::empty());
    assert(string_seq(out@) =~= Seq::<Seq<char>>::empty());
    while i < rb.len()
        invariant
            i <= rb@.len(),
            s == string_seq(rb@),
            w@ == wid@,
            string_seq(out@) == without(s.subrange(0, i as int), wid@),
            found == s.subrange(0, i as int).contains(wid@),
        decreases rb.len() - i,
    {
        let ghost pre = s.subrange(0, i + 1);
        assert(pre.drop_last() =~= s.subrange(0, i as int));
        assert(pre.last() == rb@[i as int]@);
        let ghost before = string_seq(out@);
        if chars_eq(&to_chars(rb[i].as_str()), &w) {
            found = true;
            assert(pre[i as int] == wid@);
        } else {
            out.push(from_chars(to_chars(rb[i].as_str()).as_slice()));
            assert(string_seq(out@) =~= before.push(rb@[i as int]@));
        }
        proof {
            if pre.contains(wid@) && !s.subrange(0, i as int).contains(wid@) {
                let j = choose|j: int| 0 <= j < pre.len() && pre[j] == wid@;
                if j < i {
                    assert(s.subrange(0, i as int)[j] == wid@);
                }
            }
            if s.subrange(0, i as int).contains(wid@) {
                let j = choose|j: int| 0 <= j < i && s.subrange(0, i as int)[j] == wid@;
                assert(pre[j] == wid@);
            }
        }
        i = i + 1;
    }
    assert(s.subrange(0, i as int) =~= s);
    (out, found)
}

/// Drops the work directory `wid` from the versions it no longer expects
/// (see `drops_requirement`), and gives whether any changed and the
/// positions of the versions that no work directory requires any more.
pub fn cleanup_plan(installed: &mut Vec<AsdfInstalled>, workdir_id: &str, expected: &Vec<(String, String)>) -> (r: (bool, Vec<usize>))
    ensures
        final(installed)@.len() == old(installed)@.len(),
        forall|k: int|
            0 <= k < old(installed)@.len() ==> {
                &&& (#[trigger] final(installed)@[k]).tool == old(installed)@[k].tool
                &&& final(installed)@[k].version == old(installed)@[k].version
                &&& string_seq(final(installed)@[k].required_by@) == if drops_requirement(
                    old(installed)@[k],
                    workdir_id@,
                    expected@,
                ) {
                    without(string_seq(old(installed)@[k].required_by@), workdir_id@)
                } else {
                    string_seq(old(installed)@[k].required_by@)
                }
            },
        r.0 == exists|k: int| 0 <= k < old(installed)@.len() && drops_requirement(#[trigger] old(installed)@[k], workdir_id@, expected@),
        r.1@ == unrequired(final(installed)@),
{
    let ghost o = installed@;
    let mut updated = false;
    let mut to_remove: Vec<usize> = Vec::new();
    let mut i: usize = 0;
    let n = installed.len();
    while i < n
        invariant
            n == o.len(),
            i <= n,
            installed@.len() == n,
            forall|k: int| i <= k < n ==> #[trigger] installed@[k] == o[k],
            forall|k: int|
                0 <= k < i ==> {
                    &&& (#[trigger] installed@[k]).tool == o[k].tool
                    &&& installed@[k].version == o[k].version
                    &&& string_seq(installed@[k].required_by@) == if drops_requirement(o[k], workdir_id@, expected@) {
                        without(string_seq(o[k].required_by@), workdir_id@)
                    } else {
                        string_seq(o[k].required_by@)
                    }
                },
            updated == exists|k: int| 0 <= k < i && drops_requirement(#[trigger] o[k], workdir_id@, expected@),
            to_remove@ == unrequired(installed@.subrange(0, i as int)),
        decreases n - i,
    {
        let ghost cur = installed@;
        let (kept, had) = without_exec(&installed[i].required_by, workdir_id);
        let exp = expects_exec(expected, &installed[i].tool, &installed[i].version);
        let drops = had && !exp;
        let entry = installed.remove(i);
        let new_entry = if drops {
            AsdfInstalled { tool: entry.tool, version: entry.version, required_by: kept }
        } else {
            entry
        };
        let empty = new_entry.required_by.len() == 0;
        let ghost ne = new_entry;
        installed.insert(i, new_entry);
        proof {
            assert(drops == drops_requirement(o[i as int], workdir_id@, expected@));
            assert(installed@ =~= cur.update(i as int, ne));
            let pre = installed@.subrange(0, i + 1);
            assert(pre.drop_last() =~= cur.subrange(0, i as int));
            assert(installed@.subrange(0, i as int) =~= cur.subrange(0, i as int));
            assert(pre.last() == ne);
            assert((pre.len() - 1) as usize == i);
        }
        if drops {
            updated = true;
        }
        if empty {
            to_remove.push(i);
        }
        i = i + 1;
    }
    assert(installed@.subrange(0, n as int) =~= installed@);
    (updated, to_remove)
}

/// Dropping a work directory from the requirers of a version removes it,
/// and only it: every other requirer stays.
pub proof fn law_without_removes_only_workdir(rb: Seq<Seq<char>>, wid: Seq<char>)
    ensures
        !without(rb, wid).contains(wid),
        forall|y: Seq<char>| y != wid ==> (#[trigger] without(rb, wid).contains(y) <==> rb.contains(y)),
    decreases rb.len(),
{
    if rb.len() > 0 {
        let init = rb.drop_last();
        law_without_removes_only_workdir(init, wid);
        let w = without(rb, wid);
        let wi = without(init, wid);
        assert forall|y: Seq<char>| y != wid implies (#[trigger] w.contains(y) <==> rb.contains(y)) by {
            if rb.contains(y) {
                let j = choose|j: int| 0 <= j < rb.len() && rb[j] == y;
                if j < rb.len() - 1 {
                    assert(init[j] == y);
                    assert(wi.contains(y));
                    if rb.last() != wid {
                        let i2 = choose|i2: int| 0 <= i2 < wi.len() && wi[i2] == y;
                        assert(w[i2] == y);
                    }
                } else {
                    assert(rb.last() == y);
                    assert(w[w.len() - 1] == y);
                }
            }
            if w.contains(y) {
                let j = choose|j: int| 0 <= j < w.len() && w[j] == y;
                if rb.last() != wid && j == w.len() - 1 {
                    assert(rb[rb.len() - 1] == y);
                } else {
                    assert(wi[j] == y);
                    assert(wi.contains(y));
                    assert(init.contains(y));
                    let i2 = choose|i2: int| 0 <= i2 < init.len() && init[i2] == y;
                    assert(rb[i2] == y);
                }
            }
        }
        if w.contains(wid) {
            let j = choose|j: int| 0 <= j < w.len() && w[j] == wid;
            if rb.last() != wid && j == w.len() - 1 {
            } else {
                assert(wi[j] == wid);
            }
        }
    }
}

/// The version selected for a request is either none (the empty
/// version) or one of the versions available that answers the request.
pub proof fn law_selected_version_answers(expect: Seq<char>, vs: Seq<Seq<char>>)
    ensures
        last_match(expect, vs).len() == 0 || (vs.contains(last_match(expect, vs)) && version_matches(
            expect,
            last_match(expect, vs),
        )),
    decreases vs.len(),
{
    if vs.len() > 0 {
        if version_matches(expect, vs.last()) {
            assert(vs[vs.len() - 1] == vs.last());
        } else {
            law_selected_version_answers(expect, vs.drop_last());
            let r = last_match(expect, vs.drop_last());
            if r.len() > 0 {
                let j = choose|j: int| 0 <= j < vs.drop_last().len() && vs.drop_last()[j] == r;
                assert(vs[j] == r);
            }
        }
    }
}

fn contains_string(v: &Vec<String>, x: &String) -> (r: bool)
    ensures
        r == string_seq(v@).contains(x@),
{
    let xc = to_chars(x.as_str());
    let mut i: usize = 0;
    while i < v.len()
        invariant
            i <= v@.len(),
            xc@ == x@,
            forall|k: int| 0 <= k < i ==> v@[k]@ != x@,
        decreases v.len() - i,
    {
        if chars_eq(&to_chars(v[i].as_str()), &xc) {
            assert(string_seq(v@)[i as int] == x@);
            return true;
        }
        i = i + 1;
    }
    assert forall|k: int| 0 <= k < string_seq(v@).len() implies string_seq(v@)[k] != x@ by {
        assert(string_seq(v@)[k] == v@[k]@);
    }
    false
}

fn copy_strings(v: &Vec<String>) -> (r: Vec<String>)
    ensures
        string_seq(r@) == string_seq(v@),
{
    let mut r: Vec<String> = Vec::new();
    let mut i: usize = 0;
    while i < v.len()
        invariant
            i <= v@.len(),
            string_seq(r@) == string_seq(v@).subrange(0, i as int),
        decreases v.len() - i,
    {
        let ghost before = string_seq(r@);
        r.push(from_chars(to_chars(v[i].as_str()).as_slice()));
        assert(string_seq(r@) =~= before.push(v@[i as int]@));
        assert(string_seq(r@) =~= string_seq(v@).subrange(0, i + 1));
        i = i + 1;
    }
    assert(string_seq(v@).subrange(0, i as int) =~= string_seq(v@));
    r
}

/// What the steps run after an automatic run are told: each version
/// brought up, with the directories that asked for it, and whether this
/// run installed it.
pub fn post_install_versions(all: &Vec<(String, Vec<String>)>, installed: &Vec<String>) -> (r: Vec<AsdfToolUpVersion>)
    ensures
        r@.len() == all@.len(),
        forall|k: int|
            0 <= k < all@.len() ==> {
                &&& (#[trigger] r@[k]).version@ == all@[k].0@
                &&& string_seq(r@[k].dirs@) == string_seq(all@[k].1@)
                &&& r@[k].installed == string_seq(installed@).contains(all@[k].0@)
            },
{
    let mut r: Vec<AsdfToolUpVersion> = Vec::new();
    let mut i: usize = 0;
    while i < all.len()
        invariant
            i <= all@.len(),
            r@.len() == i,
            forall|k: int|
                0 <= k < i ==> {
                    &&& (#[trigger] r@[k]).version@ == all@[k].0@
                    &&& string_seq(r@[k].dirs@) == string_seq(all@[k].1@)
                    &&& r@[k].installed == string_seq(installed@).contains(all@[k].0@)
                },
        decreases all.len() - i,
    {
        let v = AsdfToolUpVersion {
            version: from_chars(to_chars(all[i].0.as_str()).as_slice()),
            dirs: copy_strings(&all[i].1),
            installed: contains_string(installed, &all[i].0),
        };
        r.push(v);
        i = i + 1;
    }
    r
}

/// Outside `latest` and the requested range, a version answers a request
/// only when it starts with the request and a dot, followed by digits and
/// dots only: `3.10.2` does not answer `3.1` that way, `3.1.5` does.
pub proof fn law_version_match_needs_dot_after_request(expect: Seq<char>, version: Seq<char>)
    requires
        expect != "latest"@,
        version_matches(expect, version),
        !node_satisfies(expect, version),
    ensures
        version.len() > expect.len(),
        version.subrange(0, expect.len() as int) == expect,
        version[expect.len() as int] == '.',
        forall|k: int| expect.len() < k < version.len() ==> is_ascii_digit(#[trigger] version[k]) || version[k] == '.',
{
    reveal_strlit(".");
    let p = expect + "."@;
    assert(version.subrange(0, p.len() as int) == p);
    assert(version.subrange(0, expect.len() as int) =~= p.subrange(0, expect.len() as int));
    assert(p.subrange(0, expect.len() as int) =~= expect);
    assert(version[expect.len() as int] == version.subrange(0, p.len() as int)[expect.len() as int]);
    let rest = version.subrange(expect.len() + 1int, version.len() as int);
    assert forall|k: int| expect.len() < k < version.len() implies is_ascii_digit(#[trigger] version[k]) || version[k]
        == '.' by {
        assert(version[k] == rest[k - expect.len() - 1]);
    }
}

/// For `latest`, exactly the versions of digits and dots (no dot first,
/// no two dots in a row) answer.
pub proof fn law_latest_matches_releases(version: Seq<char>)
    ensures
        version_matches("latest"@, version) <==> forall|i: int|
            0 <= i < version.len() ==> is_ascii_digit(#[trigger] version[i]) || (version[i] == '.' && i > 0
                && version[i - 1] != '.'),
{
}

} // verus!
