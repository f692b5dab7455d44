//! Tools installed with `go install`: how an import path and its version
//! are written in the configuration.
use vstd::prelude::*;

use crate::cargo_install::{last_nonempty, last_nonempty_part, shown_version};
use crate::config_value::ConfigValue;
use crate::error::UpError;
use crate::path::{relative_parts, relative_parts_of};
use crate::summary::{install_summary, install_summary_text, removal_report, removal_report_text};
use crate::text::push_str;

use crate::text::{
    find_from, occurs_at, skip_ws, back_ws, split_from, lemma_split_append, lemma_split_single,
    append, find, find_pat, from_chars, is_whitespace, join, join_chars, keep_non_empty,
    non_empty, slice, split, split_char, to_chars, trim, trim_chars, views, whitespace,
};

verus! {

/// Whether a tool was installed, already there, or not handled yet.
#[derive(Debug, Clone, Copy, PartialEq, Eq, Structural)]
pub enum GoInstallHandled {
    Handled,
    Noop,
    Unhandled,
}

/// An import path or version that cannot be installed.
#[derive(Debug, Clone, PartialEq, Eq)]
pub enum GoInstallError {
    InvalidImportPath(String),
}

pub open spec fn go_error_text(e: GoInstallError) -> Seq<char> {
    match e {
        GoInstallError::InvalidImportPath(m) => m@,
    }
}

impl GoInstallError {
    /// The error as it is displayed.
    pub fn display_string(&self) -> (r: String)
        ensures
            r@ == "invalid path: "@ + go_error_text(*self),
    {
        match self {
            GoInstallError::InvalidImportPath(m) => {
                let mut out = to_chars("invalid path: ");
                append(&mut out, &to_chars(m.as_str()));
                from_chars(out.as_slice())
            },
        }
    }
}

/// A Unicode control character (general category Cc).
pub open spec fn is_control(c: char) -> bool {
    c <= '\u{1f}' || ('\u{7f}' <= c && c <= '\u{9f}')
}

/// A character that a version given to `go install` cannot hold.
pub open spec fn bad_version_char(c: char) -> bool {
    ||| is_whitespace(c)
    ||| is_control(c)
    ||| c > '\u{7f}'
    ||| c == '@'
    ||| c == '<'
    ||| c == '>'
    ||| c == '['
    ||| c == ']'
    ||| c == '{'
    ||| c == '}'
    ||| c == ':'
    ||| c == ';'
    ||| c == ','
}

fn bad_version_char_exec(c: char) -> (r: bool)
    ensures
        r == bad_version_char(c),
{
    whitespace(c) || c <= '\u{1f}' || ('\u{7f}' <= c && c <= '\u{9f}') || c > '\u{7f}' || c == '@'
        || c == '<' || c == '>' || c == '[' || c == ']' || c == '{' || c == '}' || c == ':' || c
        == ';' || c == ','
}

/// Checks that a version holds no whitespace, control or non-ASCII
/// character, and none of `@ < > [ ] { } : ; ,`.
pub fn validate_go_install_version(version: &str) -> (r: Result<(), GoInstallError>)
    ensures
        r is Ok <==> forall|i: int| 0 <= i < version@.len() ==> !bad_version_char(#[trigger] version@[i]),
        r matches Err(e) ==> go_error_text(e) == "version contains invalid characters"@,
{
    let v = to_chars(version);
    let mut i: usize = 0;
    while i < v.len()
        invariant
            v@ == version@,
            i <= v@.len(),
            forall|k: int| 0 <= k < i ==> !bad_version_char(#[trigger] v@[k]),
        decreases v.len() - i,
    {
        if bad_version_char_exec(v[i]) {
            return Err(GoInstallError::InvalidImportPath(String::from_str("version contains invalid characters")));
        }
        i = i + 1;
    }
    Ok(())
}

/// The import path without surrounding whitespace, up to and including the
/// first `://`, and without empty segments.
pub open spec fn clean_go_path_segments(path: Seq<char>) -> Seq<Seq<char>> {
    let p = trim(path);
    let p2 = match find(p, seq![':', '/', '/']) {
        Some(idx) => p.subrange(idx + 3, p.len() as int),
        None => p,
    };
    non_empty(split(p2, '/'))
}

/// What cleaning an import path gives: the cleaned path, or the reason it
/// is refused.
pub open spec fn clean_go_path(path: Seq<char>) -> Result<Seq<char>, Seq<char>> {
    if path.len() == 0 {
        Err("empty import path"@)
    } else if clean_go_path_segments(path).len() == 0 {
        Err("empty path after cleaning"@)
    } else {
        Ok(join(clean_go_path_segments(path), seq!['/']))
    }
}

fn clean_path_chars(path: &Vec<char>) -> (r: Result<Vec<char>, GoInstallError>)
    ensures
        match clean_go_path(path@) {
            Ok(p) => r matches Ok(q) && q@ == p,
            Err(m) => r matches Err(e) && go_error_text(e) == m,
        },
{
    if path.len() == 0 {
        return Err(GoInstallError::InvalidImportPath(String::from_str("empty import path")));
    }
    let p = trim_chars(path);
    let plen = p.len();
    let sep = vec![':', '/', '/'];
    assert(sep@ =~= seq![':', '/', '/']);
    let p2 = match find_pat(&p, &sep) {
        Some(idx) => {
            proof {
                crate::text::lemma_find_from_bounds(p@, sep@, 0);
                assert(crate::text::occurs_at(p@, sep@, idx as int));
            }
            slice(&p, idx + 3, plen)
        },
        None => p,
    };
    let segs = keep_non_empty(split_char(&p2, '/'));
    if segs.len() == 0 {
        return Err(GoInstallError::InvalidImportPath(String::from_str("empty path after cleaning")));
    }
    let slash = vec!['/'];
    assert(slash@ =~= seq!['/']);
    Ok(join_chars(&segs, &slash))
}

/// Cleans an import path: surrounding whitespace, a protocol (anything up
/// to `://`) and empty segments are removed.
pub fn validate_go_install_path(path: &str) -> (r: Result<String, GoInstallError>)
    ensures
        match clean_go_path(path@) {
            Ok(p) => r matches Ok(q) && q@ == p,
            Err(m) => r matches Err(e) && go_error_text(e) == m,
        },
{
    match clean_path_chars(&to_chars(path)) {
        Ok(q) => Ok(from_chars(q.as_slice())),
        Err(e) => Err(e),
    }
}

/// The pre-release identifiers of a version as `node_semver::Version::parse`
/// reads it (each `Some` of its text when alphanumeric, `None` when
/// numeric), or `None` when it is not a version (the grammar is named,
/// not spelled out).
pub uninterp spec fn node_prerelease_of(s: Seq<char>) -> Option<Seq<Option<Seq<char>>>>;

/// Whether `time::PrimitiveDateTime::parse` reads `s` with the format
/// `[year][month][day][hour][minute][second]` (the calendar is named, not
/// spelled out).
pub uninterp spec fn datetime_parses(s: Seq<char>) -> bool;

/// `node_semver::Version::parse`, giving the pre-release identifiers of
/// the version read: `Some` of the text of an alphanumeric identifier,
/// `None` for a numeric one; `None` when the text is not a version.
#[verifier::external_body]
fn node_prerelease(s: &str) -> (r: Option<Vec<Option<String>>>)
    ensures
        match node_prerelease_of(s@) {
            Some(ids) => r matches Some(v) && v@.len() == ids.len() && forall|k: int|
                0 <= k < ids.len() ==> match (#[trigger] v@[k], ids[k]) {
                    (Some(x), Some(y)) => x@ == y,
                    (None, None) => true,
                    _ => false,
                },
            None => r is None,
        },
{
    match node_semver::Version::parse(s) {
        Ok(v) => Some(
            v.pre_release.iter().map(|id| match id {
                node_semver::Identifier::AlphaNumeric(t) => Some(t.clone()),
                node_semver::Identifier::Numeric(_) => None,
            }).collect(),
        ),
        Err(_) => None,
    }
}

/// `time::PrimitiveDateTime::parse` with the format
/// `[year][month][day][hour][minute][second]`: whether it reads `s`.
#[verifier::external_body]
fn parses_as_datetime(s: &str) -> (r: bool)
    ensures
        r == datetime_parses(s@),
{
    match time::format_description::parse("[year][month][day][hour][minute][second]") {
        Ok(format) => time::PrimitiveDateTime::parse(s, &format).is_ok(),
        Err(_) => false,
    }
}

/// Whether every character of `s` is an ASCII hexadecimal digit.
pub open spec fn all_hex(s: Seq<char>) -> bool {
    forall|k: int| 0 <= k < s.len() ==> ({
        let c = #[trigger] s[k];
        ('0' <= c && c <= '9') || ('a' <= c && c <= 'f') || ('A' <= c && c <= 'F')
    })
}

/// Whether every character of `s` is an ASCII digit.
pub open spec fn all_digits(s: Seq<char>) -> bool {
    forall|k: int| 0 <= k < s.len() ==> ('0' <= #[trigger] s[k] && s[k] <= '9')
}

/// Whether the last pre-release identifier of a version is that of a Go
/// pseudo-version: a time `yyyymmddhhmmss` that is a date, a `-`, and a
/// commit hash of twelve hexadecimal digits.
pub open spec fn pseudo_tail(t: Seq<char>) -> bool {
    let parts = split(t, '-');
    &&& parts.len() == 2
    &&& parts[0].len() == 14
    &&& all_digits(parts[0])
    &&& datetime_parses(parts[0])
    &&& parts[1].len() == 12
    &&& all_hex(parts[1])
}

/// Whether `v` is a Go pseudo-version: `v` then a version whose last
/// pre-release identifier is alphanumeric and a pseudo-version's time
/// and commit (see `pseudo_tail`), as in `vX.0.0-yyyymmddhhmmss-abcdefabcdef`,
/// `vX.Y.Z-pre.0.yyyymmddhhmmss-abcdefabcdef` or
/// `vX.Y.(Z+1)-0.yyyymmddhhmmss-abcdefabcdef`.
pub open spec fn go_pseudo_version(v: Seq<char>) -> bool {
    &&& v.len() > 1
    &&& v[0] == 'v'
    &&& '0' <= v[1] && v[1] <= '9'
    &&& match node_prerelease_of(v.subrange(1, v.len() as int)) {
        Some(ids) => ids.len() > 0 && match ids.last() {
            Some(t) => pseudo_tail(t),
            None => false,
        },
        None => false,
    }
}

fn all_digits_exec(s: &Vec<char>) -> (r: bool)
    ensures
        r == all_digits(s@),
{
    let mut i: usize = 0;
    while i < s.len()
        invariant
            i <= s@.len(),
            forall|k: int| 0 <= k < i ==> ('0' <= #[trigger] s@[k] && s@[k] <= '9'),
        decreases s.len() - i,
    {
        if !('0' <= s[i] && s[i] <= '9') {
            return false;
        }
        i = i + 1;
    }
    true
}

fn all_hex_exec(s: &Vec<char>) -> (r: bool)
    ensures
        r == all_hex(s@),
{
    let mut i: usize = 0;
    while i < s.len()
        invariant
            i <= s@.len(),
            forall|k: int| 0 <= k < i ==> ({
                let c = #[trigger] s@[k];
                ('0' <= c && c <= '9') || ('a' <= c && c <= 'f') || ('A' <= c && c <= 'F')
            }),
        decreases s.len() - i,
    {
        let c = s[i];
        if !(('0' <= c && c <= '9') || ('a' <= c && c <= 'f') || ('A' <= c && c <= 'F')) {
            return false;
        }
        i = i + 1;
    }
    true
}

/// Whether `version` is a Go pseudo-version (see `go_pseudo_version`).
pub fn is_go_pseudo_version(version: &str) -> (r: bool)
    ensures
        r == go_pseudo_version(version@),
{
    let v = to_chars(version);
    if !(v.len() > 1 && v[0] == 'v' && '0' <= v[1] && v[1] <= '9') {
        return false;
    }
    let rest = from_chars(slice(&v, 1, v.len()).as_slice());
    match node_prerelease(rest.as_str()) {
        None => false,
        Some(ids) => {
            if ids.len() == 0 {
                return false;
            }
            let last = &ids[ids.len() - 1];
            match last {
                None => false,
                Some(t) => {
                    let parts = split_char(&to_chars(t.as_str()), '-');
                    if parts.len() != 2 {
                        return false;
                    }
                    assert(views(parts@)[0] == parts@[0]@ && views(parts@)[1] == parts@[1]@);
                    let date = &parts[0];
                    let hash = &parts[1];
                    date.len() == 14 && all_digits_exec(date) && parses_as_datetime(from_chars(date.as_slice()).as_str())
                        && hash.len() == 12 && all_hex_exec(hash)
                },
            }
        },
    }
}

/// What parsing `path@version` gives: the cleaned path and the version, or
/// the reason it is refused.
pub open spec fn go_install_parts(input: Seq<char>) -> Result<(Seq<char>, Option<Seq<char>>), Seq<char>> {
    let parts = split(input, '@');
    if parts.len() > 2 {
        Err("multiple @ symbols found"@)
    } else {
        match clean_go_path(parts[0]) {
            Err(m) => Err(m),
            Ok(p) => if parts.len() == 2 {
                if forall|i: int| 0 <= i < parts[1].len() ==> !bad_version_char(#[trigger] parts[1][i]) {
                    Ok((p, Some(parts[1])))
                } else {
                    Err("version contains invalid characters"@)
                }
            } else {
                Ok((p, None))
            },
        }
    }
}

/// Parses `path` or `path@version` for `go install`.
pub fn parse_go_install_path(input: &str) -> (r: Result<(String, Option<String>), GoInstallError>)
    ensures
        match go_install_parts(input@) {
            Ok((p, v)) => r matches Ok((q, w)) && q@ == p && (match w {
                Some(x) => v == Some(x@),
                None => v is None,
            }),
            Err(m) => r matches Err(e) && go_error_text(e) == m,
        },
{
    let parts = split_char(&to_chars(input), '@');
    proof {
        crate::cargo_install::lemma_split_nonempty(input@, '@');
    }
    if parts.len() > 2 {
        return Err(GoInstallError::InvalidImportPath(String::from_str("multiple @ symbols found")));
    }
    let cleaned = match clean_path_chars(&parts[0]) {
        Ok(q) => from_chars(q.as_slice()),
        Err(e) => {
            return Err(e);
        },
    };
    if parts.len() == 2 {
        let v = from_chars(parts[1].as_slice());
        match validate_go_install_version(v.as_str()) {
            Ok(()) => Ok((cleaned, Some(v))),
            Err(e) => Err(e),
        }
    } else {
        Ok((cleaned, None))
    }
}


/// One tool to install with `go install`, as configured.
#[derive(Debug, Clone)]
pub struct UpConfigGoInstall {
    /// The import path of the tool, e.g. `github.com/owner/tool`.
    pub path: String,
    /// The version asked for, if any.
    pub version: Option<String>,
    /// Whether exactly that version is installed, without looking up the
    /// available versions.
    pub exact: bool,
    /// Whether the latest matching version is always installed.
    pub upgrade: bool,
    /// Whether pre-release versions may be installed.
    pub prerelease: bool,
    /// Whether versions with build details may be installed.
    pub build: bool,
    /// The directories the tool is installed for.
    pub dirs: Vec<String>,
    /// Why the configuration could not be read, if it could not.
    pub config_error: Option<String>,
    /// The version that was installed or found installed, once handled.
    pub actual_version: Option<String>,
    /// How the tool was handled, once it was.
    pub was_handled: Option<GoInstallHandled>,
}

pub struct GoInstallView {
    pub path: Seq<char>,
    pub version: Option<Seq<char>>,
    pub exact: bool,
    pub upgrade: bool,
    pub prerelease: bool,
    pub build: bool,
    pub dirs: Seq<Seq<char>>,
    pub config_error: Option<Seq<char>>,
    pub actual_version: Option<Seq<char>>,
    pub was_handled: Option<GoInstallHandled>,
}

pub open spec fn opt_seq(o: Option<String>) -> Option<Seq<char>> {
    match o {
        Some(s) => Some(s@),
        None => None,
    }
}

pub open spec fn string_seq(v: Seq<String>) -> Seq<Seq<char>> {
    Seq::new(v.len(), |k: int| v[k]@)
}

impl View for UpConfigGoInstall {
    type V = GoInstallView;

    open spec fn view(&self) -> GoInstallView {
        GoInstallView {
            path: self.path@,
            version: opt_seq(self.version),
            exact: self.exact,
            upgrade: self.upgrade,
            prerelease: self.prerelease,
            build: self.build,
            dirs: string_seq(self.dirs@),
            config_error: opt_seq(self.config_error),
            actual_version: opt_seq(self.actual_version),
            was_handled: self.was_handled,
        }
    }
}

/// A tool that could not be read, and why.
pub open spec fn go_failed(path: Seq<char>, err: Seq<char>) -> GoInstallView {
    GoInstallView {
        path,
        version: None,
        exact: false,
        upgrade: false,
        prerelease: false,
        build: false,
        dirs: Seq::empty(),
        config_error: Some(err),
        actual_version: None,
        was_handled: None,
    }
}

/// A tool with a path and a version, and nothing else set.
pub open spec fn go_named(path: Seq<char>, version: Option<Seq<char>>, exact: bool) -> GoInstallView {
    GoInstallView {
        path,
        version,
        exact,
        upgrade: false,
        prerelease: false,
        build: false,
        dirs: Seq::empty(),
        config_error: None,
        actual_version: None,
        was_handled: None,
    }
}

/// The strings among the entries of a list, in order.
pub open spec fn dir_list(a: Seq<ConfigValue>) -> Seq<Seq<char>>
    decreases a.len(),
{
    if a.len() == 0 {
        Seq::empty()
    } else {
        match a.last().str_forced_of() {
            Some(s) => dir_list(a.drop_last()).push(s),
            None => dir_list(a.drop_last()),
        }
    }
}

/// The directories given under `dir`: one string, or a list of them.
pub open spec fn dirs_of(v: Option<ConfigValue>) -> Seq<Seq<char>> {
    match v {
        Some(x) => match x.str_forced_of() {
            Some(s) => seq![s],
            None => match x {
                ConfigValue::Array(a) => dir_list(a@),
                _ => Seq::empty(),
            },
        },
        None => Seq::empty(),
    }
}

/// A flag read with `read`: true when set to true.
pub open spec fn forced_flag(v: Option<ConfigValue>) -> bool {
    match v {
        Some(x) => x.bool_forced_of() == Some(true),
        None => false,
    }
}

/// A flag that only a boolean sets.
pub open spec fn strict_flag(v: Option<ConfigValue>) -> bool {
    match v {
        Some(ConfigValue::Bool(b)) => b,
        _ => false,
    }
}

/// What the settings of a tool give: its path as written (`path@version`
/// allowed) and the values under `version`, `exact`, `upgrade`,
/// `prerelease`, `build` and `dir`. A version given both in the path and
/// under `version` is refused; one given in the path makes `exact` default
/// to true.
pub open spec fn go_settings_of(
    text: Seq<char>,
    version_v: Option<ConfigValue>,
    exact_v: Option<ConfigValue>,
    upgrade_v: Option<ConfigValue>,
    prerelease_v: Option<ConfigValue>,
    build_v: Option<ConfigValue>,
    dir_v: Option<ConfigValue>,
) -> GoInstallView {
    match go_install_parts(text) {
        Err(m) => go_failed(text, "invalid path: "@ + m),
        Ok((path, pinned)) => {
            let field = match version_v {
                Some(x) => x.str_forced_of(),
                None => None,
            };
            if field is Some && pinned is Some {
                go_failed(path, "version should not be specified in both path and version fields"@)
            } else {
                GoInstallView {
                    path,
                    version: if field is Some {
                        field
                    } else {
                        pinned
                    },
                    exact: match exact_v {
                        Some(x) => match x.bool_forced_of() {
                            Some(b) => b,
                            None => pinned is Some,
                        },
                        None => pinned is Some,
                    },
                    upgrade: forced_flag(upgrade_v),
                    prerelease: strict_flag(prerelease_v),
                    build: strict_flag(build_v),
                    dirs: dirs_of(dir_v),
                    config_error: None,
                    actual_version: None,
                    was_handled: None,
                }
            }
        },
    }
}

/// The settings of a tool found in the table `src`, for the path `text`.
pub open spec fn go_settings_in(text: Seq<char>, src: ConfigValue) -> GoInstallView {
    go_settings_of(
        text,
        src.get_of("version"@),
        src.get_of("exact"@),
        src.get_of("upgrade"@),
        src.get_of("prerelease"@),
        src.get_of("build"@),
        src.get_of("dir"@),
    )
}

/// What a table configuring one tool gives: the tool is under `path`;
/// otherwise the table has a single key, the tool's path, whose value is
/// its version, a table of its settings, or nothing.
pub open spec fn go_table_of(cv: ConfigValue) -> GoInstallView {
    match cv.get_of("path"@) {
        Some(p) => match p.str_forced_of() {
            Some(t) => go_settings_in(t, cv),
            None => go_failed(Seq::empty(), "path must be a string"@),
        },
        None => match cv {
            ConfigValue::Table(entries) => if entries@.len() == 1 {
                let key = entries@[0].0@;
                let value = entries@[0].1;
                match value.str_forced_of() {
                    Some(version) => go_named(key, Some(version), false),
                    None => match value {
                        ConfigValue::Table(_) => go_settings_in(key, value),
                        ConfigValue::Null => go_settings_of(key, None, None, None, None, None, None),
                        _ => go_failed(Seq::empty(), "path is required"@),
                    },
                }
            } else {
                go_failed(Seq::empty(), "path is required"@)
            },
            _ => go_failed(Seq::empty(), "path is required"@),
        },
    }
}

/// What the configuration of one tool gives: nothing, a table (see
/// `go_table_of`), or `path[@version]` (a version given there is exact).
pub open spec fn go_install_of(cv: Option<ConfigValue>) -> GoInstallView {
    match cv {
        None => go_failed(Seq::empty(), "no configuration provided"@),
        Some(ConfigValue::Table(t)) => go_table_of(ConfigValue::Table(t)),
        Some(v) => match v.str_forced_of() {
            Some(text) => match go_install_parts(text) {
                Err(m) => go_failed(text, "invalid path: "@ + m),
                Ok((path, version)) => go_named(path, version, version is Some),
            },
            None => go_failed(Seq::empty(), "no import path provided"@),
        },
    }
}

fn go_failed_exec(path: String, err: String) -> (r: UpConfigGoInstall)
    ensures
        r@ == go_failed(path@, err@),
{
    let r = UpConfigGoInstall {
        path,
        version: None,
        exact: false,
        upgrade: false,
        prerelease: false,
        build: false,
        dirs: Vec::new(),
        config_error: Some(err),
        actual_version: None,
        was_handled: None,
    };
    assert(r@.dirs =~= Seq::<Seq<char>>::empty());
    r
}

fn go_named_exec(path: String, version: Option<String>, exact: bool) -> (r: UpConfigGoInstall)
    ensures
        r@ == go_named(path@, opt_seq(version), exact),
{
    let r = UpConfigGoInstall {
        path,
        version,
        exact,
        upgrade: false,
        prerelease: false,
        build: false,
        dirs: Vec::new(),
        config_error: None,
        actual_version: None,
        was_handled: None,
    };
    assert(r@.dirs =~= Seq::<Seq<char>>::empty());
    r
}

fn dirs_exec(v: Option<&ConfigValue>) -> (r: Vec<String>)
    ensures
        string_seq(r@) == dirs_of(crate::config_value::deref_opt(v)),
{
    let mut r: Vec<String> = Vec::new();
    match v {
        None => {
            assert(string_seq(r@) =~= Seq::<Seq<char>>::empty());
            r
        },
        Some(x) => match x.as_str_forced() {
            Some(s) => {
                let ghost sv = s@;
                r.push(s);
                assert(string_seq(r@) =~= seq![sv]);
                r
            },
            None => match x {
                ConfigValue::Array(a) => {
                    let mut i: usize = 0;
                    assert(a@.subrange(0, 0) =~= Seq::<ConfigValue>::empty());
                    assert(string_seq(r@) =~= Seq::<Seq<char>>::empty());
                    while i < a.len()
                        invariant
                            i <= a@.len(),
                            string_seq(r@) == dir_list(a@.subrange(0, i as int)),
                        decreases a.len() - i,
                    {
                        assert(a@.subrange(0, i + 1).drop_last() =~= a@.subrange(0, i as int));
                        let ghost before = string_seq(r@);
                        match a[i].as_str_forced() {
                            Some(s) => {
                                let ghost sv = s@;
                                r.push(s);
                                assert(string_seq(r@) =~= before.push(sv));
                            },
                            None => {},
                        }
                        i = i + 1;
                    }
                    assert(a@.subrange(0, i as int) =~= a@);
                    r
                },
                _ => {
                    assert(string_seq(r@) =~= Seq::<Seq<char>>::empty());
                    r
                },
            },
        },
    }
}

fn invalid_path_text(e: &GoInstallError) -> (r: String)
    ensures
        r@ == "invalid path: "@ + go_error_text(*e),
{
    e.display_string()
}

impl UpConfigGoInstall {
    fn from_settings(
        text: &str,
        version_v: Option<&ConfigValue>,
        exact_v: Option<&ConfigValue>,
        upgrade_v: Option<&ConfigValue>,
        prerelease_v: Option<&ConfigValue>,
        build_v: Option<&ConfigValue>,
        dir_v: Option<&ConfigValue>,
    ) -> (r: UpConfigGoInstall)
        ensures
            r@ == go_settings_of(
                text@,
                crate::config_value::deref_opt(version_v),
                crate::config_value::deref_opt(exact_v),
                crate::config_value::deref_opt(upgrade_v),
                crate::config_value::deref_opt(prerelease_v),
                crate::config_value::deref_opt(build_v),
                crate::config_value::deref_opt(dir_v),
            ),
    {
        let (path, pinned) = match parse_go_install_path(text) {
            Ok(p) => p,
            Err(e) => {
                return go_failed_exec(from_chars(to_chars(text).as_slice()), invalid_path_text(&e));
            },
        };
        let field = match version_v {
            Some(x) => x.as_str_forced(),
            None => None,
        };
        if field.is_some() && pinned.is_some() {
            return go_failed_exec(
                path,
                String::from_str("version should not be specified in both path and version fields"),
            );
        }
        let exact = match exact_v {
            Some(x) => match x.as_bool_forced() {
                Some(b) => b,
                None => pinned.is_some(),
            },
            None => pinned.is_some(),
        };
        let version = if field.is_some() {
            field
        } else {
            pinned
        };
        let upgrade = match upgrade_v {
            Some(x) => x.as_bool_forced() == Some(true),
            None => false,
        };
        let prerelease = match prerelease_v {
            Some(x) => x.as_bool() == Some(true),
            None => false,
        };
        let build = match build_v {
            Some(x) => x.as_bool() == Some(true),
            None => false,
        };
        UpConfigGoInstall {
            path,
            version,
            exact,
            upgrade,
            prerelease,
            build,
            dirs: dirs_exec(dir_v),
            config_error: None,
            actual_version: None,
            was_handled: None,
        }
    }

    fn from_settings_in(text: &str, src: &ConfigValue) -> (r: UpConfigGoInstall)
        ensures
            r@ == go_settings_in(text@, *src),
    {
        UpConfigGoInstall::from_settings(
            text,
            src.get("version"),
            src.get("exact"),
            src.get("upgrade"),
            src.get("prerelease"),
            src.get("build"),
            src.get("dir"),
        )
    }

    /// Reads a table that configures one tool (see `go_table_of`).
    pub fn from_table(cv: &ConfigValue) -> (r: UpConfigGoInstall)
        requires
            *cv is Table,
        ensures
            r@ == go_table_of(*cv),
    {
        match cv.get("path") {
            Some(p) => match p.as_str_forced() {
                Some(t) => UpConfigGoInstall::from_settings_in(t.as_str(), cv),
                None => go_failed_exec(String::new(), String::from_str("path must be a string")),
            },
            None => {
                let entries = match cv.as_table() {
                    Some(t) => t,
                    None => {
                        return go_failed_exec(String::new(), String::from_str("path is required"));
                    },
                };
                if entries.len() != 1 {
                    return go_failed_exec(String::new(), String::from_str("path is required"));
                }
                let key = &entries[0].0;
                let value = &entries[0].1;
                match value.as_str_forced() {
                    Some(version) => go_named_exec(crate::text::copy_string(key), Some(version), false),
                    None => match value {
                        ConfigValue::Table(_) => UpConfigGoInstall::from_settings_in(key.as_str(), value),
                        ConfigValue::Null => UpConfigGoInstall::from_settings(
                            key.as_str(),
                            None,
                            None,
                            None,
                            None,
                            None,
                            None,
                        ),
                        _ => go_failed_exec(String::new(), String::from_str("path is required")),
                    },
                }
            },
        }
    }

    /// Reads the configuration of one tool (see `go_install_of`).
    pub fn from_config_value(config_value: Option<&ConfigValue>) -> (r: UpConfigGoInstall)
        ensures
            r@ == go_install_of(crate::config_value::deref_opt(config_value)),
    {
        let cv = match config_value {
            Some(cv) => cv,
            None => {
                return go_failed_exec(String::new(), String::from_str("no configuration provided"));
            },
        };
        if cv.is_table() {
            return UpConfigGoInstall::from_table(cv);
        }
        match cv.as_str_forced() {
            Some(text) => match parse_go_install_path(text.as_str()) {
                Ok((path, version)) => {
                    let exact = version.is_some();
                    go_named_exec(path, version, exact)
                },
                Err(e) => go_failed_exec(text, invalid_path_text(&e)),
            },
            None => go_failed_exec(String::new(), String::from_str("no import path provided")),
        }
    }
}

/// The tools to install with `go install`.
#[derive(Debug, Clone)]
pub struct UpConfigGoInstalls {
    pub tools: Vec<UpConfigGoInstall>,
}

pub open spec fn go_views(v: Seq<UpConfigGoInstall>) -> Seq<GoInstallView> {
    Seq::new(v.len(), |k: int| v[k]@)
}

/// A tool given as `path: settings` in a table of tools: the settings are
/// a table, a version, or nothing.
pub open spec fn go_map_entry_of(path: Seq<char>, value: ConfigValue) -> GoInstallView {
    match value {
        ConfigValue::Table(_) => go_settings_in(path, value),
        _ => if value.str_forced_of() is Some {
            go_settings_of(path, Some(value), None, None, None, None, None)
        } else {
            go_settings_of(path, None, None, None, None, None, None)
        },
    }
}

/// The tools of a table of tools, taken by path in the order `keys`.
pub open spec fn go_map_of(entries: Seq<(String, ConfigValue)>, keys: Seq<Seq<char>>) -> Seq<GoInstallView>
    decreases keys.len(),
{
    if keys.len() == 0 {
        Seq::empty()
    } else {
        let rest = go_map_of(entries, keys.drop_last());
        match crate::config_value::lookup(entries, keys.last()) {
            None => rest,
            Some(v) => rest.push(go_map_entry_of(keys.last(), v)),
        }
    }
}

/// The tools a configuration gives: one tool written as text, a list of
/// tools, one tool as a table with `path`, or a table of tools by path
/// (taken in increasing order of path).
pub open spec fn go_installs_of(cv: Option<ConfigValue>) -> Seq<GoInstallView> {
    match cv {
        None => Seq::empty(),
        Some(v) => if v.str_forced_of() is Some {
            seq![go_install_of(Some(v))]
        } else {
            match v {
                ConfigValue::Array(a) => Seq::new(a@.len(), |k: int| go_install_of(Some(a@[k]))),
                ConfigValue::Table(t) => if v.get_of("path"@) is Some {
                    seq![go_install_of(Some(v))]
                } else {
                    go_map_of(t@, crate::config_value::sorted_keys(t@))
                },
                _ => Seq::empty(),
            }
        },
    }
}

impl UpConfigGoInstalls {
    /// What a cleanup of the tools' directory `bin_path` reports, given
    /// whether the whole directory went, how many paths were removed and
    /// which (see `removal_report`).
    pub fn cleanup_report(
        bin_path: &str,
        root_removed: bool,
        num_removed: usize,
        removed_paths: &Vec<String>,
    ) -> (r: Option<String>)
        ensures
            match removal_report(
                "removed all go install"@,
                "tool"@,
                root_removed,
                num_removed as nat,
                go_removed_labels(bin_path@, crate::order::string_seq(removed_paths@)),
            ) {
                Some(x) => r matches Some(y) && y@ == x,
                None => r is None,
            },
    {
        let mut labels: Vec<Vec<char>> = Vec::new();
        let ghost ps = crate::order::string_seq(removed_paths@);
        let mut i: usize = 0;
        assert(ps.subrange(0, 0) =~= Seq::<Seq<char>>::empty());
        assert(views(labels@) =~= Seq::<Seq<char>>::empty());
        while i < removed_paths.len()
            invariant
                i <= removed_paths@.len(),
                ps == crate::order::string_seq(removed_paths@),
                views(labels@) == go_removed_labels(bin_path@, ps.subrange(0, i as int)),
            decreases removed_paths.len() - i,
        {
            let ghost pre = ps.subrange(0, i + 1);
            assert(pre.drop_last() =~= ps.subrange(0, i as int));
            assert(pre.last() == removed_paths@[i as int]@);
            let ghost before = views(labels@);
            match relative_parts(bin_path, removed_paths[i].as_str()) {
                Some(parts) => match go_removed_label_exec(&parts) {
                    Some(l) => {
                        labels.push(l);
                        assert(views(labels@) =~= before.push(go_removed_label(views(parts@))->0));
                    },
                    None => {},
                },
                None => {},
            }
            i = i + 1;
        }
        assert(ps.subrange(0, i as int) =~= ps);
        removal_report_text("removed all go install", "tool", root_removed, num_removed, &labels)
    }

    /// Whether any tool was installed or found installed.
    pub fn was_upped(&self) -> (r: bool)
        ensures
            r == exists|k: int| 0 <= k < self.tools@.len() && go_upped(#[trigger] self.tools@[k]@),
    {
        let mut i: usize = 0;
        while i < self.tools.len()
            invariant
                i <= self.tools@.len(),
                forall|k: int| 0 <= k < i ==> !go_upped(#[trigger] self.tools@[k]@),
            decreases self.tools.len() - i,
        {
            if self.tools[i].was_upped() {
                return true;
            }
            i = i + 1;
        }
        false
    }

    /// The summary of the step (see `install_summary`): the tools
    /// installed, those already there, and their labels.
    pub fn get_up_message(&self) -> (r: String)
        ensures
            ({
                let cs = go_views(self.tools@);
                r@ == install_summary(
                    go_labels(cs),
                    go_count(cs, GoInstallHandled::Handled),
                    go_count(cs, GoInstallHandled::Noop),
                )
            }),
    {
        let ghost cs = go_views(self.tools@);
        let mut labels: Vec<String> = Vec::new();
        let mut installed: usize = 0;
        let mut already: usize = 0;
        let mut i: usize = 0;
        assert(cs.subrange(0, 0) =~= Seq::<GoInstallView>::empty());
        assert(crate::order::string_seq(labels@) =~= Seq::<Seq<char>>::empty());
        while i < self.tools.len()
            invariant
                i <= self.tools@.len(),
                cs == go_views(self.tools@),
                crate::order::string_seq(labels@) == go_labels(cs.subrange(0, i as int)),
                installed == go_count(cs.subrange(0, i as int), GoInstallHandled::Handled),
                already == go_count(cs.subrange(0, i as int), GoInstallHandled::Noop),
                installed + already <= i,
            decreases self.tools.len() - i,
        {
            let ghost pre = cs.subrange(0, i + 1);
            assert(pre.drop_last() =~= cs.subrange(0, i as int));
            assert(pre.last() == self.tools@[i as int]@);
            let ghost before = crate::order::string_seq(labels@);
            match self.tools[i].handling() {
                GoInstallHandled::Handled => {
                    installed = installed + 1;
                },
                GoInstallHandled::Noop => {
                    already = already + 1;
                },
                GoInstallHandled::Unhandled => {},
            }
            if self.tools[i].was_upped() {
                let label = self.tools[i].summary_label();
                labels.push(label);
                assert(crate::order::string_seq(labels@) =~= before.push(go_label(pre.last())));
            }
            i = i + 1;
        }
        assert(cs.subrange(0, i as int) =~= cs);
        install_summary_text(&labels, installed, already)
    }

    /// Reads the tools to install (see `go_installs_of`).
    pub fn from_config_value(config_value: Option<&ConfigValue>) -> (r: UpConfigGoInstalls)
        ensures
            go_views(r.tools@) == go_installs_of(crate::config_value::deref_opt(config_value)),
    {
        let mut tools: Vec<UpConfigGoInstall> = Vec::new();
        let cv = match config_value {
            Some(cv) => cv,
            None => {
                assert(go_views(tools@) =~= Seq::empty());
                return UpConfigGoInstalls { tools };
            },
        };
        if cv.as_str_forced().is_some() {
            let t = UpConfigGoInstall::from_config_value(Some(cv));
            tools.push(t);
            assert(go_views(tools@) =~= seq![t@]);
            return UpConfigGoInstalls { tools };
        }
        match cv {
            ConfigValue::Array(a) => {
                let mut i: usize = 0;
                while i < a.len()
                    invariant
                        i <= a@.len(),
                        go_views(tools@) == Seq::new(i as nat, |k: int| go_install_of(Some(a@[k]))),
                    decreases a.len() - i,
                {
                    let ghost before = go_views(tools@);
                    let t = UpConfigGoInstall::from_config_value(Some(&a[i]));
                    assert(crate::config_value::deref_opt(Some(&a[i as int])) == Some(a@[i as int]));
                    assert(t@ == go_install_of(Some(a@[i as int])));
                    tools.push(t);
                    assert(go_views(tools@) =~= before.push(t@));
                    assert(go_views(tools@) =~= Seq::new((i + 1) as nat, |k: int| go_install_of(Some(a@[k]))));
                    i = i + 1;
                }
                UpConfigGoInstalls { tools }
            },
            ConfigValue::Table(t) => {
                if cv.get("path").is_some() {
                    let x = UpConfigGoInstall::from_config_value(Some(cv));
                    tools.push(x);
                    assert(go_views(tools@) =~= seq![x@]);
                    return UpConfigGoInstalls { tools };
                }
                let keys = crate::config_value::sorted_table_keys(t);
                let ghost kv = Seq::new(keys@.len(), |k: int| keys@[k]@);
                let mut i: usize = 0;
                assert(kv.subrange(0, 0) =~= Seq::<Seq<char>>::empty());
                assert(go_views(tools@) =~= Seq::empty());
                while i < keys.len()
                    invariant
                        i <= keys@.len(),
                        kv == Seq::new(keys@.len(), |k: int| keys@[k]@),
                        go_views(tools@) == go_map_of(t@, kv.subrange(0, i as int)),
                    decreases keys.len() - i,
                {
                    assert(kv.subrange(0, i + 1).drop_last() =~= kv.subrange(0, i as int));
                    let ghost before = go_views(tools@);
                    match crate::config_value::table_get(t, keys[i].as_str()) {
                        None => {},
                        Some(v) => {
                            let x = if v.is_table() {
                                UpConfigGoInstall::from_settings_in(keys[i].as_str(), v)
                            } else if v.as_str_forced().is_some() {
                                UpConfigGoInstall::from_settings(keys[i].as_str(), Some(v), None, None, None, None, None)
                            } else {
                                UpConfigGoInstall::from_settings(keys[i].as_str(), None, None, None, None, None, None)
                            };
                            tools.push(x);
                            assert(go_views(tools@) =~= before.push(x@));
                        },
                    }
                    i = i + 1;
                }
                assert(kv.subrange(0, i as int) =~= kv);
                UpConfigGoInstalls { tools }
            },
            _ => {
                assert(go_views(tools@) =~= Seq::empty());
                UpConfigGoInstalls { tools }
            },
        }
    }
}


/// The label of a path removed below the tools' directory, from its
/// components there (at least two): `path@version` when the last one is a
/// version (it starts with `v`), else `path (all versions)`, where `path`
/// joins the other components with `/`.
pub open spec fn go_removed_label(rest: Seq<Seq<char>>) -> Option<Seq<char>> {
    if rest.len() < 2 {
        None
    } else if rest.last().len() > 0 && rest.last()[0] == 'v' {
        Some(join(rest.drop_last(), seq!['/']) + "@"@ + rest.last())
    } else {
        Some(join(rest, seq!['/']) + " (all versions)"@)
    }
}

/// The labels of the removed paths `ps` that lie below `bin`, in order.
pub open spec fn go_removed_labels(bin: Seq<char>, ps: Seq<Seq<char>>) -> Seq<Seq<char>>
    decreases ps.len(),
{
    if ps.len() == 0 {
        Seq::empty()
    } else {
        let rest = go_removed_labels(bin, ps.drop_last());
        match relative_parts_of(bin, ps.last()) {
            Some(parts) => match go_removed_label(parts) {
                Some(l) => rest.push(l),
                None => rest,
            },
            None => rest,
        }
    }
}

fn go_removed_label_exec(rest: &Vec<Vec<char>>) -> (r: Option<Vec<char>>)
    ensures
        match go_removed_label(views(rest@)) {
            Some(x) => r matches Some(y) && y@ == x,
            None => r is None,
        },
{
    if rest.len() < 2 {
        return None;
    }
    let n = rest.len();
    let last = &rest[n - 1];
    assert(views(rest@).last() == last@);
    if last.len() > 0 && last[0] == 'v' {
        let mut front: Vec<Vec<char>> = Vec::new();
        let mut i: usize = 0;
        while i < n - 1
            invariant
                n == rest@.len(),
                i <= n - 1,
                views(front@) == views(rest@).subrange(0, i as int),
            decreases n - 1 - i,
        {
            let ghost before = views(front@);
            let piece = slice(&rest[i], 0, rest[i].len());
            assert(rest@[i as int]@.subrange(0, rest@[i as int]@.len() as int) =~= rest@[i as int]@);
            assert(piece@ == views(rest@)[i as int]);
            front.push(piece);
            assert(views(front@) =~= before.push(piece@));
            assert(views(front@) =~= views(rest@).subrange(0, i + 1));
            i = i + 1;
        }
        assert(views(rest@).subrange(0, n - 1) =~= views(rest@).drop_last());
        let sep = vec!['/'];
        assert(sep@ =~= seq!['/']);
        let mut out = join_chars(&front, &sep);
        push_str(&mut out, "@");
        append(&mut out, last);
        Some(out)
    } else {
        let sep = vec!['/'];
        assert(sep@ =~= seq!['/']);
        let mut out = join_chars(rest, &sep);
        push_str(&mut out, " (all versions)");
        Some(out)
    }
}

/// How a tool was handled: `Unhandled` until it was.
pub open spec fn go_handling(c: GoInstallView) -> GoInstallHandled {
    match c.was_handled {
        Some(h) => h,
        None => GoInstallHandled::Unhandled,
    }
}

/// Whether a tool was installed or found installed.
pub open spec fn go_upped(c: GoInstallView) -> bool {
    c.was_handled == Some(GoInstallHandled::Handled) || c.was_handled == Some(GoInstallHandled::Noop)
}

/// How a handled tool is named in a summary: `path@version`, with `?`
/// for a version that is not known.
pub open spec fn go_label(c: GoInstallView) -> Seq<char> {
    c.path + "@"@ + match c.actual_version {
        Some(v) => v,
        None => "?"@,
    }
}

/// The labels of the tools among `cs` that were installed or found
/// installed, in order.
pub open spec fn go_labels(cs: Seq<GoInstallView>) -> Seq<Seq<char>>
    decreases cs.len(),
{
    if cs.len() == 0 {
        Seq::empty()
    } else if go_upped(cs.last()) {
        go_labels(cs.drop_last()).push(go_label(cs.last()))
    } else {
        go_labels(cs.drop_last())
    }
}

/// How many tools among `cs` were handled as `h`.
pub open spec fn go_count(cs: Seq<GoInstallView>, h: GoInstallHandled) -> nat
    decreases cs.len(),
{
    if cs.len() == 0 {
        0
    } else {
        go_count(cs.drop_last(), h) + if go_handling(cs.last()) == h {
            1nat
        } else {
            0nat
        }
    }
}

/// The heading of a tool's step.
pub open spec fn go_desc(c: GoInstallView) -> Seq<char> {
    if c.path.len() == 0 {
        "go install:"@
    } else if c.config_error is Some {
        c.path + ":"@
    } else {
        last_nonempty(split(c.path, '/')) + " ("@ + shown_version(c.version) + "):"@
    }
}

impl UpConfigGoInstall {
    /// How the tool was handled: `Unhandled` until it was.
    pub fn handling(&self) -> (r: GoInstallHandled)
        ensures
            r == go_handling(self@),
    {
        match self.was_handled {
            Some(h) => h,
            None => GoInstallHandled::Unhandled,
        }
    }

    /// Whether the tool was installed or found installed.
    pub fn was_upped(&self) -> (r: bool)
        ensures
            r == go_upped(self@),
    {
        match self.was_handled {
            Some(GoInstallHandled::Handled) | Some(GoInstallHandled::Noop) => true,
            _ => false,
        }
    }

    /// Whether exactly the version asked for is installed: when so
    /// configured, or when that version is a Go pseudo-version.
    pub fn exact(&self) -> (r: bool)
        ensures
            r == (self@.exact || (self@.version matches Some(v) && go_pseudo_version(v))),
    {
        if self.exact {
            return true;
        }
        match &self.version {
            Some(v) => is_go_pseudo_version(v.as_str()),
            None => false,
        }
    }

    /// The last non-empty `/`-separated part of the path.
    pub fn short_path(&self) -> (r: String)
        ensures
            r@ == last_nonempty(split(self.path@, '/')),
    {
        let parts = split_char(&to_chars(self.path.as_str()), '/');
        from_chars(last_nonempty_part(&parts).as_slice())
    }

    /// The heading of the tool's step: `name (version):`, with the last
    /// part of the path and `latest` for a version not given or empty.
    pub fn desc(&self) -> (r: String)
        ensures
            r@ == go_desc(self@),
    {
        if self.path.as_str().unicode_len() == 0 {
            return String::from_str("go install:");
        }
        let mut out = to_chars(self.path.as_str());
        if self.config_error.is_some() {
            push_str(&mut out, ":");
            return from_chars(out.as_slice());
        }
        let mut out = to_chars(self.short_path().as_str());
        push_str(&mut out, " (");
        match &self.version {
            Some(v) => if v.as_str().unicode_len() == 0 {
                push_str(&mut out, "latest");
            } else {
                append(&mut out, &to_chars(v.as_str()));
            },
            None => push_str(&mut out, "latest"),
        }
        push_str(&mut out, "):");
        from_chars(out.as_slice())
    }

    /// Records the outcome of installing `version`: on success, the
    /// version and whether it was installed (`Handled`) or already there
    /// (`Noop`). The version is recorded once only: recording a second
    /// one fails and leaves the tool as it was. A failure is handed back
    /// and leaves the tool as it was.
    pub fn handle_installed(&mut self, version: &str, installed: Result<bool, UpError>) -> (r: Result<bool, UpError>)
        requires
            old(self).actual_version is None ==> old(self).was_handled is None,
        ensures
            match installed {
                Ok(b) => if old(self).actual_version is Some {
                    &&& r matches Err(UpError::Exec(m)) && m@ == "failed to set actual version"@
                    &&& final(self)@ == old(self)@
                } else {
                    &&& r == installed
                    &&& final(self)@ == (GoInstallView {
                        actual_version: Some(version@),
                        was_handled: Some(
                            if b {
                                GoInstallHandled::Handled
                            } else {
                                GoInstallHandled::Noop
                            },
                        ),
                        ..old(self)@
                    })
                },
                Err(_) => r == installed && final(self)@ == old(self)@,
            },
    {
        match installed {
            Ok(b) => {
                if self.actual_version.is_some() {
                    return Err(UpError::Exec(String::from_str("failed to set actual version")));
                }
                self.actual_version = Some(from_chars(to_chars(version).as_slice()));
                self.was_handled = Some(
                    if b {
                        GoInstallHandled::Handled
                    } else {
                        GoInstallHandled::Noop
                    },
                );
                Ok(b)
            },
            Err(e) => Err(e),
        }
    }

    fn summary_label(&self) -> (r: String)
        ensures
            r@ == go_label(self@),
    {
        let mut out = to_chars(self.path.as_str());
        out.push('@');
        match &self.actual_version {
            Some(v) => append(&mut out, &to_chars(v.as_str())),
            None => push_str(&mut out, "?"),
        }
        proof {
            reveal_strlit("@");
        }
        from_chars(out.as_slice())
    }
}

/// Writing a tool as `path@version` and reading it back gives the cleaned
/// path and the version, when neither holds `@`, the path cleans without
/// error, and the version holds no refused character.
pub proof fn law_go_install_round_trip(path: Seq<char>, version: Seq<char>)
    requires
        !path.contains('@'),
        !version.contains('@'),
        clean_go_path(path) is Ok,
        forall|i: int| 0 <= i < version.len() ==> !bad_version_char(#[trigger] version[i]),
    ensures
        go_install_parts(path + seq!['@'] + version) == Ok::<_, Seq<char>>(
            (clean_go_path(path)->Ok_0, Some(version)),
        ),
        go_install_parts(path) == Ok::<_, Seq<char>>((clean_go_path(path)->Ok_0, None::<Seq<char>>)),
{
    crate::text::lemma_split_pair(path, '@', version);
    crate::text::lemma_split_single(path, '@');
}

/// The tools listed in a summary are those counted as installed or
/// already there, and there are none exactly when no tool was.
pub proof fn lemma_go_labels_counted(cs: Seq<GoInstallView>)
    ensures
        go_labels(cs).len() == go_count(cs, GoInstallHandled::Handled) + go_count(cs, GoInstallHandled::Noop),
        (go_labels(cs).len() == 0) <==> !(exists|k: int| 0 <= k < cs.len() && go_upped(#[trigger] cs[k])),
    decreases cs.len(),
{
    if cs.len() > 0 {
        let init = cs.drop_last();
        lemma_go_labels_counted(init);
        if exists|k: int| 0 <= k < init.len() && go_upped(#[trigger] init[k]) {
            let k = choose|k: int| 0 <= k < init.len() && go_upped(#[trigger] init[k]);
            assert(cs[k] == init[k]);
        }
        if exists|k: int| 0 <= k < cs.len() && go_upped(#[trigger] cs[k]) {
            let k = choose|k: int| 0 <= k < cs.len() && go_upped(#[trigger] cs[k]);
            if k < cs.len() - 1 {
                assert(init[k] == cs[k]);
            }
        }
        if go_upped(cs.last()) {
            assert(go_upped(cs[cs.len() - 1]));
        }
    }
}

/// The summary of a step says `nothing done` exactly when no tool was
/// installed or found installed.
pub proof fn law_go_summary_nothing_done(cs: Seq<GoInstallView>)
    ensures
        (install_summary(go_labels(cs), go_count(cs, GoInstallHandled::Handled), go_count(cs, GoInstallHandled::Noop))
            == "nothing done"@) <==> !(exists|k: int| 0 <= k < cs.len() && go_upped(#[trigger] cs[k])),
{
    lemma_go_labels_counted(cs);
    crate::summary::law_summary_nothing_done(
        go_labels(cs),
        go_count(cs, GoInstallHandled::Handled),
        go_count(cs, GoInstallHandled::Noop),
    );
}

/// Whether a piece holds neither `/` nor whitespace.
pub open spec fn plain_piece(x: Seq<char>) -> bool {
    forall|k: int| 0 <= k < x.len() ==> x[k] != '/' && !is_whitespace(#[trigger] x[k])
}

/// Whether no two `/` follow each other in `q`.
pub open spec fn no_double_slash(q: Seq<char>) -> bool {
    forall|i: int| 0 <= i < q.len() - 1 ==> !(#[trigger] q[i] == '/' && q[i + 1] == '/')
}

proof fn lemma_split_pieces_plain(s: Seq<char>, i: int, cur: Seq<char>)
    requires
        0 <= i <= s.len(),
        plain_piece(cur),
        forall|k: int| i <= k < s.len() ==> !is_whitespace(#[trigger] s[k]),
    ensures
        forall|j: int| 0 <= j < split_from(s, '/', i, cur).len() ==> plain_piece(
            #[trigger] split_from(s, '/', i, cur)[j],
        ),
    decreases s.len() - i,
{
    if i >= s.len() {
        assert(split_from(s, '/', i, cur) == seq![cur]);
        assert forall|j: int| 0 <= j < seq![cur].len() implies plain_piece(#[trigger] seq![cur][j]) by {
            assert(seq![cur][j] == cur);
        }
    } else if s[i] == '/' {
        lemma_split_pieces_plain(s, i + 1, Seq::empty());
        let rest = split_from(s, '/', i + 1, Seq::empty());
        assert(split_from(s, '/', i, cur) == seq![cur] + rest);
        assert forall|j: int| 0 <= j < (seq![cur] + rest).len() implies plain_piece(
            #[trigger] (seq![cur] + rest)[j],
        ) by {
            if j > 0 {
                assert((seq![cur] + rest)[j] == rest[j - 1]);
            }
        }
    } else {
        let next = cur.push(s[i]);
        assert(plain_piece(next)) by {
            assert forall|k: int| 0 <= k < next.len() implies next[k] != '/' && !is_whitespace(
                #[trigger] next[k],
            ) by {
                if k < cur.len() {
                    assert(next[k] == cur[k]);
                }
            }
        }
        lemma_split_pieces_plain(s, i + 1, next);
        assert(split_from(s, '/', i, cur) == split_from(s, '/', i + 1, next));
    }
}

proof fn lemma_non_empty_pieces(v: Seq<Seq<char>>)
    requires
        forall|j: int| 0 <= j < v.len() ==> plain_piece(#[trigger] v[j]),
    ensures
        forall|j: int| 0 <= j < non_empty(v).len() ==> plain_piece(#[trigger] non_empty(v)[j])
            && non_empty(v)[j].len() > 0,
    decreases v.len(),
{
    if v.len() > 0 {
        lemma_non_empty_pieces(v.drop_last());
        let n = non_empty(v.drop_last());
        if v.last().len() > 0 {
            assert forall|j: int| 0 <= j < n.push(v.last()).len() implies plain_piece(
                #[trigger] n.push(v.last())[j],
            ) && n.push(v.last())[j].len() > 0 by {
                if j < n.len() {
                    assert(n.push(v.last())[j] == n[j]);
                }
            }
        }
    }
}

proof fn lemma_non_empty_keeps(v: Seq<Seq<char>>)
    requires
        forall|j: int| 0 <= j < v.len() ==> (#[trigger] v[j]).len() > 0,
    ensures
        non_empty(v) == v,
    decreases v.len(),
{
    if v.len() > 0 {
        lemma_non_empty_keeps(v.drop_last());
        assert(v.drop_last().push(v.last()) =~= v);
    }
}

/// Joining plain, non-empty pieces with `/`: the text is not empty, has
/// no whitespace and no `//`, starts with the first piece's first
/// character and ends with the last piece's last, and splits back into
/// the pieces.
proof fn lemma_join_pieces(segs: Seq<Seq<char>>)
    requires
        segs.len() > 0,
        forall|j: int| 0 <= j < segs.len() ==> plain_piece(#[trigger] segs[j]) && segs[j].len() > 0,
    ensures
        ({
            let q = join(segs, seq!['/']);
            &&& q.len() > 0
            &&& q[0] == segs[0][0]
            &&& q.last() == segs.last().last()
            &&& forall|i: int| 0 <= i < q.len() ==> !is_whitespace(#[trigger] q[i])
            &&& no_double_slash(q)
            &&& split(q, '/') == segs
        }),
    decreases segs.len(),
{
    let q = join(segs, seq!['/']);
    if segs.len() == 1 {
        assert(plain_piece(segs[0]));
        assert(!segs[0].contains('/')) by {
            if segs[0].contains('/') {
                let k = choose|k: int| 0 <= k < segs[0].len() && segs[0][k] == '/';
                assert(segs[0][k] != '/');
            }
        }
        lemma_split_single(segs[0], '/');
        assert(seq![segs[0]] =~= segs);
    } else {
        let init = segs.drop_last();
        let last = segs.last();
        assert forall|j: int| 0 <= j < init.len() implies plain_piece(#[trigger] init[j]) && init[j].len() > 0 by {
            assert(init[j] == segs[j]);
        }
        lemma_join_pieces(init);
        let x = join(init, seq!['/']);
        assert(q == x + seq!['/'] + last);
        assert(plain_piece(segs[segs.len() - 1]));
        assert(!last.contains('/')) by {
            if last.contains('/') {
                let k = choose|k: int| 0 <= k < last.len() && last[k] == '/';
                assert(last[k] != '/');
            }
        }
        lemma_split_append(x, '/', last, 0, Seq::empty());
        assert(split(q, '/') == split(x, '/').push(last));
        assert(init.push(last) =~= segs);
        assert(q[0] == x[0]);
        assert(init[0] == segs[0]);
        assert forall|i: int| 0 <= i < q.len() implies !is_whitespace(#[trigger] q[i]) by {
            if i < x.len() {
                assert(q[i] == x[i]);
            } else if i > x.len() {
                assert(q[i] == last[i - x.len() - 1]);
            }
        }
        assert forall|i: int| 0 <= i < q.len() - 1 implies !(#[trigger] q[i] == '/' && q[i + 1] == '/') by {
            if i + 1 < x.len() {
                assert(q[i] == x[i] && q[i + 1] == x[i + 1]);
            } else if i + 1 == x.len() {
                assert(q[i] == x.last());
                assert(x.last() == init.last().last());
                assert(init.last() == segs[segs.len() - 2]);
                assert(plain_piece(segs[segs.len() - 2]));
            } else if i == x.len() {
                assert(q[i + 1] == last[0]);
            } else {
                assert(q[i] == last[i - x.len() - 1] && q[i + 1] == last[i - x.len()]);
            }
        }
    }
}

proof fn lemma_no_scheme_found(q: Seq<char>, i: int)
    requires
        0 <= i,
        no_double_slash(q),
    ensures
        find_from(q, seq![':', '/', '/'], i) is None,
    decreases q.len() + 1 - i,
{
    let p = seq![':', '/', '/'];
    if i + p.len() > q.len() {
    } else {
        if occurs_at(q, p, i) {
            assert(q.subrange(i, i + 3)[1] == q[i + 1]);
            assert(q.subrange(i, i + 3)[2] == q[i + 2]);
            assert(q[i + 1] == '/' && q[i + 2] == '/');
        }
        lemma_no_scheme_found(q, i + 1);
    }
}

/// A cleaned import path (of a path without whitespace) is clean: it is
/// not empty, neither starts nor ends with `/`, holds no `//`, and
/// cleaning it again gives it back unchanged.
pub proof fn law_cleaned_go_path_is_clean(path: Seq<char>)
    requires
        forall|i: int| 0 <= i < path.len() ==> !is_whitespace(#[trigger] path[i]),
        clean_go_path(path) is Ok,
    ensures
        ({
            let q = clean_go_path(path)->Ok_0;
            &&& q.len() > 0
            &&& q[0] != '/'
            &&& q.last() != '/'
            &&& no_double_slash(q)
            &&& clean_go_path(q) == Ok::<Seq<char>, Seq<char>>(q)
        }),
{
    let p = trim(path);
    let a = skip_ws(path, 0);
    crate::text::lemma_skip_ws_bounds(path, 0);
    crate::text::lemma_back_ws_bounds(path, a, path.len() as int);
    assert forall|k: int| 0 <= k < p.len() implies !is_whitespace(#[trigger] p[k]) by {
        assert(p[k] == path[a + k]);
    }
    let p2 = match find(p, seq![':', '/', '/']) {
        Some(idx) => p.subrange(idx + 3, p.len() as int),
        None => p,
    };
    match find(p, seq![':', '/', '/']) {
        Some(idx) => {
            crate::text::lemma_find_from_bounds(p, seq![':', '/', '/'], 0);
            assert forall|k: int| 0 <= k < p2.len() implies !is_whitespace(#[trigger] p2[k]) by {
                assert(p2[k] == p[idx + 3 + k]);
            }
        },
        None => {},
    }
    lemma_split_pieces_plain(p2, 0, Seq::empty());
    let segs = non_empty(split(p2, '/'));
    assert(segs == clean_go_path_segments(path));
    lemma_non_empty_pieces(split(p2, '/'));
    lemma_join_pieces(segs);
    let q = join(segs, seq!['/']);
    assert(clean_go_path(path) == Ok::<Seq<char>, Seq<char>>(q));
    assert(plain_piece(segs[0]));
    assert(plain_piece(segs[segs.len() - 1]));
    // Cleaning `q` again.
    assert(skip_ws(q, 0) == 0);
    assert(back_ws(q, 0, q.len() as int) == q.len());
    assert(trim(q) =~= q);
    lemma_no_scheme_found(q, 0);
    lemma_non_empty_keeps(segs);
    assert(clean_go_path_segments(q) == segs);
}

} // verus!
