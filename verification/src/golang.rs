//! The Go step: the version a `go.mod` file asks for.
use vstd::prelude::*;

use crate::asdf::{normalized_dirs, raw_dirs, raw_dirs_exec, sorted_set_of};
use crate::config_value::{
    deref_opt, error_views, int_text, optional_field_errors, ConfigError, ConfigErrorView, ConfigValue,
};
use crate::detect::strictly_sorted;
use crate::error::UpError;
use crate::order::string_seq;
use crate::text::{from_chars, has_prefix, lines, push_str, split_lines, to_chars, views};

verus! {

/// The version that the regex `(?m)^go (?<version>\d+\.\d+(?:\.\d+)?)$`
/// captures in a line of `go.mod`, if it matches.
pub uninterp spec fn go_directive_version(line: Seq<char>) -> Option<Seq<char>>;

/// `regex::Regex::captures` with the pattern of a `go` directive, and the
/// text of its `version` group (what the regex crate matches is named,
/// not spelled out). A match of a line without a newline is the whole
/// line, `go ` then the version.
#[verifier::external_body]
fn capture_go_version(line: &str) -> (r: Option<String>)
    ensures
        match go_directive_version(line@) {
            Some(v) => r matches Some(x) && x@ == v,
            None => r is None,
        },
        !line@.contains('\n') ==> (r matches Some(x) ==> line@ == "go "@ + x@),
{
    let re = regex::Regex::new(r"(?m)^go (?<version>\d+\.\d+(?:\.\d+)?)$").unwrap();
    match re.captures(line) {
        Some(c) => match c.name("version") {
            Some(m) => Some(m.as_str().to_string()),
            None => None,
        },
        None => None,
    }
}

/// The version that the first matching `go` directive among the lines
/// `ls` gives.
pub open spec fn first_go_version(ls: Seq<Seq<char>>) -> Option<Seq<char>>
    decreases ls.len(),
{
    if ls.len() == 0 {
        None
    } else if has_prefix(ls[0], "go "@) && go_directive_version(ls[0]) is Some {
        go_directive_version(ls[0])
    } else {
        first_go_version(ls.drop_first())
    }
}

/// Reads the version of Go that the contents of a `go.mod` file ask for:
/// that of its first line `go X.Y` or `go X.Y.Z`; an error naming the file
/// when there is none.
pub fn extract_version_from_gomod(contents: &str, version_file: &str) -> (r: Result<Option<String>, UpError>)
    ensures
        match first_go_version(lines(contents@)) {
            Some(v) => r matches Ok(Some(x)) && x@ == v,
            None => r matches Err(UpError::Exec(m)) && m@ == "no version found in version file ("@ + version_file@
                + ")"@,
        },
{
    let ls = split_lines(&to_chars(contents));
    let go = to_chars("go ");
    let mut i: usize = 0;
    assert(views(ls@).subrange(0, ls@.len() as int) =~= views(ls@));
    while i < ls.len()
        invariant
            i <= ls@.len(),
            views(ls@) == lines(contents@),
            go@ == "go "@,
            first_go_version(lines(contents@)) == first_go_version(views(ls@).subrange(i as int, ls@.len() as int)),
        decreases ls.len() - i,
    {
        let ghost rest = views(ls@).subrange(i as int, ls@.len() as int);
        assert(rest.drop_first() =~= views(ls@).subrange(i + 1, ls@.len() as int));
        assert(rest[0] == ls@[i as int]@);
        if crate::text::starts_with(&ls[i], &go) {
            let line = from_chars(ls[i].as_slice());
            match capture_go_version(line.as_str()) {
                Some(v) => {
                    return Ok(Some(v));
                },
                None => {},
            }
        }
        i = i + 1;
    }
    let mut m = to_chars("no version found in version file (");
    push_str(&mut m, version_file);
    push_str(&mut m, ")");
    Err(UpError::Exec(from_chars(m.as_slice())))
}

/// A Go step: the version asked for (or the file that gives it), whether
/// to upgrade, and the directories it is for (each normalized, once, in
/// increasing order).
#[derive(Debug, Clone)]
pub struct UpConfigGolang {
    pub version: Option<String>,
    pub version_file: Option<String>,
    pub upgrade: bool,
    pub dirs: Vec<String>,
}

/// The text of a string option.
pub open spec fn opt_str(o: Option<String>) -> Option<Seq<char>> {
    match o {
        Some(s) => Some(s@),
        None => None,
    }
}

/// The string under `key` of `v`, if it holds one.
pub open spec fn str_at(v: ConfigValue, key: Seq<char>) -> Option<Seq<char>> {
    match v.get_of(key) {
        Some(ConfigValue::Str(s)) => Some(s@),
        _ => None,
    }
}

/// Whether `key` of `v` holds a value of the wrong kind: not a boolean
/// when `want_bool`, else not a string.
pub open spec fn wrong_at(v: ConfigValue, key: Seq<char>, want_bool: bool) -> bool {
    v.get_of(key) is Some && (if want_bool {
        !(v.get_of(key)->0 is Bool)
    } else {
        !(v.get_of(key)->0 is Str)
    })
}

/// What a Go step's configuration gives: its version and version file,
/// and the errors reported at `base`. A string or an integer is the
/// version; otherwise `version` is read, and `version_file` only when
/// there is no version string; a value of the wrong type at either is
/// reported.
pub open spec fn golang_versions_of(cv: Option<ConfigValue>, base: Seq<char>) -> (
    Option<Seq<char>>,
    Option<Seq<char>>,
    Seq<ConfigErrorView>,
) {
    match cv {
        None => (None, None, Seq::empty()),
        Some(ConfigValue::Str(s)) => (Some(s@), None, Seq::empty()),
        Some(ConfigValue::Integer(n)) => (Some(int_text(n as int)), None, Seq::empty()),
        Some(v) => {
            let e1 = optional_field_errors(wrong_at(v, "version"@, false), base, "version"@);
            match str_at(v, "version"@) {
                Some(x) => (Some(x), None, e1),
                None => (
                    None,
                    str_at(v, "version_file"@),
                    e1 + optional_field_errors(wrong_at(v, "version_file"@, false), base, "version_file"@),
                ),
            }
        },
    }
}

/// Whether a Go step upgrades, and the error for an `upgrade` that is not
/// a boolean.
pub open spec fn golang_upgrade_of(cv: Option<ConfigValue>, base: Seq<char>) -> (bool, Seq<ConfigErrorView>) {
    match cv {
        None => (false, Seq::empty()),
        Some(ConfigValue::Str(_)) => (false, Seq::empty()),
        Some(ConfigValue::Integer(_)) => (false, Seq::empty()),
        Some(v) => (
            match v.get_of("upgrade"@) {
                Some(ConfigValue::Bool(b)) => b,
                _ => false,
            },
            optional_field_errors(wrong_at(v, "upgrade"@, true), base, "upgrade"@),
        ),
    }
}

/// The directories a Go step's configuration names under `dir`, before
/// they are normalized.
pub open spec fn golang_raw_dirs_of(cv: Option<ConfigValue>) -> Seq<Seq<char>> {
    match cv {
        None => Seq::empty(),
        Some(ConfigValue::Str(_)) => Seq::empty(),
        Some(ConfigValue::Integer(_)) => Seq::empty(),
        Some(v) => raw_dirs(v),
    }
}

impl UpConfigGolang {
    /// A Go step asking for any version (`*`).
    pub fn new_any_version() -> (r: UpConfigGolang)
        ensures
            opt_str(r.version) == Some("*"@),
            r.version_file is None,
            !r.upgrade,
            r.dirs@.len() == 0,
    {
        UpConfigGolang { version: Some(String::from_str("*")), version_file: None, upgrade: false, dirs: Vec::new() }
    }

    /// Reads a Go step's configuration (see `golang_versions_of`,
    /// `golang_upgrade_of` and `golang_raw_dirs_of`); errors are keyed
    /// below `error_key`.
    pub fn from_config_value(config_value: Option<&ConfigValue>, error_key: &str, errors: &mut Vec<ConfigError>) -> (r:
        UpConfigGolang)
        ensures
            ({
                let cv = deref_opt(config_value);
                let (version, version_file, ev) = golang_versions_of(cv, error_key@);
                let (upgrade, eu) = golang_upgrade_of(cv, error_key@);
                &&& opt_str(r.version) == version
                &&& opt_str(r.version_file) == version_file
                &&& r.upgrade == upgrade
                &&& strictly_sorted(string_seq(r.dirs@))
                &&& forall|y: Seq<char>| #[trigger] string_seq(r.dirs@).contains(y) <==> normalized_dirs(
                    golang_raw_dirs_of(cv),
                ).contains(y)
                &&& error_views(final(errors)@) == error_views(old(errors)@) + ev + eu
            }),
    {
        let ghost start = error_views(errors@);
        match config_value {
            None => {
                assert(error_views(errors@) =~= start + Seq::<ConfigErrorView>::empty() + Seq::<ConfigErrorView>::empty());
                let r = UpConfigGolang { version: None, version_file: None, upgrade: false, dirs: Vec::new() };
                assert(string_seq(r.dirs@) =~= Seq::<Seq<char>>::empty());
                assert(normalized_dirs(Seq::empty()) =~= Seq::<Seq<char>>::empty());
                r
            },
            Some(cv) => match cv {
                ConfigValue::Str(s) => {
                    assert(error_views(errors@) =~= start + Seq::<ConfigErrorView>::empty() + Seq::<ConfigErrorView>::empty());
                    let r = UpConfigGolang {
                        version: Some(from_chars(to_chars(s.as_str()).as_slice())),
                        version_file: None,
                        upgrade: false,
                        dirs: Vec::new(),
                    };
                    assert(string_seq(r.dirs@) =~= Seq::<Seq<char>>::empty());
                    assert(normalized_dirs(Seq::empty()) =~= Seq::<Seq<char>>::empty());
                    r
                },
                ConfigValue::Integer(_) => {
                    assert(error_views(errors@) =~= start + Seq::<ConfigErrorView>::empty() + Seq::<ConfigErrorView>::empty());
                    let r = UpConfigGolang { version: cv.as_str_forced(), version_file: None, upgrade: false, dirs: Vec::new() };
                    assert(string_seq(r.dirs@) =~= Seq::<Seq<char>>::empty());
                    assert(normalized_dirs(Seq::empty()) =~= Seq::<Seq<char>>::empty());
                    r
                },
                _ => {
                    let version = cv.get_as_str_or_none("version", error_key, errors);
                    let ghost e1 = error_views(errors@);
                    let version_file = match version {
                        Some(_) => None,
                        None => cv.get_as_str_or_none("version_file", error_key, errors),
                    };
                    let ghost e2 = error_views(errors@);
                    let raw = raw_dirs_exec(cv);
                    let upgrade = match cv.get_as_bool_or_none("upgrade", error_key, errors) {
                        Some(b) => b,
                        None => false,
                    };
                    proof {
                        let (v, f, ev) = golang_versions_of(deref_opt(config_value), error_key@);
                        let (u, eu) = golang_upgrade_of(deref_opt(config_value), error_key@);
                        if version is None {
                            assert(e2 =~= start + ev);
                        } else {
                            assert(e1 =~= start + ev);
                        }
                        assert(error_views(errors@) =~= start + ev + eu);
                    }
                    UpConfigGolang { version, version_file, upgrade, dirs: sorted_set_of(&raw, true) }
                },
            },
        }
    }
}

} // verus!
