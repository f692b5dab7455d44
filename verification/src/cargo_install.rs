//! Crates installed with `cargo install`: how a crate is named in the
//! configuration, and what the crates.io API answers.
use vstd::prelude::*;

use crate::config_value::{
    deref_opt, error_views, index_path, key_path, key_path_exec, lookup, sorted_keys, opt_bool_errors, opt_bool_of,
    read_bool_or_none, report, ConfigError, ConfigErrorKind, ConfigErrorView, ConfigValue, config_err, type_err, report_type, one_type,
};
use crate::error::UpError;
use crate::order::string_seq;
use crate::path::{relative_parts, relative_parts_of};
use crate::summary::{install_summary, install_summary_text, removal_report, removal_report_text};
use crate::text::{append, from_chars, join, join_chars, split, split_char, to_chars, views};

verus! {

/// Whether a crate was installed, already there, or not handled yet.
#[derive(Debug, Clone, Copy, PartialEq, Eq, Structural)]
pub enum CargoInstallHandled {
    Handled,
    Noop,
    Unhandled,
}

/// A crate name that cannot be installed.
#[derive(Debug, Clone, PartialEq, Eq)]
pub enum CargoInstallError {
    InvalidCrateName(String),
}

impl CargoInstallError {
    /// The error as it is displayed.
    pub fn display_string(&self) -> (r: String)
        ensures
            r@ == "invalid crate name: "@ + (match self {
                CargoInstallError::InvalidCrateName(m) => m@,
            }),
    {
        match self {
            CargoInstallError::InvalidCrateName(m) => {
                let mut out = to_chars("invalid crate name: ");
                append(&mut out, &to_chars(m.as_str()));
                from_chars(out.as_slice())
            },
        }
    }
}

/// `name` or `name@version`: the crate and its version, or an error when
/// there is more than one `@`.
pub open spec fn crate_spec_parts(input: Seq<char>) -> Option<(Seq<char>, Option<Seq<char>>)> {
    let parts = split(input, '@');
    if parts.len() > 2 {
        None
    } else {
        Some(
            (
                parts[0],
                if parts.len() == 2 {
                    Some(parts[1])
                } else {
                    None
                },
            ),
        )
    }
}

pub proof fn lemma_split_nonempty(s: Seq<char>, c: char)
    ensures
        split(s, c).len() >= 1,
{
    crate::text::lemma_split_from_len(s, c, 0, Seq::empty());
}

/// Splits `name@version` into the crate name and its version.
pub fn parse_cargo_crate_name(input: &str) -> (r: Result<(String, Option<String>), CargoInstallError>)
    ensures
        match crate_spec_parts(input@) {
            None => r matches Err(CargoInstallError::InvalidCrateName(m)) && m@
                == "multiple @ symbols found"@,
            Some((name, version)) => r matches Ok((n, v)) && n@ == name && (match v {
                Some(x) => version == Some(x@),
                None => version is None,
            }),
        },
{
    let parts = split_char(&to_chars(input), '@');
    proof {
        lemma_split_nonempty(input@, '@');
    }
    if parts.len() > 2 {
        return Err(CargoInstallError::InvalidCrateName(String::from_str("multiple @ symbols found")));
    }
    let name = from_chars(parts[0].as_slice());
    let version = if parts.len() == 2 {
        Some(from_chars(parts[1].as_slice()))
    } else {
        None
    };
    Ok((name, version))
}

/// One error reported by the crates.io API.
#[derive(Debug, Clone)]
pub struct CratesApiErrorItem {
    pub detail: String,
}

/// An error answer of the crates.io API.
#[derive(Debug, Clone)]
pub struct CratesApiError {
    pub errors: Vec<CratesApiErrorItem>,
}

impl CratesApiError {
    /// The details of the errors, joined with `, `.
    pub fn detail(&self) -> (r: String)
        ensures
            r@ == join(Seq::new(self.errors@.len(), |k: int| self.errors@[k].detail@), ", "@),
    {
        let mut ds: Vec<Vec<char>> = Vec::new();
        let mut i: usize = 0;
        while i < self.errors.len()
            invariant
                i <= self.errors@.len(),
                ds@.len() == i,
                forall|k: int| 0 <= k < i ==> #[trigger] ds@[k]@ == self.errors@[k].detail@,
            decreases self.errors.len() - i,
        {
            ds.push(to_chars(self.errors[i].detail.as_str()));
            i = i + 1;
        }
        assert(views(ds@) =~= Seq::new(self.errors@.len(), |k: int| self.errors@[k].detail@));
        from_chars(join_chars(&ds, &to_chars(", ")).as_slice())
    }
}

/// One published version of a crate.
#[derive(Debug, Clone)]
pub struct CratesApiVersion {
    pub num: String,
    pub yanked: bool,
}

/// The versions of a crate, as listed by the crates.io API.
#[derive(Debug, Clone)]
pub struct CratesApiVersions {
    pub versions: Vec<CratesApiVersion>,
}

/// The version numbers of the versions among `vs` that were not yanked.
pub open spec fn unyanked(vs: Seq<CratesApiVersion>) -> Seq<Seq<char>>
    decreases vs.len(),
{
    if vs.len() == 0 {
        Seq::empty()
    } else if vs.last().yanked {
        unyanked(vs.drop_last())
    } else {
        unyanked(vs.drop_last()).push(vs.last().num@)
    }
}

impl CratesApiVersions {
    /// The version numbers that were not yanked, in the order listed.
    pub fn versions(&self) -> (r: Vec<String>)
        ensures
            Seq::new(r@.len(), |k: int| r@[k]@) == unyanked(self.versions@),
    {
        let mut r: Vec<String> = Vec::new();
        let mut i: usize = 0;
        while i < self.versions.len()
            invariant
                i <= self.versions@.len(),
                Seq::new(r@.len(), |k: int| r@[k]@) == unyanked(
                    self.versions@.subrange(0, i as int),
                ),
            decreases self.versions.len() - i,
        {
            let ghost before = Seq::new(r@.len(), |k: int| r@[k]@);
            assert(self.versions@.subrange(0, i + 1).drop_last() =~= self.versions@.subrange(
                0,
                i as int,
            ));
            if !self.versions[i].yanked {
                r.push(self.versions[i].num.clone());
                assert(Seq::new(r@.len(), |k: int| r@[k]@) =~= before.push(
                    self.versions@[i as int].num@,
                ));
            }
            i = i + 1;
        }
        assert(self.versions@.subrange(0, i as int) =~= self.versions@);
        r
    }
}


/// One crate to install, as configured.
#[derive(Debug, Clone)]
pub struct UpConfigCargoInstall {
    /// The name of the crate.
    pub crate_name: String,
    /// The version asked for, if any.
    pub version: Option<String>,
    /// Whether exactly that version is installed, without looking up the
    /// available versions.
    pub exact: bool,
    /// Whether the latest matching version is always installed.
    pub upgrade: bool,
    /// Whether pre-release versions may be installed.
    pub prerelease: bool,
    /// Whether versions with build details may be installed.
    pub build: bool,
    /// The URL of the crates API to use instead of crates.io.
    pub api_url: Option<String>,
    /// Why the configuration could not be read, if it could not.
    pub config_error: Option<String>,
    /// The version that was installed or found installed, once handled.
    pub actual_version: Option<String>,
    /// How the crate was handled, once it was.
    pub was_handled: Option<CargoInstallHandled>,
}

pub struct CargoInstallView {
    pub crate_name: Seq<char>,
    pub version: Option<Seq<char>>,
    pub exact: bool,
    pub upgrade: bool,
    pub prerelease: bool,
    pub build: bool,
    pub api_url: Option<Seq<char>>,
    pub config_error: Option<Seq<char>>,
    pub actual_version: Option<Seq<char>>,
    pub was_handled: Option<CargoInstallHandled>,
}

pub open spec fn opt_seq(o: Option<String>) -> Option<Seq<char>> {
    match o {
        Some(s) => Some(s@),
        None => None,
    }
}

impl View for UpConfigCargoInstall {
    type V = CargoInstallView;

    open spec fn view(&self) -> CargoInstallView {
        CargoInstallView {
            crate_name: self.crate_name@,
            version: opt_seq(self.version),
            exact: self.exact,
            upgrade: self.upgrade,
            prerelease: self.prerelease,
            build: self.build,
            api_url: opt_seq(self.api_url),
            config_error: opt_seq(self.config_error),
            actual_version: opt_seq(self.actual_version),
            was_handled: self.was_handled,
        }
    }
}

/// A crate that could not be read, and why.
pub open spec fn cargo_failed(name: Seq<char>, err: Seq<char>) -> CargoInstallView {
    CargoInstallView {
        crate_name: name,
        version: None,
        exact: false,
        upgrade: false,
        prerelease: false,
        build: false,
        api_url: None,
        config_error: Some(err),
        actual_version: None,
        was_handled: None,
    }
}

/// A crate with a name and a version, and nothing else set.
pub open spec fn cargo_named(name: Seq<char>, version: Option<Seq<char>>, exact: bool) -> CargoInstallView {
    CargoInstallView {
        crate_name: name,
        version,
        exact,
        upgrade: false,
        prerelease: false,
        build: false,
        api_url: None,
        config_error: None,
        actual_version: None,
        was_handled: None,
    }
}

pub open spec fn err_at(key: Seq<char>, kind: ConfigErrorKind) -> ConfigErrorView {
    config_err(key, kind)
}

/// What the settings of a crate give: its name as written (`name@version`
/// allowed), and the values under `exact`, `version`, `upgrade`,
/// `prerelease` and `build`.
pub open spec fn cargo_settings_of(
    text: Seq<char>,
    exact_v: Option<ConfigValue>,
    version_v: Option<ConfigValue>,
    upgrade_v: Option<ConfigValue>,
    prerelease_v: Option<ConfigValue>,
    build_v: Option<ConfigValue>,
    base: Seq<char>,
) -> (CargoInstallView, Seq<ConfigErrorView>) {
    match crate_spec_parts(text) {
        None => (
            cargo_failed(text, "invalid crate name: multiple @ symbols found"@),
            seq![err_at(key_path(base, "crate"@), ConfigErrorKind::ParsingError)],
        ),
        Some((name, pinned)) => {
            let (exact, e1) = match exact_v {
                Some(x) => match x.bool_forced_of() {
                    Some(b) => (b, Seq::<ConfigErrorView>::empty()),
                    None => (
                        pinned is Some,
                        seq![type_err(key_path(base, "exact"@), seq!["bool"@])],
                    ),
                },
                None => (pinned is Some, Seq::<ConfigErrorView>::empty()),
            };
            let field = match version_v {
                Some(x) => x.str_forced_of(),
                None => None,
            };
            if field is Some && pinned is Some {
                (
                    cargo_failed(
                        name,
                        "version should not be specified in both crate and version fields"@,
                    ),
                    e1.push(err_at(key_path(base, "version"@), ConfigErrorKind::UnsupportedValueInContext)),
                )
            } else {
                (
                    CargoInstallView {
                        crate_name: name,
                        version: if field is Some {
                            field
                        } else {
                            pinned
                        },
                        exact,
                        upgrade: opt_bool_of(upgrade_v) == Some(true),
                        prerelease: opt_bool_of(prerelease_v) == Some(true),
                        build: opt_bool_of(build_v) == Some(true),
                        api_url: None,
                        config_error: None,
                        actual_version: None,
                        was_handled: None,
                    },
                    e1 + opt_bool_errors(upgrade_v, base, "upgrade"@) + opt_bool_errors(
                        prerelease_v,
                        base,
                        "prerelease"@,
                    ) + opt_bool_errors(build_v, base, "build"@),
                )
            }
        },
    }
}

/// A crate given under `crate` in the table `src`, whose other keys hold
/// its settings.
pub open spec fn cargo_crate_key_of(c: ConfigValue, src: ConfigValue, base: Seq<char>) -> (
    CargoInstallView,
    Seq<ConfigErrorView>,
) {
    match c.str_forced_of() {
        None => (
            cargo_failed(Seq::empty(), "crate_name must be a string"@),
            seq![type_err(key_path(base, "crate"@), seq!["string"@])],
        ),
        Some(t) => cargo_settings_of(
            t,
            src.get_of("exact"@),
            src.get_of("version"@),
            src.get_of("upgrade"@),
            src.get_of("prerelease"@),
            src.get_of("build"@),
            base,
        ),
    }
}

/// The outcome for a table that does not say which crate it is about.
pub open spec fn cargo_not_one(base: Seq<char>) -> (CargoInstallView, Seq<ConfigErrorView>) {
    (
        cargo_failed(Seq::empty(), "crate is required"@),
        seq![err_at(base, ConfigErrorKind::NotExactlyOneKeyInTable)],
    )
}

/// What a table configuring one crate gives. The crate is under `crate`;
/// otherwise the table has a single key, the crate's name, whose value is
/// its version, a table of its settings, or nothing. A table of settings
/// is read with the name put under `crate_name` (so that, without a
/// `crate` key of its own, only an empty table is read, as a crate named
/// `crate_name` whose version is the name).
pub open spec fn cargo_table_of(cv: ConfigValue, base: Seq<char>) -> (CargoInstallView, Seq<ConfigErrorView>) {
    match cv.get_of("crate"@) {
        Some(c) => cargo_crate_key_of(c, cv, base),
        None => match cv {
            ConfigValue::Table(entries) => if entries@.len() == 1 {
                let key = entries@[0].0@;
                let value = entries@[0].1;
                match value.str_forced_of() {
                    Some(version) => (cargo_named(key, Some(version), false), Seq::empty()),
                    None => match value {
                        ConfigValue::Table(inner) => match value.get_of("crate"@) {
                            Some(c) => cargo_crate_key_of(c, value, base),
                            None => if (if lookup(inner@, "crate_name"@) is Some {
                                inner@.len() == 1
                            } else {
                                inner@.len() == 0
                            }) {
                                (cargo_named("crate_name"@, Some(key), false), Seq::empty())
                            } else {
                                cargo_not_one(base)
                            },
                        },
                        ConfigValue::Null => cargo_settings_of(key, None, None, None, None, None, base),
                        _ => cargo_not_one(base),
                    },
                }
            } else {
                cargo_not_one(base)
            },
            _ => cargo_not_one(base),
        },
    }
}

/// What the configuration of one crate gives: nothing, a table (see
/// `cargo_table_of`), or `name[@version]` (a version given there is
/// exact).
pub open spec fn cargo_install_of(cv: Option<ConfigValue>, base: Seq<char>) -> (
    CargoInstallView,
    Seq<ConfigErrorView>,
) {
    match cv {
        None => (cargo_failed(Seq::empty(), "no configuration provided"@), Seq::empty()),
        Some(ConfigValue::Table(t)) => cargo_table_of(ConfigValue::Table(t), base),
        Some(v) => match v.str_forced_of() {
            Some(text) => match crate_spec_parts(text) {
                None => (
                    cargo_failed(text, "invalid crate name: multiple @ symbols found"@),
                    seq![err_at(base, ConfigErrorKind::ParsingError)],
                ),
                Some((name, version)) => (cargo_named(name, version, version is Some), Seq::empty()),
            },
            None => (cargo_failed(Seq::empty(), "no crate provided"@), Seq::empty()),
        },
    }
}

fn failed(name: String, err: &str) -> (r: UpConfigCargoInstall)
    ensures
        r@ == cargo_failed(name@, err@),
{
    UpConfigCargoInstall {
        crate_name: name,
        version: None,
        exact: false,
        upgrade: false,
        prerelease: false,
        build: false,
        api_url: None,
        config_error: Some(String::from_str(err)),
        actual_version: None,
        was_handled: None,
    }
}

fn str_of_chars(v: &Vec<char>) -> (r: String)
    ensures
        r@ == v@,
{
    from_chars(v.as_slice())
}

impl UpConfigCargoInstall {
    fn from_settings(
        text: &str,
        exact_v: Option<&ConfigValue>,
        version_v: Option<&ConfigValue>,
        upgrade_v: Option<&ConfigValue>,
        prerelease_v: Option<&ConfigValue>,
        build_v: Option<&ConfigValue>,
        error_key: &str,
        errors: &mut Vec<ConfigError>,
    ) -> (r: UpConfigCargoInstall)
        ensures
            ({
                let (c, es) = cargo_settings_of(
                    text@,
                    deref_opt(exact_v),
                    deref_opt(version_v),
                    deref_opt(upgrade_v),
                    deref_opt(prerelease_v),
                    deref_opt(build_v),
                    error_key@,
                );
                &&& r@ == c
                &&& error_views(final(errors)@) == error_views(old(errors)@) + es
            }),
    {
        let ghost start = error_views(errors@);
        let (name, pinned) = match parse_cargo_crate_name(text) {
            Ok(p) => p,
            Err(_) => {
                report(errors, key_path_exec(error_key, "crate"), ConfigErrorKind::ParsingError);
                return failed(str_of_chars(&to_chars(text)), "invalid crate name: multiple @ symbols found");
            },
        };
        let exact = match exact_v {
            Some(x) => match x.as_bool_forced() {
                Some(b) => b,
                None => {
                    report_type(errors, key_path_exec(error_key, "exact"), one_type("bool"));
                    pinned.is_some()
                },
            },
            None => pinned.is_some(),
        };
        let ghost e1 = error_views(errors@);
        let field = match version_v {
            Some(x) => x.as_str_forced(),
            None => None,
        };
        if field.is_some() && pinned.is_some() {
            report(
                errors,
                key_path_exec(error_key, "version"),
                ConfigErrorKind::UnsupportedValueInContext,
            );
            return failed(name, "version should not be specified in both crate and version fields");
        }
        let version = if field.is_some() {
            field
        } else {
            pinned
        };
        let upgrade = read_bool_or_none(upgrade_v, error_key, "upgrade", errors);
        let prerelease = read_bool_or_none(prerelease_v, error_key, "prerelease", errors);
        let build = read_bool_or_none(build_v, error_key, "build", errors);
        let r = UpConfigCargoInstall {
            crate_name: name,
            version,
            exact,
            upgrade: upgrade == Some(true),
            prerelease: prerelease == Some(true),
            build: build == Some(true),
            api_url: None,
            config_error: None,
            actual_version: None,
            was_handled: None,
        };
        proof {
            let es = cargo_settings_of(
                text@,
                deref_opt(exact_v),
                deref_opt(version_v),
                deref_opt(upgrade_v),
                deref_opt(prerelease_v),
                deref_opt(build_v),
                error_key@,
            ).1;
            assert(error_views(errors@) =~= start + es);
        }
        r
    }

    fn from_crate_key(c: &ConfigValue, src: &ConfigValue, error_key: &str, errors: &mut Vec<ConfigError>) -> (r: UpConfigCargoInstall)
        ensures
            ({
                let (x, es) = cargo_crate_key_of(*c, *src, error_key@);
                &&& r@ == x
                &&& error_views(final(errors)@) == error_views(old(errors)@) + es
            }),
    {
        match c.as_str_forced() {
            None => {
                report_type(errors, key_path_exec(error_key, "crate"), one_type("string"));
                failed(String::new(), "crate_name must be a string")
            },
            Some(t) => UpConfigCargoInstall::from_settings(
                t.as_str(),
                src.get("exact"),
                src.get("version"),
                src.get("upgrade"),
                src.get("prerelease"),
                src.get("build"),
                error_key,
                errors,
            ),
        }
    }

    fn not_one(error_key: &str, errors: &mut Vec<ConfigError>) -> (r: UpConfigCargoInstall)
        ensures
            r@ == cargo_not_one(error_key@).0,
            error_views(final(errors)@) == error_views(old(errors)@) + cargo_not_one(error_key@).1,
    {
        report(errors, str_of_chars(&to_chars(error_key)), ConfigErrorKind::NotExactlyOneKeyInTable);
        failed(String::new(), "crate is required")
    }

    /// Reads a table that configures one crate (see `cargo_table_of`).
    pub fn from_table(cv: &ConfigValue, error_key: &str, errors: &mut Vec<ConfigError>) -> (r: UpConfigCargoInstall)
        requires
            *cv is Table,
        ensures
            ({
                let (x, es) = cargo_table_of(*cv, error_key@);
                &&& r@ == x
                &&& error_views(final(errors)@) == error_views(old(errors)@) + es
            }),
    {
        match cv.get("crate") {
            Some(c) => UpConfigCargoInstall::from_crate_key(c, cv, error_key, errors),
            None => {
                let entries = match cv.as_table() {
                    Some(t) => t,
                    None => {
                        return UpConfigCargoInstall::not_one(error_key, errors);
                    },
                };
                if entries.len() != 1 {
                    return UpConfigCargoInstall::not_one(error_key, errors);
                }
                let key = &entries[0].0;
                let value = &entries[0].1;
                match value.as_str_forced() {
                    Some(version) => {
                        assert(error_views(errors@) =~= error_views(errors@) + Seq::empty());
                        UpConfigCargoInstall {
                            crate_name: crate::text::copy_string(key),
                            version: Some(version),
                            exact: false,
                            upgrade: false,
                            prerelease: false,
                            build: false,
                            api_url: None,
                            config_error: None,
                            actual_version: None,
                            was_handled: None,
                        }
                    },
                    None => match value {
                        ConfigValue::Table(inner) => match value.get("crate") {
                            Some(c) => UpConfigCargoInstall::from_crate_key(c, value, error_key, errors),
                            None => {
                                let has_name = crate::config_value::table_get(inner, "crate_name").is_some();
                                let single = if has_name {
                                    inner.len() == 1
                                } else {
                                    inner.len() == 0
                                };
                                if single {
                                    assert(error_views(errors@) =~= error_views(errors@) + Seq::empty());
                                    UpConfigCargoInstall {
                                        crate_name: String::from_str("crate_name"),
                                        version: Some(crate::text::copy_string(key)),
                                        exact: false,
                                        upgrade: false,
                                        prerelease: false,
                                        build: false,
                                        api_url: None,
                                        config_error: None,
                                        actual_version: None,
                                        was_handled: None,
                                    }
                                } else {
                                    UpConfigCargoInstall::not_one(error_key, errors)
                                }
                            },
                        },
                        ConfigValue::Null => UpConfigCargoInstall::from_settings(
                            key.as_str(),
                            None,
                            None,
                            None,
                            None,
                            None,
                            error_key,
                            errors,
                        ),
                        _ => UpConfigCargoInstall::not_one(error_key, errors),
                    },
                }
            },
        }
    }

    /// Reads the configuration of one crate (see `cargo_install_of`).
    pub fn from_config_value(
        config_value: Option<&ConfigValue>,
        error_key: &str,
        errors: &mut Vec<ConfigError>,
    ) -> (r: UpConfigCargoInstall)
        ensures
            ({
                let (x, es) = cargo_install_of(deref_opt(config_value), error_key@);
                &&& r@ == x
                &&& error_views(final(errors)@) == error_views(old(errors)@) + es
            }),
    {
        let cv = match config_value {
            Some(cv) => cv,
            None => {
                assert(error_views(errors@) =~= error_views(errors@) + Seq::empty());
                return failed(String::new(), "no configuration provided");
            },
        };
        if cv.is_table() {
            return UpConfigCargoInstall::from_table(cv, error_key, errors);
        }
        match cv.as_str_forced() {
            Some(text) => match parse_cargo_crate_name(text.as_str()) {
                Ok((name, version)) => {
                    assert(error_views(errors@) =~= error_views(errors@) + Seq::empty());
                    let exact = version.is_some();
                    UpConfigCargoInstall {
                        crate_name: name,
                        version,
                        exact,
                        upgrade: false,
                        prerelease: false,
                        build: false,
                        api_url: None,
                        config_error: None,
                        actual_version: None,
                        was_handled: None,
                    }
                },
                Err(_) => {
                    report(errors, str_of_chars(&to_chars(error_key)), ConfigErrorKind::ParsingError);
                    failed(text, "invalid crate name: multiple @ symbols found")
                },
            },
            None => {
                assert(error_views(errors@) =~= error_views(errors@) + Seq::empty());
                failed(String::new(), "no crate provided")
            },
        }
    }
}


/// The crates to install with `cargo install`.
#[derive(Debug, Clone)]
pub struct UpConfigCargoInstalls {
    pub crates: Vec<UpConfigCargoInstall>,
}

pub open spec fn cargo_views(v: Seq<UpConfigCargoInstall>) -> Seq<CargoInstallView> {
    Seq::new(v.len(), |k: int| v[k]@)
}

/// `base.name`, as the key of a crate given by name in a table.
pub open spec fn dotted(base: Seq<char>, name: Seq<char>) -> Seq<char> {
    base + "."@ + name
}

/// A crate given as `name: settings` in a table of crates: the settings
/// are a table, a version, or nothing.
pub open spec fn cargo_map_entry_of(name: Seq<char>, value: ConfigValue, base: Seq<char>) -> (
    CargoInstallView,
    Seq<ConfigErrorView>,
) {
    match value {
        ConfigValue::Table(_) => cargo_settings_of(
            name,
            value.get_of("exact"@),
            value.get_of("version"@),
            value.get_of("upgrade"@),
            value.get_of("prerelease"@),
            value.get_of("build"@),
            base,
        ),
        _ => if value.str_forced_of() is Some {
            cargo_settings_of(name, None, Some(value), None, None, None, base)
        } else {
            cargo_settings_of(name, None, None, None, None, None, base)
        },
    }
}

/// The crates of a table of crates, taken by name in the order `keys`.
pub open spec fn cargo_map_of(entries: Seq<(String, ConfigValue)>, keys: Seq<Seq<char>>, base: Seq<char>) -> (
    Seq<CargoInstallView>,
    Seq<ConfigErrorView>,
)
    decreases keys.len(),
{
    if keys.len() == 0 {
        (Seq::empty(), Seq::empty())
    } else {
        let (cs, es) = cargo_map_of(entries, keys.drop_last(), base);
        let k = keys.last();
        match lookup(entries, k) {
            None => (cs, es),
            Some(v) => {
                let (c, e) = cargo_map_entry_of(k, v, dotted(base, k));
                (cs.push(c), es + e)
            },
        }
    }
}

/// The crates of the entries `a` of a list, each keyed `base[index]`.
pub open spec fn cargo_list_of(a: Seq<ConfigValue>, base: Seq<char>) -> (Seq<CargoInstallView>, Seq<ConfigErrorView>)
    decreases a.len(),
{
    if a.len() == 0 {
        (Seq::empty(), Seq::empty())
    } else {
        let (cs, es) = cargo_list_of(a.drop_last(), base);
        let (c, e) = cargo_install_of(Some(a.last()), index_path(base, (a.len() - 1) as nat));
        (cs.push(c), es + e)
    }
}

/// The crates a configuration gives: one crate written as text, a list of
/// crates, one crate as a table with `crate`, or a table of crates by
/// name (taken in increasing order of name).
pub open spec fn cargo_installs_of(cv: Option<ConfigValue>, base: Seq<char>) -> (
    Seq<CargoInstallView>,
    Seq<ConfigErrorView>,
) {
    match cv {
        None => (Seq::empty(), Seq::empty()),
        Some(v) => if v.str_forced_of() is Some {
            let (c, e) = cargo_install_of(Some(v), base);
            (seq![c], e)
        } else {
            match v {
                ConfigValue::Array(a) => cargo_list_of(a@, base),
                ConfigValue::Table(t) => if v.get_of("crate"@) is Some {
                    let (c, e) = cargo_install_of(Some(v), base);
                    (seq![c], e)
                } else {
                    cargo_map_of(t@, sorted_keys(t@), base)
                },
                _ => (Seq::empty(), Seq::empty()),
            }
        },
    }
}

fn dotted_exec(base: &str, name: &str) -> (r: String)
    ensures
        r@ == dotted(base@, name@),
{
    let mut out = to_chars(base);
    crate::text::push_str(&mut out, ".");
    crate::text::push_str(&mut out, name);
    from_chars(out.as_slice())
}

impl UpConfigCargoInstall {
    fn from_map_entry(name: &str, value: &ConfigValue, error_key: &str, errors: &mut Vec<ConfigError>) -> (r: UpConfigCargoInstall)
        ensures
            ({
                let (x, es) = cargo_map_entry_of(name@, *value, error_key@);
                &&& r@ == x
                &&& error_views(final(errors)@) == error_views(old(errors)@) + es
            }),
    {
        if value.is_table() {
            UpConfigCargoInstall::from_settings(
                name,
                value.get("exact"),
                value.get("version"),
                value.get("upgrade"),
                value.get("prerelease"),
                value.get("build"),
                error_key,
                errors,
            )
        } else if value.as_str_forced().is_some() {
            UpConfigCargoInstall::from_settings(name, None, Some(value), None, None, None, error_key, errors)
        } else {
            UpConfigCargoInstall::from_settings(name, None, None, None, None, None, error_key, errors)
        }
    }
}

impl UpConfigCargoInstalls {
    /// What a cleanup of the crates' directory `bin_path` reports, given
    /// whether the whole directory went, how many paths were removed and
    /// which (see `removal_report`).
    pub fn cleanup_report(
        bin_path: &str,
        root_removed: bool,
        num_removed: usize,
        removed_paths: &Vec<String>,
    ) -> (r: Option<String>)
        ensures
            match removal_report(
                "removed all crates"@,
                "cargo-installed crate"@,
                root_removed,
                num_removed as nat,
                cargo_removed_labels(bin_path@, crate::order::string_seq(removed_paths@)),
            ) {
                Some(x) => r matches Some(y) && y@ == x,
                None => r is None,
            },
    {
        let mut labels: Vec<Vec<char>> = Vec::new();
        if !root_removed && num_removed > 0 {
            let ghost ps = crate::order::string_seq(removed_paths@);
            let mut i: usize = 0;
            assert(ps.subrange(0, 0) =~= Seq::<Seq<char>>::empty());
            assert(views(labels@) =~= Seq::<Seq<char>>::empty());
            while i < removed_paths.len()
                invariant
                    i <= removed_paths@.len(),
                    ps == crate::order::string_seq(removed_paths@),
                    views(labels@) == cargo_removed_labels(bin_path@, ps.subrange(0, i as int)),
                decreases removed_paths.len() - i,
            {
                let ghost pre = ps.subrange(0, i + 1);
                assert(pre.drop_last() =~= ps.subrange(0, i as int));
                assert(pre.last() == removed_paths@[i as int]@);
                let ghost before = views(labels@);
                match relative_parts(bin_path, removed_paths[i].as_str()) {
                    Some(parts) => {
                        if parts.len() == 1 {
                            let mut l = crate::text::slice(&parts[0], 0, parts[0].len());
                            assert(parts@[0]@.subrange(0, parts@[0]@.len() as int) =~= parts@[0]@);
                            assert(views(parts@)[0] == parts@[0]@);
                            crate::text::push_str(&mut l, " (all versions)");
                            labels.push(l);
                            assert(views(labels@) =~= before.push(views(parts@)[0] + " (all versions)"@));
                        } else if parts.len() == 2 {
                            let mut l = crate::text::slice(&parts[0], 0, parts[0].len());
                            assert(parts@[0]@.subrange(0, parts@[0]@.len() as int) =~= parts@[0]@);
                            assert(views(parts@)[0] == parts@[0]@);
                            assert(views(parts@)[1] == parts@[1]@);
                            crate::text::push_str(&mut l, "@");
                            crate::text::append(&mut l, &parts[1]);
                            labels.push(l);
                            assert(views(labels@) =~= before.push(views(parts@)[0] + "@"@ + views(parts@)[1]));
                        }
                    },
                    None => {},
                }
                i = i + 1;
            }
            assert(ps.subrange(0, i as int) =~= ps);
        }
        removal_report_text("removed all crates", "cargo-installed crate", root_removed, num_removed, &labels)
    }

    /// Whether any crate was installed or found installed.
    pub fn was_upped(&self) -> (r: bool)
        ensures
            r == exists|k: int| 0 <= k < self.crates@.len() && cargo_upped(#[trigger] self.crates@[k]@),
    {
        let mut i: usize = 0;
        while i < self.crates.len()
            invariant
                i <= self.crates@.len(),
                forall|k: int| 0 <= k < i ==> !cargo_upped(#[trigger] self.crates@[k]@),
            decreases self.crates.len() - i,
        {
            if self.crates[i].was_upped() {
                return true;
            }
            i = i + 1;
        }
        false
    }

    /// The summary of the step (see `install_summary`): the crates
    /// installed, those already there, and their labels.
    pub fn get_up_message(&self) -> (r: String)
        ensures
            ({
                let cs = cargo_views(self.crates@);
                r@ == install_summary(
                    cargo_labels(cs),
                    cargo_count(cs, CargoInstallHandled::Handled),
                    cargo_count(cs, CargoInstallHandled::Noop),
                )
            }),
    {
        let ghost cs = cargo_views(self.crates@);
        let mut labels: Vec<String> = Vec::new();
        let mut installed: usize = 0;
        let mut already: usize = 0;
        let mut i: usize = 0;
        assert(cs.subrange(0, 0) =~= Seq::<CargoInstallView>::empty());
        assert(string_seq(labels@) =~= Seq::<Seq<char>>::empty());
        while i < self.crates.len()
            invariant
                i <= self.crates@.len(),
                cs == cargo_views(self.crates@),
                string_seq(labels@) == cargo_labels(cs.subrange(0, i as int)),
                installed == cargo_count(cs.subrange(0, i as int), CargoInstallHandled::Handled),
                already == cargo_count(cs.subrange(0, i as int), CargoInstallHandled::Noop),
                installed + already <= i,
            decreases self.crates.len() - i,
        {
            let ghost pre = cs.subrange(0, i + 1);
            assert(pre.drop_last() =~= cs.subrange(0, i as int));
            assert(pre.last() == self.crates@[i as int]@);
            let ghost before = string_seq(labels@);
            match self.crates[i].handling() {
                CargoInstallHandled::Handled => {
                    installed = installed + 1;
                },
                CargoInstallHandled::Noop => {
                    already = already + 1;
                },
                CargoInstallHandled::Unhandled => {},
            }
            if self.crates[i].was_upped() {
                let label = self.crates[i].summary_label();
                labels.push(label);
                assert(string_seq(labels@) =~= before.push(cargo_label(pre.last())));
            }
            i = i + 1;
        }
        assert(cs.subrange(0, i as int) =~= cs);
        install_summary_text(&labels, installed, already)
    }

    /// Reads the crates to install (see `cargo_installs_of`).
    pub fn from_config_value(
        config_value: Option<&ConfigValue>,
        error_key: &str,
        errors: &mut Vec<ConfigError>,
    ) -> (r: UpConfigCargoInstalls)
        ensures
            ({
                let (cs, es) = cargo_installs_of(deref_opt(config_value), error_key@);
                &&& cargo_views(r.crates@) == cs
                &&& error_views(final(errors)@) == error_views(old(errors)@) + es
            }),
    {
        let ghost start = error_views(errors@);
        let mut crates: Vec<UpConfigCargoInstall> = Vec::new();
        let cv = match config_value {
            Some(cv) => cv,
            None => {
                assert(error_views(errors@) =~= start + Seq::empty());
                assert(cargo_views(crates@) =~= Seq::empty());
                return UpConfigCargoInstalls { crates };
            },
        };
        if cv.as_str_forced().is_some() {
            let c = UpConfigCargoInstall::from_config_value(Some(cv), error_key, errors);
            crates.push(c);
            assert(cargo_views(crates@) =~= seq![c@]);
            return UpConfigCargoInstalls { crates };
        }
        match cv {
            ConfigValue::Array(a) => {
                let mut i: usize = 0;
                assert(a@.subrange(0, 0) =~= Seq::<ConfigValue>::empty());
                assert(error_views(errors@) =~= start + Seq::empty());
                assert(cargo_views(crates@) =~= Seq::empty());
                while i < a.len()
                    invariant
                        i <= a@.len(),
                        cargo_views(crates@) == cargo_list_of(a@.subrange(0, i as int), error_key@).0,
                        error_views(errors@) == start + cargo_list_of(a@.subrange(0, i as int), error_key@).1,
                    decreases a.len() - i,
                {
                    assert(a@.subrange(0, i + 1).drop_last() =~= a@.subrange(0, i as int));
                    let ghost before = cargo_views(crates@);
                    let key = crate::config_value::index_path_exec(error_key, i);
                    let c = UpConfigCargoInstall::from_config_value(Some(&a[i]), key.as_str(), errors);
                    crates.push(c);
                    assert(cargo_views(crates@) =~= before.push(c@));
                    assert(error_views(errors@) =~= start + cargo_list_of(a@.subrange(0, i + 1), error_key@).1);
                    i = i + 1;
                }
                assert(a@.subrange(0, i as int) =~= a@);
                UpConfigCargoInstalls { crates }
            },
            ConfigValue::Table(t) => {
                if cv.get("crate").is_some() {
                    let c = UpConfigCargoInstall::from_config_value(Some(cv), error_key, errors);
                    crates.push(c);
                    assert(cargo_views(crates@) =~= seq![c@]);
                    return UpConfigCargoInstalls { crates };
                }
                let keys = crate::config_value::sorted_table_keys(t);
                let ghost kv = Seq::new(keys@.len(), |k: int| keys@[k]@);
                let mut i: usize = 0;
                assert(kv.subrange(0, 0) =~= Seq::<Seq<char>>::empty());
                assert(error_views(errors@) =~= start + Seq::empty());
                assert(cargo_views(crates@) =~= Seq::empty());
                while i < keys.len()
                    invariant
                        i <= keys@.len(),
                        kv == Seq::new(keys@.len(), |k: int| keys@[k]@),
                        cargo_views(crates@) == cargo_map_of(t@, kv.subrange(0, i as int), error_key@).0,
                        error_views(errors@) == start + cargo_map_of(t@, kv.subrange(0, i as int), error_key@).1,
                    decreases keys.len() - i,
                {
                    assert(kv.subrange(0, i + 1).drop_last() =~= kv.subrange(0, i as int));
                    let ghost before = cargo_views(crates@);
                    match crate::config_value::table_get(t, keys[i].as_str()) {
                        None => {},
                        Some(v) => {
                            let key = dotted_exec(error_key, keys[i].as_str());
                            let c = UpConfigCargoInstall::from_map_entry(keys[i].as_str(), v, key.as_str(), errors);
                            crates.push(c);
                            assert(cargo_views(crates@) =~= before.push(c@));
                            assert(error_views(errors@) =~= start + cargo_map_of(t@, kv.subrange(0, i + 1), error_key@).1);
                        },
                    }
                    i = i + 1;
                }
                assert(kv.subrange(0, i as int) =~= kv);
                UpConfigCargoInstalls { crates }
            },
            _ => {
                assert(error_views(errors@) =~= start + Seq::empty());
                assert(cargo_views(crates@) =~= Seq::empty());
                UpConfigCargoInstalls { crates }
            },
        }
    }
}


/// The label of a path removed below the crates' directory, from its
/// components there: a crate directory gives `name (all versions)`, a
/// version directory `name@version`; the directory itself, or a deeper
/// path, gives nothing.
pub open spec fn cargo_removed_label(rest: Seq<Seq<char>>) -> Option<Seq<char>> {
    if rest.len() == 1 {
        Some(rest[0] + " (all versions)"@)
    } else if rest.len() == 2 {
        Some(rest[0] + "@"@ + rest[1])
    } else {
        None
    }
}

/// The labels of the removed paths `ps` that lie below `bin`, in order.
pub open spec fn cargo_removed_labels(bin: Seq<char>, ps: Seq<Seq<char>>) -> Seq<Seq<char>>
    decreases ps.len(),
{
    if ps.len() == 0 {
        Seq::empty()
    } else {
        let rest = cargo_removed_labels(bin, ps.drop_last());
        match relative_parts_of(bin, ps.last()) {
            Some(parts) => match cargo_removed_label(parts) {
                Some(l) => rest.push(l),
                None => rest,
            },
            None => rest,
        }
    }
}

/// How a crate was handled: `Unhandled` until it was.
pub open spec fn cargo_handling(c: CargoInstallView) -> CargoInstallHandled {
    match c.was_handled {
        Some(h) => h,
        None => CargoInstallHandled::Unhandled,
    }
}

/// Whether a crate was installed or found installed.
pub open spec fn cargo_upped(c: CargoInstallView) -> bool {
    c.was_handled == Some(CargoInstallHandled::Handled) || c.was_handled == Some(
        CargoInstallHandled::Noop,
    )
}

/// How a handled crate is named in a summary: `name@version`, with `?`
/// for a version that is not known.
pub open spec fn cargo_label(c: CargoInstallView) -> Seq<char> {
    c.crate_name + "@"@ + match c.actual_version {
        Some(v) => v,
        None => "?"@,
    }
}

/// The labels of the crates among `cs` that were installed or found
/// installed, in order.
pub open spec fn cargo_labels(cs: Seq<CargoInstallView>) -> Seq<Seq<char>>
    decreases cs.len(),
{
    if cs.len() == 0 {
        Seq::empty()
    } else if cargo_upped(cs.last()) {
        cargo_labels(cs.drop_last()).push(cargo_label(cs.last()))
    } else {
        cargo_labels(cs.drop_last())
    }
}

/// How many crates among `cs` were handled as `h`.
pub open spec fn cargo_count(cs: Seq<CargoInstallView>, h: CargoInstallHandled) -> nat
    decreases cs.len(),
{
    if cs.len() == 0 {
        0
    } else {
        cargo_count(cs.drop_last(), h) + if cargo_handling(cs.last()) == h {
            1nat
        } else {
            0nat
        }
    }
}

/// The version shown in a heading: the one given, or `latest`.
pub open spec fn shown_version(v: Option<Seq<char>>) -> Seq<char> {
    match v {
        Some(x) => if x.len() == 0 {
            "latest"@
        } else {
            x
        },
        None => "latest"@,
    }
}

/// The heading of a crate's step.
pub open spec fn cargo_desc(c: CargoInstallView) -> Seq<char> {
    if c.crate_name.len() == 0 {
        "go install:"@
    } else if c.config_error is Some {
        c.crate_name + ":"@
    } else {
        last_nonempty(split(c.crate_name, '/')) + " ("@ + shown_version(c.version) + "):"@
    }
}

/// The last non-empty part among `parts`, or nothing.
pub open spec fn last_nonempty(parts: Seq<Seq<char>>) -> Seq<char>
    decreases parts.len(),
{
    if parts.len() == 0 {
        Seq::empty()
    } else if parts.last().len() > 0 {
        parts.last()
    } else {
        last_nonempty(parts.drop_last())
    }
}

/// The last non-empty part of `v`'s parts.
pub fn last_nonempty_part(v: &Vec<Vec<char>>) -> (r: Vec<char>)
    ensures
        r@ == last_nonempty(views(v@)),
{
    let mut i: usize = v.len();
    assert(views(v@).subrange(0, v@.len() as int) =~= views(v@));
    while i > 0
        invariant
            i <= v@.len(),
            last_nonempty(views(v@)) == last_nonempty(views(v@).subrange(0, i as int)),
        decreases i,
    {
        let ghost pre = views(v@).subrange(0, i as int);
        assert(pre.drop_last() =~= views(v@).subrange(0, i - 1));
        assert(pre.last() == v@[i - 1]@);
        if v[i - 1].len() > 0 {
            return crate::text::slice(&v[i - 1], 0, v[i - 1].len());
        }
        i = i - 1;
    }
    Vec::new()
}

impl UpConfigCargoInstall {
    /// How the crate was handled: `Unhandled` until it was.
    pub fn handling(&self) -> (r: CargoInstallHandled)
        ensures
            r == cargo_handling(self@),
    {
        match self.was_handled {
            Some(h) => h,
            None => CargoInstallHandled::Unhandled,
        }
    }

    /// Whether the crate was installed or found installed.
    pub fn was_upped(&self) -> (r: bool)
        ensures
            r == cargo_upped(self@),
    {
        match self.was_handled {
            Some(CargoInstallHandled::Handled) | Some(CargoInstallHandled::Noop) => true,
            _ => false,
        }
    }

    /// The last non-empty `/`-separated part of the crate name.
    pub fn short_crate_name(&self) -> (r: String)
        ensures
            r@ == last_nonempty(split(self.crate_name@, '/')),
    {
        let parts = split_char(&to_chars(self.crate_name.as_str()), '/');
        from_chars(last_nonempty_part(&parts).as_slice())
    }

    /// Records the outcome of installing `version`: on success, the
    /// version and whether it was installed (`Handled`) or already there
    /// (`Noop`). The version is recorded once only: recording a second
    /// one fails and leaves the crate as it was. A failure is handed back
    /// and leaves the crate as it was.
    pub fn handle_installed(&mut self, version: &str, installed: Result<bool, UpError>) -> (r: Result<bool, UpError>)
        requires
            old(self).actual_version is None ==> old(self).was_handled is None,
        ensures
            match installed {
                Ok(b) => if old(self).actual_version is Some {
                    &&& r matches Err(UpError::Exec(m)) && m@ == "failed to set actual version"@
                    &&& final(self)@ == old(self)@
                } else {
                    &&& r == installed
                    &&& final(self)@ == (CargoInstallView {
                        actual_version: Some(version@),
                        was_handled: Some(
                            if b {
                                CargoInstallHandled::Handled
                            } else {
                                CargoInstallHandled::Noop
                            },
                        ),
                        ..old(self)@
                    })
                },
                Err(_) => r == installed && final(self)@ == old(self)@,
            },
    {
        match installed {
            Ok(b) => {
                if self.actual_version.is_some() {
                    return Err(UpError::Exec(String::from_str("failed to set actual version")));
                }
                self.actual_version = Some(from_chars(to_chars(version).as_slice()));
                self.was_handled = Some(
                    if b {
                        CargoInstallHandled::Handled
                    } else {
                        CargoInstallHandled::Noop
                    },
                );
                Ok(b)
            },
            Err(e) => Err(e),
        }
    }

    /// The heading of the crate's step: `name (version):`, with the last
    /// part of the name and `latest` for a version not given or empty.
    pub fn desc(&self) -> (r: String)
        ensures
            r@ == cargo_desc(self@),
    {
        if self.crate_name.as_str().unicode_len() == 0 {
            return String::from_str("go install:");
        }
        let mut out = to_chars(self.crate_name.as_str());
        if self.config_error.is_some() {
            crate::text::push_str(&mut out, ":");
            return from_chars(out.as_slice());
        }
        let mut out = to_chars(self.short_crate_name().as_str());
        crate::text::push_str(&mut out, " (");
        match &self.version {
            Some(v) => if v.as_str().unicode_len() == 0 {
                crate::text::push_str(&mut out, "latest");
            } else {
                append(&mut out, &to_chars(v.as_str()));
            },
            None => crate::text::push_str(&mut out, "latest"),
        }
        crate::text::push_str(&mut out, "):");
        from_chars(out.as_slice())
    }

    fn summary_label(&self) -> (r: String)
        ensures
            r@ == cargo_label(self@),
    {
        let mut out = to_chars(self.crate_name.as_str());
        out.push('@');
        match &self.actual_version {
            Some(v) => append(&mut out, &to_chars(v.as_str())),
            None => crate::text::push_str(&mut out, "?"),
        }
        proof {
            reveal_strlit("@");
        }
        from_chars(out.as_slice())
    }
}

/// Writing a crate as `name@version` and reading it back gives the name
/// and the version, when neither holds `@`; a name alone is read back with
/// no version.
pub proof fn law_crate_spec_round_trip(name: Seq<char>, version: Seq<char>)
    requires
        !name.contains('@'),
        !version.contains('@'),
    ensures
        crate_spec_parts(name + seq!['@'] + version) == Some((name, Some(version))),
        crate_spec_parts(name) == Some((name, None::<Seq<char>>)),
{
    crate::text::lemma_split_pair(name, '@', version);
    crate::text::lemma_split_single(name, '@');
}

/// The crates listed in a summary are those counted as installed or
/// already there, and there are none exactly when no crate was.
pub proof fn lemma_cargo_labels_counted(cs: Seq<CargoInstallView>)
    ensures
        cargo_labels(cs).len() == cargo_count(cs, CargoInstallHandled::Handled) + cargo_count(cs, CargoInstallHandled::Noop),
        (cargo_labels(cs).len() == 0) <==> !(exists|k: int| 0 <= k < cs.len() && cargo_upped(#[trigger] cs[k])),
    decreases cs.len(),
{
    if cs.len() > 0 {
        let init = cs.drop_last();
        lemma_cargo_labels_counted(init);
        if exists|k: int| 0 <= k < init.len() && cargo_upped(#[trigger] init[k]) {
            let k = choose|k: int| 0 <= k < init.len() && cargo_upped(#[trigger] init[k]);
            assert(cs[k] == init[k]);
        }
        if exists|k: int| 0 <= k < cs.len() && cargo_upped(#[trigger] cs[k]) {
            let k = choose|k: int| 0 <= k < cs.len() && cargo_upped(#[trigger] cs[k]);
            if k < cs.len() - 1 {
                assert(init[k] == cs[k]);
            }
        }
        if cargo_upped(cs.last()) {
            assert(cargo_upped(cs[cs.len() - 1]));
        }
    }
}

/// The summary of a step says `nothing done` exactly when no crate was
/// installed or found installed.
pub proof fn law_cargo_summary_nothing_done(cs: Seq<CargoInstallView>)
    ensures
        (install_summary(cargo_labels(cs), cargo_count(cs, CargoInstallHandled::Handled), cargo_count(cs, CargoInstallHandled::Noop))
            == "nothing done"@) <==> !(exists|k: int| 0 <= k < cs.len() && cargo_upped(#[trigger] cs[k])),
{
    lemma_cargo_labels_counted(cs);
    crate::summary::law_summary_nothing_done(
        cargo_labels(cs),
        cargo_count(cs, CargoInstallHandled::Handled),
        cargo_count(cs, CargoInstallHandled::Noop),
    );
}

} // verus!
