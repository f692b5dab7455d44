//! Homebrew formulae, casks and taps: how they are configured.
use vstd::prelude::*;

use crate::config_value::{
    deref_opt, int_text, keys_in_order, sorted_distinct, string_views, ConfigValue,
};
use crate::detect::strictly_sorted;
use crate::error::{decimal, decimal_chars};
use crate::order::{sort_strings, sorted_strings, string_seq};
use crate::text::{
    append, chars_eq, copy_string, from_chars, has_suffix, join, join_chars, push_str, slice, split, split_char, to_chars,
    views,
};

verus! {

/// Whether a formula, cask or tap was installed, already there, updated or
/// not handled yet.
#[derive(Debug, Clone, Copy, PartialEq, Eq, Structural)]
pub enum HomebrewHandled {
    Handled,
    Noop,
    Updated,
    Unhandled,
}

/// Whether an install is a formula or a cask.
#[derive(Debug, Clone, Copy, PartialEq, Eq, Structural)]
pub enum HomebrewInstallType {
    Formula,
    Cask,
}

/// A formula or cask to install.
#[derive(Debug, Clone)]
pub struct HomebrewInstall {
    pub install_type: HomebrewInstallType,
    pub name: String,
    pub version: Option<String>,
    pub upgrade: bool,
    /// How the install was handled, once it was.
    pub was_handled: Option<HomebrewHandled>,
}

/// A tap to add.
#[derive(Debug, Clone)]
pub struct HomebrewTap {
    pub name: String,
    pub url: Option<String>,
    pub upgrade: bool,
    /// How the tap was handled, once it was.
    pub was_handled: Option<HomebrewHandled>,
}

/// The taps to add and the formulae and casks to install.
#[derive(Debug, Clone)]
pub struct UpConfigHomebrew {
    pub install: Vec<HomebrewInstall>,
    pub tap: Vec<HomebrewTap>,
}

pub struct InstallView {
    pub install_type: HomebrewInstallType,
    pub name: Seq<char>,
    pub version: Option<Seq<char>>,
    pub upgrade: bool,
    pub was_handled: Option<HomebrewHandled>,
}

pub struct TapView {
    pub name: Seq<char>,
    pub url: Option<Seq<char>>,
    pub upgrade: bool,
    pub was_handled: Option<HomebrewHandled>,
}

pub open spec fn opt_view(o: Option<String>) -> Option<Seq<char>> {
    match o {
        Some(s) => Some(s@),
        None => None,
    }
}

impl View for HomebrewInstall {
    type V = InstallView;

    open spec fn view(&self) -> InstallView {
        InstallView {
            install_type: self.install_type,
            name: self.name@,
            version: opt_view(self.version),
            upgrade: self.upgrade,
            was_handled: self.was_handled,
        }
    }
}

impl View for HomebrewTap {
    type V = TapView;

    open spec fn view(&self) -> TapView {
        TapView {
            name: self.name@,
            url: opt_view(self.url),
            upgrade: self.upgrade,
            was_handled: self.was_handled,
        }
    }
}

pub open spec fn install_views(v: Seq<HomebrewInstall>) -> Seq<InstallView> {
    Seq::new(v.len(), |k: int| v[k]@)
}

pub open spec fn tap_views(v: Seq<HomebrewTap>) -> Seq<TapView> {
    Seq::new(v.len(), |k: int| v[k]@)
}

/// A formula of that name, with nothing else set.
pub open spec fn formula_named(name: Seq<char>) -> InstallView {
    InstallView { install_type: HomebrewInstallType::Formula, name, version: None, upgrade: false, was_handled: None }
}

/// A version given as a string or an integer.
pub open spec fn version_text(v: Option<ConfigValue>) -> Option<Seq<char>> {
    match v {
        Some(ConfigValue::Str(s)) => Some(s@),
        Some(ConfigValue::Integer(n)) => Some(int_text(n as int)),
        _ => None,
    }
}

/// A flag read from a value, false when it is not set to true.
pub open spec fn flag(v: Option<ConfigValue>) -> bool {
    match v {
        Some(x) => x.bool_forced_of() == Some(true),
        None => false,
    }
}

/// A table entry of the install list whose `formula` or `cask` is not a
/// string: reading it panics.
pub open spec fn install_panics(v: ConfigValue) -> bool {
    v is Table && match v.get_of("formula"@) {
        Some(f) => !(f is Str),
        None => match v.get_of("cask"@) {
            Some(c) => !(c is Str),
            None => false,
        },
    }
}

/// The settings of an install: its version and whether it is upgraded,
/// read from a version string or a table.
pub open spec fn install_settings(rest: ConfigValue) -> (Option<Seq<char>>, bool) {
    match rest {
        ConfigValue::Str(s) => (Some(s@), false),
        _ => (version_text(rest.get_of("version"@)), flag(rest.get_of("upgrade"@))),
    }
}

/// One entry of the install list: a name, or a table with `formula` or
/// `cask`, or a table of a single name whose value is the version or a
/// table of settings.
pub open spec fn install_of(v: ConfigValue) -> Option<InstallView> {
    match v {
        ConfigValue::Table(entries) => {
            let (ty, name, rest) = match v.get_of("formula"@) {
                Some(f) => (HomebrewInstallType::Formula, f.str_of(), v),
                None => match v.get_of("cask"@) {
                    Some(c) => (HomebrewInstallType::Cask, c.str_of(), v),
                    None => if entries@.len() == 1 {
                        (HomebrewInstallType::Formula, Some(entries@[0].0@), entries@[0].1)
                    } else {
                        (HomebrewInstallType::Formula, None, v)
                    },
                },
            };
            let (version, upgrade) = install_settings(rest);
            match name {
                Some(n) => Some(InstallView { install_type: ty, name: n, version, upgrade, was_handled: None }),
                None => None,
            }
        },
        ConfigValue::Str(s) => Some(formula_named(s@)),
        _ => None,
    }
}

/// The installs of the entries `a` of a list, in order.
pub open spec fn install_list_of(a: Seq<ConfigValue>) -> Seq<InstallView>
    decreases a.len(),
{
    if a.len() == 0 {
        Seq::empty()
    } else {
        match install_of(a.last()) {
            Some(i) => install_list_of(a.drop_last()).push(i),
            None => install_list_of(a.drop_last()),
        }
    }
}

/// The installs of an install list: a list of entries, or one name.
pub open spec fn formulae_of(f: ConfigValue) -> Seq<InstallView> {
    match f {
        ConfigValue::Array(a) => install_list_of(a@),
        ConfigValue::Str(s) => seq![formula_named(s@)],
        _ => Seq::empty(),
    }
}

/// Whether reading an install list panics.
pub open spec fn formulae_panic(f: ConfigValue) -> bool {
    match f {
        ConfigValue::Array(a) => exists|i: int| 0 <= i < a@.len() && install_panics(#[trigger] a@[i]),
        _ => false,
    }
}

proof fn lemma_formulae_panic(a: Vec<ConfigValue>, i: int)
    requires
        0 <= i < a@.len(),
        install_panics(a@[i]),
    ensures
        formulae_panic(ConfigValue::Array(a)),
{
    let f = ConfigValue::Array(a);
    match f {
        ConfigValue::Array(b) => {
            assert(b@[i] == a@[i]);
        },
        _ => {},
    }
}

/// The installs of a homebrew step: those under `install` of a table, or
/// those of the value itself.
pub open spec fn installs_of(cv: Option<ConfigValue>) -> Seq<InstallView> {
    match cv {
        None => Seq::empty(),
        Some(ConfigValue::Table(t)) => match ConfigValue::Table(t).get_of("install"@) {
            Some(f) => formulae_of(f),
            None => Seq::empty(),
        },
        Some(v) => formulae_of(v),
    }
}

pub open spec fn installs_panic(cv: Option<ConfigValue>) -> bool {
    match cv {
        None => false,
        Some(ConfigValue::Table(t)) => match ConfigValue::Table(t).get_of("install"@) {
            Some(f) => formulae_panic(f),
            None => false,
        },
        Some(v) => formulae_panic(v),
    }
}

/// Whether reading a tap's settings panics: a `url` that is not a string.
pub open spec fn tap_settings_panic(v: ConfigValue) -> bool {
    v is Table && v.get_of("url"@) is Some && !(v.get_of("url"@)->0 is Str)
}

/// A tap named `name` with the settings `v`: its URL as a string, or a
/// table with `url` and `upgrade`.
pub open spec fn tap_config_of(name: Seq<char>, v: ConfigValue) -> TapView {
    match v {
        ConfigValue::Str(s) => TapView { name, url: Some(s@), upgrade: false, was_handled: None },
        ConfigValue::Table(_) => TapView {
            name,
            url: match v.get_of("url"@) {
                Some(u) => u.str_of(),
                None => None,
            },
            upgrade: flag(v.get_of("upgrade"@)),
            was_handled: None,
        },
        _ => TapView { name, url: None, upgrade: false, was_handled: None },
    }
}

/// One entry of a tap list: a name, or a table with `repo`, or a table of
/// a single name whose value holds its settings.
pub open spec fn tap_of(v: ConfigValue) -> Option<TapView> {
    match v {
        ConfigValue::Str(s) => Some(TapView { name: s@, url: None, upgrade: false, was_handled: None }),
        ConfigValue::Table(entries) => match v.get_of("repo"@) {
            Some(ConfigValue::Str(n)) => Some(tap_config_of(n@, v)),
            Some(_) => None,
            None => if entries@.len() == 1 {
                Some(tap_config_of(entries@[0].0@, entries@[0].1))
            } else {
                None
            },
        },
        _ => None,
    }
}

pub open spec fn tap_panics(v: ConfigValue) -> bool {
    match v {
        ConfigValue::Table(entries) => match v.get_of("repo"@) {
            Some(ConfigValue::Str(_)) => tap_settings_panic(v),
            Some(_) => false,
            None => entries@.len() == 1 && tap_settings_panic(entries@[0].1),
        },
        _ => false,
    }
}

/// The taps of the entries `a` of a list, in order.
pub open spec fn tap_list_of(a: Seq<ConfigValue>) -> Seq<TapView>
    decreases a.len(),
{
    if a.len() == 0 {
        Seq::empty()
    } else {
        match tap_of(a.last()) {
            Some(t) => tap_list_of(a.drop_last()).push(t),
            None => tap_list_of(a.drop_last()),
        }
    }
}

/// The taps of a table of taps by name, in order.
pub open spec fn tap_table_of(entries: Seq<(String, ConfigValue)>) -> Seq<TapView> {
    Seq::new(entries.len(), |k: int| tap_config_of(entries[k].0@, entries[k].1))
}

/// The taps of a tap list: a list of entries, a table of taps by name, or
/// one name.
pub open spec fn taps_list_of(t: ConfigValue) -> Seq<TapView> {
    match t {
        ConfigValue::Array(a) => tap_list_of(a@),
        ConfigValue::Table(entries) => tap_table_of(entries@),
        ConfigValue::Str(s) => seq![TapView { name: s@, url: None, upgrade: false, was_handled: None }],
        _ => Seq::empty(),
    }
}

pub open spec fn taps_list_panic(t: ConfigValue) -> bool {
    match t {
        ConfigValue::Array(a) => exists|i: int| 0 <= i < a@.len() && tap_panics(#[trigger] a@[i]),
        ConfigValue::Table(entries) => exists|i: int|
            0 <= i < entries@.len() && tap_settings_panic(#[trigger] entries@[i].1),
        _ => false,
    }
}

proof fn lemma_tap_list_panic(a: Vec<ConfigValue>, i: int)
    requires
        0 <= i < a@.len(),
        tap_panics(a@[i]),
    ensures
        taps_list_panic(ConfigValue::Array(a)),
{
    let t = ConfigValue::Array(a);
    match t {
        ConfigValue::Array(b) => {
            assert(b@[i] == a@[i]);
        },
        _ => {},
    }
}

proof fn lemma_tap_table_panic(entries: Vec<(String, ConfigValue)>, i: int)
    requires
        0 <= i < entries@.len(),
        tap_settings_panic(entries@[i].1),
    ensures
        taps_list_panic(ConfigValue::Table(entries)),
{
    let t = ConfigValue::Table(entries);
    match t {
        ConfigValue::Table(b) => {
            assert(b@[i] == entries@[i]);
        },
        _ => {},
    }
}

/// The taps configured under `tap` of a table.
pub open spec fn config_taps(cv: Option<ConfigValue>) -> Seq<TapView> {
    match cv {
        Some(ConfigValue::Table(t)) => match ConfigValue::Table(t).get_of("tap"@) {
            Some(x) => taps_list_of(x),
            None => Seq::empty(),
        },
        _ => Seq::empty(),
    }
}

pub open spec fn config_taps_panic(cv: Option<ConfigValue>) -> bool {
    match cv {
        Some(ConfigValue::Table(t)) => match ConfigValue::Table(t).get_of("tap"@) {
            Some(x) => taps_list_panic(x),
            None => false,
        },
        _ => false,
    }
}

/// The tap that a formula named `a/b/c` comes from: `a/b`.
pub open spec fn implied_tap(name: Seq<char>) -> Option<TapView> {
    let parts = split(name, '/');
    if parts.len() == 3 {
        Some(TapView { name: parts[0] + seq!['/'] + parts[1], url: None, upgrade: false, was_handled: None })
    } else {
        None
    }
}

/// The taps that the installs `is` come from.
pub open spec fn implied_taps(is: Seq<InstallView>) -> Seq<TapView>
    decreases is.len(),
{
    if is.len() == 0 {
        Seq::empty()
    } else {
        match implied_tap(is.last().name) {
            Some(t) => implied_taps(is.drop_last()).push(t),
            None => implied_taps(is.drop_last()),
        }
    }
}

/// The first tap named `n` among `ts`.
pub open spec fn first_named(ts: Seq<TapView>, n: Seq<char>) -> Option<TapView>
    decreases ts.len(),
{
    if ts.len() == 0 {
        None
    } else if ts[0].name == n {
        Some(ts[0])
    } else {
        first_named(ts.drop_first(), n)
    }
}

pub open spec fn tap_names(ts: Seq<TapView>) -> Seq<Seq<char>> {
    Seq::new(ts.len(), |k: int| ts[k].name)
}

/// The taps `ts` with one per name (the first given), in increasing order
/// of name.
pub open spec fn distinct_taps(ts: Seq<TapView>) -> Seq<TapView> {
    let names = keys_in_order(tap_names(ts), None, (ts.len() + 1) as nat);
    Seq::new(names.len(), |k: int| first_named(ts, names[k])->0)
}

/// The taps of a homebrew step: those configured, then those its installs
/// come from, one per name, in increasing order of name.
pub open spec fn taps_of(cv: Option<ConfigValue>, installs: Seq<InstallView>) -> Seq<TapView> {
    distinct_taps(config_taps(cv) + implied_taps(installs))
}

fn opt_str(o: Option<&ConfigValue>) -> (r: Option<String>)
    ensures
        opt_view(r) == match deref_opt(o) {
            Some(x) => x.str_of(),
            None => None,
        },
{
    match o {
        Some(x) => x.as_str(),
        None => None,
    }
}

fn flag_exec(o: Option<&ConfigValue>) -> (r: bool)
    ensures
        r == flag(deref_opt(o)),
{
    match o {
        Some(x) => x.as_bool_forced() == Some(true),
        None => false,
    }
}

fn version_exec(o: Option<&ConfigValue>) -> (r: Option<String>)
    ensures
        opt_view(r) == version_text(deref_opt(o)),
{
    match o {
        Some(ConfigValue::Str(s)) => Some(copy_string(s)),
        Some(ConfigValue::Integer(n)) => match o.unwrap().as_str_forced() {
            Some(t) => Some(t),
            None => None,
        },
        _ => None,
    }
}

fn settings_exec(rest: &ConfigValue) -> (r: (Option<String>, bool))
    ensures
        (opt_view(r.0), r.1) == install_settings(*rest),
{
    match rest {
        ConfigValue::Str(s) => (Some(copy_string(s)), false),
        _ => (version_exec(rest.get("version")), flag_exec(rest.get("upgrade"))),
    }
}

impl HomebrewInstall {
    /// A formula of that name, with nothing else set.
    pub fn new_formula(name: &str) -> (r: HomebrewInstall)
        ensures
            r@ == formula_named(name@),
    {
        HomebrewInstall {
            install_type: HomebrewInstallType::Formula,
            name: from_chars(to_chars(name).as_slice()),
            version: None,
            upgrade: false,
            was_handled: None,
        }
    }

    /// Reads one entry of an install list (see `install_of`).
    pub fn from_entry(v: &ConfigValue) -> (r: Option<HomebrewInstall>)
        requires
            !install_panics(*v),
        ensures
            match install_of(*v) {
                Some(i) => r matches Some(x) && x@ == i,
                None => r is None,
            },
    {
        match v {
            ConfigValue::Table(entries) => {
                let (ty, name, rest): (HomebrewInstallType, Option<String>, &ConfigValue) = match v.get("formula") {
                    Some(f) => (HomebrewInstallType::Formula, f.as_str(), v),
                    None => match v.get("cask") {
                        Some(c) => (HomebrewInstallType::Cask, c.as_str(), v),
                        None => if entries.len() == 1 {
                            (HomebrewInstallType::Formula, Some(copy_string(&entries[0].0)), &entries[0].1)
                        } else {
                            (HomebrewInstallType::Formula, None, v)
                        },
                    },
                };
                let (version, upgrade) = settings_exec(rest);
                match name {
                    Some(n) => Some(HomebrewInstall { install_type: ty, name: n, version, upgrade, was_handled: None }),
                    None => None,
                }
            },
            ConfigValue::Str(s) => Some(HomebrewInstall::new_formula(s.as_str())),
            _ => None,
        }
    }

    /// Reads an install list (see `formulae_of`).
    pub fn parse_formulae(f: &ConfigValue) -> (r: Vec<HomebrewInstall>)
        requires
            !formulae_panic(*f),
        ensures
            install_views(r@) == formulae_of(*f),
    {
        let mut r: Vec<HomebrewInstall> = Vec::new();
        match f {
            ConfigValue::Array(a) => {
                let mut i: usize = 0;
                assert(a@.subrange(0, 0) =~= Seq::<ConfigValue>::empty());
                assert(install_views(r@) =~= Seq::<InstallView>::empty());
                while i < a.len()
                    invariant
                        i <= a@.len(),
                        *f == ConfigValue::Array(*a),
                        !formulae_panic(*f),
                        install_views(r@) == install_list_of(a@.subrange(0, i as int)),
                    decreases a.len() - i,
                {
                    assert(a@.subrange(0, i + 1).drop_last() =~= a@.subrange(0, i as int));
                    proof {
                        if install_panics(a@[i as int]) {
                            lemma_formulae_panic(*a, i as int);
                        }
                    }
                    let ghost before = install_views(r@);
                    match HomebrewInstall::from_entry(&a[i]) {
                        Some(x) => {
                            r.push(x);
                            assert(install_views(r@) =~= before.push(x@));
                        },
                        None => {},
                    }
                    i = i + 1;
                }
                assert(a@.subrange(0, i as int) =~= a@);
                r
            },
            ConfigValue::Str(s) => {
                let x = HomebrewInstall::new_formula(s.as_str());
                r.push(x);
                assert(install_views(r@) =~= seq![x@]);
                r
            },
            _ => {
                assert(install_views(r@) =~= Seq::<InstallView>::empty());
                r
            },
        }
    }

    /// Reads the installs of a homebrew step (see `installs_of`).
    pub fn from_config_value(config_value: Option<&ConfigValue>) -> (r: Vec<HomebrewInstall>)
        requires
            !installs_panic(deref_opt(config_value)),
        ensures
            install_views(r@) == installs_of(deref_opt(config_value)),
    {
        match config_value {
            None => {
                let r: Vec<HomebrewInstall> = Vec::new();
                assert(install_views(r@) =~= Seq::<InstallView>::empty());
                r
            },
            Some(cv) => {
                if cv.is_table() {
                    match cv.get("install") {
                        Some(f) => HomebrewInstall::parse_formulae(f),
                        None => {
                            let r: Vec<HomebrewInstall> = Vec::new();
                            assert(install_views(r@) =~= Seq::<InstallView>::empty());
                            r
                        },
                    }
                } else {
                    HomebrewInstall::parse_formulae(cv)
                }
            },
        }
    }

    /// The name under which the install is known: `name` or
    /// `name@version`.
    pub fn package_id(&self) -> (r: String)
        ensures
            r@ == self.name@ + match self.version {
                Some(v) => seq!['@'] + v@,
                None => Seq::empty(),
            },
    {
        let mut out = to_chars(self.name.as_str());
        match &self.version {
            Some(v) => {
                out.push('@');
                crate::text::append(&mut out, &to_chars(v.as_str()));
            },
            None => {},
        }
        from_chars(out.as_slice())
    }

    pub fn is_cask(&self) -> (r: bool)
        ensures
            r == (self.install_type == HomebrewInstallType::Cask),
    {
        match self.install_type {
            HomebrewInstallType::Cask => true,
            HomebrewInstallType::Formula => false,
        }
    }

    /// Whether the install comes from omni's local tap, given the file
    /// that `brew formula` names for it: only versioned installs do, when
    /// that file is `omni/homebrew-local/{Cask|Formula}/{package id}.rb`.
    pub fn is_in_local_tap(&self, tapped_file: Option<&str>) -> (r: bool)
        ensures
            r == (self.version is Some && tapped_file is Some && has_suffix(
                tapped_file->0@,
                "omni/homebrew-local/"@ + (if self.install_type == HomebrewInstallType::Cask {
                    "Cask"@
                } else {
                    "Formula"@
                }) + "/"@ + self@.name + match self.version {
                    Some(v) => seq!['@'] + v@,
                    None => Seq::empty(),
                } + ".rb"@,
            )),
    {
        if self.version.is_none() {
            return false;
        }
        match tapped_file {
            None => false,
            Some(f) => {
                let mut expected = to_chars("omni/homebrew-local/");
                if self.is_cask() {
                    push_str(&mut expected, "Cask");
                } else {
                    push_str(&mut expected, "Formula");
                }
                push_str(&mut expected, "/");
                crate::text::append(&mut expected, &to_chars(self.package_id().as_str()));
                push_str(&mut expected, ".rb");
                assert(expected@ =~= "omni/homebrew-local/"@ + (if self.install_type == HomebrewInstallType::Cask {
                    "Cask"@
                } else {
                    "Formula"@
                }) + "/"@ + self@.name + match self.version {
                    Some(v) => seq!['@'] + v@,
                    None => Seq::empty(),
                } + ".rb"@);
                crate::text::ends_with(&to_chars(f), &expected)
            },
        }
    }
}

impl HomebrewTap {
    /// A tap of that name, with nothing else set.
    fn from_name(name: &str) -> (r: HomebrewTap)
        ensures
            r@ == (TapView { name: name@, url: None, upgrade: false, was_handled: None }),
    {
        HomebrewTap { name: from_chars(to_chars(name).as_slice()), url: None, upgrade: false, was_handled: None }
    }

    /// Reads the settings of the tap `name` (see `tap_config_of`).
    fn parse_config(name: String, config_value: &ConfigValue) -> (r: HomebrewTap)
        requires
            !tap_settings_panic(*config_value),
        ensures
            r@ == tap_config_of(name@, *config_value),
    {
        match config_value {
            ConfigValue::Str(s) => HomebrewTap { name, url: Some(copy_string(s)), upgrade: false, was_handled: None },
            ConfigValue::Table(_) => HomebrewTap {
                name,
                url: opt_str(config_value.get("url")),
                upgrade: flag_exec(config_value.get("upgrade")),
                was_handled: None,
            },
            _ => HomebrewTap { name, url: None, upgrade: false, was_handled: None },
        }
    }

    /// Reads one tap: the settings of `name` when it is given, else an
    /// entry of a tap list (see `tap_of`).
    fn parse_tap(name: Option<String>, config_value: &ConfigValue) -> (r: Option<HomebrewTap>)
        requires
            match name {
                Some(_) => !tap_settings_panic(*config_value),
                None => !tap_panics(*config_value),
            },
        ensures
            match name {
                Some(n) => r matches Some(x) && x@ == tap_config_of(n@, *config_value),
                None => match tap_of(*config_value) {
                    Some(t) => r matches Some(x) && x@ == t,
                    None => r is None,
                },
            },
    {
        if let Some(n) = name {
            return Some(HomebrewTap::parse_config(n, config_value));
        }
        match config_value {
            ConfigValue::Str(s) => Some(HomebrewTap { name: copy_string(s), url: None, upgrade: false, was_handled: None }),
            ConfigValue::Table(entries) => match config_value.get("repo") {
                Some(ConfigValue::Str(n)) => Some(HomebrewTap::parse_config(copy_string(n), config_value)),
                Some(_) => None,
                None => if entries.len() == 1 {
                    Some(HomebrewTap::parse_config(copy_string(&entries[0].0), &entries[0].1))
                } else {
                    None
                },
            },
            _ => None,
        }
    }
}

impl HomebrewTap {
    /// Reads a tap list (see `taps_list_of`).
    fn parse_taps(t: &ConfigValue) -> (r: Vec<HomebrewTap>)
        requires
            !taps_list_panic(*t),
        ensures
            tap_views(r@) == taps_list_of(*t),
    {
        let mut r: Vec<HomebrewTap> = Vec::new();
        match t {
            ConfigValue::Array(a) => {
                let mut i: usize = 0;
                assert(a@.subrange(0, 0) =~= Seq::<ConfigValue>::empty());
                assert(tap_views(r@) =~= Seq::<TapView>::empty());
                while i < a.len()
                    invariant
                        i <= a@.len(),
                        *t == ConfigValue::Array(*a),
                        !taps_list_panic(*t),
                        tap_views(r@) == tap_list_of(a@.subrange(0, i as int)),
                    decreases a.len() - i,
                {
                    assert(a@.subrange(0, i + 1).drop_last() =~= a@.subrange(0, i as int));
                    proof {
                        if tap_panics(a@[i as int]) {
                            lemma_tap_list_panic(*a, i as int);
                        }
                    }
                    let ghost before = tap_views(r@);
                    match HomebrewTap::parse_tap(None, &a[i]) {
                        Some(x) => {
                            r.push(x);
                            assert(tap_views(r@) =~= before.push(x@));
                        },
                        None => {},
                    }
                    i = i + 1;
                }
                assert(a@.subrange(0, i as int) =~= a@);
                r
            },
            ConfigValue::Table(entries) => {
                let mut i: usize = 0;
                while i < entries.len()
                    invariant
                        i <= entries@.len(),
                        *t == ConfigValue::Table(*entries),
                        !taps_list_panic(*t),
                        tap_views(r@) == tap_table_of(entries@).subrange(0, i as int),
                    decreases entries.len() - i,
                {
                    proof {
                        if tap_settings_panic(entries@[i as int].1) {
                            lemma_tap_table_panic(*entries, i as int);
                        }
                    }
                    let ghost before = tap_views(r@);
                    let x = HomebrewTap::parse_config(copy_string(&entries[i].0), &entries[i].1);
                    r.push(x);
                    assert(tap_views(r@) =~= before.push(x@));
                    assert(tap_views(r@) =~= tap_table_of(entries@).subrange(0, i + 1));
                    i = i + 1;
                }
                assert(tap_table_of(entries@).subrange(0, i as int) =~= tap_table_of(entries@));
                r
            },
            ConfigValue::Str(s) => {
                let x = HomebrewTap { name: copy_string(s), url: None, upgrade: false, was_handled: None };
                r.push(x);
                assert(tap_views(r@) =~= seq![x@]);
                r
            },
            _ => {
                assert(tap_views(r@) =~= Seq::<TapView>::empty());
                r
            },
        }
    }
}

fn copy_tap(t: &HomebrewTap) -> (r: HomebrewTap)
    ensures
        r@ == t@,
{
    HomebrewTap {
        name: copy_string(&t.name),
        url: match &t.url {
            Some(u) => Some(copy_string(u)),
            None => None,
        },
        upgrade: t.upgrade,
        was_handled: t.was_handled,
    }
}

fn first_named_exec(ts: &Vec<HomebrewTap>, n: &String) -> (r: Option<HomebrewTap>)
    ensures
        match first_named(tap_views(ts@), n@) {
            Some(t) => r matches Some(x) && x@ == t,
            None => r is None,
        },
{
    let nc = to_chars(n.as_str());
    let mut i: usize = 0;
    assert(tap_views(ts@).subrange(0, ts@.len() as int) =~= tap_views(ts@));
    while i < ts.len()
        invariant
            i <= ts@.len(),
            nc@ == n@,
            first_named(tap_views(ts@), n@) == first_named(tap_views(ts@).subrange(i as int, ts@.len() as int), n@),
        decreases ts.len() - i,
    {
        let ghost rest = tap_views(ts@).subrange(i as int, ts@.len() as int);
        assert(rest.drop_first() =~= tap_views(ts@).subrange(i + 1, ts@.len() as int));
        assert(rest[0] == ts@[i as int]@);
        if crate::text::chars_eq(&to_chars(ts[i].name.as_str()), &nc) {
            return Some(copy_tap(&ts[i]));
        }
        i = i + 1;
    }
    None
}

impl HomebrewTap {
    /// The taps of a homebrew step (see `taps_of`), given its installs.
    pub fn from_config_value(config_value: Option<&ConfigValue>, installs: &Vec<HomebrewInstall>) -> (r: Vec<HomebrewTap>)
        requires
            !config_taps_panic(deref_opt(config_value)),
        ensures
            tap_views(r@) == taps_of(deref_opt(config_value), install_views(installs@)),
    {
        let mut all: Vec<HomebrewTap> = match config_value {
            Some(cv) => match cv {
                ConfigValue::Table(_) => match cv.get("tap") {
                    Some(x) => HomebrewTap::parse_taps(x),
                    None => Vec::new(),
                },
                _ => Vec::new(),
            },
            None => Vec::new(),
        };
        let ghost configured = tap_views(all@);
        assert(configured =~= config_taps(deref_opt(config_value)));
        let ghost iv = install_views(installs@);
        let mut i: usize = 0;
        assert(iv.subrange(0, 0) =~= Seq::<InstallView>::empty());
        assert(tap_views(all@) =~= configured + implied_taps(iv.subrange(0, 0)));
        while i < installs.len()
            invariant
                i <= installs@.len(),
                iv == install_views(installs@),
                tap_views(all@) == configured + implied_taps(iv.subrange(0, i as int)),
            decreases installs.len() - i,
        {
            assert(iv.subrange(0, i + 1).drop_last() =~= iv.subrange(0, i as int));
            let parts = split_char(&to_chars(installs[i].name.as_str()), '/');
            assert(iv[i as int].name == installs@[i as int].name@);
            assert(iv.subrange(0, i + 1).last() == iv[i as int]);
            let ghost before = tap_views(all@);
            if parts.len() == 3 {
                let mut name = slice(&parts[0], 0, parts[0].len());
                name.push('/');
                crate::text::append(&mut name, &parts[1]);
                let t = HomebrewTap::from_name(from_chars(name.as_slice()).as_str());
                proof {
                    let sp = split(iv[i as int].name, '/');
                    assert(crate::text::views(parts@)[0] == parts@[0]@);
                    assert(crate::text::views(parts@)[1] == parts@[1]@);
                    assert(sp[0] == parts@[0]@);
                    assert(sp[1] == parts@[1]@);
                    assert(parts@[0]@.subrange(0, parts@[0]@.len() as int) =~= parts@[0]@);
                    assert(name@ =~= sp[0] + seq!['/'] + sp[1]);
                }
                assert(t@ == implied_tap(iv[i as int].name)->0);
                all.push(t);
                assert(tap_views(all@) =~= before.push(t@));
                assert(tap_views(all@) =~= configured + implied_taps(iv.subrange(0, i + 1)));
            } else {
                assert(implied_tap(iv[i as int].name) is None);
                assert(tap_views(all@) =~= configured + implied_taps(iv.subrange(0, i + 1)));
            }
            i = i + 1;
        }
        assert(iv.subrange(0, i as int) =~= iv);
        let ghost av = tap_views(all@);
        let mut names: Vec<String> = Vec::new();
        let mut k: usize = 0;
        while k < all.len()
            invariant
                k <= all@.len(),
                av == tap_views(all@),
                string_views(names@) == tap_names(av).subrange(0, k as int),
            decreases all.len() - k,
        {
            let ghost before = string_views(names@);
            names.push(copy_string(&all[k].name));
            assert(tap_names(av)[k as int] == all@[k as int].name@);
            assert(string_views(names@) =~= before.push(all@[k as int].name@));
            assert(string_views(names@) =~= tap_names(av).subrange(0, k + 1));
            k = k + 1;
        }
        assert(tap_names(av).subrange(0, k as int) =~= tap_names(av));
        let sorted = sorted_distinct(&names);
        let ghost sv = string_views(sorted@);
        let mut r: Vec<HomebrewTap> = Vec::new();
        let mut j: usize = 0;
        proof {
            crate::config_value::lemma_keys_in_order(tap_names(av), None, (av.len() + 1) as nat);
        }
        while j < sorted.len()
            invariant
                j <= sorted@.len(),
                av == tap_views(all@),
                sv == string_views(sorted@),
                sv == keys_in_order(tap_names(av), None, (av.len() + 1) as nat),
                forall|x: int| 0 <= x < sv.len() ==> tap_names(av).contains(#[trigger] sv[x]),
                tap_views(r@) == Seq::new(j as nat, |x: int| first_named(av, sv[x])->0),
            decreases sorted.len() - j,
        {
            proof {
                lemma_first_named_found(av, sv[j as int]);
            }
            match first_named_exec(&all, &sorted[j]) {
                Some(t) => {
                    let ghost before = tap_views(r@);
                    r.push(t);
                    assert(tap_views(r@) =~= before.push(t@));
                    assert(tap_views(r@) =~= Seq::new((j + 1) as nat, |x: int| first_named(av, sv[x])->0));
                },
                None => {},
            }
            j = j + 1;
        }
        r
    }
}

/// A name among the taps' names is found among them.
pub proof fn lemma_first_named_found(ts: Seq<TapView>, n: Seq<char>)
    ensures
        tap_names(ts).contains(n) ==> first_named(ts, n) is Some,
    decreases ts.len(),
{
    if ts.len() > 0 {
        lemma_first_named_found(ts.drop_first(), n);
        if tap_names(ts).contains(n) && ts[0].name != n {
            let w = choose|w: int| 0 <= w < ts.len() && tap_names(ts)[w] == n;
            assert(tap_names(ts.drop_first())[w - 1] == n);
        }
    }
}

/// How an install or tap was handled: `Unhandled` until it was.
pub open spec fn handled_or_not(h: Option<HomebrewHandled>) -> HomebrewHandled {
    match h {
        Some(x) => x,
        None => HomebrewHandled::Unhandled,
    }
}

/// Whether an install or tap handled as `h` is listed in the summary.
pub open spec fn listed(h: HomebrewHandled) -> bool {
    h == HomebrewHandled::Handled || h == HomebrewHandled::Updated || h == HomebrewHandled::Noop
}

/// How an install or tap ends after its step, given whether it was there
/// before and whether the step did something: `Updated` or `Noop` when it
/// was there, else `Handled`.
pub open spec fn outcome(present: bool, did_something: bool) -> HomebrewHandled {
    if present {
        if did_something {
            HomebrewHandled::Updated
        } else {
            HomebrewHandled::Noop
        }
    } else {
        HomebrewHandled::Handled
    }
}

/// The message that goes with that outcome; `done` is what a step that
/// was not there ends with (`tapped`, `installed`).
pub open spec fn outcome_message(present: bool, did_something: bool, done: Seq<char>) -> Seq<char> {
    if present {
        if did_something {
            "updated"@
        } else {
            "up to date (cached)"@
        }
    } else {
        done
    }
}

/// The name under which an install is known: `name` or `name@version`.
pub open spec fn package_id_of(i: InstallView) -> Seq<char> {
    i.name + match i.version {
        Some(v) => seq!['@'] + v,
        None => Seq::empty(),
    }
}

/// The names of the taps among `ts` that are listed, in order.
pub open spec fn tap_labels(ts: Seq<TapView>) -> Seq<Seq<char>>
    decreases ts.len(),
{
    if ts.len() == 0 {
        Seq::empty()
    } else if listed(handled_or_not(ts.last().was_handled)) {
        tap_labels(ts.drop_last()).push(ts.last().name)
    } else {
        tap_labels(ts.drop_last())
    }
}

/// How many taps among `ts` were handled as `h`.
pub open spec fn tap_count(ts: Seq<TapView>, h: HomebrewHandled) -> nat
    decreases ts.len(),
{
    if ts.len() == 0 {
        0
    } else {
        tap_count(ts.drop_last(), h) + if handled_or_not(ts.last().was_handled) == h {
            1nat
        } else {
            0nat
        }
    }
}

/// The package ids of the installs among `is` that are listed, in order.
pub open spec fn install_labels(is: Seq<InstallView>) -> Seq<Seq<char>>
    decreases is.len(),
{
    if is.len() == 0 {
        Seq::empty()
    } else if listed(handled_or_not(is.last().was_handled)) {
        install_labels(is.drop_last()).push(package_id_of(is.last()))
    } else {
        install_labels(is.drop_last())
    }
}

/// How many installs among `is` were handled as `h`.
pub open spec fn install_count(is: Seq<InstallView>, h: HomebrewHandled) -> nat
    decreases is.len(),
{
    if is.len() == 0 {
        0
    } else {
        install_count(is.drop_last(), h) + if handled_or_not(is.last().was_handled) == h {
            1nat
        } else {
            0nat
        }
    }
}

/// One part of the summary of a homebrew step: the counts of those
/// handled (`+n`), updated (`^n`) and already there (`n`), each only when
/// there were some, then `name` (plural when more than one is listed) and
/// the sorted labels of those listed. Nothing when none is listed.
pub open spec fn summary_part(name: Seq<char>, labels: Seq<Seq<char>>, handled: nat, updated: nat, noop: nat) -> Option<Seq<char>> {
    let numbers = (if handled > 0 {
        seq![seq!['+'] + decimal(handled)]
    } else {
        Seq::empty()
    }) + (if updated > 0 {
        seq![seq!['^'] + decimal(updated)]
    } else {
        Seq::empty()
    }) + (if noop > 0 {
        seq![decimal(noop)]
    } else {
        Seq::empty()
    });
    if labels.len() == 0 || numbers.len() == 0 {
        None
    } else {
        Some(
            join(numbers, ", "@) + " "@ + name + (if labels.len() > 1 {
                "s"@
            } else {
                Seq::empty()
            }) + " ("@ + join(sorted_strings(labels), ", "@) + ")"@,
        )
    }
}

pub open spec fn opt_part(p: Option<Seq<char>>) -> Seq<Seq<char>> {
    match p {
        Some(x) => seq![x],
        None => Seq::empty(),
    }
}

/// The summary of a homebrew step: its part for taps and its part for
/// formulae, joined with ` and `, or `nothing done`.
pub open spec fn homebrew_summary(ts: Seq<TapView>, is: Seq<InstallView>) -> Seq<char> {
    let parts = opt_part(
        summary_part(
            "tap"@,
            tap_labels(ts),
            tap_count(ts, HomebrewHandled::Handled),
            tap_count(ts, HomebrewHandled::Updated),
            tap_count(ts, HomebrewHandled::Noop),
        ),
    ) + opt_part(
        summary_part(
            "formula"@,
            install_labels(is),
            install_count(is, HomebrewHandled::Handled),
            install_count(is, HomebrewHandled::Updated),
            install_count(is, HomebrewHandled::Noop),
        ),
    );
    if parts.len() == 0 {
        "nothing done"@
    } else {
        join(parts, " and "@)
    }
}

fn signed_count(sign: Option<char>, n: usize) -> (r: Vec<char>)
    ensures
        r@ == match sign {
            Some(c) => seq![c] + decimal(n as nat),
            None => decimal(n as nat),
        },
{
    match sign {
        Some(c) => {
            let mut out: Vec<char> = Vec::new();
            out.push(c);
            append(&mut out, &decimal_chars(n));
            out
        },
        None => decimal_chars(n),
    }
}

fn string_chars(v: &Vec<String>) -> (r: Vec<Vec<char>>)
    ensures
        views(r@) == string_seq(v@),
{
    let mut r: Vec<Vec<char>> = Vec::new();
    let mut i: usize = 0;
    while i < v.len()
        invariant
            i <= v@.len(),
            views(r@) == string_seq(v@).subrange(0, i as int),
        decreases v.len() - i,
    {
        let ghost before = views(r@);
        r.push(to_chars(v[i].as_str()));
        assert(views(r@) =~= before.push(v@[i as int]@));
        assert(views(r@) =~= string_seq(v@).subrange(0, i + 1));
        i = i + 1;
    }
    assert(string_seq(v@).subrange(0, i as int) =~= string_seq(v@));
    r
}

fn summary_part_exec(name: &str, labels: &Vec<String>, handled: usize, updated: usize, noop: usize) -> (r: Option<Vec<char>>)
    ensures
        match summary_part(name@, string_seq(labels@), handled as nat, updated as nat, noop as nat) {
            Some(x) => r matches Some(y) && y@ == x,
            None => r is None,
        },
{
    let mut numbers: Vec<Vec<char>> = Vec::new();
    if handled > 0 {
        numbers.push(signed_count(Some('+'), handled));
    }
    if updated > 0 {
        numbers.push(signed_count(Some('^'), updated));
    }
    if noop > 0 {
        numbers.push(signed_count(None, noop));
    }
    let ghost expected = (if handled > 0 {
        seq![seq!['+'] + decimal(handled as nat)]
    } else {
        Seq::empty()
    }) + (if updated > 0 {
        seq![seq!['^'] + decimal(updated as nat)]
    } else {
        Seq::empty()
    }) + (if noop > 0 {
        seq![decimal(noop as nat)]
    } else {
        Seq::empty()
    });
    assert(views(numbers@) =~= expected);
    if labels.len() == 0 || numbers.len() == 0 {
        return None;
    }
    let sorted = sort_strings(labels);
    let mut out = join_chars(&numbers, &to_chars(", "));
    push_str(&mut out, " ");
    push_str(&mut out, name);
    if labels.len() > 1 {
        push_str(&mut out, "s");
    }
    push_str(&mut out, " (");
    append(&mut out, &join_chars(&string_chars(&sorted), &to_chars(", ")));
    push_str(&mut out, ")");
    proof {
        let tail: Seq<char> = if labels@.len() > 1 {
            "s"@
        } else {
            Seq::empty()
        };
        assert(out@ =~= join(expected, ", "@) + " "@ + name@ + tail + " ("@ + join(sorted_strings(string_seq(labels@)), ", "@) + ")"@);
    }
    Some(out)
}

impl HomebrewTap {
    /// Whether the tap was tapped (or untapped) in this run.
    pub fn was_handled(&self) -> (r: bool)
        ensures
            r == (self.was_handled == Some(HomebrewHandled::Handled)),
    {
        match self.was_handled {
            Some(HomebrewHandled::Handled) => true,
            _ => false,
        }
    }

    /// How the tap was handled: `Unhandled` until it was.
    pub fn handling(&self) -> (r: HomebrewHandled)
        ensures
            r == handled_or_not(self.was_handled),
    {
        match self.was_handled {
            Some(h) => h,
            None => HomebrewHandled::Unhandled,
        }
    }

    /// Records how tapping went, given whether the tap was there before
    /// and whether tapping did something (see `outcome`), and gives the
    /// message that reports it.
    pub fn handle_tapped(&mut self, is_tapped: bool, did_something: bool) -> (r: String)
        requires
            old(self).was_handled is None,
        ensures
            final(self)@ == (TapView { was_handled: Some(outcome(is_tapped, did_something)), ..old(self)@ }),
            r@ == outcome_message(is_tapped, did_something, "tapped"@),
    {
        if is_tapped {
            if did_something {
                self.was_handled = Some(HomebrewHandled::Updated);
                String::from_str("updated")
            } else {
                self.was_handled = Some(HomebrewHandled::Noop);
                String::from_str("up to date (cached)")
            }
        } else {
            self.was_handled = Some(HomebrewHandled::Handled);
            String::from_str("tapped")
        }
    }

    /// Records that the tap was removed.
    pub fn handle_untapped(&mut self)
        requires
            old(self).was_handled is None,
        ensures
            final(self)@ == (TapView { was_handled: Some(HomebrewHandled::Handled), ..old(self)@ }),
    {
        self.was_handled = Some(HomebrewHandled::Handled);
    }
}

impl HomebrewInstall {
    /// Whether the install was installed (or removed) in this run.
    pub fn was_handled(&self) -> (r: bool)
        ensures
            r == (self.was_handled == Some(HomebrewHandled::Handled)),
    {
        match self.was_handled {
            Some(HomebrewHandled::Handled) => true,
            _ => false,
        }
    }

    /// How the install was handled: `Unhandled` until it was.
    pub fn handling(&self) -> (r: HomebrewHandled)
        ensures
            r == handled_or_not(self.was_handled),
    {
        match self.was_handled {
            Some(h) => h,
            None => HomebrewHandled::Unhandled,
        }
    }

    /// An install read back from the cache: a cask or a formula of that
    /// name and version, with nothing else set.
    pub fn from_cache(name: &str, version: Option<&str>, is_cask: bool) -> (r: HomebrewInstall)
        ensures
            r@ == (InstallView {
                install_type: if is_cask {
                    HomebrewInstallType::Cask
                } else {
                    HomebrewInstallType::Formula
                },
                name: name@,
                version: match version {
                    Some(v) => Some(v@),
                    None => None,
                },
                upgrade: false,
                was_handled: None,
            }),
    {
        HomebrewInstall {
            install_type: if is_cask {
                HomebrewInstallType::Cask
            } else {
                HomebrewInstallType::Formula
            },
            name: from_chars(to_chars(name).as_slice()),
            version: match version {
                Some(v) => Some(from_chars(to_chars(v).as_slice())),
                None => None,
            },
            upgrade: false,
            was_handled: None,
        }
    }

    /// The name of the formula or cask.
    pub fn name(&self) -> (r: String)
        ensures
            r@ == self.name@,
    {
        copy_string(&self.name)
    }

    /// The version asked for, if any.
    pub fn version(&self) -> (r: Option<String>)
        ensures
            opt_view(r) == opt_view(self.version),
    {
        match &self.version {
            Some(v) => Some(copy_string(v)),
            None => None,
        }
    }

    /// Whether installing is skipped: a versioned install already there
    /// stays as it is.
    pub fn skips_install(&self, installed: bool) -> (r: bool)
        ensures
            r == (installed && self.version is Some),
    {
        installed && self.version.is_some()
    }

    /// Records that a versioned install was found already there.
    pub fn handle_already_installed(&mut self)
        requires
            old(self).was_handled is None,
        ensures
            final(self)@ == (InstallView { was_handled: Some(HomebrewHandled::Noop), ..old(self)@ }),
    {
        self.was_handled = Some(HomebrewHandled::Noop);
    }

    /// Records how installing went, given whether the install was there
    /// before and whether installing did something (see `outcome`), and
    /// gives the message that reports it.
    pub fn handle_installed(&mut self, installed: bool, did_something: bool) -> (r: String)
        requires
            old(self).was_handled is None,
        ensures
            final(self)@ == (InstallView { was_handled: Some(outcome(installed, did_something)), ..old(self)@ }),
            r@ == outcome_message(installed, did_something, "installed"@),
    {
        if installed {
            if did_something {
                self.was_handled = Some(HomebrewHandled::Updated);
                String::from_str("updated")
            } else {
                self.was_handled = Some(HomebrewHandled::Noop);
                String::from_str("up to date (cached)")
            }
        } else {
            self.was_handled = Some(HomebrewHandled::Handled);
            String::from_str("installed")
        }
    }

    /// Records that the install was removed.
    pub fn handle_uninstalled(&mut self)
        requires
            old(self).was_handled is None,
        ensures
            final(self)@ == (InstallView { was_handled: Some(HomebrewHandled::Handled), ..old(self)@ }),
    {
        self.was_handled = Some(HomebrewHandled::Handled);
    }
}

/// The names of the taps among `ts` that were handled, in order.
pub open spec fn handled_tap_names(ts: Seq<TapView>) -> Seq<Seq<char>>
    decreases ts.len(),
{
    if ts.len() == 0 {
        Seq::empty()
    } else if ts.last().was_handled == Some(HomebrewHandled::Handled) {
        handled_tap_names(ts.drop_last()).push(ts.last().name)
    } else {
        handled_tap_names(ts.drop_last())
    }
}

/// The names of the installs among `is` that were handled, in order.
pub open spec fn handled_install_names(is: Seq<InstallView>) -> Seq<Seq<char>>
    decreases is.len(),
{
    if is.len() == 0 {
        Seq::empty()
    } else if is.last().was_handled == Some(HomebrewHandled::Handled) {
        handled_install_names(is.drop_last()).push(is.last().name)
    } else {
        handled_install_names(is.drop_last())
    }
}

/// One part of a cleanup report: `-n name` (plural when more than one)
/// and the sorted names of those removed; nothing when none was.
pub open spec fn removed_part(name: Seq<char>, names: Seq<Seq<char>>) -> Option<Seq<char>> {
    if names.len() == 0 {
        None
    } else {
        Some(
            seq!['-'] + decimal(names.len()) + " "@ + name + (if names.len() > 1 {
                "s"@
            } else {
                Seq::empty()
            }) + " ("@ + join(sorted_strings(names), ", "@) + ")"@,
        )
    }
}

/// What a homebrew cleanup reports: its part for the taps removed and
/// its part for the formulae removed, joined with ` and `; nothing when
/// nothing was removed.
pub open spec fn homebrew_cleanup_report(ts: Seq<TapView>, is: Seq<InstallView>) -> Option<Seq<char>> {
    let parts = opt_part(removed_part("tap"@, handled_tap_names(ts))) + opt_part(
        removed_part("formula"@, handled_install_names(is)),
    );
    if parts.len() == 0 {
        None
    } else {
        Some(join(parts, " and "@))
    }
}

fn removed_part_exec(name: &str, names: &Vec<String>) -> (r: Option<Vec<char>>)
    ensures
        match removed_part(name@, string_seq(names@)) {
            Some(x) => r matches Some(y) && y@ == x,
            None => r is None,
        },
{
    if names.len() == 0 {
        return None;
    }
    let sorted = sort_strings(names);
    let mut out = signed_count(Some('-'), names.len());
    push_str(&mut out, " ");
    push_str(&mut out, name);
    if names.len() > 1 {
        push_str(&mut out, "s");
    }
    push_str(&mut out, " (");
    append(&mut out, &join_chars(&string_chars(&sorted), &to_chars(", ")));
    push_str(&mut out, ")");
    proof {
        let tail: Seq<char> = if names@.len() > 1 {
            "s"@
        } else {
            Seq::empty()
        };
        assert(out@ =~= seq!['-'] + decimal(names@.len()) + " "@ + name@ + tail + " ("@ + join(
            sorted_strings(string_seq(names@)),
            ", "@,
        ) + ")"@);
    }
    Some(out)
}

impl UpConfigHomebrew {
    /// What a cleanup reports, given the taps it removed and the installs
    /// it removed (see `homebrew_cleanup_report`).
    pub fn cleanup_report(untapped: &Vec<HomebrewTap>, uninstalled: &Vec<HomebrewInstall>) -> (r: Option<String>)
        ensures
            match homebrew_cleanup_report(tap_views(untapped@), install_views(uninstalled@)) {
                Some(x) => r matches Some(y) && y@ == x,
                None => r is None,
            },
    {
        let ghost ts = tap_views(untapped@);
        let mut tn: Vec<String> = Vec::new();
        let mut i: usize = 0;
        assert(ts.subrange(0, 0) =~= Seq::<TapView>::empty());
        assert(string_seq(tn@) =~= Seq::<Seq<char>>::empty());
        while i < untapped.len()
            invariant
                i <= untapped@.len(),
                ts == tap_views(untapped@),
                string_seq(tn@) == handled_tap_names(ts.subrange(0, i as int)),
            decreases untapped.len() - i,
        {
            let ghost pre = ts.subrange(0, i + 1);
            assert(pre.drop_last() =~= ts.subrange(0, i as int));
            assert(pre.last() == untapped@[i as int]@);
            let ghost before = string_seq(tn@);
            if untapped[i].was_handled() {
                tn.push(copy_string(&untapped[i].name));
                assert(string_seq(tn@) =~= before.push(pre.last().name));
            }
            i = i + 1;
        }
        assert(ts.subrange(0, i as int) =~= ts);
        let ghost is = install_views(uninstalled@);
        let mut inames: Vec<String> = Vec::new();
        let mut j: usize = 0;
        assert(is.subrange(0, 0) =~= Seq::<InstallView>::empty());
        assert(string_seq(inames@) =~= Seq::<Seq<char>>::empty());
        while j < uninstalled.len()
            invariant
                j <= uninstalled@.len(),
                is == install_views(uninstalled@),
                string_seq(inames@) == handled_install_names(is.subrange(0, j as int)),
            decreases uninstalled.len() - j,
        {
            let ghost pre = is.subrange(0, j + 1);
            assert(pre.drop_last() =~= is.subrange(0, j as int));
            assert(pre.last() == uninstalled@[j as int]@);
            let ghost before = string_seq(inames@);
            if uninstalled[j].was_handled() {
                inames.push(uninstalled[j].name());
                assert(string_seq(inames@) =~= before.push(pre.last().name));
            }
            j = j + 1;
        }
        assert(is.subrange(0, j as int) =~= is);
        let mut parts: Vec<Vec<char>> = Vec::new();
        match removed_part_exec("tap", &tn) {
            Some(x) => parts.push(x),
            None => {},
        }
        match removed_part_exec("formula", &inames) {
            Some(x) => parts.push(x),
            None => {},
        }
        proof {
            let tpart = removed_part("tap"@, handled_tap_names(ts));
            let fpart = removed_part("formula"@, handled_install_names(is));
            assert(views(parts@) =~= opt_part(tpart) + opt_part(fpart));
        }
        if parts.len() == 0 {
            return None;
        }
        Some(from_chars(join_chars(&parts, &to_chars(" and ")).as_slice()))
    }

    /// Whether a tap or an install was handled in this run.
    pub fn was_upped(&self) -> (r: bool)
        ensures
            r == ((exists|k: int| 0 <= k < self.tap@.len() && #[trigger] self.tap@[k].was_handled == Some(HomebrewHandled::Handled))
                || (exists|k: int| 0 <= k < self.install@.len() && #[trigger] self.install@[k].was_handled == Some(HomebrewHandled::Handled))),
    {
        let mut i: usize = 0;
        while i < self.tap.len()
            invariant
                i <= self.tap@.len(),
                forall|k: int| 0 <= k < i ==> #[trigger] self.tap@[k].was_handled != Some(HomebrewHandled::Handled),
            decreases self.tap.len() - i,
        {
            if self.tap[i].was_handled() {
                return true;
            }
            i = i + 1;
        }
        let mut j: usize = 0;
        while j < self.install.len()
            invariant
                j <= self.install@.len(),
                forall|k: int| 0 <= k < self.tap@.len() ==> #[trigger] self.tap@[k].was_handled != Some(HomebrewHandled::Handled),
                forall|k: int| 0 <= k < j ==> #[trigger] self.install@[k].was_handled != Some(HomebrewHandled::Handled),
            decreases self.install.len() - j,
        {
            if self.install[j].was_handled() {
                return true;
            }
            j = j + 1;
        }
        false
    }

    /// The summary of the step (see `homebrew_summary`).
    pub fn get_up_message(&self) -> (r: String)
        ensures
            r@ == homebrew_summary(tap_views(self.tap@), install_views(self.install@)),
    {
        let ghost ts = tap_views(self.tap@);
        let mut tl: Vec<String> = Vec::new();
        let mut th: usize = 0;
        let mut tu: usize = 0;
        let mut tn: usize = 0;
        let mut i: usize = 0;
        assert(ts.subrange(0, 0) =~= Seq::<TapView>::empty());
        assert(string_seq(tl@) =~= Seq::<Seq<char>>::empty());
        while i < self.tap.len()
            invariant
                i <= self.tap@.len(),
                ts == tap_views(self.tap@),
                string_seq(tl@) == tap_labels(ts.subrange(0, i as int)),
                th == tap_count(ts.subrange(0, i as int), HomebrewHandled::Handled),
                tu == tap_count(ts.subrange(0, i as int), HomebrewHandled::Updated),
                tn == tap_count(ts.subrange(0, i as int), HomebrewHandled::Noop),
                th + tu + tn <= i,
            decreases self.tap.len() - i,
        {
            let ghost pre = ts.subrange(0, i + 1);
            assert(pre.drop_last() =~= ts.subrange(0, i as int));
            assert(pre.last() == self.tap@[i as int]@);
            let ghost before = string_seq(tl@);
            match self.tap[i].handling() {
                HomebrewHandled::Handled => {
                    th = th + 1;
                    tl.push(copy_string(&self.tap[i].name));
                },
                HomebrewHandled::Updated => {
                    tu = tu + 1;
                    tl.push(copy_string(&self.tap[i].name));
                },
                HomebrewHandled::Noop => {
                    tn = tn + 1;
                    tl.push(copy_string(&self.tap[i].name));
                },
                HomebrewHandled::Unhandled => {},
            }
            assert(listed(handled_or_not(pre.last().was_handled)) ==> string_seq(tl@) =~= before.push(pre.last().name));
            assert(!listed(handled_or_not(pre.last().was_handled)) ==> string_seq(tl@) =~= before);
            i = i + 1;
        }
        assert(ts.subrange(0, i as int) =~= ts);
        let ghost is = install_views(self.install@);
        let mut il: Vec<String> = Vec::new();
        let mut ih: usize = 0;
        let mut iu: usize = 0;
        let mut inn: usize = 0;
        let mut j: usize = 0;
        assert(is.subrange(0, 0) =~= Seq::<InstallView>::empty());
        assert(string_seq(il@) =~= Seq::<Seq<char>>::empty());
        while j < self.install.len()
            invariant
                j <= self.install@.len(),
                is == install_views(self.install@),
                string_seq(il@) == install_labels(is.subrange(0, j as int)),
                ih == install_count(is.subrange(0, j as int), HomebrewHandled::Handled),
                iu == install_count(is.subrange(0, j as int), HomebrewHandled::Updated),
                inn == install_count(is.subrange(0, j as int), HomebrewHandled::Noop),
                ih + iu + inn <= j,
            decreases self.install.len() - j,
        {
            let ghost pre = is.subrange(0, j + 1);
            assert(pre.drop_last() =~= is.subrange(0, j as int));
            assert(pre.last() == self.install@[j as int]@);
            let ghost before = string_seq(il@);
            let h = self.install[j].handling();
            match h {
                HomebrewHandled::Handled => {
                    ih = ih + 1;
                },
                HomebrewHandled::Updated => {
                    iu = iu + 1;
                },
                HomebrewHandled::Noop => {
                    inn = inn + 1;
                },
                HomebrewHandled::Unhandled => {},
            }
            if h != HomebrewHandled::Unhandled {
                il.push(self.install[j].package_id());
                assert(string_seq(il@) =~= before.push(package_id_of(pre.last())));
            } else {
                assert(string_seq(il@) =~= before);
            }
            j = j + 1;
        }
        assert(is.subrange(0, j as int) =~= is);
        let tp = summary_part_exec("tap", &tl, th, tu, tn);
        let fp = summary_part_exec("formula", &il, ih, iu, inn);
        let mut parts: Vec<Vec<char>> = Vec::new();
        match tp {
            Some(x) => parts.push(x),
            None => {},
        }
        match fp {
            Some(x) => parts.push(x),
            None => {},
        }
        proof {
            let tpart = summary_part(
                "tap"@,
                tap_labels(ts),
                tap_count(ts, HomebrewHandled::Handled),
                tap_count(ts, HomebrewHandled::Updated),
                tap_count(ts, HomebrewHandled::Noop),
            );
            let fpart = summary_part(
                "formula"@,
                install_labels(is),
                install_count(is, HomebrewHandled::Handled),
                install_count(is, HomebrewHandled::Updated),
                install_count(is, HomebrewHandled::Noop),
            );
            assert(views(parts@) =~= opt_part(tpart) + opt_part(fpart));
        }
        if parts.len() == 0 {
            return String::from_str("nothing done");
        }
        from_chars(join_chars(&parts, &to_chars(" and ")).as_slice())
    }
}

impl UpConfigHomebrew {
    /// Reads a homebrew step: its installs, and the taps configured or
    /// implied by them.
    pub fn from_config_value(config_value: Option<&ConfigValue>) -> (r: UpConfigHomebrew)
        requires
            !installs_panic(deref_opt(config_value)),
            !config_taps_panic(deref_opt(config_value)),
        ensures
            install_views(r.install@) == installs_of(deref_opt(config_value)),
            tap_views(r.tap@) == taps_of(deref_opt(config_value), installs_of(deref_opt(config_value))),
    {
        let install = HomebrewInstall::from_config_value(config_value);
        let tap = HomebrewTap::from_config_value(config_value, &install);
        UpConfigHomebrew { install, tap }
    }
}

fn is_str_value(v: &ConfigValue) -> (r: bool)
    ensures
        r == (*v is Str),
{
    match v {
        ConfigValue::Str(_) => true,
        _ => false,
    }
}

fn entry_panics(v: &ConfigValue) -> (r: bool)
    ensures
        r == install_panics(*v),
{
    if !v.is_table() {
        return false;
    }
    match v.get("formula") {
        Some(f) => !is_str_value(f),
        None => match v.get("cask") {
            Some(c) => !is_str_value(c),
            None => false,
        },
    }
}

fn list_panics(f: &ConfigValue) -> (r: bool)
    ensures
        r == formulae_panic(*f),
{
    match f.as_array() {
        Some(a) => {
            let mut i: usize = 0;
            while i < a.len()
                invariant
                    i <= a@.len(),
                    *f == ConfigValue::Array(*a),
                    forall|k: int| 0 <= k < i ==> !install_panics(#[trigger] a@[k]),
                decreases a.len() - i,
            {
                if entry_panics(&a[i]) {
                    proof {
                        lemma_formulae_panic(*a, i as int);
                    }
                    return true;
                }
                i = i + 1;
            }
            false
        },
        None => false,
    }
}

fn settings_panic(v: &ConfigValue) -> (r: bool)
    ensures
        r == tap_settings_panic(*v),
{
    if !v.is_table() {
        return false;
    }
    match v.get("url") {
        Some(u) => !is_str_value(u),
        None => false,
    }
}

fn tap_entry_panics(v: &ConfigValue) -> (r: bool)
    ensures
        r == tap_panics(*v),
{
    match v {
        ConfigValue::Table(entries) => match v.get("repo") {
            Some(ConfigValue::Str(_)) => settings_panic(v),
            Some(_) => false,
            None => entries.len() == 1 && settings_panic(&entries[0].1),
        },
        _ => false,
    }
}

fn tap_list_panics(t: &ConfigValue) -> (r: bool)
    ensures
        r == taps_list_panic(*t),
{
    match t {
        ConfigValue::Array(a) => {
            let mut i: usize = 0;
            while i < a.len()
                invariant
                    i <= a@.len(),
                    *t == ConfigValue::Array(*a),
                    forall|k: int| 0 <= k < i ==> !tap_panics(#[trigger] a@[k]),
                decreases a.len() - i,
            {
                if tap_entry_panics(&a[i]) {
                    proof {
                        lemma_tap_list_panic(*a, i as int);
                    }
                    return true;
                }
                i = i + 1;
            }
            false
        },
        ConfigValue::Table(entries) => {
            let mut i: usize = 0;
            while i < entries.len()
                invariant
                    i <= entries@.len(),
                    *t == ConfigValue::Table(*entries),
                    forall|k: int| 0 <= k < i ==> !tap_settings_panic(#[trigger] entries@[k].1),
                decreases entries.len() - i,
            {
                if settings_panic(&entries[i].1) {
                    proof {
                        lemma_tap_table_panic(*entries, i as int);
                    }
                    return true;
                }
                i = i + 1;
            }
            false
        },
        _ => false,
    }
}

impl UpConfigHomebrew {
    /// Reads a homebrew step's configuration (see `from_config_value`),
    /// or nothing when it holds an install whose `formula` or `cask` is
    /// not a string, or a tap whose `url` is not a string: such a
    /// configuration cannot be read.
    pub fn try_from_config_value(config_value: Option<&ConfigValue>) -> (r: Option<UpConfigHomebrew>)
        ensures
            r is None <==> (installs_panic(deref_opt(config_value)) || config_taps_panic(deref_opt(config_value))),
            r matches Some(h) ==> install_views(h.install@) == installs_of(deref_opt(config_value)) && tap_views(
                h.tap@,
            ) == taps_of(deref_opt(config_value), installs_of(deref_opt(config_value))),
    {
        let bad_installs = match config_value {
            None => false,
            Some(cv) => match cv {
                ConfigValue::Table(_) => match cv.get("install") {
                    Some(f) => list_panics(f),
                    None => false,
                },
                _ => list_panics(cv),
            },
        };
        let bad_taps = match config_value {
            Some(cv) => match cv {
                ConfigValue::Table(_) => match cv.get("tap") {
                    Some(x) => tap_list_panics(x),
                    None => false,
                },
                _ => false,
            },
            None => false,
        };
        if bad_installs || bad_taps {
            None
        } else {
            Some(UpConfigHomebrew::from_config_value(config_value))
        }
    }
}

/// The first tap named `n` is named `n`.
pub proof fn lemma_first_named_name(ts: Seq<TapView>, n: Seq<char>)
    ensures
        first_named(ts, n) matches Some(t) ==> t.name == n,
    decreases ts.len(),
{
    if ts.len() > 0 && ts[0].name != n {
        lemma_first_named_name(ts.drop_first(), n);
    }
}

/// A directory named `bin` found below the directory of a cask: its path
/// relative to that directory, split into components, the path it
/// resolves to, and the names of the executable files it holds.
pub struct CaskBinCandidate {
    pub components: Vec<String>,
    pub canonical: String,
    pub executables: Vec<String>,
}

/// Whether a path component is hidden: it starts with a dot.
pub open spec fn hidden_component(c: Seq<char>) -> bool {
    c.len() > 0 && c[0] == '.'
}

/// Whether a file name is that of a binary meant to be on the path: it
/// holds no dot.
pub open spec fn plain_binary_name(n: Seq<char>) -> bool {
    !n.contains('.')
}

/// Whether a candidate directory can go on the path: none of its
/// components is hidden, and it holds an executable with a plain name.
pub open spec fn cask_bin_usable(components: Seq<Seq<char>>, executables: Seq<Seq<char>>) -> bool {
    &&& forall|i: int| 0 <= i < components.len() ==> !hidden_component(#[trigger] components[i])
    &&& exists|i: int| 0 <= i < executables.len() && plain_binary_name(#[trigger] executables[i])
}

/// The usable candidates of `cs`, by the path they resolve to, each once,
/// in the order they are first found.
pub open spec fn cask_bin_dirs_of(cs: Seq<CaskBinCandidate>) -> Seq<Seq<char>>
    decreases cs.len(),
{
    if cs.len() == 0 {
        seq![]
    } else {
        let prev = cask_bin_dirs_of(cs.drop_last());
        let c = cs.last();
        if cask_bin_usable(string_views(c.components@), string_views(c.executables@)) && !prev.contains(
            c.canonical@,
        ) {
            prev.push(c.canonical@)
        } else {
            prev
        }
    }
}

fn is_hidden_component(c: &str) -> (r: bool)
    ensures
        r == hidden_component(c@),
{
    let v = to_chars(c);
    v.len() > 0 && v[0] == '.'
}

fn is_plain_binary_name(n: &str) -> (r: bool)
    ensures
        r == plain_binary_name(n@),
{
    let v = to_chars(n);
    let mut i: usize = 0;
    while i < v.len()
        invariant
            v@ == n@,
            i <= v.len(),
            forall|k: int| 0 <= k < i ==> v@[k] != '.',
        decreases v.len() - i,
    {
        if v[i] == '.' {
            assert(n@.contains('.')) by {
                assert(n@[i as int] == '.');
            }
            return false;
        }
        i = i + 1;
    }
    assert(!n@.contains('.')) by {
        if n@.contains('.') {
            let k = choose|k: int| 0 <= k < n@.len() && n@[k] == '.';
            assert(v@[k] != '.');
        }
    }
    true
}

/// Whether a candidate directory can go on the path (see
/// `cask_bin_usable`).
pub fn is_usable_cask_bin(c: &CaskBinCandidate) -> (r: bool)
    ensures
        r == cask_bin_usable(string_views(c.components@), string_views(c.executables@)),
{
    let ghost cs = string_views(c.components@);
    let ghost es = string_views(c.executables@);
    let mut i: usize = 0;
    while i < c.components.len()
        invariant
            cs == string_views(c.components@),
            i <= c.components.len(),
            forall|k: int| 0 <= k < i ==> !hidden_component(#[trigger] cs[k]),
        decreases c.components.len() - i,
    {
        if is_hidden_component(c.components[i].as_str()) {
            assert(hidden_component(cs[i as int]));
            return false;
        }
        i = i + 1;
    }
    let mut j: usize = 0;
    while j < c.executables.len()
        invariant
            cs == string_views(c.components@),
            es == string_views(c.executables@),
            forall|k: int| 0 <= k < cs.len() ==> !hidden_component(#[trigger] cs[k]),
            j <= c.executables.len(),
            forall|k: int| 0 <= k < j ==> !plain_binary_name(#[trigger] es[k]),
        decreases c.executables.len() - j,
    {
        if is_plain_binary_name(c.executables[j].as_str()) {
            assert(plain_binary_name(es[j as int]));
            return true;
        }
        j = j + 1;
    }
    false
}

/// The directories of a cask to put on the path (see `cask_bin_dirs_of`):
/// those found below its directory whose components are not hidden and
/// that hold a binary with a plain name, by the path they resolve to,
/// each once.
pub fn cask_bin_dirs(candidates: &Vec<CaskBinCandidate>) -> (r: Vec<String>)
    ensures
        string_views(r@) == cask_bin_dirs_of(candidates@),
{
    let mut out: Vec<String> = Vec::new();
    let mut i: usize = 0;
    while i < candidates.len()
        invariant
            i <= candidates.len(),
            string_views(out@) == cask_bin_dirs_of(candidates@.subrange(0, i as int)),
        decreases candidates.len() - i,
    {
        let c = &candidates[i];
        let ghost prev = string_views(out@);
        assert(candidates@.subrange(0, i as int + 1).drop_last() =~= candidates@.subrange(0, i as int));
        let usable = is_usable_cask_bin(c);
        if usable {
            let target = to_chars(c.canonical.as_str());
            let mut seen = false;
            let mut k: usize = 0;
            while k < out.len()
                invariant
                    target@ == c.canonical@,
                    k <= out.len(),
                    prev == string_views(out@),
                    seen <==> exists|m: int| 0 <= m < k && prev[m] == c.canonical@,
                decreases out.len() - k,
            {
                if chars_eq(&to_chars(out[k].as_str()), &target) {
                    assert(prev[k as int] == c.canonical@);
                    seen = true;
                }
                k = k + 1;
            }
            assert(seen <==> prev.contains(c.canonical@));
            if !seen {
                out.push(copy_string(&c.canonical));
                assert(string_views(out@) =~= prev.push(c.canonical@));
            }
        }
        i = i + 1;
    }
    assert(candidates@.subrange(0, candidates.len() as int) =~= candidates@);
    out
}

/// The taps of a homebrew step come in strictly increasing order of name
/// (so each name once), and every tap configured or implied by an install
/// is among them.
pub proof fn law_taps_in_order(cv: Option<ConfigValue>, installs: Seq<InstallView>)
    ensures
        strictly_sorted(tap_names(taps_of(cv, installs))),
        forall|j: int|
            0 <= j < (config_taps(cv) + implied_taps(installs)).len() ==> tap_names(taps_of(cv, installs)).contains(
                #[trigger] (config_taps(cv) + implied_taps(installs))[j].name,
            ),
{
    let ts = config_taps(cv) + implied_taps(installs);
    let names = tap_names(ts);
    let fuel = (ts.len() + 1) as nat;
    let order = keys_in_order(names, None, fuel);
    let out = taps_of(cv, installs);
    crate::config_value::lemma_keys_in_order(names, None, fuel);
    assert forall|k: int| 0 <= k < order.len() implies #[trigger] tap_names(out)[k] == order[k] by {
        lemma_first_named_found(ts, order[k]);
        lemma_first_named_name(ts, order[k]);
    }
    assert(tap_names(out) =~= order);
    vstd::seq_lib::seq_to_set_is_finite(names);
    names.lemma_cardinality_of_set();
    names.to_set().lemma_len_filter(|k: Seq<char>| crate::config_value::above(None, k));
    assert(crate::config_value::keys_above(names, None).len() <= names.len()) by {
        assert(crate::config_value::keys_above(names, None) =~= names.to_set().filter(
            |k: Seq<char>| crate::config_value::above(None, k),
        ));
    }
    crate::config_value::lemma_keys_in_order_complete(names, None, fuel);
    assert forall|j: int| 0 <= j < ts.len() implies tap_names(out).contains(#[trigger] ts[j].name) by {
        assert(names[j] == ts[j].name);
    }
}

} // verus!
