//! Parameters of the Node.js step.
use vstd::prelude::*;

use crate::config_value::ConfigValue;
use crate::text::to_chars;

verus! {

/// Whether the engines declared by `package.json` and its packages are
/// installed; both default to true.
#[derive(Debug, Clone, Copy, PartialEq, Eq, Structural)]
pub struct UpConfigNodejsParams {
    pub install_engines: bool,
    pub install_packages: bool,
}

/// A boolean read from `key` of the configuration, or `default`.
pub open spec fn bool_field_or(cv: Option<ConfigValue>, key: Seq<char>, default: bool) -> bool {
    match cv {
        Some(v) => match v.get_of(key) {
            Some(x) => match x.bool_forced_of() {
                Some(b) => b,
                None => default,
            },
            None => default,
        },
        None => default,
    }
}

impl Default for UpConfigNodejsParams {
    fn default() -> (r: Self)
        ensures
            r.install_engines && r.install_packages,
    {
        UpConfigNodejsParams { install_engines: true, install_packages: true }
    }
}

impl UpConfigNodejsParams {
    /// Reads `install_engines` and `install_packages` as booleans; each
    /// keeps its default (true) when missing or not a boolean.
    pub fn from_config_value(config_value: Option<&ConfigValue>) -> (r: Self)
        ensures
            ({
                let cv = match config_value {
                    Some(v) => Some(*v),
                    None => None,
                };
                &&& r.install_engines == bool_field_or(cv, "install_engines"@, true)
                &&& r.install_packages == bool_field_or(cv, "install_packages"@, true)
            }),
    {
        let mut params = UpConfigNodejsParams::default();
        if let Some(cv) = config_value {
            if let Some(value) = cv.get_as_bool_forced("install_engines") {
                params.install_engines = value;
            }
            if let Some(value) = cv.get_as_bool_forced("install_packages") {
                params.install_packages = value;
            }
        }
        params
    }
}

/// The package managers that can install the packages of a directory.
#[derive(Debug, Clone, Copy, PartialEq, Eq, Structural)]
pub enum PackageInstallEngine {
    Pnpm,
    Yarn,
    Npm,
}

/// The name of a package manager.
pub open spec fn engine_name(e: PackageInstallEngine) -> Seq<char> {
    match e {
        PackageInstallEngine::Npm => "npm"@,
        PackageInstallEngine::Yarn => "yarn"@,
        PackageInstallEngine::Pnpm => "pnpm"@,
    }
}

/// The lock file of a package manager.
pub open spec fn engine_lock_file(e: PackageInstallEngine) -> Seq<char> {
    match e {
        PackageInstallEngine::Npm => "package-lock.json"@,
        PackageInstallEngine::Yarn => "yarn.lock"@,
        PackageInstallEngine::Pnpm => "pnpm-lock.yaml"@,
    }
}

/// How much a package manager is preferred: 1 when `package.json` names
/// it among its engines, plus 2 when its lock file is there.
pub open spec fn engine_weight(e: PackageInstallEngine, engines: Seq<Seq<char>>, lock_exists: bool) -> nat {
    (if engines.contains(engine_name(e)) {
        1nat
    } else {
        0nat
    }) + (if lock_exists {
        2nat
    } else {
        0nat
    })
}

/// Where a package manager stands among all of them: pnpm, yarn, npm.
pub open spec fn engine_rank(e: PackageInstallEngine) -> nat {
    match e {
        PackageInstallEngine::Pnpm => 0,
        PackageInstallEngine::Yarn => 1,
        PackageInstallEngine::Npm => 2,
    }
}

/// The order in which package managers are tried: by decreasing weight,
/// and among equal weights the later one first (a stable sort by weight,
/// then reversed).
pub open spec fn engine_key(e: PackageInstallEngine, weight: nat) -> nat {
    weight * 3 + engine_rank(e)
}

impl PackageInstallEngine {
    /// All the package managers, in order.
    pub fn all() -> (r: Vec<PackageInstallEngine>)
        ensures
            r@ == seq![PackageInstallEngine::Pnpm, PackageInstallEngine::Yarn, PackageInstallEngine::Npm],
    {
        let r = vec![PackageInstallEngine::Pnpm, PackageInstallEngine::Yarn, PackageInstallEngine::Npm];
        assert(r@ =~= seq![PackageInstallEngine::Pnpm, PackageInstallEngine::Yarn, PackageInstallEngine::Npm]);
        r
    }

    /// The name of the package manager.
    pub fn name(&self) -> (r: String)
        ensures
            r@ == engine_name(*self),
    {
        match self {
            PackageInstallEngine::Npm => String::from_str("npm"),
            PackageInstallEngine::Yarn => String::from_str("yarn"),
            PackageInstallEngine::Pnpm => String::from_str("pnpm"),
        }
    }

    /// The lock file of the package manager.
    pub fn lock_file(&self) -> (r: String)
        ensures
            r@ == engine_lock_file(*self),
    {
        match self {
            PackageInstallEngine::Npm => String::from_str("package-lock.json"),
            PackageInstallEngine::Yarn => String::from_str("yarn.lock"),
            PackageInstallEngine::Pnpm => String::from_str("pnpm-lock.yaml"),
        }
    }

    /// How much the package manager is preferred, given the engines of
    /// `package.json` and whether its lock file is there (see
    /// `engine_weight`).
    pub fn weight(&self, engines: &Vec<String>, lock_exists: bool) -> (r: u8)
        ensures
            r == engine_weight(*self, crate::order::string_seq(engines@), lock_exists),
    {
        let name = to_chars(self.name().as_str());
        let mut named = false;
        let mut i: usize = 0;
        while i < engines.len()
            invariant
                i <= engines@.len(),
                name@ == engine_name(*self),
                named == exists|k: int| 0 <= k < i && engines@[k]@ == engine_name(*self),
            decreases engines.len() - i,
        {
            if crate::text::chars_eq(&to_chars(engines[i].as_str()), &name) {
                named = true;
            }
            i = i + 1;
        }
        proof {
            let ghost es = crate::order::string_seq(engines@);
            if named {
                let k = choose|k: int| 0 <= k < engines@.len() && engines@[k]@ == engine_name(*self);
                assert(es[k] == engine_name(*self));
            } else {
                assert forall|k: int| 0 <= k < es.len() implies es[k] != engine_name(*self) by {
                    assert(es[k] == engines@[k]@);
                }
            }
        }
        let mut w: u8 = 0;
        if named {
            w = w + 1;
        }
        if lock_exists {
            w = w + 2;
        }
        w
    }

    /// The package managers in the order they are tried (see
    /// `engine_key`), given the engines of `package.json` and which lock
    /// files are there.
    pub fn all_sorted(engines: &Vec<String>, pnpm_lock: bool, yarn_lock: bool, npm_lock: bool) -> (r: Vec<PackageInstallEngine>)
        ensures
            r@.len() == 3,
            r@.contains(PackageInstallEngine::Pnpm),
            r@.contains(PackageInstallEngine::Yarn),
            r@.contains(PackageInstallEngine::Npm),
            forall|i: int, j: int|
                #![trigger r@[i], r@[j]]
                0 <= i < j < 3 ==> engine_key(
                    r@[i],
                    engine_weight(r@[i], crate::order::string_seq(engines@), lock_of(r@[i], pnpm_lock, yarn_lock, npm_lock)),
                ) > engine_key(
                    r@[j],
                    engine_weight(r@[j], crate::order::string_seq(engines@), lock_of(r@[j], pnpm_lock, yarn_lock, npm_lock)),
                ),
    {
        let ghost es = crate::order::string_seq(engines@);
        let kp = PackageInstallEngine::Pnpm.weight(engines, pnpm_lock) as u64 * 3;
        let ky = PackageInstallEngine::Yarn.weight(engines, yarn_lock) as u64 * 3 + 1;
        let kn = PackageInstallEngine::Npm.weight(engines, npm_lock) as u64 * 3 + 2;
        let p = PackageInstallEngine::Pnpm;
        let y = PackageInstallEngine::Yarn;
        let n = PackageInstallEngine::Npm;
        let r = if kp > ky {
            if ky > kn {
                vec![p, y, n]
            } else if kp > kn {
                vec![p, n, y]
            } else {
                vec![n, p, y]
            }
        } else {
            if kp > kn {
                vec![y, p, n]
            } else if ky > kn {
                vec![y, n, p]
            } else {
                vec![n, y, p]
            }
        };
        proof {
            assert(r@[0] == r[0] && r@[1] == r[1] && r@[2] == r[2]);
            assert(r@.contains(r@[0]) && r@.contains(r@[1]) && r@.contains(r@[2]));
        }
        r
    }
}

/// Whether the lock file of a package manager is there.
pub open spec fn lock_of(e: PackageInstallEngine, pnpm_lock: bool, yarn_lock: bool, npm_lock: bool) -> bool {
    match e {
        PackageInstallEngine::Pnpm => pnpm_lock,
        PackageInstallEngine::Yarn => yarn_lock,
        PackageInstallEngine::Npm => npm_lock,
    }
}

/// What `npm install -g` installs for an engine of `package.json`: the
/// engine at its version range; nothing for `node` and `iojs`.
pub fn engine_install_target(engine: &str, version_range: &str) -> (r: Option<String>)
    ensures
        if engine@ == "node"@ || engine@ == "iojs"@ {
            r is None
        } else {
            r matches Some(t) && t@ == engine@ + "@"@ + version_range@
        },
{
    let e = to_chars(engine);
    if crate::text::chars_eq(&e, &to_chars("node")) || crate::text::chars_eq(&e, &to_chars("iojs")) {
        return None;
    }
    let mut out = e;
    crate::text::push_str(&mut out, "@");
    crate::text::push_str(&mut out, version_range);
    Some(crate::text::from_chars(out.as_slice()))
}

/// The value of the first pair whose key is `key`.
pub open spec fn pair_of(pairs: Seq<(String, String)>, key: Seq<char>) -> Option<Seq<char>>
    decreases pairs.len(),
{
    if pairs.len() == 0 {
        None
    } else if pairs[0].0@ == key {
        Some(pairs[0].1@)
    } else {
        pair_of(pairs.drop_first(), key)
    }
}

fn pair_value<'a>(pairs: &'a Vec<(String, String)>, key: &str) -> (r: Option<&'a String>)
    ensures
        match pair_of(pairs@, key@) {
            Some(v) => r matches Some(x) && x@ == v,
            None => r is None,
        },
{
    let k = to_chars(key);
    let mut i: usize = 0;
    assert(pairs@.subrange(0, pairs@.len() as int) =~= pairs@);
    while i < pairs.len()
        invariant
            i <= pairs@.len(),
            k@ == key@,
            pair_of(pairs@, key@) == pair_of(pairs@.subrange(i as int, pairs@.len() as int), key@),
        decreases pairs.len() - i,
    {
        let ghost rest = pairs@.subrange(i as int, pairs@.len() as int);
        assert(rest.drop_first() =~= pairs@.subrange(i + 1, pairs@.len() as int));
        if crate::text::chars_eq(&to_chars(pairs[i].0.as_str()), &k) {
            return Some(&pairs[i].1);
        }
        i = i + 1;
    }
    None
}

/// Whether the node-semver crate reads the text as a version range.
pub uninterp spec fn node_range_parses(s: Seq<char>) -> bool;

/// `node_semver::Range::parse(range)`, `node_semver::Version::parse
/// (version)` and `Range::satisfies`: whether the range parses, and
/// whether both parse and the version satisfies the range (what the crate
/// accepts and how it matches are named, not spelled out).
#[verifier::external_body]
pub(crate) fn node_semver_check(range: &str, version: &str) -> (r: (bool, bool))
    ensures
        r.0 == node_range_parses(range@),
        r.1 == crate::asdf::node_satisfies(range@, version@),
{
    match node_semver::Range::parse(range) {
        Ok(parsed) => match node_semver::Version::parse(version) {
            Ok(v) => (true, v.satisfies(&parsed)),
            Err(_) => (true, false),
        },
        Err(_) => (false, false),
    }
}

/// Whether a path goes through a `node_modules` directory.
pub open spec fn in_node_modules(path: Seq<char>) -> bool {
    crate::text::find(path, "/node_modules/"@) is Some
}

/// The version of Node.js that a `package.json` asks for, given the path
/// of its directory and its engines: the `node` engine, when it reads as a
/// range; nothing inside `node_modules`.
pub fn package_json_version(path: &str, engines: &Vec<(String, String)>) -> (r: Option<String>)
    ensures
        in_node_modules(path@) ==> r is None,
        !in_node_modules(path@) ==> match pair_of(engines@, "node"@) {
            Some(v) => if node_range_parses(v) {
                r matches Some(x) && x@ == v
            } else {
                r is None
            },
            None => r is None,
        },
{
    if crate::text::find_pat(&to_chars(path), &to_chars("/node_modules/")).is_some() {
        return None;
    }
    match pair_value(engines, "node") {
        Some(v) => if node_semver_check(v.as_str(), "").0 {
            Some(crate::text::copy_string(v))
        } else {
            None
        },
        None => None,
    }
}

/// The version of Node.js that an `.nvmrc` asks for, given the path of its
/// directory and its contents: the contents, trimmed; nothing inside
/// `node_modules`.
pub fn nvmrc_version(path: &str, contents: &str) -> (r: Option<String>)
    ensures
        in_node_modules(path@) ==> r is None,
        !in_node_modules(path@) ==> (r matches Some(x) && x@ == crate::text::trim(contents@)),
{
    if crate::text::find_pat(&to_chars(path), &to_chars("/node_modules/")).is_some() {
        return None;
    }
    Some(crate::text::from_chars(crate::text::trim_chars(&to_chars(contents)).as_slice()))
}

/// The Node.js step: Node.js brought up through asdf, and whether the
/// engines and packages of each `package.json` are installed.
#[derive(Debug, Clone)]
pub struct UpConfigNodejs {
    pub asdf_base: crate::asdf::UpConfigAsdfBase,
    pub params: UpConfigNodejsParams,
}

impl UpConfigNodejs {
    /// Reads the configuration of the step: that of the `nodejs` tool (see
    /// `UpConfigAsdfBase::from_config_value`) and its parameters. (The
    /// version detection from `package.json` and `.nvmrc`, and the setup of
    /// a prefix per directory, are the caller's to attach.)
    pub fn from_config_value(config_value: Option<&ConfigValue>) -> (r: UpConfigNodejs)
        ensures
            r.asdf_base@.tool == "nodejs"@,
            r.asdf_base@.tool_url is None,
            r.asdf_base@.version == crate::asdf::asdf_version_of(crate::config_value::deref_opt(config_value)),
            crate::detect::strictly_sorted(r.asdf_base@.dirs),
            forall|y: Seq<char>| #[trigger] r.asdf_base@.dirs.contains(y) <==> crate::asdf::normalized_dirs(
                crate::asdf::asdf_raw_dirs_of(crate::config_value::deref_opt(config_value)),
            ).contains(y),
            crate::asdf::fresh(r.asdf_base@),
            r.params.install_engines == bool_field_or(
                crate::config_value::deref_opt(config_value),
                "install_engines"@,
                true,
            ),
            r.params.install_packages == bool_field_or(
                crate::config_value::deref_opt(config_value),
                "install_packages"@,
                true,
            ),
    {
        let asdf_base = crate::asdf::UpConfigAsdfBase::from_config_value("nodejs", config_value);
        let params = UpConfigNodejsParams::from_config_value(config_value);
        UpConfigNodejs { asdf_base, params }
    }
}

/// A package manager gets the bonus of `package.json`'s engines exactly
/// when one of the engines is its very name, and two more when its lock
/// file is there.
pub proof fn law_engine_weight_counts_exact_name(e: PackageInstallEngine, engines: Seq<Seq<char>>, lock: bool)
    ensures
        engine_weight(e, engines, lock) == (if exists|k: int| 0 <= k < engines.len() && engines[k] == engine_name(e) {
            1int
        } else {
            0int
        }) + (if lock {
            2int
        } else {
            0int
        }),
{
    if exists|k: int| 0 <= k < engines.len() && engines[k] == engine_name(e) {
        let k = choose|k: int| 0 <= k < engines.len() && engines[k] == engine_name(e);
        assert(engines.contains(engine_name(e)));
    }
}

/// The name of one package manager gives no other one the engines'
/// bonus (`pnpm` is not `npm`): the names are all different.
pub proof fn law_other_engine_name_gives_no_bonus(e: PackageInstallEngine, other: PackageInstallEngine, lock: bool)
    requires
        e != other,
    ensures
        engine_weight(e, seq![engine_name(other)], lock) == engine_weight(e, Seq::empty(), lock),
{
    assert(seq![engine_name(other)][0] == engine_name(other));
    if seq![engine_name(other)].contains(engine_name(e)) {
        let k = choose|k: int| 0 <= k < 1 && seq![engine_name(other)][k] == engine_name(e);
        assert(engine_name(other) == engine_name(e));
        reveal_strlit("npm");
        reveal_strlit("yarn");
        reveal_strlit("pnpm");
        assert(engine_name(PackageInstallEngine::Npm).len() == 3);
        assert(engine_name(PackageInstallEngine::Yarn).len() == 4);
        assert(engine_name(PackageInstallEngine::Pnpm).len() == 4);
        assert(engine_name(PackageInstallEngine::Yarn)[0] != engine_name(PackageInstallEngine::Pnpm)[0]);
    }
    assert(!Seq::<Seq<char>>::empty().contains(engine_name(e)));
}

/// With no lock file, the package manager that `package.json` names as
/// its only engine is tried before every other one.
pub proof fn law_named_engine_comes_first(e: PackageInstallEngine, other: PackageInstallEngine)
    requires
        e != other,
    ensures
        engine_key(e, engine_weight(e, seq![engine_name(e)], false)) > engine_key(
            other,
            engine_weight(other, seq![engine_name(e)], false),
        ),
{
    assert(seq![engine_name(e)][0] == engine_name(e));
    assert(seq![engine_name(e)].contains(engine_name(e)));
    law_other_engine_name_gives_no_bonus(other, e, false);
    assert(!Seq::<Seq<char>>::empty().contains(engine_name(other)));
}

} // verus!
