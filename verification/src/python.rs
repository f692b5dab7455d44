//! Parameters of the Python step: which requirement files pip installs.
use vstd::prelude::*;

use crate::config_value::{
    error_views, index_path, index_path_exec, key_path, key_path_exec, report, ConfigError,
    ConfigErrorKind, ConfigErrorView, ConfigValue, config_err, type_err, report_type, one_type, three_types,
};
use crate::text::{copy_string, has_prefix, to_chars, trim};

verus! {

/// The pip settings of a Python step: the requirement files to install,
/// whether they are found automatically, or whether pip is disabled.
#[derive(Debug, Clone)]
pub struct UpConfigPythonParams {
    pub pip_files: Vec<String>,
    pub pip_auto: bool,
    pub pip_disabled: bool,
}

pub struct PythonParamsView {
    pub pip_files: Seq<Seq<char>>,
    pub pip_auto: bool,
    pub pip_disabled: bool,
}

impl View for UpConfigPythonParams {
    type V = PythonParamsView;

    open spec fn view(&self) -> PythonParamsView {
        PythonParamsView {
            pip_files: Seq::new(self.pip_files@.len(), |k: int| self.pip_files@[k]@),
            pip_auto: self.pip_auto,
            pip_disabled: self.pip_disabled,
        }
    }
}

/// The entries of a `pip` list that read as strings, in order.
pub open spec fn pip_list_files(arr: Seq<ConfigValue>) -> Seq<Seq<char>>
    decreases arr.len(),
{
    if arr.len() == 0 {
        Seq::empty()
    } else {
        match arr.last().str_forced_of() {
            Some(s) => pip_list_files(arr.drop_last()).push(s),
            None => pip_list_files(arr.drop_last()),
        }
    }
}

/// One type error for each entry of a `pip` list that is not a string, at
/// `base[index]`.
pub open spec fn pip_list_errors(arr: Seq<ConfigValue>, base: Seq<char>) -> Seq<ConfigErrorView>
    decreases arr.len(),
{
    if arr.len() == 0 {
        Seq::empty()
    } else {
        match arr.last().str_forced_of() {
            Some(_) => pip_list_errors(arr.drop_last(), base),
            None => pip_list_errors(arr.drop_last(), base).push(
                type_err(index_path(base, (arr.len() - 1) as nat), seq!["string"@]),
            ),
        }
    }
}

/// What `pip` configures, and the errors reading it reports.
pub open spec fn pip_settings(pip: ConfigValue, base: Seq<char>) -> (PythonParamsView, Seq<ConfigErrorView>) {
    let none = PythonParamsView { pip_files: Seq::empty(), pip_auto: false, pip_disabled: false };
    match pip {
        ConfigValue::Array(a) => (
            PythonParamsView { pip_files: pip_list_files(a@), pip_auto: false, pip_disabled: false },
            pip_list_errors(a@, base),
        ),
        _ => match pip.bool_forced_of() {
            Some(true) => (PythonParamsView { pip_auto: true, ..none }, Seq::empty()),
            Some(false) => (PythonParamsView { pip_disabled: true, ..none }, Seq::empty()),
            None => match pip.str_forced_of() {
                Some(s) => if s == "auto"@ {
                    (PythonParamsView { pip_auto: true, ..none }, Seq::empty())
                } else {
                    (PythonParamsView { pip_files: seq![s], ..none }, Seq::empty())
                },
                None => (
                    none,
                    seq![type_err(base, seq!["string"@, "sequence"@, "boolean"@])],
                ),
            },
        },
    }
}

/// The parameters a configuration gives, and the errors it reports.
pub open spec fn python_params_of(cv: Option<ConfigValue>, error_key: Seq<char>) -> (
    PythonParamsView,
    Seq<ConfigErrorView>,
) {
    let none = PythonParamsView { pip_files: Seq::empty(), pip_auto: false, pip_disabled: false };
    match cv {
        Some(v) => match v.get_of("pip"@) {
            Some(pip) => pip_settings(pip, key_path(error_key, "pip"@)),
            None => (none, Seq::empty()),
        },
        None => (none, Seq::empty()),
    }
}

fn pip_from_list(
    arr: &Vec<ConfigValue>,
    base: &str,
    files: &mut Vec<String>,
    errors: &mut Vec<ConfigError>,
)
    requires
        old(files)@.len() == 0,
    ensures
        Seq::new(final(files)@.len(), |k: int| final(files)@[k]@) == pip_list_files(arr@),
        error_views(final(errors)@) == error_views(old(errors)@) + pip_list_errors(arr@, base@),
{
    let ghost start = error_views(errors@);
    let mut i: usize = 0;
    assert(arr@.subrange(0, 0) =~= Seq::<ConfigValue>::empty());
    assert(error_views(errors@) =~= start + Seq::<ConfigErrorView>::empty());
    assert(Seq::new(files@.len(), |k: int| files@[k]@) =~= Seq::<Seq<char>>::empty());
    while i < arr.len()
        invariant
            i <= arr@.len(),
            Seq::new(files@.len(), |k: int| files@[k]@) == pip_list_files(arr@.subrange(0, i as int)),
            error_views(errors@) == start + pip_list_errors(arr@.subrange(0, i as int), base@),
        decreases arr.len() - i,
    {
        assert(arr@.subrange(0, i + 1).drop_last() =~= arr@.subrange(0, i as int));
        assert(arr@.subrange(0, i + 1).last() == arr@[i as int]);
        match arr[i].as_str_forced() {
            Some(s) => {
                let ghost before = Seq::new(files@.len(), |k: int| files@[k]@);
                let ghost sv = s@;
                files.push(s);
                assert(Seq::new(files@.len(), |k: int| files@[k]@) =~= before.push(sv));
            },
            None => {
                let ghost before = error_views(errors@);
                report_type(errors, index_path_exec(base, i), one_type("string"));
                assert(error_views(errors@) =~= start + pip_list_errors(
                    arr@.subrange(0, i + 1),
                    base@,
                ));
            },
        }
        i = i + 1;
    }
    assert(arr@.subrange(0, i as int) =~= arr@);
}

impl UpConfigPythonParams {
    /// Reads `pip`: a list of requirement files (entries that are not
    /// strings are reported), `true`/`auto` to find them automatically,
    /// `false` to disable pip, or a single file; any other value is
    /// reported. Errors are keyed below `error_key.pip`.
    pub fn from_config_value(
        config_value: Option<&ConfigValue>,
        error_key: &str,
        errors: &mut Vec<ConfigError>,
    ) -> (r: Self)
        ensures
            ({
                let cv = match config_value {
                    Some(v) => Some(*v),
                    None => None,
                };
                &&& r@ == python_params_of(cv, error_key@).0
                &&& error_views(final(errors)@) == error_views(old(errors)@) + python_params_of(
                    cv,
                    error_key@,
                ).1
            }),
    {
        let mut pip_files: Vec<String> = Vec::new();
        let mut pip_auto = false;
        let mut pip_disabled = false;
        let ghost start = error_views(errors@);
        assert(start =~= start + Seq::<ConfigErrorView>::empty());
        if let Some(cv) = config_value {
            if let Some(pip) = cv.get("pip") {
                let base = key_path_exec(error_key, "pip");
                if let Some(arr) = pip.as_array() {
                    pip_from_list(arr, base.as_str(), &mut pip_files, errors);
                } else if let Some(value) = pip.as_bool_forced() {
                    if value {
                        pip_auto = true;
                    } else {
                        pip_disabled = true;
                    }
                } else if let Some(file_path) = pip.as_str_forced() {
                    let auto = to_chars("auto");
                    if crate::text::chars_eq(&to_chars(file_path.as_str()), &auto) {
                        pip_auto = true;
                    } else {
                        let ghost fv = file_path@;
                        pip_files.push(file_path);
                        assert(Seq::new(pip_files@.len(), |k: int| pip_files@[k]@) =~= seq![fv]);
                    }
                } else {
                    let ghost bv = base@;
                    report_type(errors, base, three_types("string", "sequence", "boolean"));
                    assert(error_views(errors@) =~= start + seq![
                        type_err(bv, seq!["string"@, "sequence"@, "boolean"@]),
                    ]);
                }
            }
        }
        let r = UpConfigPythonParams { pip_files, pip_auto, pip_disabled };
        assert(r@.pip_files =~= python_params_of(
            match config_value {
                Some(v) => Some(*v),
                None => None,
            },
            error_key@,
        ).0.pip_files);
        r
    }
}

/// The major, minor and patch numbers and the pre-release text that
/// `semver::Version::parse` reads from a version, if it reads one.
pub uninterp spec fn semver_parts(s: Seq<char>) -> Option<(u64, u64, u64, Seq<char>)>;

/// `semver::Version::parse(s)`: the version's `major`, `minor`, `patch`
/// and pre-release text, or nothing when the crate refuses the text (what
/// it accepts is named, not spelled out).
#[verifier::external_body]
fn parse_semver(s: &str) -> (r: Option<(u64, u64, u64, String)>)
    ensures
        match semver_parts(s@) {
            Some((a, b, c, p)) => r matches Some((x, y, z, q)) && x == a && y == b && z == c && q@ == p,
            None => r is None,
        },
{
    match semver::Version::parse(s) {
        Ok(v) => Some((v.major, v.minor, v.patch, v.pre.as_str().to_string())),
        Err(_) => None,
    }
}

/// Whether a Python version gets a virtual environment: only versions
/// that read as semantic versions, from 3.3.0 on.
#[derive(Debug, Clone, Copy, PartialEq, Eq, Structural)]
pub enum VenvSupport {
    Supported,
    TooOld,
    Unsupported,
}

/// Whether a version comes before 3.3.0, as semantic versions are ordered:
/// by major, minor and patch numbers, and a pre-release before its
/// release.
pub open spec fn before_venv(major: u64, minor: u64, patch: u64, pre: Seq<char>) -> bool {
    major < 3 || (major == 3 && (minor < 3 || (minor == 3 && patch == 0 && pre.len() > 0)))
}

/// Whether a Python version gets a virtual environment (see `VenvSupport`).
pub fn venv_support(version: &str) -> (r: VenvSupport)
    ensures
        match semver_parts(version@) {
            Some((a, b, c, p)) => if before_venv(a, b, c, p) {
                r == VenvSupport::TooOld
            } else {
                r == VenvSupport::Supported
            },
            None => r == VenvSupport::Unsupported,
        },
{
    match parse_semver(version) {
        Some((major, minor, patch, pre)) => {
            if major < 3 || (major == 3 && (minor < 3 || (minor == 3 && patch == 0 && pre.as_str().unicode_len() > 0))) {
                VenvSupport::TooOld
            } else {
                VenvSupport::Supported
            }
        },
        None => VenvSupport::Unsupported,
    }
}

/// The string value of `v`, if it is one.
pub open spec fn str_value(v: Option<ConfigValue>) -> Option<Seq<char>> {
    match v {
        Some(ConfigValue::Str(s)) => Some(s@),
        _ => None,
    }
}

/// The value under `key` of `v`, when `v` is a table.
pub open spec fn table_field(v: Option<ConfigValue>, key: Seq<char>) -> Option<ConfigValue> {
    match v {
        Some(ConfigValue::Table(_)) => v->0.get_of(key),
        _ => None,
    }
}

/// A character that starts a version constraint.
pub open spec fn is_constraint_char(c: char) -> bool {
    c == '>' || c == '<' || c == '='
}

/// The position of the first character of `s` that starts a version
/// constraint, if any.
pub open spec fn first_constraint(s: Seq<char>) -> Option<int>
    decreases s.len(),
{
    if s.len() == 0 {
        None
    } else if is_constraint_char(s.last()) && first_constraint(s.drop_last()) is None {
        Some(s.len() - 1)
    } else {
        first_constraint(s.drop_last())
    }
}

/// `s` without quotes.
pub open spec fn without_quotes(s: Seq<char>) -> Seq<char>
    decreases s.len(),
{
    if s.len() == 0 {
        s
    } else if s.last() == '\'' || s.last() == '"' {
        without_quotes(s.drop_last())
    } else {
        without_quotes(s.drop_last()).push(s.last())
    }
}

/// The version a build requirement such as `python>=3.7` gives: what
/// follows its first constraint character, trimmed and without quotes;
/// nothing for a requirement that is not on python or has no constraint.
pub open spec fn requirement_version(r: Seq<char>) -> Option<Seq<char>> {
    if has_prefix(r, "python"@) {
        match first_constraint(r) {
            Some(i) => Some(without_quotes(trim(r.subrange(i + 1, r.len() as int)))),
            None => None,
        }
    } else {
        None
    }
}

/// The version the first build requirement that gives one gives.
pub open spec fn requirements_version(reqs: Seq<ConfigValue>) -> Option<Seq<char>>
    decreases reqs.len(),
{
    if reqs.len() == 0 {
        None
    } else {
        match reqs[0] {
            ConfigValue::Str(r) if requirement_version(r@) is Some => requirement_version(r@),
            _ => requirements_version(reqs.drop_first()),
        }
    }
}

/// The Python version a `pyproject.toml` document asks for: its
/// `project.requires-python`, else its `tool.poetry.dependencies.python`
/// (a string, or the `version` of a table), else what its first python
/// requirement among `build-system.requires` gives.
pub open spec fn pyproject_version(doc: ConfigValue) -> Option<Seq<char>> {
    let project = table_field(Some(doc), "project"@);
    let poetry_python = table_field(
        table_field(table_field(table_field(Some(doc), "tool"@), "poetry"@), "dependencies"@),
        "python"@,
    );
    let poetry_version = match poetry_python {
        Some(ConfigValue::Str(v)) => Some(v@),
        Some(ConfigValue::Table(_)) => str_value(poetry_python->0.get_of("version"@)),
        _ => None,
    };
    match str_value(table_field(project, "requires-python"@)) {
        Some(v) => Some(v),
        None => match poetry_version {
            Some(v) => Some(v),
            None => match table_field(table_field(Some(doc), "build-system"@), "requires"@) {
                Some(ConfigValue::Array(a)) => requirements_version(a@),
                _ => None,
            },
        },
    }
}

fn table_field_exec<'a>(v: Option<&'a ConfigValue>, key: &str) -> (r: Option<&'a ConfigValue>)
    ensures
        match table_field(crate::config_value::deref_opt(v), key@) {
            Some(x) => r matches Some(y) && *y == x,
            None => r is None,
        },
{
    match v {
        Some(t) => match t {
            ConfigValue::Table(_) => t.get(key),
            _ => None,
        },
        None => None,
    }
}

fn requirement_version_exec(r: &String) -> (v: Option<String>)
    ensures
        match requirement_version(r@) {
            Some(x) => v matches Some(y) && y@ == x,
            None => v is None,
        },
{
    let cs = to_chars(r.as_str());
    if !crate::text::starts_with(&cs, &to_chars("python")) {
        return None;
    }
    let mut i: usize = 0;
    while i < cs.len() && !(cs[i] == '>' || cs[i] == '<' || cs[i] == '=')
        invariant
            i <= cs@.len(),
            forall|k: int| 0 <= k < i ==> !is_constraint_char(#[trigger] cs@[k]),
        decreases cs.len() - i,
    {
        i = i + 1;
    }
    proof {
        lemma_first_constraint(cs@, i as int);
    }
    if i == cs.len() {
        return None;
    }
    let rest = crate::text::trim_chars(&crate::text::slice(&cs, i + 1, cs.len()));
    let mut out: Vec<char> = Vec::new();
    let mut j: usize = 0;
    while j < rest.len()
        invariant
            j <= rest@.len(),
            out@ == without_quotes(rest@.subrange(0, j as int)),
        decreases rest.len() - j,
    {
        let c = rest[j];
        proof {
            let pre = rest@.subrange(0, j + 1);
            assert(pre.drop_last() =~= rest@.subrange(0, j as int));
            assert(pre.last() == c);
        }
        if c != '\'' && c != '"' {
            out.push(c);
        }
        j = j + 1;
    }
    assert(rest@.subrange(0, j as int) =~= rest@);
    Some(crate::text::from_chars(out.as_slice()))
}

/// Where the first constraint character is, given that none comes before
/// `i` and `i` is the end or one.
proof fn lemma_first_constraint(s: Seq<char>, i: int)
    requires
        0 <= i <= s.len(),
        forall|k: int| 0 <= k < i ==> !is_constraint_char(#[trigger] s[k]),
        i < s.len() ==> is_constraint_char(s[i]),
    ensures
        i == s.len() ==> first_constraint(s) is None,
        i < s.len() ==> first_constraint(s) == Some(i),
    decreases s.len(),
{
    if s.len() > 0 {
        if i < s.len() {
            if i < s.len() - 1 {
                lemma_first_constraint(s.drop_last(), i);
            } else {
                lemma_first_constraint(s.drop_last(), i);
            }
        } else {
            lemma_first_constraint(s.drop_last(), i - 1);
        }
    }
}

/// The Python version a `pyproject.toml` document asks for (see
/// `pyproject_version`), the document read as a configuration value.
pub fn version_from_pyproject(doc: &ConfigValue) -> (r: Option<String>)
    ensures
        match pyproject_version(*doc) {
            Some(v) => r matches Some(x) && x@ == v,
            None => r is None,
        },
{
    let project = table_field_exec(Some(doc), "project");
    match table_field_exec(project, "requires-python") {
        Some(ConfigValue::Str(v)) => {
            return Some(copy_string(v));
        },
        _ => {},
    }
    let tool = table_field_exec(Some(doc), "tool");
    let poetry = table_field_exec(tool, "poetry");
    let deps = table_field_exec(poetry, "dependencies");
    match table_field_exec(deps, "python") {
        Some(ConfigValue::Str(v)) => {
            return Some(copy_string(v));
        },
        Some(t) => match t {
            ConfigValue::Table(_) => match t.get("version") {
                Some(ConfigValue::Str(v)) => {
                    return Some(copy_string(v));
                },
                _ => {},
            },
            _ => {},
        },
        None => {},
    }
    let build = table_field_exec(Some(doc), "build-system");
    match table_field_exec(build, "requires") {
        Some(ConfigValue::Array(a)) => {
            let mut i: usize = 0;
            assert(a@.subrange(0, a@.len() as int) =~= a@);
            assert(pyproject_version(*doc) == requirements_version(a@));
            while i < a.len()
                invariant
                    i <= a@.len(),
                    pyproject_version(*doc) == requirements_version(a@),
                    requirements_version(a@) == requirements_version(a@.subrange(i as int, a@.len() as int)),
                decreases a.len() - i,
            {
                let ghost rest = a@.subrange(i as int, a@.len() as int);
                assert(rest.drop_first() =~= a@.subrange(i + 1, a@.len() as int));
                assert(rest[0] == a@[i as int]);
                match &a[i] {
                    ConfigValue::Str(r) => match requirement_version_exec(r) {
                        Some(v) => {
                            return Some(v);
                        },
                        None => {},
                    },
                    _ => {},
                }
                i = i + 1;
            }
            None
        },
        _ => None,
    }
}

} // verus!
