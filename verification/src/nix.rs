//! The nix step: packages to install, or a nix file to use.
use vstd::prelude::*;

use crate::config_value::{
    deref_opt, error_views, index_path, index_path_exec, report, ConfigError, ConfigErrorKind,
    ConfigErrorView, ConfigValue, config_err, type_err, report_type, one_type,
};
use crate::detect::{insert_sorted, strictly_sorted};
use crate::error::{decimal, decimal_chars, UpError};
use crate::github_release::{hex, hex_string, lemma_hex_len};
use crate::order::string_seq;
use crate::path::{components, path_components, relative_parts, relative_parts_of, relative_text};
use crate::text::{append, chars_eq, from_chars, join, join_chars, push_str, slice, split, split_char, to_chars, views};
use vstd::utf8::encode_utf8;

verus! {

pub open spec fn opt_view(o: Option<String>) -> Option<Seq<char>> {
    match o {
        Some(s) => Some(s@),
        None => None,
    }
}

/// Nix packages to install, or a nix file to use (which wins).
#[derive(Debug, Clone)]
pub struct UpConfigNix {
    pub packages: Vec<String>,
    pub nixfile: Option<String>,
}

pub struct NixView {
    pub packages: Seq<Seq<char>>,
    pub nixfile: Option<Seq<char>>,
}

impl View for UpConfigNix {
    type V = NixView;

    open spec fn view(&self) -> NixView {
        NixView {
            packages: Seq::new(self.packages@.len(), |k: int| self.packages@[k]@),
            nixfile: match self.nixfile {
                Some(f) => Some(f@),
                None => None,
            },
        }
    }
}

/// `base.name`.
pub open spec fn dotted(base: Seq<char>, name: Seq<char>) -> Seq<char> {
    base + "."@ + name
}

pub open spec fn no_nix() -> NixView {
    NixView { packages: Seq::empty(), nixfile: None }
}

/// The entries of a list that read as strings, in order.
pub open spec fn package_list(a: Seq<ConfigValue>) -> Seq<Seq<char>>
    decreases a.len(),
{
    if a.len() == 0 {
        Seq::empty()
    } else {
        match a.last().str_forced_of() {
            Some(s) => package_list(a.drop_last()).push(s),
            None => package_list(a.drop_last()),
        }
    }
}

/// One type error for each entry of a list that is not a string, at
/// `base[index]`.
pub open spec fn package_list_errors(a: Seq<ConfigValue>, base: Seq<char>) -> Seq<ConfigErrorView>
    decreases a.len(),
{
    if a.len() == 0 {
        Seq::empty()
    } else {
        match a.last().str_forced_of() {
            Some(_) => package_list_errors(a.drop_last(), base),
            None => package_list_errors(a.drop_last(), base).push(
                type_err(index_path(base, (a.len() - 1) as nat), seq!["string"@]),
            ),
        }
    }
}

/// What a nix step's configuration gives: a list of packages, a nix file
/// as text, or a table with `file` (which wins) or `packages`. The bare
/// step (no value, or an empty table) is the default configuration, which
/// looks for `shell.nix` or `default.nix` when it runs: no packages, no
/// file, and nothing reported. A non-empty table with neither key is
/// reported as missing its packages.
pub open spec fn nix_of(cv: Option<ConfigValue>, base: Seq<char>) -> (NixView, Seq<ConfigErrorView>) {
    let missing = config_err(dotted(base, "packages"@), ConfigErrorKind::MissingKey);
    match cv {
        None => (no_nix(), Seq::empty()),
        Some(ConfigValue::Table(t)) if t@.len() == 0 => (no_nix(), Seq::empty()),
        Some(ConfigValue::Table(t)) => {
            let v = ConfigValue::Table(t);
            let (file_done, e1) = match v.get_of("file"@) {
                Some(f) => match f.str_forced_of() {
                    Some(s) => (Some(s), Seq::<ConfigErrorView>::empty()),
                    None => (
                        None,
                        seq![
                            type_err(dotted(base, "file"@), seq!["string"@]),
                        ],
                    ),
                },
                None => (None, Seq::empty()),
            };
            match file_done {
                Some(s) => (NixView { packages: Seq::empty(), nixfile: Some(s) }, Seq::empty()),
                None => match v.get_of("packages"@) {
                    Some(ConfigValue::Array(a)) => (
                        NixView { packages: package_list(a@), nixfile: None },
                        e1,
                    ),
                    Some(_) => (
                        no_nix(),
                        e1 + seq![
                            type_err(dotted(base, "packages"@), seq!["array"@]),
                            missing,
                        ],
                    ),
                    None => (no_nix(), e1.push(missing)),
                },
            }
        },
        Some(ConfigValue::Array(a)) => (
            NixView { packages: package_list(a@), nixfile: None },
            package_list_errors(a@, base),
        ),
        Some(v) => match v.str_forced_of() {
            Some(s) => (NixView { packages: Seq::empty(), nixfile: Some(s) }, Seq::empty()),
            None => (no_nix(), seq![type_err(base, seq!["string, array or table"@])]),
        },
    }
}

fn dotted_exec(base: &str, name: &str) -> (r: String)
    ensures
        r@ == dotted(base@, name@),
{
    let mut out = to_chars(base);
    push_str(&mut out, ".");
    push_str(&mut out, name);
    from_chars(out.as_slice())
}

fn nothing() -> (r: UpConfigNix)
    ensures
        r@ == no_nix(),
{
    let r = UpConfigNix { packages: Vec::new(), nixfile: None };
    assert(r@.packages =~= Seq::<Seq<char>>::empty());
    r
}

fn nixfile_only(s: String) -> (r: UpConfigNix)
    ensures
        r@ == (NixView { packages: Seq::empty(), nixfile: Some(s@) }),
{
    let r = UpConfigNix { packages: Vec::new(), nixfile: Some(s) };
    assert(r@.packages =~= Seq::<Seq<char>>::empty());
    r
}

fn packages_from(a: &Vec<ConfigValue>, base: &str, report_errors: bool, errors: &mut Vec<ConfigError>) -> (r: Vec<String>)
    ensures
        Seq::new(r@.len(), |k: int| r@[k]@) == package_list(a@),
        report_errors ==> error_views(final(errors)@) == error_views(old(errors)@) + package_list_errors(a@, base@),
        !report_errors ==> error_views(final(errors)@) == error_views(old(errors)@),
{
    let ghost start = error_views(errors@);
    let mut r: Vec<String> = Vec::new();
    let mut i: usize = 0;
    assert(a@.subrange(0, 0) =~= Seq::<ConfigValue>::empty());
    assert(error_views(errors@) =~= start + Seq::<ConfigErrorView>::empty());
    assert(Seq::new(r@.len(), |k: int| r@[k]@) =~= Seq::<Seq<char>>::empty());
    while i < a.len()
        invariant
            i <= a@.len(),
            Seq::new(r@.len(), |k: int| r@[k]@) == package_list(a@.subrange(0, i as int)),
            report_errors ==> error_views(errors@) == start + package_list_errors(a@.subrange(0, i as int), base@),
            !report_errors ==> error_views(errors@) == start,
        decreases a.len() - i,
    {
        assert(a@.subrange(0, i + 1).drop_last() =~= a@.subrange(0, i as int));
        match a[i].as_str_forced() {
            Some(s) => {
                let ghost before = Seq::new(r@.len(), |k: int| r@[k]@);
                let ghost sv = s@;
                r.push(s);
                assert(Seq::new(r@.len(), |k: int| r@[k]@) =~= before.push(sv));
            },
            None => {
                if report_errors {
                    report_type(errors, index_path_exec(base, i), one_type("string"));
                    assert(error_views(errors@) =~= start + package_list_errors(a@.subrange(0, i + 1), base@));
                }
            },
        }
        i = i + 1;
    }
    assert(a@.subrange(0, i as int) =~= a@);
    r
}

impl UpConfigNix {
    pub fn new_from_packages(packages: Vec<String>) -> (r: UpConfigNix)
        ensures
            r.packages@ == packages@,
            r.nixfile is None,
    {
        UpConfigNix { packages, nixfile: None }
    }

    /// Reads a nix step's configuration (see `nix_of`); errors are keyed
    /// below `error_key`.
    pub fn from_config_value(config_value: Option<&ConfigValue>, error_key: &str, errors: &mut Vec<ConfigError>) -> (r: UpConfigNix)
        ensures
            ({
                let (n, es) = nix_of(deref_opt(config_value), error_key@);
                &&& r@ == n
                &&& error_views(final(errors)@) == error_views(old(errors)@) + es
            }),
    {
        let ghost start = error_views(errors@);
        let cv = match config_value {
            Some(cv) => cv,
            None => {
                assert(error_views(errors@) =~= start + Seq::<ConfigErrorView>::empty());
                return nothing();
            },
        };
        match cv {
            ConfigValue::Table(t) if t.len() == 0 => {
                assert(error_views(errors@) =~= start + Seq::<ConfigErrorView>::empty());
                nothing()
            },
            ConfigValue::Table(_) => {
                match cv.get("file") {
                    Some(f) => match f.as_str_forced() {
                        Some(s) => {
                            assert(error_views(errors@) =~= start + Seq::<ConfigErrorView>::empty());
                            return nixfile_only(s);
                        },
                        None => {
                            report_type(errors, dotted_exec(error_key, "file"), one_type("string"));
                        },
                    },
                    None => {},
                }
                let ghost e1 = error_views(errors@);
                match cv.get("packages") {
                    Some(p) => match p {
                        ConfigValue::Array(a) => {
                            let packages = packages_from(a, error_key, false, errors);
                            let r = UpConfigNix { packages, nixfile: None };
                            proof {
                                let (n, es) = nix_of(deref_opt(config_value), error_key@);
                                assert(error_views(errors@) =~= start + es);
                            }
                            r
                        },
                        _ => {
                            report_type(errors, dotted_exec(error_key, "packages"), one_type("array"));
                            report(errors, dotted_exec(error_key, "packages"), ConfigErrorKind::MissingKey);
                            proof {
                                let (n, es) = nix_of(deref_opt(config_value), error_key@);
                                assert(error_views(errors@) =~= start + es);
                            }
                            nothing()
                        },
                    },
                    None => {
                        report(errors, dotted_exec(error_key, "packages"), ConfigErrorKind::MissingKey);
                        proof {
                            let (n, es) = nix_of(deref_opt(config_value), error_key@);
                            assert(error_views(errors@) =~= start + es);
                        }
                        nothing()
                    },
                }
            },
            ConfigValue::Array(a) => {
                let packages = packages_from(a, error_key, true, errors);
                UpConfigNix { packages, nixfile: None }
            },
            _ => match cv.as_str_forced() {
                Some(s) => {
                    assert(error_views(errors@) =~= start + Seq::<ConfigErrorView>::empty());
                    nixfile_only(s)
                },
                None => {
                    report_type(errors, from_chars(to_chars(error_key).as_slice()), one_type("string, array or table"));
                    nothing()
                },
            },
        }
    }
}

/// The last component of a path, when it is a name (not the root, `.` or
/// `..`), as `Path::file_name` gives it.
pub open spec fn file_name_of(p: Seq<char>) -> Option<Seq<char>> {
    let cs = components(p);
    if cs.len() == 0 {
        None
    } else if cs.last() == seq!['/'] || cs.last() == seq!['.'] || cs.last() == seq!['.', '.'] {
        None
    } else {
        Some(cs.last())
    }
}

/// The name of the path `p`, if it ends with one (see `file_name_of`).
pub fn file_name(p: &str) -> (r: Option<String>)
    ensures
        match file_name_of(p@) {
            Some(n) => r matches Some(x) && x@ == n,
            None => r is None,
        },
{
    let cs = path_components(&to_chars(p));
    if cs.len() == 0 {
        return None;
    }
    let last = &cs[cs.len() - 1];
    assert(views(cs@).last() == last@);
    let root = vec!['/'];
    let dot = vec!['.'];
    let dots = vec!['.', '.'];
    assert(root@ =~= seq!['/']);
    assert(dot@ =~= seq!['.']);
    assert(dots@ =~= seq!['.', '.']);
    if chars_eq(last, &root) || chars_eq(last, &dot) || chars_eq(last, &dots) {
        return None;
    }
    Some(from_chars(last.as_slice()))
}

/// Where the nix dependencies come from: packages, a nix file, or a flake.
#[derive(Debug, Clone)]
pub enum NixSource {
    Packages(Vec<String>),
    NixFile(String),
    Flake(String),
}

pub enum NixSourceView {
    Packages(Seq<Seq<char>>),
    NixFile(Seq<char>),
    Flake(Seq<char>),
}

impl View for NixSource {
    type V = NixSourceView;

    open spec fn view(&self) -> NixSourceView {
        match self {
            NixSource::Packages(p) => NixSourceView::Packages(Seq::new(p@.len(), |k: int| p@[k]@)),
            NixSource::NixFile(f) => NixSourceView::NixFile(f@),
            NixSource::Flake(f) => NixSourceView::Flake(f@),
        }
    }
}

/// The files looked for, in order, at the root of the work directory when
/// neither a nix file nor packages are given.
pub fn nix_file_candidates() -> (r: Vec<String>)
    ensures
        r@.len() == 3,
        r@[0]@ == "shell.nix"@,
        r@[1]@ == "default.nix"@,
        r@[2]@ == "flake.nix"@,
{
    vec![String::from_str("shell.nix"), String::from_str("default.nix"), String::from_str("flake.nix")]
}

/// What the source of a nix step is: the nix file given, else the
/// packages given, else the first candidate file found at the root (an
/// error when there is none); a file must lie in the work directory, and
/// is a flake when named `flake.nix`.
pub open spec fn nix_source_of(
    nixfile: Option<Seq<char>>,
    packages: Seq<Seq<char>>,
    wd_root: Seq<char>,
    found: Option<Seq<char>>,
) -> Result<Option<Seq<char>>, Seq<char>> {
    let chosen: Result<Option<Seq<char>>, Seq<char>> = match nixfile {
        Some(f) => Ok(Some(f)),
        None => if packages.len() > 0 {
            Ok(None)
        } else {
            match found {
                Some(f) => Ok(Some(f)),
                None => Err("no nix file found in "@ + wd_root),
            }
        },
    };
    match chosen {
        Ok(Some(f)) => if relative_parts_of(wd_root, f) is Some {
            Ok(Some(f))
        } else {
            Err("file "@ + f + " is not in work directory"@)
        },
        other => other,
    }
}

impl NixSource {
    /// Decides the source of a nix step (see `nix_source_of`), given the
    /// nix file configured (as an absolute path), the packages, the root
    /// of the work directory and the first candidate file found there.
    pub fn new(nixfile: Option<String>, packages: &Vec<String>, wd_root: &str, found: Option<String>) -> (r: Result<NixSource, UpError>)
        ensures
            match nix_source_of(
                opt_view(nixfile),
                Seq::new(packages@.len(), |k: int| packages@[k]@),
                wd_root@,
                opt_view(found),
            ) {
                Ok(Some(f)) => if file_name_of(f) == Some("flake.nix"@) {
                    r matches Ok(s) && s@ == NixSourceView::Flake(f)
                } else {
                    r matches Ok(s) && s@ == NixSourceView::NixFile(f)
                },
                Ok(None) => r matches Ok(NixSource::Packages(p)) && strictly_sorted(string_seq(p@)) && forall|y: Seq<char>|
                    #[trigger] string_seq(p@).contains(y) <==> string_seq(packages@).contains(y),
                Err(m) => r matches Err(UpError::Exec(x)) && x@ == m,
            },
    {
        let chosen = match nixfile {
            Some(f) => Some(f),
            None => if packages.len() > 0 {
                None
            } else {
                match found {
                    Some(f) => Some(f),
                    None => {
                        let mut m = to_chars("no nix file found in ");
                        push_str(&mut m, wd_root);
                        return Err(UpError::Exec(from_chars(m.as_slice())));
                    },
                }
            },
        };
        match chosen {
            Some(f) => {
                if relative_parts(wd_root, f.as_str()).is_none() {
                    let mut m = to_chars("file ");
                    push_str(&mut m, f.as_str());
                    push_str(&mut m, " is not in work directory");
                    return Err(UpError::Exec(from_chars(m.as_slice())));
                }
                let is_flake = match file_name(f.as_str()) {
                    Some(n) => chars_eq(&to_chars(n.as_str()), &to_chars("flake.nix")),
                    None => false,
                };
                if is_flake {
                    Ok(NixSource::Flake(f))
                } else {
                    Ok(NixSource::NixFile(f))
                }
            },
            None => {
                let mut set: Vec<String> = Vec::new();
                let mut i: usize = 0;
                while i < packages.len()
                    invariant
                        i <= packages@.len(),
                        strictly_sorted(string_seq(set@)),
                        forall|y: Seq<char>| #[trigger] string_seq(set@).contains(y) <==> string_seq(packages@).subrange(0, i as int).contains(y),
                    decreases packages.len() - i,
                {
                    let ghost pre = string_seq(packages@).subrange(0, i as int);
                    let ghost post = string_seq(packages@).subrange(0, i + 1);
                    insert_sorted(&mut set, from_chars(to_chars(packages[i].as_str()).as_slice()));
                    proof {
                        assert(post =~= pre.push(packages@[i as int]@));
                        assert forall|y: Seq<char>| #[trigger] string_seq(set@).contains(y) <==> post.contains(y) by {
                            if post.contains(y) {
                                let j = choose|j: int| 0 <= j < post.len() && post[j] == y;
                                if j < i {
                                    assert(pre[j] == y);
                                }
                            }
                            if pre.contains(y) {
                                let j = choose|j: int| 0 <= j < pre.len() && pre[j] == y;
                                assert(post[j] == y);
                            }
                            if y == packages@[i as int]@ {
                                assert(post[i as int] == y);
                            }
                        }
                    }
                    i = i + 1;
                }
                assert(string_seq(packages@).subrange(0, i as int) =~= string_seq(packages@));
                assert(Seq::new(packages@.len(), |k: int| packages@[k]@) =~= string_seq(packages@));
                Ok(NixSource::Packages(set))
            },
        }
    }

    /// The name of the source: `packages`, or the name of its file (`nixfile`
    /// or `flake` when the path ends with no name).
    pub fn name(&self) -> (r: String)
        ensures
            r@ == match self@ {
                NixSourceView::Packages(_) => "packages"@,
                NixSourceView::NixFile(f) => match file_name_of(f) {
                    Some(n) => n,
                    None => "nixfile"@,
                },
                NixSourceView::Flake(f) => match file_name_of(f) {
                    Some(n) => n,
                    None => "flake"@,
                },
            },
    {
        match self {
            NixSource::Packages(_) => String::from_str("packages"),
            NixSource::NixFile(f) => match file_name(f.as_str()) {
                Some(n) => n,
                None => String::from_str("nixfile"),
            },
            NixSource::Flake(f) => match file_name(f.as_str()) {
                Some(n) => n,
                None => String::from_str("flake"),
            },
        }
    }

    /// How the source is shown: the number of packages, the nix file
    /// (relative to the work directory when it lies in it), or the flake.
    pub fn desc(&self, wd_root: &str) -> (r: String)
        ensures
            r@ == match self@ {
                NixSourceView::Packages(p) => decimal(p.len()) + " package"@ + if p.len() > 1 {
                    "s"@
                } else {
                    Seq::empty()
                },
                NixSourceView::NixFile(f) => "packages from "@ + match relative_parts_of(wd_root@, f) {
                    Some(rest) => relative_text(rest),
                    None => f,
                },
                NixSourceView::Flake(_) => "packages from flake"@,
            },
    {
        match self {
            NixSource::Packages(p) => {
                let mut out = decimal_chars(p.len());
                push_str(&mut out, " package");
                if p.len() > 1 {
                    push_str(&mut out, "s");
                }
                from_chars(out.as_slice())
            },
            NixSource::NixFile(f) => {
                let mut out = to_chars("packages from ");
                match relative_parts(wd_root, f.as_str()) {
                    Some(rest) => {
                        let sep = vec!['/'];
                        assert(sep@ =~= seq!['/']);
                        append(&mut out, &join_chars(&rest, &sep));
                    },
                    None => push_str(&mut out, f.as_str()),
                }
                from_chars(out.as_slice())
            },
            NixSource::Flake(_) => String::from_str("packages from flake"),
        }
    }

    /// The profile of the source: `profile-`, the kind (`pkgs`, the file's
    /// name or `nixfile`, or `flake`), `-` and the first 16 hexadecimal
    /// digits of the BLAKE3 hash of the packages joined with newlines, or
    /// of `file_data`, what was read of the source's files.
    pub fn profile_id(&self, file_data: &Vec<u8>) -> (r: String)
        ensures
            r@ == "profile-"@ + match self@ {
                NixSourceView::Packages(_) => "pkgs"@,
                NixSourceView::NixFile(f) => match file_name_of(f) {
                    Some(n) => n,
                    None => "nixfile"@,
                },
                NixSourceView::Flake(_) => "flake"@,
            } + "-"@ + hex(blake3_digest(match self@ {
                NixSourceView::Packages(p) => encode_utf8(join(p, seq!['\n'])),
                _ => file_data@,
            })).subrange(0, 16),
    {
        let mut data: Vec<u8> = Vec::new();
        let mut out = to_chars("profile-");
        match self {
            NixSource::Packages(p) => {
                let mut parts: Vec<Vec<char>> = Vec::new();
                let mut i: usize = 0;
                while i < p.len()
                    invariant
                        i <= p@.len(),
                        views(parts@) == Seq::new(i as nat, |k: int| p@[k]@),
                    decreases p.len() - i,
                {
                    let ghost before = views(parts@);
                    parts.push(to_chars(p[i].as_str()));
                    assert(views(parts@) =~= before.push(p@[i as int]@));
                    assert(views(parts@) =~= Seq::new((i + 1) as nat, |k: int| p@[k]@));
                    i = i + 1;
                }
                let sep = vec!['\n'];
                assert(sep@ =~= seq!['\n']);
                let joined = from_chars(join_chars(&parts, &sep).as_slice());
                push_bytes(&mut data, joined.as_str().as_bytes());
                assert(data@ =~= encode_utf8(join(Seq::new(p@.len(), |k: int| p@[k]@), seq!['\n'])));
                push_str(&mut out, "pkgs");
            },
            NixSource::NixFile(f) => {
                push_bytes(&mut data, file_data.as_slice());
                assert(data@ =~= file_data@);
                match file_name(f.as_str()) {
                    Some(n) => push_str(&mut out, n.as_str()),
                    None => push_str(&mut out, "nixfile"),
                }
            },
            NixSource::Flake(_) => {
                push_bytes(&mut data, file_data.as_slice());
                assert(data@ =~= file_data@);
                push_str(&mut out, "flake");
            },
        }
        let digest = blake3_of(data.as_slice());
        let h = to_chars(hex_string(digest.as_slice()).as_str());
        proof {
            lemma_hex_len(digest@);
        }
        push_str(&mut out, "-");
        append(&mut out, &slice(&h, 0, 16));
        from_chars(out.as_slice())
    }
}

/// The BLAKE3 hash of `data`.
pub uninterp spec fn blake3_digest(data: Seq<u8>) -> Seq<u8>;

/// `blake3::hash`: the BLAKE3 hash of `data`, 32 bytes (`OUT_LEN`).
#[verifier::external_body]
fn blake3_of(data: &[u8]) -> (r: Vec<u8>)
    ensures
        r@ == blake3_digest(data@),
        r@.len() == 32,
{
    blake3::hash(data).as_bytes().to_vec()
}

fn push_bytes(data: &mut Vec<u8>, b: &[u8])
    ensures
        final(data)@ == old(data)@ + b@,
{
    let ghost start = data@;
    let mut k: usize = 0;
    while k < b.len()
        invariant
            k <= b@.len(),
            data@ == start + b@.subrange(0, k as int),
        decreases b.len() - k,
    {
        data.push(b[k]);
        assert(data@ =~= start + b@.subrange(0, k + 1));
        k = k + 1;
    }
    assert(b@.subrange(0, k as int) =~= b@);
}

/// The matches, in order, of the regex `"/nix/store/[^"]+"` in `text`.
pub uninterp spec fn quoted_store_paths(text: Seq<char>) -> Seq<Seq<char>>;

/// `regex::Regex::find_iter` with the pattern of a quoted nix store path:
/// the texts of the successive matches (what the regex crate matches is
/// named, not spelled out).
#[verifier::external_body]
fn find_quoted_store_paths(text: &str) -> (r: Vec<String>)
    ensures
        string_seq(r@) == quoted_store_paths(text@),
{
    let re = regex::Regex::new(r#""/nix/store/[^"]+""#).unwrap();
    let mut out = Vec::new();
    for m in re.find_iter(text) {
        out.push(m.as_str().to_string());
    }
    out
}

/// `s` without the `c`s it starts or ends with, as `str::trim_matches`.
pub open spec fn trim_char(s: Seq<char>, c: char) -> Seq<char> {
    crate::detect::drop_trailing(crate::detect::drop_leading(s, c), c)
}

/// The nix store paths that the archive of a flake lists: its quoted
/// `/nix/store/...` paths, without their quotes.
pub fn flake_archive_paths(archive: &str) -> (r: Vec<String>)
    ensures
        string_seq(r@) == Seq::new(
            quoted_store_paths(archive@).len(),
            |k: int| trim_char(quoted_store_paths(archive@)[k], '"'),
        ),
{
    let found = find_quoted_store_paths(archive);
    let mut r: Vec<String> = Vec::new();
    let mut i: usize = 0;
    while i < found.len()
        invariant
            i <= found@.len(),
            string_seq(found@) == quoted_store_paths(archive@),
            string_seq(r@) == Seq::new(i as nat, |k: int| trim_char(quoted_store_paths(archive@)[k], '"')),
        decreases found.len() - i,
    {
        let ghost before = string_seq(r@);
        let lead = crate::detect::trim_matches_char(found[i].as_str(), '"');
        assert(found@[i as int]@ == quoted_store_paths(archive@)[i as int]);
        r.push(lead);
        assert(string_seq(r@) =~= before.push(trim_char(quoted_store_paths(archive@)[i as int], '"')));
        assert(string_seq(r@) =~= Seq::new((i + 1) as nat, |k: int| trim_char(quoted_store_paths(archive@)[k], '"')));
        i = i + 1;
    }
    r
}

/// A variable of a nix profile: a string, a list of strings, or something
/// else.
#[derive(Debug, Clone)]
pub enum NixProfileVariable {
    Var(String),
    Array(Vec<String>),
    Unknown,
}

/// The variables of a nix profile, by name (each name once).
#[derive(Debug, Clone)]
pub struct NixProfile {
    pub variables: Vec<(String, NixProfileVariable)>,
}

/// The variable named `key` among `vs`, if any.
pub open spec fn variable_of(vs: Seq<(String, NixProfileVariable)>, key: Seq<char>) -> Option<NixProfileVariable>
    decreases vs.len(),
{
    if vs.len() == 0 {
        None
    } else if vs[0].0@ == key {
        Some(vs[0].1)
    } else {
        variable_of(vs.drop_first(), key)
    }
}

/// The string variable named `key`, if it is a string.
pub open spec fn var_of(vs: Seq<(String, NixProfileVariable)>, key: Seq<char>) -> Option<Seq<char>> {
    match variable_of(vs, key) {
        Some(NixProfileVariable::Var(v)) => Some(v@),
        _ => None,
    }
}

/// The first of the string variables named `keys` that is set.
pub open spec fn first_var_of(vs: Seq<(String, NixProfileVariable)>, keys: Seq<Seq<char>>) -> Option<Seq<char>>
    decreases keys.len(),
{
    if keys.len() == 0 {
        None
    } else if var_of(vs, keys[0]) is Some {
        var_of(vs, keys[0])
    } else {
        first_var_of(vs, keys.drop_first())
    }
}

/// The list variable named `key`, when it is a list; else nothing.
pub open spec fn list_of(vs: Seq<(String, NixProfileVariable)>, key: Seq<char>) -> Seq<Seq<char>> {
    match variable_of(vs, key) {
        Some(NixProfileVariable::Array(a)) => string_seq(a@),
        _ => Seq::empty(),
    }
}

/// The path `p` joined with `bin`, as `Path::join` does: a separator is
/// added unless `p` is empty or ends with one.
pub open spec fn join_bin(p: Seq<char>) -> Seq<char> {
    if p.len() > 0 && p.last() != '/' {
        p + seq!['/'] + "bin"@
    } else {
        p + "bin"@
    }
}

/// `s` with each run of equal neighbours kept once, as `Itertools::dedup`.
pub open spec fn dedup_runs(s: Seq<Seq<char>>) -> Seq<Seq<char>>
    decreases s.len(),
{
    if s.len() <= 1 {
        s
    } else if s.last() == s[s.len() - 2] {
        dedup_runs(s.drop_last())
    } else {
        dedup_runs(s.drop_last()).push(s.last())
    }
}

fn variable_exec<'a>(vs: &'a Vec<(String, NixProfileVariable)>, key: &str) -> (r: Option<&'a NixProfileVariable>)
    ensures
        match variable_of(vs@, key@) {
            Some(v) => r matches Some(x) && *x == v,
            None => r is None,
        },
{
    let k = to_chars(key);
    let mut i: usize = 0;
    assert(vs@.subrange(0, vs@.len() as int) =~= vs@);
    while i < vs.len()
        invariant
            i <= vs@.len(),
            k@ == key@,
            variable_of(vs@, key@) == variable_of(vs@.subrange(i as int, vs@.len() as int), key@),
        decreases vs.len() - i,
    {
        let ghost rest = vs@.subrange(i as int, vs@.len() as int);
        assert(rest.drop_first() =~= vs@.subrange(i + 1, vs@.len() as int));
        if chars_eq(&to_chars(vs[i].0.as_str()), &k) {
            return Some(&vs[i].1);
        }
        i = i + 1;
    }
    None
}

impl NixProfile {
    /// The string variable named `key`, if it is a string.
    pub fn get_var(&self, key: &str) -> (r: Option<String>)
        ensures
            opt_view(r) == var_of(self.variables@, key@),
    {
        match variable_exec(&self.variables, key) {
            Some(NixProfileVariable::Var(v)) => Some(from_chars(to_chars(v.as_str()).as_slice())),
            _ => None,
        }
    }

    /// The first of the string variables named `keys` that is set.
    pub fn get_first_var(&self, keys: &Vec<String>) -> (r: Option<String>)
        ensures
            opt_view(r) == first_var_of(self.variables@, string_seq(keys@)),
    {
        let mut i: usize = 0;
        assert(string_seq(keys@).subrange(0, keys@.len() as int) =~= string_seq(keys@));
        while i < keys.len()
            invariant
                i <= keys@.len(),
                first_var_of(self.variables@, string_seq(keys@)) == first_var_of(
                    self.variables@,
                    string_seq(keys@).subrange(i as int, keys@.len() as int),
                ),
            decreases keys.len() - i,
        {
            let ghost rest = string_seq(keys@).subrange(i as int, keys@.len() as int);
            assert(rest.drop_first() =~= string_seq(keys@).subrange(i + 1, keys@.len() as int));
            assert(rest[0] == keys@[i as int]@);
            match self.get_var(keys[i].as_str()) {
                Some(v) => {
                    return Some(v);
                },
                None => {},
            }
            i = i + 1;
        }
        None
    }

    /// `NIX_CFLAGS_COMPILE_FOR_TARGET`, else `NIX_CFLAGS_COMPILE`.
    pub fn get_cflags(&self) -> (r: Option<String>)
        ensures
            opt_view(r) == first_var_of(self.variables@, seq!["NIX_CFLAGS_COMPILE_FOR_TARGET"@, "NIX_CFLAGS_COMPILE"@]),
    {
        let keys = vec![String::from_str("NIX_CFLAGS_COMPILE_FOR_TARGET"), String::from_str("NIX_CFLAGS_COMPILE")];
        assert(string_seq(keys@) =~= seq!["NIX_CFLAGS_COMPILE_FOR_TARGET"@, "NIX_CFLAGS_COMPILE"@]);
        self.get_first_var(&keys)
    }

    /// `NIX_LDFLAGS_FOR_TARGET`, else `NIX_LDFLAGS`.
    pub fn get_ldflags(&self) -> (r: Option<String>)
        ensures
            opt_view(r) == first_var_of(self.variables@, seq!["NIX_LDFLAGS_FOR_TARGET"@, "NIX_LDFLAGS"@]),
    {
        let keys = vec![String::from_str("NIX_LDFLAGS_FOR_TARGET"), String::from_str("NIX_LDFLAGS")];
        assert(string_seq(keys@) =~= seq!["NIX_LDFLAGS_FOR_TARGET"@, "NIX_LDFLAGS"@]);
        self.get_first_var(&keys)
    }

    /// The entries of `PKG_CONFIG_PATH_FOR_TARGET`, else of
    /// `PKG_CONFIG_PATH`, split at `:`; none when neither is set.
    pub fn get_pkg_config_paths(&self) -> (r: Vec<String>)
        ensures
            string_seq(r@) == match first_var_of(
                self.variables@,
                seq!["PKG_CONFIG_PATH_FOR_TARGET"@, "PKG_CONFIG_PATH"@],
            ) {
                Some(v) => split(v, ':'),
                None => Seq::empty(),
            },
    {
        let keys = vec![String::from_str("PKG_CONFIG_PATH_FOR_TARGET"), String::from_str("PKG_CONFIG_PATH")];
        assert(string_seq(keys@) =~= seq!["PKG_CONFIG_PATH_FOR_TARGET"@, "PKG_CONFIG_PATH"@]);
        let mut r: Vec<String> = Vec::new();
        match self.get_first_var(&keys) {
            Some(v) => {
                let parts = split_char(&to_chars(v.as_str()), ':');
                let mut i: usize = 0;
                while i < parts.len()
                    invariant
                        i <= parts@.len(),
                        string_seq(r@) == views(parts@).subrange(0, i as int),
                    decreases parts.len() - i,
                {
                    let ghost before = string_seq(r@);
                    r.push(from_chars(parts[i].as_slice()));
                    assert(string_seq(r@) =~= before.push(parts@[i as int]@));
                    assert(string_seq(r@) =~= views(parts@).subrange(0, i + 1));
                    i = i + 1;
                }
                assert(views(parts@).subrange(0, i as int) =~= views(parts@));
                r
            },
            None => {
                assert(string_seq(r@) =~= Seq::<Seq<char>>::empty());
                r
            },
        }
    }

    /// The `bin` directories of the packages of the profile: those listed
    /// in `pkgsHostTarget` then `pkgsHostHost`, each run of equal
    /// neighbours once, each joined with `bin` (which of them exist is
    /// for the caller to find out).
    pub fn candidate_paths(&self) -> (r: Vec<String>)
        ensures
            string_seq(r@) == ({
                let all = dedup_runs(list_of(self.variables@, "pkgsHostTarget"@) + list_of(self.variables@, "pkgsHostHost"@));
                Seq::new(all.len(), |k: int| join_bin(all[k]))
            }),
    {
        let mut all: Vec<String> = Vec::new();
        let ghost want = list_of(self.variables@, "pkgsHostTarget"@) + list_of(self.variables@, "pkgsHostHost"@);
        match variable_exec(&self.variables, "pkgsHostTarget") {
            Some(NixProfileVariable::Array(a)) => {
                let mut i: usize = 0;
                while i < a.len()
                    invariant
                        i <= a@.len(),
                        string_seq(all@) == string_seq(a@).subrange(0, i as int),
                    decreases a.len() - i,
                {
                    let ghost before = string_seq(all@);
                    all.push(from_chars(to_chars(a[i].as_str()).as_slice()));
                    assert(string_seq(all@) =~= before.push(a@[i as int]@));
                    assert(string_seq(all@) =~= string_seq(a@).subrange(0, i + 1));
                    i = i + 1;
                }
                assert(string_seq(a@).subrange(0, i as int) =~= string_seq(a@));
            },
            _ => {
                assert(string_seq(all@) =~= Seq::<Seq<char>>::empty());
            },
        }
        let ghost first = string_seq(all@);
        assert(first == list_of(self.variables@, "pkgsHostTarget"@));
        match variable_exec(&self.variables, "pkgsHostHost") {
            Some(NixProfileVariable::Array(a)) => {
                let mut i: usize = 0;
                assert(string_seq(a@).subrange(0, 0) =~= Seq::<Seq<char>>::empty());
                assert(string_seq(all@) =~= first + string_seq(a@).subrange(0, 0));
                while i < a.len()
                    invariant
                        i <= a@.len(),
                        string_seq(all@) == first + string_seq(a@).subrange(0, i as int),
                    decreases a.len() - i,
                {
                    let ghost before = string_seq(all@);
                    all.push(from_chars(to_chars(a[i].as_str()).as_slice()));
                    assert(string_seq(all@) =~= before.push(a@[i as int]@));
                    assert(string_seq(all@) =~= first + string_seq(a@).subrange(0, i + 1));
                    i = i + 1;
                }
                assert(string_seq(a@).subrange(0, i as int) =~= string_seq(a@));
            },
            _ => {
                assert(string_seq(all@) =~= first + Seq::<Seq<char>>::empty());
            },
        }
        assert(string_seq(all@) == want);
        let mut deduped: Vec<String> = Vec::new();
        let mut j: usize = 0;
        assert(want.subrange(0, 0) =~= Seq::<Seq<char>>::empty());
        assert(string_seq(deduped@) =~= dedup_runs(want.subrange(0, 0)));
        while j < all.len()
            invariant
                j <= all@.len(),
                string_seq(all@) == want,
                string_seq(deduped@) == dedup_runs(want.subrange(0, j as int)),
                j > 0 ==> deduped@.len() > 0 && deduped@.last()@ == want[j - 1],
            decreases all.len() - j,
        {
            let ghost pre = want.subrange(0, j + 1);
            assert(pre.drop_last() =~= want.subrange(0, j as int));
            assert(pre.last() == all@[j as int]@);
            let ghost before = string_seq(deduped@);
            if j > 0 && chars_eq(&to_chars(all[j].as_str()), &to_chars(all[j - 1].as_str())) {
                assert(pre[pre.len() - 2] == want[j - 1]);
            } else {
                proof {
                    if j > 0 {
                        assert(pre[pre.len() - 2] == want[j - 1]);
                    }
                }
                deduped.push(from_chars(to_chars(all[j].as_str()).as_slice()));
                assert(string_seq(deduped@) =~= before.push(all@[j as int]@));
            }
            proof {
                lemma_dedup_runs_last(pre);
            }
            j = j + 1;
        }
        assert(want.subrange(0, j as int) =~= want);
        let ghost dd = string_seq(deduped@);
        let mut r: Vec<String> = Vec::new();
        let mut k: usize = 0;
        while k < deduped.len()
            invariant
                k <= deduped@.len(),
                dd == string_seq(deduped@),
                string_seq(r@) == Seq::new(k as nat, |x: int| join_bin(dd[x])),
            decreases deduped.len() - k,
        {
            let mut p = to_chars(deduped[k].as_str());
            let ghost orig = p@;
            assert(dd[k as int] == orig);
            if p.len() > 0 && p[p.len() - 1] != '/' {
                p.push('/');
                assert(p@ == orig + seq!['/']);
            }
            push_str(&mut p, "bin");
            assert(p@ == join_bin(orig));
            let ghost before = string_seq(r@);
            r.push(from_chars(p.as_slice()));
            assert(string_seq(r@) =~= before.push(join_bin(dd[k as int])));
            assert(string_seq(r@) =~= Seq::new((k + 1) as nat, |x: int| join_bin(dd[x])));
            k = k + 1;
        }
        r
    }
}

/// The last of the runs kept is the last element.
proof fn lemma_dedup_runs_last(s: Seq<Seq<char>>)
    requires
        s.len() > 0,
    ensures
        dedup_runs(s).len() > 0,
        dedup_runs(s).last() == s.last(),
    decreases s.len(),
{
    if s.len() > 1 && s.last() == s[s.len() - 2] {
        lemma_dedup_runs_last(s.drop_last());
    }
}

} // verus!
