//! Releases downloaded from GitHub: how their checksums are configured and
//! computed, and which assets a configuration selects.
use sha2::Digest;
use vstd::prelude::*;

use crate::config_value::{
    error_views, index_path, index_path_exec, key_path, key_path_exec, report, ConfigError,
    ConfigErrorKind, ConfigErrorView, ConfigValue, config_err, type_err, report_type, one_type, two_types, three_types,
};
use crate::error::UpError;
use crate::mise::{parse_url_host, url_host, url_parses};
use crate::path::{relative_parts, relative_parts_of};
use crate::summary::{install_summary, install_summary_text, removal_report, removal_report_text};
use crate::text::{
    chars_eq, from_chars, join, slice, split, split_char, to_chars, to_lowercase, trim, trim_chars,
    unicode_lowercase, views, is_ascii_text, ascii_lowercase, ascii_uppercase,
};

verus! {

/// Whether a release was installed, already there, or not handled yet.
#[derive(Debug, Clone, Copy, PartialEq, Eq, Structural)]
pub enum GithubReleaseHandled {
    Handled,
    Noop,
    Unhandled,
}

/// A hash algorithm for release checksums.
#[derive(Debug, Clone, Copy, PartialEq, Eq, Structural)]
pub enum GithubReleaseChecksumAlgorithm {
    Md5,
    Sha1,
    Sha256,
    Sha384,
    Sha512,
}

/// The name of an algorithm.
pub open spec fn algorithm_name(a: GithubReleaseChecksumAlgorithm) -> Seq<char> {
    match a {
        GithubReleaseChecksumAlgorithm::Md5 => seq!['m', 'd', '5'],
        GithubReleaseChecksumAlgorithm::Sha1 => seq!['s', 'h', 'a', '1'],
        GithubReleaseChecksumAlgorithm::Sha256 => seq!['s', 'h', 'a', '2', '5', '6'],
        GithubReleaseChecksumAlgorithm::Sha384 => seq!['s', 'h', 'a', '3', '8', '4'],
        GithubReleaseChecksumAlgorithm::Sha512 => seq!['s', 'h', 'a', '5', '1', '2'],
    }
}

/// The algorithm whose name is `n`.
pub open spec fn algorithm_named(n: Seq<char>) -> Option<GithubReleaseChecksumAlgorithm> {
    if n == algorithm_name(GithubReleaseChecksumAlgorithm::Md5) {
        Some(GithubReleaseChecksumAlgorithm::Md5)
    } else if n == algorithm_name(GithubReleaseChecksumAlgorithm::Sha1) {
        Some(GithubReleaseChecksumAlgorithm::Sha1)
    } else if n == algorithm_name(GithubReleaseChecksumAlgorithm::Sha256) {
        Some(GithubReleaseChecksumAlgorithm::Sha256)
    } else if n == algorithm_name(GithubReleaseChecksumAlgorithm::Sha384) {
        Some(GithubReleaseChecksumAlgorithm::Sha384)
    } else if n == algorithm_name(GithubReleaseChecksumAlgorithm::Sha512) {
        Some(GithubReleaseChecksumAlgorithm::Sha512)
    } else {
        None
    }
}

/// The number of bytes of a digest, and twice that many hex digits.
pub open spec fn digest_len(a: GithubReleaseChecksumAlgorithm) -> nat {
    match a {
        GithubReleaseChecksumAlgorithm::Md5 => 16,
        GithubReleaseChecksumAlgorithm::Sha1 => 20,
        GithubReleaseChecksumAlgorithm::Sha256 => 32,
        GithubReleaseChecksumAlgorithm::Sha384 => 48,
        GithubReleaseChecksumAlgorithm::Sha512 => 64,
    }
}

/// MD5 of `data`.
pub uninterp spec fn md5_digest(data: Seq<u8>) -> Seq<u8>;

/// SHA-1 of `data`.
pub uninterp spec fn sha1_digest(data: Seq<u8>) -> Seq<u8>;

/// SHA-256 of `data`.
pub uninterp spec fn sha256_digest(data: Seq<u8>) -> Seq<u8>;

/// SHA-384 of `data`.
pub uninterp spec fn sha384_digest(data: Seq<u8>) -> Seq<u8>;

/// SHA-512 of `data`.
pub uninterp spec fn sha512_digest(data: Seq<u8>) -> Seq<u8>;

/// `md5::Md5::digest` (md-5): the MD5 digest of `data`, 16 bytes
/// (`OutputSize = U16`).
#[verifier::external_body]
fn md5_of(data: &[u8]) -> (r: Vec<u8>)
    ensures
        r@ == md5_digest(data@),
        r@.len() == 16,
{
    md5::Md5::digest(data).to_vec()
}

/// `sha1::Sha1::digest`: the SHA-1 digest of `data`, 20 bytes (`OutputSize = U20`).
#[verifier::external_body]
fn sha1_of(data: &[u8]) -> (r: Vec<u8>)
    ensures
        r@ == sha1_digest(data@),
        r@.len() == 20,
{
    sha1::Sha1::digest(data).to_vec()
}

/// `sha2::Sha256::digest`: the SHA-256 digest of `data`, 32 bytes.
#[verifier::external_body]
pub(crate) fn sha256_of(data: &[u8]) -> (r: Vec<u8>)
    ensures
        r@ == sha256_digest(data@),
        r@.len() == 32,
{
    sha2::Sha256::digest(data).to_vec()
}

/// `sha2::Sha384::digest`: the SHA-384 digest of `data`, 48 bytes.
#[verifier::external_body]
fn sha384_of(data: &[u8]) -> (r: Vec<u8>)
    ensures
        r@ == sha384_digest(data@),
        r@.len() == 48,
{
    sha2::Sha384::digest(data).to_vec()
}

/// `sha2::Sha512::digest`: the SHA-512 digest of `data`, 64 bytes.
#[verifier::external_body]
fn sha512_of(data: &[u8]) -> (r: Vec<u8>)
    ensures
        r@ == sha512_digest(data@),
        r@.len() == 64,
{
    sha2::Sha512::digest(data).to_vec()
}

/// The digest of `data` under `a`.
pub open spec fn digest_of(a: GithubReleaseChecksumAlgorithm, data: Seq<u8>) -> Seq<u8> {
    match a {
        GithubReleaseChecksumAlgorithm::Md5 => md5_digest(data),
        GithubReleaseChecksumAlgorithm::Sha1 => sha1_digest(data),
        GithubReleaseChecksumAlgorithm::Sha256 => sha256_digest(data),
        GithubReleaseChecksumAlgorithm::Sha384 => sha384_digest(data),
        GithubReleaseChecksumAlgorithm::Sha512 => sha512_digest(data),
    }
}

/// A lowercase hexadecimal digit.
pub open spec fn hex_digit(d: int) -> char {
    seq!['0', '1', '2', '3', '4', '5', '6', '7', '8', '9', 'a', 'b', 'c', 'd', 'e', 'f'][d]
}

/// The lowercase hexadecimal text of `bytes`, two digits per byte.
pub open spec fn hex(bytes: Seq<u8>) -> Seq<char>
    decreases bytes.len(),
{
    if bytes.len() == 0 {
        Seq::empty()
    } else {
        hex(bytes.drop_last()) + seq![
            hex_digit(bytes.last() as int / 16),
            hex_digit(bytes.last() as int % 16),
        ]
    }
}

pub proof fn lemma_hex_len(bytes: Seq<u8>)
    ensures
        hex(bytes).len() == 2 * bytes.len(),
    decreases bytes.len(),
{
    if bytes.len() > 0 {
        lemma_hex_len(bytes.drop_last());
    }
}

fn hex_digit_exec(d: u8) -> (c: char)
    requires
        d < 16,
    ensures
        c == hex_digit(d as int),
{
    let digits = vec!['0', '1', '2', '3', '4', '5', '6', '7', '8', '9', 'a', 'b', 'c', 'd', 'e', 'f'];
    assert(digits@ =~= seq!['0', '1', '2', '3', '4', '5', '6', '7', '8', '9', 'a', 'b', 'c', 'd', 'e', 'f']);
    digits[d as usize]
}

/// The lowercase hexadecimal text of `bytes`.
pub fn hex_string(bytes: &[u8]) -> (r: String)
    ensures
        r@ == hex(bytes@),
{
    let mut out: Vec<char> = Vec::new();
    let mut i: usize = 0;
    while i < bytes.len()
        invariant
            i <= bytes@.len(),
            out@ == hex(bytes@.subrange(0, i as int)),
        decreases bytes.len() - i,
    {
        let b = bytes[i];
        assert(bytes@.subrange(0, i + 1).drop_last() =~= bytes@.subrange(0, i as int));
        out.push(hex_digit_exec(b / 16));
        out.push(hex_digit_exec(b % 16));
        i = i + 1;
        assert(out@ =~= hex(bytes@.subrange(0, i as int)));
    }
    assert(bytes@.subrange(0, i as int) =~= bytes@);
    from_chars(out.as_slice())
}

impl GithubReleaseChecksumAlgorithm {
    /// The algorithm whose hex digests have the length of `hash` (in bytes
    /// of UTF-8): 32 for MD5, 40 for SHA-1, 64, 96 and 128 for SHA-256, -384
    /// and -512.
    pub fn from_hash(hash: &str) -> (r: Option<GithubReleaseChecksumAlgorithm>)
        ensures
            r == algorithm_for_len(vstd::utf8::encode_utf8(hash@).len()),
    {
        let n = hash.as_bytes().len();
        if n == 32 {
            Some(GithubReleaseChecksumAlgorithm::Md5)
        } else if n == 40 {
            Some(GithubReleaseChecksumAlgorithm::Sha1)
        } else if n == 64 {
            Some(GithubReleaseChecksumAlgorithm::Sha256)
        } else if n == 96 {
            Some(GithubReleaseChecksumAlgorithm::Sha384)
        } else if n == 128 {
            Some(GithubReleaseChecksumAlgorithm::Sha512)
        } else {
            None
        }
    }

    /// The algorithm named `algorithm`, in any case.
    pub fn from_str(algorithm: &str) -> (r: Option<GithubReleaseChecksumAlgorithm>)
        ensures
            r == algorithm_named(unicode_lowercase(algorithm@)),
            is_ascii_text(algorithm@) ==> r == algorithm_named(ascii_lowercase(algorithm@)),
    {
        let l = to_chars(to_lowercase(algorithm).as_str());
        let md5 = vec!['m', 'd', '5'];
        let sha1 = vec!['s', 'h', 'a', '1'];
        let sha256 = vec!['s', 'h', 'a', '2', '5', '6'];
        let sha384 = vec!['s', 'h', 'a', '3', '8', '4'];
        let sha512 = vec!['s', 'h', 'a', '5', '1', '2'];
        assert(md5@ =~= algorithm_name(GithubReleaseChecksumAlgorithm::Md5));
        assert(sha1@ =~= algorithm_name(GithubReleaseChecksumAlgorithm::Sha1));
        assert(sha256@ =~= algorithm_name(GithubReleaseChecksumAlgorithm::Sha256));
        assert(sha384@ =~= algorithm_name(GithubReleaseChecksumAlgorithm::Sha384));
        assert(sha512@ =~= algorithm_name(GithubReleaseChecksumAlgorithm::Sha512));
        if chars_eq(&l, &md5) {
            Some(GithubReleaseChecksumAlgorithm::Md5)
        } else if chars_eq(&l, &sha1) {
            Some(GithubReleaseChecksumAlgorithm::Sha1)
        } else if chars_eq(&l, &sha256) {
            Some(GithubReleaseChecksumAlgorithm::Sha256)
        } else if chars_eq(&l, &sha384) {
            Some(GithubReleaseChecksumAlgorithm::Sha384)
        } else if chars_eq(&l, &sha512) {
            Some(GithubReleaseChecksumAlgorithm::Sha512)
        } else {
            None
        }
    }

    /// The name of the algorithm.
    pub fn to_str(&self) -> (r: String)
        ensures
            r@ == algorithm_name(*self),
    {
        let v = match self {
            GithubReleaseChecksumAlgorithm::Md5 => vec!['m', 'd', '5'],
            GithubReleaseChecksumAlgorithm::Sha1 => vec!['s', 'h', 'a', '1'],
            GithubReleaseChecksumAlgorithm::Sha256 => vec!['s', 'h', 'a', '2', '5', '6'],
            GithubReleaseChecksumAlgorithm::Sha384 => vec!['s', 'h', 'a', '3', '8', '4'],
            GithubReleaseChecksumAlgorithm::Sha512 => vec!['s', 'h', 'a', '5', '1', '2'],
        };
        assert(v@ =~= algorithm_name(*self));
        from_chars(v.as_slice())
    }

    /// The lowercase hex digest of `data` under this algorithm.
    pub fn compute_hash(&self, data: &[u8]) -> (r: String)
        ensures
            r@ == hex(digest_of(*self, data@)),
            r@.len() == 2 * digest_len(*self),
    {
        let d = match self {
            GithubReleaseChecksumAlgorithm::Md5 => md5_of(data),
            GithubReleaseChecksumAlgorithm::Sha1 => sha1_of(data),
            GithubReleaseChecksumAlgorithm::Sha256 => sha256_of(data),
            GithubReleaseChecksumAlgorithm::Sha384 => sha384_of(data),
            GithubReleaseChecksumAlgorithm::Sha512 => sha512_of(data),
        };
        proof {
            lemma_hex_len(d@);
        }
        hex_string(d.as_slice())
    }
}

/// The non-empty trimmed lines of a string, as patterns.
pub open spec fn patterns_of_string(s: Seq<char>) -> Seq<Seq<char>> {
    non_empty_trimmed(split(s, '\n'))
}

/// The trimmed pieces among `v` that are not empty once trimmed.
pub open spec fn non_empty_trimmed(v: Seq<Seq<char>>) -> Seq<Seq<char>>
    decreases v.len(),
{
    if v.len() == 0 {
        Seq::empty()
    } else if trim(v.last()).len() == 0 {
        non_empty_trimmed(v.drop_last())
    } else {
        non_empty_trimmed(v.drop_last()).push(trim(v.last()))
    }
}

/// The strings among `v`, trimmed, that are not empty once trimmed.
pub open spec fn patterns_of_array(v: Seq<ConfigValue>) -> Seq<Seq<char>>
    decreases v.len(),
{
    if v.len() == 0 {
        Seq::empty()
    } else {
        let rest = patterns_of_array(v.drop_last());
        match v.last().str_of() {
            Some(s) => if trim(s).len() == 0 {
                rest
            } else {
                rest.push(trim(s))
            },
            None => rest,
        }
    }
}

pub open spec fn string_views(v: Seq<String>) -> Seq<Seq<char>> {
    Seq::new(v.len(), |k: int| v[k]@)
}

/// Which assets a release configuration selects: name patterns, possibly
/// limited to an operating system and an architecture.
#[derive(Debug, Clone)]
pub struct AssetNameMatcher {
    pub os: Option<String>,
    pub arch: Option<String>,
    pub patterns: Vec<String>,
    /// Set when the operating system or the architecture does not match.
    pub disabled: bool,
}

fn trimmed_patterns(pieces: &Vec<Vec<char>>) -> (r: Vec<String>)
    ensures
        string_views(r@) == non_empty_trimmed(views(pieces@)),
{
    let mut r: Vec<String> = Vec::new();
    let mut i: usize = 0;
    while i < pieces.len()
        invariant
            i <= pieces@.len(),
            string_views(r@) == non_empty_trimmed(views(pieces@).subrange(0, i as int)),
        decreases pieces.len() - i,
    {
        let ghost before = string_views(r@);
        assert(views(pieces@).subrange(0, i + 1).drop_last() =~= views(pieces@).subrange(
            0,
            i as int,
        ));
        let t = trim_chars(&pieces[i]);
        if t.len() > 0 {
            r.push(from_chars(t.as_slice()));
            assert(string_views(r@) =~= before.push(t@));
        }
        i = i + 1;
    }
    assert(views(pieces@).subrange(0, i as int) =~= views(pieces@));
    r
}

impl AssetNameMatcher {
    /// The patterns of a multi-line string: each line, trimmed, that is
    /// not empty.
    pub fn patterns_from_string(string: &str) -> (r: Vec<String>)
        ensures
            string_views(r@) == patterns_of_string(string@),
    {
        trimmed_patterns(&split_char(&to_chars(string), '\n'))
    }

    /// The patterns of a list: each string, trimmed, that is not empty.
    pub fn patterns_from_array(array: &Vec<ConfigValue>) -> (r: Vec<String>)
        ensures
            string_views(r@) == patterns_of_array(array@),
    {
        let mut r: Vec<String> = Vec::new();
        let mut i: usize = 0;
        while i < array.len()
            invariant
                i <= array@.len(),
                string_views(r@) == patterns_of_array(array@.subrange(0, i as int)),
            decreases array.len() - i,
        {
            let ghost before = string_views(r@);
            assert(array@.subrange(0, i + 1).drop_last() =~= array@.subrange(0, i as int));
            match array[i].as_str() {
                Some(s) => {
                    let t = trim_chars(&to_chars(s.as_str()));
                    if t.len() > 0 {
                        r.push(from_chars(t.as_slice()));
                        assert(string_views(r@) =~= before.push(t@));
                    }
                },
                None => {},
            }
            i = i + 1;
        }
        assert(array@.subrange(0, i as int) =~= array@);
        r
    }

    /// Whether the matcher applies on this system.
    pub fn enabled(&self) -> (r: bool)
        ensures
            r == !self.disabled,
    {
        !self.disabled
    }

    /// Whether the matcher applies and has patterns to filter with.
    pub fn any_filter(&self) -> (r: bool)
        ensures
            r == (!self.disabled && self.patterns@.len() > 0),
    {
        !self.disabled && self.patterns.len() > 0
    }
}


/// What an asset name matcher holds.
pub struct MatcherView {
    pub os: Option<Seq<char>>,
    pub arch: Option<Seq<char>>,
    pub patterns: Seq<Seq<char>>,
    pub disabled: bool,
}

pub open spec fn opt_str_view(o: Option<String>) -> Option<Seq<char>> {
    match o {
        Some(s) => Some(s@),
        None => None,
    }
}

impl View for AssetNameMatcher {
    type V = MatcherView;

    open spec fn view(&self) -> MatcherView {
        MatcherView {
            os: opt_str_view(self.os),
            arch: opt_str_view(self.arch),
            patterns: string_views(self.patterns@),
            disabled: self.disabled,
        }
    }
}

pub open spec fn matcher_views(v: Seq<AssetNameMatcher>) -> Seq<MatcherView> {
    Seq::new(v.len(), |k: int| v[k]@)
}

/// A matcher with only patterns.
pub open spec fn patterns_matcher(patterns: Seq<Seq<char>>) -> MatcherView {
    MatcherView { os: None, arch: None, patterns, disabled: false }
}

/// The string under `key` of a table, as `get_as_str_or_none` reads it.
pub open spec fn str_field(cv: ConfigValue, key: Seq<char>) -> Option<Seq<char>> {
    match cv.get_of(key) {
        Some(ConfigValue::Str(s)) => Some(s@),
        _ => None,
    }
}

/// The errors that `get_as_str_or_none` reports for `key`.
pub open spec fn str_field_errors(cv: ConfigValue, base: Seq<char>, key: Seq<char>) -> Seq<ConfigErrorView> {
    crate::config_value::optional_field_errors(
        cv.get_of(key) is Some && !(cv.get_of(key)->0 is Str),
        base,
        key,
    )
}

/// Whether a matcher limited to `os` and `arch` is off on the system
/// `cur_os`/`cur_arch` (names compared in lowercase).
pub open spec fn off_system(
    os: Option<Seq<char>>,
    arch: Option<Seq<char>>,
    cur_os: Seq<char>,
    cur_arch: Seq<char>,
) -> bool {
    (os is Some && unicode_lowercase(os->0) != unicode_lowercase(cur_os)) || (arch is Some
        && unicode_lowercase(arch->0) != unicode_lowercase(cur_arch))
}

/// One matcher read from a configuration value, and the errors reported
/// at `base`: a string of patterns, a list of patterns, or a table with
/// `patterns` (required) and optional `os` and `arch`.
pub open spec fn matcher_unit_of(cv: ConfigValue, base: Seq<char>, cur_os: Seq<char>, cur_arch: Seq<char>) -> (
    Option<MatcherView>,
    Seq<ConfigErrorView>,
) {
    match cv {
        ConfigValue::Str(s) => (Some(patterns_matcher(patterns_of_string(s@))), Seq::empty()),
        ConfigValue::Array(a) => (Some(patterns_matcher(patterns_of_array(a@))), Seq::empty()),
        ConfigValue::Table(_) => {
            let os = str_field(cv, "os"@);
            let arch = str_field(cv, "arch"@);
            let errs = str_field_errors(cv, base, "os"@) + str_field_errors(cv, base, "arch"@);
            let pkey = key_path(base, "patterns"@);
            match cv.get_of("patterns"@) {
                None => (
                    None,
                    errs.push(config_err(pkey, ConfigErrorKind::MissingKey)),
                ),
                Some(p) => {
                    let patterns = match p.str_forced_of() {
                        Some(s) => Some(patterns_of_string(s)),
                        None => match p {
                            ConfigValue::Array(a) => Some(patterns_of_array(a@)),
                            _ => None,
                        },
                    };
                    match patterns {
                        None => (
                            None,
                            errs.push(
                                type_err(pkey, seq!["string"@, "array"@]),
                            ),
                        ),
                        Some(ps) => (
                            Some(
                                MatcherView {
                                    os,
                                    arch,
                                    patterns: ps,
                                    disabled: off_system(os, arch, cur_os, cur_arch),
                                },
                            ),
                            errs,
                        ),
                    }
                },
            }
        },
        _ => (None, seq![type_err(base, seq!["string"@, "array"@, "table"@])]),
    }
}

/// The matchers read from the entries `a[..n]` of a list, and the errors
/// reported for them (each at `base[index]`).
pub open spec fn matcher_list_of(a: Seq<ConfigValue>, base: Seq<char>, cur_os: Seq<char>, cur_arch: Seq<char>) -> (
    Seq<MatcherView>,
    Seq<ConfigErrorView>,
)
    decreases a.len(),
{
    if a.len() == 0 {
        (Seq::empty(), Seq::empty())
    } else {
        let (ms, es) = matcher_list_of(a.drop_last(), base, cur_os, cur_arch);
        let (m, e) = matcher_unit_of(a.last(), index_path(base, (a.len() - 1) as nat), cur_os, cur_arch);
        (
            match m {
                Some(x) => ms.push(x),
                None => ms,
            },
            es + e,
        )
    }
}

/// The matchers read from an optional value: none, one string of patterns,
/// or a list of matchers; anything else is reported at `base`.
pub open spec fn matcher_multi_of(cv: Option<ConfigValue>, base: Seq<char>, cur_os: Seq<char>, cur_arch: Seq<char>) -> (
    Seq<MatcherView>,
    Seq<ConfigErrorView>,
) {
    match cv {
        None => (Seq::empty(), Seq::empty()),
        Some(ConfigValue::Str(s)) => (seq![patterns_matcher(patterns_of_string(s@))], Seq::empty()),
        Some(ConfigValue::Array(a)) => matcher_list_of(a@, base, cur_os, cur_arch),
        Some(_) => (
            Seq::empty(),
            seq![type_err(base, seq!["string"@, "array"@])],
        ),
    }
}

fn lower_eq(a: &str, b: &str) -> (r: bool)
    ensures
        r == (unicode_lowercase(a@) == unicode_lowercase(b@)),
{
    chars_eq(&to_chars(to_lowercase(a).as_str()), &to_chars(to_lowercase(b).as_str()))
}

fn some_ref(cv: &ConfigValue) -> (r: Option<&ConfigValue>)
    ensures
        r == Some(cv),
{
    Some(cv)
}

impl AssetNameMatcher {
    /// One matcher from a configuration value (see `matcher_unit_of`);
    /// `current_os` and `current_arch` describe this system.
    pub fn from_config_value_unit(
        config_value: Option<&ConfigValue>,
        error_key: &str,
        errors: &mut Vec<ConfigError>,
        current_os: &str,
        current_arch: &str,
    ) -> (r: Option<AssetNameMatcher>)
        ensures
            match config_value {
                None => r is None && error_views(final(errors)@) == error_views(old(errors)@),
                Some(cv) => {
                    let (m, e) = matcher_unit_of(*cv, error_key@, current_os@, current_arch@);
                    &&& match m {
                        Some(x) => r matches Some(y) && y@ == x,
                        None => r is None,
                    }
                    &&& error_views(final(errors)@) == error_views(old(errors)@) + e
                },
            },
    {
        let cv = match config_value {
            Some(cv) => cv,
            None => {
                return None;
            },
        };
        let ghost start = error_views(errors@);
        match cv {
            ConfigValue::Str(s) => {
                assert(error_views(errors@) =~= start + Seq::<ConfigErrorView>::empty());
                Some(
                    AssetNameMatcher {
                        os: None,
                        arch: None,
                        patterns: AssetNameMatcher::patterns_from_string(s.as_str()),
                        disabled: false,
                    },
                )
            },
            ConfigValue::Array(a) => {
                assert(error_views(errors@) =~= start + Seq::<ConfigErrorView>::empty());
                Some(
                    AssetNameMatcher {
                        os: None,
                        arch: None,
                        patterns: AssetNameMatcher::patterns_from_array(a),
                        disabled: false,
                    },
                )
            },
            ConfigValue::Table(_) => {
                let os = cv.get_as_str_or_none("os", error_key, errors);
                let arch = cv.get_as_str_or_none("arch", error_key, errors);
                let ghost errs = error_views(errors@);
                assert(errs =~= start + (str_field_errors(*cv, error_key@, "os"@) + str_field_errors(
                    *cv,
                    error_key@,
                    "arch"@,
                )));
                let patterns = match cv.get("patterns") {
                    None => {
                        report(errors, key_path_exec(error_key, "patterns"), ConfigErrorKind::MissingKey);
                        return None;
                    },
                    Some(p) => match p.as_str_forced() {
                        Some(s) => AssetNameMatcher::patterns_from_string(s.as_str()),
                        None => match p.as_array() {
                            Some(a) => AssetNameMatcher::patterns_from_array(a),
                            None => {
                                report_type(
                                    errors,
                                    key_path_exec(error_key, "patterns"),
                                    two_types("string", "array"),
                                );
                                return None;
                            },
                        },
                    },
                };
                let mut disabled = false;
                match &os {
                    Some(o) => {
                        if !lower_eq(o.as_str(), current_os) {
                            disabled = true;
                        }
                    },
                    None => {},
                }
                match &arch {
                    Some(x) => {
                        if !lower_eq(x.as_str(), current_arch) {
                            disabled = true;
                        }
                    },
                    None => {},
                }
                Some(AssetNameMatcher { os, arch, patterns, disabled })
            },
            _ => {
                report_type(errors, from_chars(to_chars(error_key).as_slice()), three_types("string", "array", "table"));
                None
            },
        }
    }
}


impl AssetNameMatcher {
    /// The matchers of a configuration value (see `matcher_multi_of`).
    pub fn from_config_value_multi(
        config_value: Option<&ConfigValue>,
        error_key: &str,
        errors: &mut Vec<ConfigError>,
        current_os: &str,
        current_arch: &str,
    ) -> (r: Vec<AssetNameMatcher>)
        ensures
            ({
                let cv = match config_value {
                    Some(v) => Some(*v),
                    None => None,
                };
                let (ms, es) = matcher_multi_of(cv, error_key@, current_os@, current_arch@);
                &&& matcher_views(r@) == ms
                &&& error_views(final(errors)@) == error_views(old(errors)@) + es
            }),
    {
        let ghost start = error_views(errors@);
        let mut r: Vec<AssetNameMatcher> = Vec::new();
        match config_value {
            None => {
                assert(error_views(errors@) =~= start + Seq::<ConfigErrorView>::empty());
                assert(matcher_views(r@) =~= Seq::<MatcherView>::empty());
                r
            },
            Some(cv) => match cv {
                ConfigValue::Str(s) => {
                    let m = AssetNameMatcher {
                        os: None,
                        arch: None,
                        patterns: AssetNameMatcher::patterns_from_string(s.as_str()),
                        disabled: false,
                    };
                    r.push(m);
                    assert(error_views(errors@) =~= start + Seq::<ConfigErrorView>::empty());
                    assert(matcher_views(r@) =~= seq![patterns_matcher(patterns_of_string(s@))]);
                    r
                },
                ConfigValue::Array(a) => {
                    let mut i: usize = 0;
                    assert(a@.subrange(0, 0) =~= Seq::<ConfigValue>::empty());
                    assert(error_views(errors@) =~= start + Seq::<ConfigErrorView>::empty());
                    assert(matcher_views(r@) =~= Seq::<MatcherView>::empty());
                    while i < a.len()
                        invariant
                            i <= a@.len(),
                            matcher_views(r@) == matcher_list_of(
                                a@.subrange(0, i as int),
                                error_key@,
                                current_os@,
                                current_arch@,
                            ).0,
                            error_views(errors@) == start + matcher_list_of(
                                a@.subrange(0, i as int),
                                error_key@,
                                current_os@,
                                current_arch@,
                            ).1,
                        decreases a.len() - i,
                    {
                        assert(a@.subrange(0, i + 1).drop_last() =~= a@.subrange(0, i as int));
                        let ghost before_r = matcher_views(r@);
                        let ghost before_e = error_views(errors@);
                        let key = index_path_exec(error_key, i);
                        let m = AssetNameMatcher::from_config_value_unit(
                            some_ref(&a[i]),
                            key.as_str(),
                            errors,
                            current_os,
                            current_arch,
                        );
                        match m {
                            Some(x) => {
                                r.push(x);
                                assert(matcher_views(r@) =~= before_r.push(x@));
                            },
                            None => {},
                        }
                        assert(error_views(errors@) =~= start + matcher_list_of(
                            a@.subrange(0, i + 1),
                            error_key@,
                            current_os@,
                            current_arch@,
                        ).1);
                        i = i + 1;
                    }
                    assert(a@.subrange(0, i as int) =~= a@);
                    r
                },
                _ => {
                    report_type(errors, from_chars(to_chars(error_key).as_slice()), two_types("string", "array"));
                    assert(matcher_views(r@) =~= Seq::<MatcherView>::empty());
                    r
                },
            },
        }
    }

    /// The SHA-256 digest of the matcher's patterns, one after the other
    /// (their UTF-8 bytes): what identifies the filter.
    pub fn hash_filter(&self) -> (r: Vec<u8>)
        ensures
            r@ == sha256_digest(pattern_bytes(string_views(self.patterns@))),
    {
        let mut data: Vec<u8> = Vec::new();
        let mut i: usize = 0;
        while i < self.patterns.len()
            invariant
                i <= self.patterns@.len(),
                data@ == pattern_bytes(string_views(self.patterns@).subrange(0, i as int)),
            decreases self.patterns.len() - i,
        {
            let bytes = self.patterns[i].as_str().as_bytes();
            let ghost before = data@;
            let mut k: usize = 0;
            while k < bytes.len()
                invariant
                    k <= bytes@.len(),
                    data@ == before + bytes@.subrange(0, k as int),
                decreases bytes.len() - k,
            {
                data.push(bytes[k]);
                assert(data@ =~= before + bytes@.subrange(0, k + 1));
                k = k + 1;
            }
            assert(bytes@.subrange(0, k as int) =~= bytes@);
            assert(string_views(self.patterns@).subrange(0, i + 1).drop_last() =~= string_views(
                self.patterns@,
            ).subrange(0, i as int));
            i = i + 1;
        }
        assert(string_views(self.patterns@).subrange(0, i as int) =~= string_views(self.patterns@));
        sha256_of(data.as_slice())
    }
}

/// The UTF-8 bytes of the patterns, one after the other.
pub open spec fn pattern_bytes(ps: Seq<Seq<char>>) -> Seq<u8>
    decreases ps.len(),
{
    if ps.len() == 0 {
        Seq::empty()
    } else {
        pattern_bytes(ps.drop_last()) + vstd::utf8::encode_utf8(ps.last())
    }
}


/// How the checksum of a downloaded release is checked.
#[derive(Debug, Clone)]
pub struct GithubReleaseChecksumConfig {
    /// Whether checksums are checked at all (default: yes).
    pub enabled: Option<bool>,
    /// Whether a checksum that cannot be checked is an error.
    pub required: Option<bool>,
    /// The algorithm of the checksum.
    pub algorithm: Option<GithubReleaseChecksumAlgorithm>,
    /// A checksum given in the configuration.
    pub value: Option<String>,
    /// The assets that hold the checksums.
    pub asset_name: Vec<AssetNameMatcher>,
}

pub struct ChecksumView {
    pub enabled: Option<bool>,
    pub required: Option<bool>,
    pub algorithm: Option<GithubReleaseChecksumAlgorithm>,
    pub value: Option<Seq<char>>,
    pub asset_name: Seq<MatcherView>,
}

impl View for GithubReleaseChecksumConfig {
    type V = ChecksumView;

    open spec fn view(&self) -> ChecksumView {
        ChecksumView {
            enabled: self.enabled,
            required: self.required,
            algorithm: self.algorithm,
            value: opt_str_view(self.value),
            asset_name: matcher_views(self.asset_name@),
        }
    }
}

/// The checksum configuration with nothing set.
pub open spec fn default_checksum() -> ChecksumView {
    ChecksumView {
        enabled: None,
        required: None,
        algorithm: None,
        value: None,
        asset_name: Seq::empty(),
    }
}

/// The boolean under `key`, as `get_as_bool_or_none` reads it.
pub open spec fn bool_field(cv: ConfigValue, key: Seq<char>) -> Option<bool> {
    match cv.get_of(key) {
        Some(ConfigValue::Bool(b)) => Some(b),
        _ => None,
    }
}

/// The errors that `get_as_bool_or_none` reports for `key`.
pub open spec fn bool_field_errors(cv: ConfigValue, base: Seq<char>, key: Seq<char>) -> Seq<ConfigErrorView> {
    crate::config_value::optional_field_errors(
        cv.get_of(key) is Some && !(cv.get_of(key)->0 is Bool),
        base,
        key,
    )
}

/// The checksum configuration a table gives, and the errors it reports.
pub open spec fn checksum_table_of(cv: ConfigValue, base: Seq<char>, cur_os: Seq<char>, cur_arch: Seq<char>) -> (
    ChecksumView,
    Seq<ConfigErrorView>,
) {
    let (assets, asset_errors) = matcher_multi_of(
        cv.get_of("asset_name"@),
        key_path(base, "asset_name"@),
        cur_os,
        cur_arch,
    );
    (
        ChecksumView {
            enabled: bool_field(cv, "enabled"@),
            required: bool_field(cv, "required"@),
            algorithm: match str_field(cv, "algorithm"@) {
                Some(a) => algorithm_named(unicode_lowercase(a)),
                None => None,
            },
            value: str_field(cv, "value"@),
            asset_name: assets,
        },
        bool_field_errors(cv, base, "enabled"@) + bool_field_errors(cv, base, "required"@)
            + str_field_errors(cv, base, "algorithm"@) + str_field_errors(cv, base, "value"@)
            + asset_errors,
    )
}

/// The checksum configuration a value gives: a table of settings, or a
/// string that is the checksum itself; anything else is reported.
pub open spec fn checksum_of(cv: Option<ConfigValue>, base: Seq<char>, cur_os: Seq<char>, cur_arch: Seq<char>) -> (
    ChecksumView,
    Seq<ConfigErrorView>,
) {
    match cv {
        None => (default_checksum(), Seq::empty()),
        Some(ConfigValue::Table(t)) => checksum_table_of(ConfigValue::Table(t), base, cur_os, cur_arch),
        Some(ConfigValue::Str(s)) => (ChecksumView { value: Some(s@), ..default_checksum() }, Seq::empty()),
        Some(_) => (
            default_checksum(),
            seq![type_err(base, seq!["table or string"@])],
        ),
    }
}

impl Default for GithubReleaseChecksumConfig {
    fn default() -> (r: Self)
        ensures
            r@ == default_checksum(),
    {
        let r = GithubReleaseChecksumConfig {
            enabled: None,
            required: None,
            algorithm: None,
            value: None,
            asset_name: Vec::new(),
        };
        assert(r@.asset_name =~= Seq::<MatcherView>::empty());
        r
    }
}

impl GithubReleaseChecksumConfig {
    /// Whether nothing is set.
    pub fn is_default(&self) -> (r: bool)
        ensures
            r == (self.enabled is None && self.required is None && self.algorithm is None
                && self.value is None && self.asset_name@.len() == 0),
    {
        self.enabled.is_none() && self.required.is_none() && self.algorithm.is_none()
            && self.value.is_none() && self.asset_name.len() == 0
    }

    /// Whether checksums are checked: unless `enabled` is false.
    pub fn is_enabled(&self) -> (r: bool)
        ensures
            r == (self.enabled != Some(false)),
    {
        match self.enabled {
            Some(b) => b,
            None => true,
        }
    }

    /// Whether a checksum that cannot be checked is an error: as set, or
    /// when an algorithm, a value or an applicable asset matcher is given.
    pub open spec fn is_required_of(&self) -> bool {
        match self.required {
            Some(b) => b,
            None => self.algorithm is Some || self.value is Some || exists|k: int|
                0 <= k < self.asset_name@.len() && !#[trigger] self.asset_name@[k].disabled,
        }
    }

    /// Whether a checksum that cannot be checked is an error (see
    /// `is_required_of`).
    pub fn is_required(&self) -> (r: bool)
        ensures
            r == self.is_required_of(),
    {
        match self.required {
            Some(b) => b,
            None => {
                if self.algorithm.is_some() || self.value.is_some() {
                    return true;
                }
                let mut i: usize = 0;
                while i < self.asset_name.len()
                    invariant
                        i <= self.asset_name@.len(),
                        self.required is None && self.algorithm is None && self.value is None,
                        forall|k: int| 0 <= k < i ==> #[trigger] self.asset_name@[k].disabled,
                    decreases self.asset_name.len() - i,
                {
                    if self.asset_name[i].enabled() {
                        assert(!self.asset_name@[i as int].disabled);
                        return true;
                    }
                    i = i + 1;
                }
                false
            },
        }
    }

    /// Reads the checksum configuration (see `checksum_of`); errors are
    /// reported at `error_key` and below it.
    #[verifier::spinoff_prover]
    #[verifier::rlimit(50)]
    pub fn from_config_value(
        config_value: Option<&ConfigValue>,
        error_key: &str,
        errors: &mut Vec<ConfigError>,
        current_os: &str,
        current_arch: &str,
    ) -> (r: Self)
        ensures
            ({
                let cv = match config_value {
                    Some(v) => Some(*v),
                    None => None,
                };
                let (c, es) = checksum_of(cv, error_key@, current_os@, current_arch@);
                &&& r@ == c
                &&& error_views(final(errors)@) == error_views(old(errors)@) + es
            }),
    {
        let ghost start = error_views(errors@);
        match config_value {
            None => {
                assert(error_views(errors@) =~= start + Seq::<ConfigErrorView>::empty());
                GithubReleaseChecksumConfig::default()
            },
            Some(cv) => match cv {
                ConfigValue::Table(_) => {
                    let enabled = cv.get_as_bool_or_none("enabled", error_key, errors);
                    let required = cv.get_as_bool_or_none("required", error_key, errors);
                    let algorithm = match cv.get_as_str_or_none("algorithm", error_key, errors) {
                        Some(a) => GithubReleaseChecksumAlgorithm::from_str(a.as_str()),
                        None => None,
                    };
                    let value = cv.get_as_str_or_none("value", error_key, errors);
                    let asset_key = key_path_exec(error_key, "asset_name");
                    let asset_name = AssetNameMatcher::from_config_value_multi(
                        cv.get("asset_name"),
                        asset_key.as_str(),
                        errors,
                        current_os,
                        current_arch,
                    );
                    let r = GithubReleaseChecksumConfig {
                        enabled,
                        required,
                        algorithm,
                        value,
                        asset_name,
                    };
                    let ghost c = checksum_table_of(*cv, error_key@, current_os@, current_arch@);
                    assert(error_views(errors@) =~= start + c.1);
                    r
                },
                ConfigValue::Str(s) => {
                    let mut r = GithubReleaseChecksumConfig::default();
                    r.value = Some(crate::text::copy_string(s));
                    assert(error_views(errors@) =~= start + Seq::<ConfigErrorView>::empty());
                    r
                },
                _ => {
                    report_type(errors, from_chars(to_chars(error_key).as_slice()), one_type("table or string"));
                    GithubReleaseChecksumConfig::default()
                },
            },
        }
    }
}


/// A release to download from GitHub, as configured.
#[derive(Debug, Clone)]
pub struct UpConfigGithubRelease {
    /// The repository, `owner/repo`.
    pub repository: String,
    /// The version asked for, if any.
    pub version: Option<String>,
    /// Whether the latest matching version is always installed.
    pub upgrade: bool,
    /// Whether pre-release versions may be installed.
    pub prerelease: bool,
    /// Whether versions with build details may be installed.
    pub build: bool,
    /// Whether an asset that is a bare binary, not an archive, may be
    /// installed.
    pub binary: bool,
    /// The assets to download.
    pub asset_name: Vec<AssetNameMatcher>,
    /// Whether assets are taken whatever the system they are for.
    pub skip_os_matching: bool,
    /// Whether assets are taken whatever the architecture they are for.
    pub skip_arch_matching: bool,
    /// Whether `dist` assets are preferred to `bin` ones.
    pub prefer_dist: bool,
    /// The URL of the GitHub API, for GitHub Enterprise.
    pub api_url: Option<String>,
    /// How checksums are checked.
    pub checksum: GithubReleaseChecksumConfig,
    /// The version that was installed or found installed, once handled.
    pub actual_version: Option<String>,
    /// How the release was handled, once it was.
    pub was_handled: Option<GithubReleaseHandled>,
}

pub struct GithubReleaseView {
    pub repository: Seq<char>,
    pub version: Option<Seq<char>>,
    pub upgrade: bool,
    pub prerelease: bool,
    pub build: bool,
    pub binary: bool,
    pub asset_name: Seq<MatcherView>,
    pub skip_os_matching: bool,
    pub skip_arch_matching: bool,
    pub prefer_dist: bool,
    pub api_url: Option<Seq<char>>,
    pub checksum: ChecksumView,
    pub actual_version: Option<Seq<char>>,
    pub was_handled: Option<GithubReleaseHandled>,
}

impl View for UpConfigGithubRelease {
    type V = GithubReleaseView;

    open spec fn view(&self) -> GithubReleaseView {
        GithubReleaseView {
            repository: self.repository@,
            version: opt_str_view(self.version),
            upgrade: self.upgrade,
            prerelease: self.prerelease,
            build: self.build,
            binary: self.binary,
            asset_name: matcher_views(self.asset_name@),
            skip_os_matching: self.skip_os_matching,
            skip_arch_matching: self.skip_arch_matching,
            prefer_dist: self.prefer_dist,
            api_url: opt_str_view(self.api_url),
            checksum: self.checksum@,
            actual_version: opt_str_view(self.actual_version),
            was_handled: self.was_handled,
        }
    }
}

/// A release with a repository and a version, and everything else left to
/// its default.
pub open spec fn release_named(repository: Seq<char>, version: Option<Seq<char>>) -> GithubReleaseView {
    GithubReleaseView {
        repository,
        version,
        upgrade: false,
        prerelease: false,
        build: false,
        binary: true,
        asset_name: Seq::empty(),
        skip_os_matching: false,
        skip_arch_matching: false,
        prefer_dist: false,
        api_url: None,
        checksum: default_checksum(),
        actual_version: None,
        was_handled: None,
    }
}

/// Where the settings of a release are read from: a table, only a version,
/// or nothing.
pub enum ReleaseSource {
    Table(ConfigValue),
    VersionOnly(Seq<char>),
    Empty,
}

/// A string setting of a release, and the errors reading it reports.
pub open spec fn src_str(src: ReleaseSource, base: Seq<char>, key: Seq<char>) -> (Option<Seq<char>>, Seq<ConfigErrorView>) {
    match src {
        ReleaseSource::Table(cv) => (str_field(cv, key), str_field_errors(cv, base, key)),
        ReleaseSource::VersionOnly(v) => (if key == "version"@ {
            Some(v)
        } else {
            None
        }, Seq::empty()),
        ReleaseSource::Empty => (None, Seq::empty()),
    }
}

/// A boolean setting of a release, `default` when not set, and the errors
/// reading it reports.
pub open spec fn src_bool(src: ReleaseSource, base: Seq<char>, key: Seq<char>, default: bool) -> (bool, Seq<ConfigErrorView>) {
    match src {
        ReleaseSource::Table(cv) => (
            match bool_field(cv, key) {
                Some(b) => b,
                None => default,
            },
            bool_field_errors(cv, base, key),
        ),
        _ => (default, Seq::empty()),
    }
}

/// A setting of a release read as a value.
pub open spec fn src_get(src: ReleaseSource, key: Seq<char>) -> Option<ConfigValue> {
    match src {
        ReleaseSource::Table(cv) => cv.get_of(key),
        _ => None,
    }
}

/// The repository a configured value names, and the errors reading it
/// reports: `owner/name` from a table, or the value as text.
pub open spec fn repository_of(r: ConfigValue, base: Seq<char>) -> (Seq<char>, Seq<ConfigErrorView>) {
    let rkey = key_path(base, "repository"@);
    match r {
        ConfigValue::Table(_) => {
            let owner = str_field(r, "owner"@);
            let name = str_field(r, "name"@);
            let e_owner = str_field_errors(r, rkey, "owner"@) + (if owner is None {
                seq![config_err(key_path(rkey, "owner"@), ConfigErrorKind::MissingKey)]
            } else {
                Seq::empty()
            });
            let e_name = str_field_errors(r, rkey, "name"@) + (if name is None {
                seq![config_err(key_path(rkey, "name"@), ConfigErrorKind::MissingKey)]
            } else {
                Seq::empty()
            });
            (
                (match owner {
                    Some(o) => o,
                    None => Seq::empty(),
                }) + seq!['/'] + (match name {
                    Some(n) => n,
                    None => Seq::empty(),
                }),
                e_owner + e_name,
            )
        },
        _ => match r.str_forced_of() {
            Some(s) => (s, Seq::empty()),
            None => (
                Seq::empty(),
                seq![type_err(rkey, seq!["string or table"@])],
            ),
        },
    }
}

/// The errors that reading the version and the first flags of a release
/// reports.
pub open spec fn release_errors_a(src: ReleaseSource, base: Seq<char>) -> Seq<ConfigErrorView> {
    src_str(src, base, "version"@).1 + src_bool(src, base, "upgrade"@, false).1 + src_bool(
        src,
        base,
        "prerelease"@,
        false,
    ).1 + src_bool(src, base, "build"@, false).1 + src_bool(src, base, "binary"@, true).1
}

/// The errors that reading the assets, the last flags, the API URL and the
/// checksum of a release reports.
pub open spec fn release_errors_b(src: ReleaseSource, base: Seq<char>, cur_os: Seq<char>, cur_arch: Seq<char>) -> Seq<
    ConfigErrorView,
> {
    matcher_multi_of(src_get(src, "asset_name"@), key_path(base, "asset_name"@), cur_os, cur_arch).1
        + src_bool(src, base, "skip_os_matching"@, false).1 + src_bool(
        src,
        base,
        "skip_arch_matching"@,
        false,
    ).1 + src_bool(src, base, "prefer_dist"@, false).1 + src_str(src, base, "api_url"@).1
        + checksum_of(src_get(src, "checksum"@), key_path(base, "checksum"@), cur_os, cur_arch).1
}

/// A release whose repository is `repo` (with the errors found reading
/// it), and whose settings are read from `src`; an empty repository is
/// reported.
pub open spec fn release_settings_of(
    repo: (Seq<char>, Seq<ConfigErrorView>),
    src: ReleaseSource,
    base: Seq<char>,
    cur_os: Seq<char>,
    cur_arch: Seq<char>,
) -> (GithubReleaseView, Seq<ConfigErrorView>) {
    let e_empty = if repo.0.len() == 0 {
        seq![config_err(key_path(base, "repository"@), ConfigErrorKind::EmptyKey)]
    } else {
        Seq::empty()
    };
    (
        GithubReleaseView {
            repository: repo.0,
            version: src_str(src, base, "version"@).0,
            upgrade: src_bool(src, base, "upgrade"@, false).0,
            prerelease: src_bool(src, base, "prerelease"@, false).0,
            build: src_bool(src, base, "build"@, false).0,
            binary: src_bool(src, base, "binary"@, true).0,
            asset_name: matcher_multi_of(
                src_get(src, "asset_name"@),
                key_path(base, "asset_name"@),
                cur_os,
                cur_arch,
            ).0,
            skip_os_matching: src_bool(src, base, "skip_os_matching"@, false).0,
            skip_arch_matching: src_bool(src, base, "skip_arch_matching"@, false).0,
            prefer_dist: src_bool(src, base, "prefer_dist"@, false).0,
            api_url: src_str(src, base, "api_url"@).0,
            checksum: checksum_of(src_get(src, "checksum"@), key_path(base, "checksum"@), cur_os, cur_arch).0,
            actual_version: None,
            was_handled: None,
        },
        repo.1 + e_empty + release_errors_a(src, base) + release_errors_b(src, base, cur_os, cur_arch),
    )
}

/// The repository value of a table: under `repository`, or else `repo`.
pub open spec fn repo_value(cv: ConfigValue) -> Option<ConfigValue> {
    match cv.get_of("repository"@) {
        Some(r) => Some(r),
        None => cv.get_of("repo"@),
    }
}

/// What a table configuring one release gives. The repository is under
/// `repository` or `repo`; otherwise the table has a single key, the
/// repository, whose value is its version, a table of its settings, or
/// nothing. A missing repository is reported.
pub open spec fn release_table_of(cv: ConfigValue, base: Seq<char>, cur_os: Seq<char>, cur_arch: Seq<char>) -> (
    GithubReleaseView,
    Seq<ConfigErrorView>,
) {
    let missing = (
        release_named(Seq::empty(), None),
        seq![config_err(key_path(base, "repository"@), ConfigErrorKind::MissingKey)],
    );
    match repo_value(cv) {
        Some(r) => release_settings_of(repository_of(r, base), ReleaseSource::Table(cv), base, cur_os, cur_arch),
        None => match cv {
            ConfigValue::Table(entries) => if entries@.len() == 1 {
                let key = entries@[0].0@;
                let value = entries@[0].1;
                match value.str_forced_of() {
                    Some(version) => (release_named(key, Some(version)), Seq::empty()),
                    None => match value {
                        ConfigValue::Table(_) => release_settings_of(
                            (key, Seq::empty()),
                            ReleaseSource::Table(value),
                            base,
                            cur_os,
                            cur_arch,
                        ),
                        ConfigValue::Null => release_settings_of(
                            (key, Seq::empty()),
                            ReleaseSource::Empty,
                            base,
                            cur_os,
                            cur_arch,
                        ),
                        _ => missing,
                    },
                }
            } else {
                missing
            },
            _ => missing,
        },
    }
}

/// What the configuration of one release gives: nothing (the defaults), a
/// table (see `release_table_of`) or the repository as text; anything else
/// is reported.
pub open spec fn release_of(cv: Option<ConfigValue>, base: Seq<char>, cur_os: Seq<char>, cur_arch: Seq<char>) -> (
    GithubReleaseView,
    Seq<ConfigErrorView>,
) {
    match cv {
        None => (release_named(Seq::empty(), None), Seq::empty()),
        Some(ConfigValue::Table(t)) => release_table_of(ConfigValue::Table(t), base, cur_os, cur_arch),
        Some(v) => match v.str_forced_of() {
            Some(r) => (release_named(r, None), Seq::empty()),
            None => (
                release_named(Seq::empty(), None),
                seq![type_err(base, seq!["string or table"@])],
            ),
        },
    }
}

fn str_setting(
    src: Option<&ConfigValue>,
    vtext: Option<&String>,
    error_key: &str,
    key: &str,
    errors: &mut Vec<ConfigError>,
) -> (r: Option<String>)
    requires
        src is Some ==> vtext is None,
    ensures
        ({
            let s = match src {
                Some(cv) => ReleaseSource::Table(*cv),
                None => match vtext {
                    Some(t) => ReleaseSource::VersionOnly(t@),
                    None => ReleaseSource::Empty,
                },
            };
            &&& opt_str_view(r) == src_str(s, error_key@, key@).0
            &&& error_views(final(errors)@) == error_views(old(errors)@) + src_str(s, error_key@, key@).1
        }),
{
    match src {
        Some(cv) => cv.get_as_str_or_none(key, error_key, errors),
        None => {
            assert(error_views(errors@) =~= error_views(errors@) + Seq::empty());
            match vtext {
                Some(t) => {
                    if chars_eq(&to_chars(key), &to_chars("version")) {
                        Some(crate::text::copy_string(t))
                    } else {
                        None
                    }
                },
                None => None,
            }
        },
    }
}

fn bool_setting(
    src: Option<&ConfigValue>,
    vtext: Option<&String>,
    error_key: &str,
    key: &str,
    default: bool,
    errors: &mut Vec<ConfigError>,
) -> (r: bool)
    requires
        src is Some ==> vtext is None,
    ensures
        ({
            let s = match src {
                Some(cv) => ReleaseSource::Table(*cv),
                None => match vtext {
                    Some(t) => ReleaseSource::VersionOnly(t@),
                    None => ReleaseSource::Empty,
                },
            };
            &&& r == src_bool(s, error_key@, key@, default).0
            &&& error_views(final(errors)@) == error_views(old(errors)@) + src_bool(s, error_key@, key@, default).1
        }),
{
    match src {
        Some(cv) => match cv.get_as_bool_or_none(key, error_key, errors) {
            Some(b) => b,
            None => default,
        },
        None => {
            assert(error_views(errors@) =~= error_views(errors@) + Seq::empty());
            default
        },
    }
}

fn get_setting<'a>(src: Option<&'a ConfigValue>, key: &str) -> (r: Option<&'a ConfigValue>)
    ensures
        crate::config_value::deref_opt(r) == match src {
            Some(cv) => cv.get_of(key@),
            None => None,
        },
{
    match src {
        Some(cv) => cv.get(key),
        None => None,
    }
}

fn repository_exec(r: &ConfigValue, error_key: &str, errors: &mut Vec<ConfigError>) -> (s: String)
    ensures
        s@ == repository_of(*r, error_key@).0,
        error_views(final(errors)@) == error_views(old(errors)@) + repository_of(*r, error_key@).1,
{
    let ghost start = error_views(errors@);
    let rkey = key_path_exec(error_key, "repository");
    if r.is_table() {
        let owner = r.get_as_str_or_none("owner", rkey.as_str(), errors);
        let ghost e1 = error_views(errors@);
        if owner.is_none() {
            report(errors, key_path_exec(rkey.as_str(), "owner"), ConfigErrorKind::MissingKey);
        }
        let ghost e2 = error_views(errors@);
        let name = r.get_as_str_or_none("name", rkey.as_str(), errors);
        let ghost e3 = error_views(errors@);
        if name.is_none() {
            report(errors, key_path_exec(rkey.as_str(), "name"), ConfigErrorKind::MissingKey);
        }
        let mut out: Vec<char> = match &owner {
            Some(o) => to_chars(o.as_str()),
            None => Vec::new(),
        };
        out.push('/');
        match &name {
            Some(n) => crate::text::append(&mut out, &to_chars(n.as_str())),
            None => {},
        }
        proof {
            let ev = repository_of(*r, error_key@).1;
            assert(error_views(errors@) =~= start + ev);
            assert(out@ =~= repository_of(*r, error_key@).0);
        }
        from_chars(out.as_slice())
    } else {
        match r.as_str_forced() {
            Some(s) => {
                assert(error_views(errors@) =~= start + Seq::empty());
                s
            },
            None => {
                report_type(errors, rkey, one_type("string or table"));
                String::new()
            },
        }
    }
}

impl UpConfigGithubRelease {
    fn named(repository: String, version: Option<String>) -> (r: UpConfigGithubRelease)
        ensures
            r@ == release_named(repository@, opt_str_view(version)),
    {
        let r = UpConfigGithubRelease {
            repository,
            version,
            upgrade: false,
            prerelease: false,
            build: false,
            binary: true,
            asset_name: Vec::new(),
            skip_os_matching: false,
            skip_arch_matching: false,
            prefer_dist: false,
            api_url: None,
            checksum: GithubReleaseChecksumConfig::default(),
            actual_version: None,
            was_handled: None,
        };
        assert(r@.asset_name =~= Seq::<MatcherView>::empty());
        r
    }

    fn settings_a(
        src: Option<&ConfigValue>,
        vtext: Option<&String>,
        error_key: &str,
        errors: &mut Vec<ConfigError>,
    ) -> (r: (Option<String>, bool, bool, bool, bool))
        requires
            src is Some ==> vtext is None,
        ensures
            ({
                let s = match src {
                    Some(cv) => ReleaseSource::Table(*cv),
                    None => match vtext {
                        Some(t) => ReleaseSource::VersionOnly(t@),
                        None => ReleaseSource::Empty,
                    },
                };
                &&& opt_str_view(r.0) == src_str(s, error_key@, "version"@).0
                &&& r.1 == src_bool(s, error_key@, "upgrade"@, false).0
                &&& r.2 == src_bool(s, error_key@, "prerelease"@, false).0
                &&& r.3 == src_bool(s, error_key@, "build"@, false).0
                &&& r.4 == src_bool(s, error_key@, "binary"@, true).0
                &&& error_views(final(errors)@) == error_views(old(errors)@) + release_errors_a(s, error_key@)
            }),
    {
        let ghost start = error_views(errors@);
        let version = str_setting(src, vtext, error_key, "version", errors);
        let ghost e1 = error_views(errors@);
        let upgrade = bool_setting(src, vtext, error_key, "upgrade", false, errors);
        let ghost e2 = error_views(errors@);
        let prerelease = bool_setting(src, vtext, error_key, "prerelease", false, errors);
        let ghost e3 = error_views(errors@);
        let build = bool_setting(src, vtext, error_key, "build", false, errors);
        let ghost e4 = error_views(errors@);
        let binary = bool_setting(src, vtext, error_key, "binary", true, errors);
        proof {
            let s = match src {
                Some(cv) => ReleaseSource::Table(*cv),
                None => match vtext {
                    Some(t) => ReleaseSource::VersionOnly(t@),
                    None => ReleaseSource::Empty,
                },
            };
            assert(error_views(errors@) =~= start + release_errors_a(s, error_key@));
        }
        (version, upgrade, prerelease, build, binary)
    }

    #[verifier::spinoff_prover]
    #[verifier::rlimit(50)]
    fn settings_b(
        src: Option<&ConfigValue>,
        vtext: Option<&String>,
        error_key: &str,
        errors: &mut Vec<ConfigError>,
        current_os: &str,
        current_arch: &str,
    ) -> (r: (Vec<AssetNameMatcher>, bool, bool, bool, Option<String>, GithubReleaseChecksumConfig))
        requires
            src is Some ==> vtext is None,
        ensures
            ({
                let s = match src {
                    Some(cv) => ReleaseSource::Table(*cv),
                    None => match vtext {
                        Some(t) => ReleaseSource::VersionOnly(t@),
                        None => ReleaseSource::Empty,
                    },
                };
                &&& matcher_views(r.0@) == matcher_multi_of(
                    src_get(s, "asset_name"@),
                    key_path(error_key@, "asset_name"@),
                    current_os@,
                    current_arch@,
                ).0
                &&& r.1 == src_bool(s, error_key@, "skip_os_matching"@, false).0
                &&& r.2 == src_bool(s, error_key@, "skip_arch_matching"@, false).0
                &&& r.3 == src_bool(s, error_key@, "prefer_dist"@, false).0
                &&& opt_str_view(r.4) == src_str(s, error_key@, "api_url"@).0
                &&& r.5@ == checksum_of(
                    src_get(s, "checksum"@),
                    key_path(error_key@, "checksum"@),
                    current_os@,
                    current_arch@,
                ).0
                &&& error_views(final(errors)@) == error_views(old(errors)@) + release_errors_b(
                    s,
                    error_key@,
                    current_os@,
                    current_arch@,
                )
            }),
    {
        let ghost start = error_views(errors@);
        let asset_key = key_path_exec(error_key, "asset_name");
        let asset_name = AssetNameMatcher::from_config_value_multi(
            get_setting(src, "asset_name"),
            asset_key.as_str(),
            errors,
            current_os,
            current_arch,
        );
        let skip_os_matching = bool_setting(src, vtext, error_key, "skip_os_matching", false, errors);
        let skip_arch_matching = bool_setting(src, vtext, error_key, "skip_arch_matching", false, errors);
        let prefer_dist = bool_setting(src, vtext, error_key, "prefer_dist", false, errors);
        let api_url = str_setting(src, vtext, error_key, "api_url", errors);
        let checksum_key = key_path_exec(error_key, "checksum");
        let checksum = GithubReleaseChecksumConfig::from_config_value(
            get_setting(src, "checksum"),
            checksum_key.as_str(),
            errors,
            current_os,
            current_arch,
        );
        proof {
            let s = match src {
                Some(cv) => ReleaseSource::Table(*cv),
                None => match vtext {
                    Some(t) => ReleaseSource::VersionOnly(t@),
                    None => ReleaseSource::Empty,
                },
            };
            assert(error_views(errors@) =~= start + release_errors_b(s, error_key@, current_os@, current_arch@));
        }
        (asset_name, skip_os_matching, skip_arch_matching, prefer_dist, api_url, checksum)
    }

    fn from_settings(
        repository: String,
        src: Option<&ConfigValue>,
        vtext: Option<&String>,
        error_key: &str,
        errors: &mut Vec<ConfigError>,
        current_os: &str,
        current_arch: &str,
    ) -> (r: UpConfigGithubRelease)
        requires
            src is Some ==> vtext is None,
        ensures
            ({
                let s = match src {
                    Some(cv) => ReleaseSource::Table(*cv),
                    None => match vtext {
                        Some(t) => ReleaseSource::VersionOnly(t@),
                        None => ReleaseSource::Empty,
                    },
                };
                let (x, es) = release_settings_of(
                    (repository@, Seq::empty()),
                    s,
                    error_key@,
                    current_os@,
                    current_arch@,
                );
                &&& r@ == x
                &&& error_views(final(errors)@) == error_views(old(errors)@) + es
            }),
    {
        let ghost start = error_views(errors@);
        if repository.unicode_len() == 0 {
            report(errors, key_path_exec(error_key, "repository"), ConfigErrorKind::EmptyKey);
        }
        let ghost e0 = error_views(errors@);
        let a = UpConfigGithubRelease::settings_a(src, vtext, error_key, errors);
        let ghost e1 = error_views(errors@);
        let b = UpConfigGithubRelease::settings_b(src, vtext, error_key, errors, current_os, current_arch);
        let (version, upgrade, prerelease, build, binary) = a;
        let (asset_name, skip_os_matching, skip_arch_matching, prefer_dist, api_url, checksum) = b;
        let r = UpConfigGithubRelease {
            repository,
            version,
            upgrade,
            prerelease,
            build,
            binary,
            asset_name,
            skip_os_matching,
            skip_arch_matching,
            prefer_dist,
            api_url,
            checksum,
            actual_version: None,
            was_handled: None,
        };
        proof {
            let s = match src {
                Some(cv) => ReleaseSource::Table(*cv),
                None => match vtext {
                    Some(t) => ReleaseSource::VersionOnly(t@),
                    None => ReleaseSource::Empty,
                },
            };
            let es = release_settings_of(
                (r.repository@, Seq::empty()),
                s,
                error_key@,
                current_os@,
                current_arch@,
            ).1;
            assert(error_views(errors@) =~= start + es);
        }
        r
    }
}


fn release_missing(error_key: &str, errors: &mut Vec<ConfigError>) -> (r: UpConfigGithubRelease)
    ensures
        r@ == release_named(Seq::empty(), None),
        error_views(final(errors)@) == error_views(old(errors)@) + seq![
            config_err(key_path(error_key@, "repository"@), ConfigErrorKind::MissingKey),
        ],
{
    report(errors, key_path_exec(error_key, "repository"), ConfigErrorKind::MissingKey);
    UpConfigGithubRelease::named(String::new(), None)
}

fn repo_value_exec(cv: &ConfigValue) -> (r: Option<&ConfigValue>)
    ensures
        crate::config_value::deref_opt(r) == repo_value(*cv),
{
    match cv.get("repository") {
        Some(r) => Some(r),
        None => cv.get("repo"),
    }
}

impl UpConfigGithubRelease {
    /// Reads a table that configures one release (see `release_table_of`).
    #[verifier::spinoff_prover]
    #[verifier::rlimit(50)]
    pub fn from_table(
        cv: &ConfigValue,
        error_key: &str,
        errors: &mut Vec<ConfigError>,
        current_os: &str,
        current_arch: &str,
    ) -> (r: UpConfigGithubRelease)
        requires
            *cv is Table,
        ensures
            ({
                let (x, es) = release_table_of(*cv, error_key@, current_os@, current_arch@);
                &&& r@ == x
                &&& error_views(final(errors)@) == error_views(old(errors)@) + es
            }),
    {
        let ghost start = error_views(errors@);
        match repo_value_exec(cv) {
            Some(rv) => {
                let repository = repository_exec(rv, error_key, errors);
                let ghost e1 = error_views(errors@);
                let r = UpConfigGithubRelease::from_settings(
                    repository,
                    Some(cv),
                    None,
                    error_key,
                    errors,
                    current_os,
                    current_arch,
                );
                proof {
                    let src = ReleaseSource::Table(*cv);
                    let rep = repository_of(*rv, error_key@);
                    let a = release_settings_of((rep.0, Seq::empty()), src, error_key@, current_os@, current_arch@);
                    let b = release_settings_of(rep, src, error_key@, current_os@, current_arch@);
                    assert(a.0 == b.0);
                    assert(error_views(errors@) =~= start + b.1);
                }
                r
            },
            None => {
                let entries = match cv.as_table() {
                    Some(t) => t,
                    None => {
                        return release_missing(error_key, errors);
                    },
                };
                if entries.len() != 1 {
                    return release_missing(error_key, errors);
                }
                let key = &entries[0].0;
                let value = &entries[0].1;
                match value.as_str_forced() {
                    Some(version) => {
                        assert(error_views(errors@) =~= start + Seq::empty());
                        UpConfigGithubRelease::named(crate::text::copy_string(key), Some(version))
                    },
                    None => match value {
                        ConfigValue::Table(_) => UpConfigGithubRelease::from_settings(
                            crate::text::copy_string(key),
                            Some(value),
                            None,
                            error_key,
                            errors,
                            current_os,
                            current_arch,
                        ),
                        ConfigValue::Null => UpConfigGithubRelease::from_settings(
                            crate::text::copy_string(key),
                            None,
                            None,
                            error_key,
                            errors,
                            current_os,
                            current_arch,
                        ),
                        _ => release_missing(error_key, errors),
                    },
                }
            },
        }
    }

    /// Reads the configuration of one release (see `release_of`).
    pub fn from_config_value(
        config_value: Option<&ConfigValue>,
        error_key: &str,
        errors: &mut Vec<ConfigError>,
        current_os: &str,
        current_arch: &str,
    ) -> (r: UpConfigGithubRelease)
        ensures
            ({
                let (x, es) = release_of(
                    crate::config_value::deref_opt(config_value),
                    error_key@,
                    current_os@,
                    current_arch@,
                );
                &&& r@ == x
                &&& error_views(final(errors)@) == error_views(old(errors)@) + es
            }),
    {
        let cv = match config_value {
            Some(cv) => cv,
            None => {
                assert(error_views(errors@) =~= error_views(errors@) + Seq::empty());
                return UpConfigGithubRelease::named(String::new(), None);
            },
        };
        if cv.is_table() {
            return UpConfigGithubRelease::from_table(cv, error_key, errors, current_os, current_arch);
        }
        match cv.as_str_forced() {
            Some(r) => {
                assert(error_views(errors@) =~= error_views(errors@) + Seq::empty());
                UpConfigGithubRelease::named(r, None)
            },
            None => {
                report_type(errors, from_chars(to_chars(error_key).as_slice()), one_type("string or table"));
                UpConfigGithubRelease::named(String::new(), None)
            },
        }
    }
}


/// The releases to download from GitHub.
#[derive(Debug, Clone)]
pub struct UpConfigGithubReleases {
    pub releases: Vec<UpConfigGithubRelease>,
}

pub open spec fn release_views(v: Seq<UpConfigGithubRelease>) -> Seq<GithubReleaseView> {
    Seq::new(v.len(), |k: int| v[k]@)
}

/// A release given as `repository: settings` in a table of releases: the
/// settings are a table, a version, or nothing.
pub open spec fn release_map_entry_of(
    key: Seq<char>,
    value: ConfigValue,
    base: Seq<char>,
    cur_os: Seq<char>,
    cur_arch: Seq<char>,
) -> (GithubReleaseView, Seq<ConfigErrorView>) {
    let src = match value {
        ConfigValue::Table(_) => ReleaseSource::Table(value),
        _ => match value.str_forced_of() {
            Some(t) => ReleaseSource::VersionOnly(t),
            None => ReleaseSource::Empty,
        },
    };
    release_settings_of((key, Seq::empty()), src, base, cur_os, cur_arch)
}

/// The releases of a table of releases, taken by repository in the order
/// `keys`, each keyed `base.repository`.
pub open spec fn release_map_of(
    entries: Seq<(String, ConfigValue)>,
    keys: Seq<Seq<char>>,
    base: Seq<char>,
    cur_os: Seq<char>,
    cur_arch: Seq<char>,
) -> (Seq<GithubReleaseView>, Seq<ConfigErrorView>)
    decreases keys.len(),
{
    if keys.len() == 0 {
        (Seq::empty(), Seq::empty())
    } else {
        let (rs, es) = release_map_of(entries, keys.drop_last(), base, cur_os, cur_arch);
        let k = keys.last();
        match crate::config_value::lookup(entries, k) {
            None => (rs, es),
            Some(v) => {
                let (r, e) = release_map_entry_of(k, v, key_path(base, k), cur_os, cur_arch);
                (rs.push(r), es + e)
            },
        }
    }
}

/// The releases of the entries of a list, each keyed `base[index]`.
pub open spec fn release_list_of(a: Seq<ConfigValue>, base: Seq<char>, cur_os: Seq<char>, cur_arch: Seq<char>) -> (
    Seq<GithubReleaseView>,
    Seq<ConfigErrorView>,
)
    decreases a.len(),
{
    if a.len() == 0 {
        (Seq::empty(), Seq::empty())
    } else {
        let (rs, es) = release_list_of(a.drop_last(), base, cur_os, cur_arch);
        let (r, e) = release_of(Some(a.last()), index_path(base, (a.len() - 1) as nat), cur_os, cur_arch);
        (rs.push(r), es + e)
    }
}

/// The releases a configuration gives: one release written as text, a
/// list of releases, one release as a table with `repository` or `repo`,
/// or a table of releases by repository (in increasing order); no value,
/// or a table that gives no release, is reported as empty, and any other
/// value as of the wrong type.
pub open spec fn releases_of(cv: Option<ConfigValue>, base: Seq<char>, cur_os: Seq<char>, cur_arch: Seq<char>) -> (
    Seq<GithubReleaseView>,
    Seq<ConfigErrorView>,
) {
    let empty = seq![config_err(base, ConfigErrorKind::EmptyKey)];
    match cv {
        None => (Seq::empty(), empty),
        Some(v) => if v.str_forced_of() is Some {
            let (r, e) = release_of(Some(v), base, cur_os, cur_arch);
            (seq![r], e)
        } else {
            match v {
                ConfigValue::Array(a) => release_list_of(a@, base, cur_os, cur_arch),
                ConfigValue::Table(t) => if repo_value(v) is Some {
                    let (r, e) = release_of(Some(v), base, cur_os, cur_arch);
                    (seq![r], e)
                } else {
                    let (rs, es) = release_map_of(t@, crate::config_value::sorted_keys(t@), base, cur_os, cur_arch);
                    if rs.len() == 0 {
                        (rs, es + empty)
                    } else {
                        (rs, es)
                    }
                },
                _ => (
                    Seq::empty(),
                    seq![type_err(base, seq!["string"@, "array"@, "table"@])],
                ),
            }
        },
    }
}

/// The label of a path removed below the releases' directory, from its
/// components there: `owner/repo version` for a version directory,
/// `owner/repo (all versions)` for a repository, `owner (all releases)`
/// for an owner, nothing for the directory itself or a deeper path.
pub open spec fn release_removed_label(rest: Seq<Seq<char>>) -> Option<Seq<char>> {
    if rest.len() > 3 || rest.len() == 0 {
        None
    } else if rest.len() == 3 {
        Some(rest[0] + "/"@ + rest[1] + " "@ + rest[2])
    } else if rest.len() == 2 {
        Some(rest[0] + "/"@ + rest[1] + " (all versions)"@)
    } else {
        Some(rest[0] + " (all releases)"@)
    }
}

/// The labels of the removed paths `ps` that lie below `bin`, in order.
pub open spec fn release_removed_labels(bin: Seq<char>, ps: Seq<Seq<char>>) -> Seq<Seq<char>>
    decreases ps.len(),
{
    if ps.len() == 0 {
        Seq::empty()
    } else {
        let rest = release_removed_labels(bin, ps.drop_last());
        match relative_parts_of(bin, ps.last()) {
            Some(parts) => match release_removed_label(parts) {
                Some(l) => rest.push(l),
                None => rest,
            },
            None => rest,
        }
    }
}

fn release_removed_label_exec(rest: &Vec<Vec<char>>) -> (r: Option<Vec<char>>)
    ensures
        match release_removed_label(views(rest@)) {
            Some(x) => r matches Some(y) && y@ == x,
            None => r is None,
        },
{
    if rest.len() > 3 || rest.len() == 0 {
        return None;
    }
    let mut out = slice(&rest[0], 0, rest[0].len());
    assert(rest@[0]@.subrange(0, rest@[0]@.len() as int) =~= rest@[0]@);
    assert(views(rest@)[0] == rest@[0]@);
    if rest.len() >= 2 {
        assert(views(rest@)[1] == rest@[1]@);
        crate::text::push_str(&mut out, "/");
        crate::text::append(&mut out, &rest[1]);
        if rest.len() == 3 {
            assert(views(rest@)[2] == rest@[2]@);
            crate::text::push_str(&mut out, " ");
            crate::text::append(&mut out, &rest[2]);
        } else {
            crate::text::push_str(&mut out, " (all versions)");
        }
    } else {
        crate::text::push_str(&mut out, " (all releases)");
    }
    Some(out)
}

/// How a release was handled: `Unhandled` until it was.
pub open spec fn release_handling(r: GithubReleaseView) -> GithubReleaseHandled {
    match r.was_handled {
        Some(h) => h,
        None => GithubReleaseHandled::Unhandled,
    }
}

/// Whether a release was installed or found installed.
pub open spec fn release_upped(r: GithubReleaseView) -> bool {
    r.was_handled == Some(GithubReleaseHandled::Handled) || r.was_handled == Some(
        GithubReleaseHandled::Noop,
    )
}

/// How a handled release is named in a summary: `owner/repo version`,
/// with `?` for a version that is not known.
pub open spec fn release_label(r: GithubReleaseView) -> Seq<char> {
    r.repository + " "@ + match r.actual_version {
        Some(v) => v,
        None => "?"@,
    }
}

/// The labels of the releases among `rs` that were installed or found
/// installed, in order.
pub open spec fn release_labels(rs: Seq<GithubReleaseView>) -> Seq<Seq<char>>
    decreases rs.len(),
{
    if rs.len() == 0 {
        Seq::empty()
    } else if release_upped(rs.last()) {
        release_labels(rs.drop_last()).push(release_label(rs.last()))
    } else {
        release_labels(rs.drop_last())
    }
}

/// How many releases among `rs` were handled as `h`.
pub open spec fn release_count(rs: Seq<GithubReleaseView>, h: GithubReleaseHandled) -> nat
    decreases rs.len(),
{
    if rs.len() == 0 {
        0
    } else {
        release_count(rs.drop_last(), h) + if release_handling(rs.last()) == h {
            1nat
        } else {
            0nat
        }
    }
}

/// The host of the GitHub API: that of `api_url` when the URL parser reads
/// one in it, `api_url` itself when it reads none or refuses it, and
/// `github.com` without `api_url`.
pub open spec fn api_hostname(api_url: Option<Seq<char>>) -> Seq<char> {
    match api_url {
        None => "github.com"@,
        Some(u) => if url_parses(u) {
            match url_host(u) {
                Some(h) => h,
                None => u,
            }
        } else {
            u
        },
    }
}

impl UpConfigGithubRelease {
    /// A release of `repository` at `version`, always upgraded, with
    /// everything else left to its default.
    pub fn new_with_version(repository: &str, version: &str) -> (r: UpConfigGithubRelease)
        ensures
            r@ == (GithubReleaseView { upgrade: true, ..release_named(repository@, Some(version@)) }),
    {
        let mut r = UpConfigGithubRelease::named(
            from_chars(to_chars(repository).as_slice()),
            Some(from_chars(to_chars(version).as_slice())),
        );
        r.upgrade = true;
        r
    }

    /// How the release was handled: `Unhandled` until it was.
    pub fn handling(&self) -> (r: GithubReleaseHandled)
        ensures
            r == release_handling(self@),
    {
        match self.was_handled {
            Some(h) => h,
            None => GithubReleaseHandled::Unhandled,
        }
    }

    /// Whether the release was installed or found installed.
    pub fn was_upped(&self) -> (r: bool)
        ensures
            r == release_upped(self@),
    {
        match self.was_handled {
            Some(GithubReleaseHandled::Handled) | Some(GithubReleaseHandled::Noop) => true,
            _ => false,
        }
    }

    /// The version that was installed, once it is known.
    pub fn version(&self) -> (r: Result<String, UpError>)
        ensures
            match self@.actual_version {
                Some(v) => r matches Ok(x) && x@ == v,
                None => r matches Err(UpError::Exec(m)) && m@ == "version not set"@,
            },
    {
        match &self.actual_version {
            Some(v) => Ok(from_chars(to_chars(v.as_str()).as_slice())),
            None => Err(UpError::Exec(String::from_str("version not set"))),
        }
    }

    /// Records the outcome of downloading `version`: on success, the
    /// version and whether it was downloaded (`Handled`) or already there
    /// (`Noop`). The version is recorded once only: recording a second
    /// one fails and leaves the release as it was. A failure is handed
    /// back and leaves the release as it was.
    pub fn handle_downloaded(&mut self, version: &str, downloaded: Result<bool, UpError>) -> (r: Result<bool, UpError>)
        requires
            old(self).actual_version is None ==> old(self).was_handled is None,
        ensures
            match downloaded {
                Ok(b) => if old(self).actual_version is Some {
                    &&& r matches Err(UpError::Exec(m)) && m@ == "failed to set actual version"@
                    &&& final(self)@ == old(self)@
                } else {
                    &&& r == downloaded
                    &&& final(self)@ == (GithubReleaseView {
                        actual_version: Some(version@),
                        was_handled: Some(
                            if b {
                                GithubReleaseHandled::Handled
                            } else {
                                GithubReleaseHandled::Noop
                            },
                        ),
                        ..old(self)@
                    })
                },
                Err(_) => r == downloaded && final(self)@ == old(self)@,
            },
    {
        match downloaded {
            Ok(b) => {
                if self.actual_version.is_some() {
                    return Err(UpError::Exec(String::from_str("failed to set actual version")));
                }
                self.actual_version = Some(from_chars(to_chars(version).as_slice()));
                self.was_handled = Some(
                    if b {
                        GithubReleaseHandled::Handled
                    } else {
                        GithubReleaseHandled::Noop
                    },
                );
                Ok(b)
            },
            Err(e) => Err(e),
        }
    }

    /// The host of the GitHub API (see `api_hostname`).
    pub fn get_api_hostname(&self) -> (r: String)
        ensures
            r@ == api_hostname(self@.api_url),
    {
        match &self.api_url {
            None => String::from_str("github.com"),
            Some(u) => match parse_url_host(u.as_str()) {
                Some(Some(h)) => h,
                _ => from_chars(to_chars(u.as_str()).as_slice()),
            },
        }
    }

    fn summary_label(&self) -> (r: String)
        ensures
            r@ == release_label(self@),
    {
        let mut out = to_chars(self.repository.as_str());
        out.push(' ');
        match &self.actual_version {
            Some(v) => crate::text::append(&mut out, &to_chars(v.as_str())),
            None => crate::text::push_str(&mut out, "?"),
        }
        proof {
            reveal_strlit(" ");
        }
        from_chars(out.as_slice())
    }
}

impl UpConfigGithubReleases {
    /// What a cleanup of the releases' directory `bin_path` reports, given
    /// whether the whole directory went, how many paths were removed and
    /// which (see `removal_report`).
    pub fn cleanup_report(
        bin_path: &str,
        root_removed: bool,
        num_removed: usize,
        removed_paths: &Vec<String>,
    ) -> (r: Option<String>)
        ensures
            match removal_report(
                "removed all github releases"@,
                "release"@,
                root_removed,
                num_removed as nat,
                release_removed_labels(bin_path@, crate::order::string_seq(removed_paths@)),
            ) {
                Some(x) => r matches Some(y) && y@ == x,
                None => r is None,
            },
    {
        let mut labels: Vec<Vec<char>> = Vec::new();
        if !root_removed && num_removed > 0 {
            let ghost ps = crate::order::string_seq(removed_paths@);
            let mut i: usize = 0;
            assert(ps.subrange(0, 0) =~= Seq::<Seq<char>>::empty());
            assert(views(labels@) =~= Seq::<Seq<char>>::empty());
            while i < removed_paths.len()
                invariant
                    i <= removed_paths@.len(),
                    ps == crate::order::string_seq(removed_paths@),
                    views(labels@) == release_removed_labels(bin_path@, ps.subrange(0, i as int)),
                decreases removed_paths.len() - i,
            {
                let ghost pre = ps.subrange(0, i + 1);
                assert(pre.drop_last() =~= ps.subrange(0, i as int));
                assert(pre.last() == removed_paths@[i as int]@);
                let ghost before = views(labels@);
                match relative_parts(bin_path, removed_paths[i].as_str()) {
                    Some(parts) => match release_removed_label_exec(&parts) {
                        Some(l) => {
                            labels.push(l);
                            assert(views(labels@) =~= before.push(release_removed_label(views(parts@))->0));
                        },
                        None => {},
                    },
                    None => {},
                }
                i = i + 1;
            }
            assert(ps.subrange(0, i as int) =~= ps);
        }
        removal_report_text("removed all github releases", "release", root_removed, num_removed, &labels)
    }

    /// Whether any release was installed or found installed.
    pub fn was_upped(&self) -> (r: bool)
        ensures
            r == exists|k: int| 0 <= k < self.releases@.len() && release_upped(#[trigger] self.releases@[k]@),
    {
        let mut i: usize = 0;
        while i < self.releases.len()
            invariant
                i <= self.releases@.len(),
                forall|k: int| 0 <= k < i ==> !release_upped(#[trigger] self.releases@[k]@),
            decreases self.releases.len() - i,
        {
            if self.releases[i].was_upped() {
                return true;
            }
            i = i + 1;
        }
        false
    }

    /// The summary of the step (see `install_summary`): the releases
    /// installed, those already there, and their labels.
    pub fn get_up_message(&self) -> (r: String)
        ensures
            ({
                let rs = release_views(self.releases@);
                r@ == install_summary(
                    release_labels(rs),
                    release_count(rs, GithubReleaseHandled::Handled),
                    release_count(rs, GithubReleaseHandled::Noop),
                )
            }),
    {
        let ghost rs = release_views(self.releases@);
        let mut labels: Vec<String> = Vec::new();
        let mut installed: usize = 0;
        let mut already: usize = 0;
        let mut i: usize = 0;
        assert(rs.subrange(0, 0) =~= Seq::<GithubReleaseView>::empty());
        assert(crate::order::string_seq(labels@) =~= Seq::<Seq<char>>::empty());
        while i < self.releases.len()
            invariant
                i <= self.releases@.len(),
                rs == release_views(self.releases@),
                crate::order::string_seq(labels@) == release_labels(rs.subrange(0, i as int)),
                installed == release_count(rs.subrange(0, i as int), GithubReleaseHandled::Handled),
                already == release_count(rs.subrange(0, i as int), GithubReleaseHandled::Noop),
                installed + already <= i,
            decreases self.releases.len() - i,
        {
            let ghost pre = rs.subrange(0, i + 1);
            assert(pre.drop_last() =~= rs.subrange(0, i as int));
            assert(pre.last() == self.releases@[i as int]@);
            let ghost before = crate::order::string_seq(labels@);
            match self.releases[i].handling() {
                GithubReleaseHandled::Handled => {
                    installed = installed + 1;
                },
                GithubReleaseHandled::Noop => {
                    already = already + 1;
                },
                GithubReleaseHandled::Unhandled => {},
            }
            if self.releases[i].was_upped() {
                let label = self.releases[i].summary_label();
                labels.push(label);
                assert(crate::order::string_seq(labels@) =~= before.push(release_label(pre.last())));
            }
            i = i + 1;
        }
        assert(rs.subrange(0, i as int) =~= rs);
        install_summary_text(&labels, installed, already)
    }
}

impl UpConfigGithubReleases {
    /// Reads the releases to download (see `releases_of`).
    pub fn from_config_value(
        config_value: Option<&ConfigValue>,
        error_key: &str,
        errors: &mut Vec<ConfigError>,
        current_os: &str,
        current_arch: &str,
    ) -> (r: UpConfigGithubReleases)
        ensures
            ({
                let (rs, es) = releases_of(
                    crate::config_value::deref_opt(config_value),
                    error_key@,
                    current_os@,
                    current_arch@,
                );
                &&& release_views(r.releases@) == rs
                &&& error_views(final(errors)@) == error_views(old(errors)@) + es
            }),
    {
        let ghost start = error_views(errors@);
        let mut releases: Vec<UpConfigGithubRelease> = Vec::new();
        assert(release_views(releases@) =~= Seq::empty());
        let cv = match config_value {
            Some(cv) => cv,
            None => {
                report(errors, from_chars(to_chars(error_key).as_slice()), ConfigErrorKind::EmptyKey);
                return UpConfigGithubReleases { releases };
            },
        };
        if cv.as_str_forced().is_some() {
            let r = UpConfigGithubRelease::from_config_value(Some(cv), error_key, errors, current_os, current_arch);
            releases.push(r);
            assert(release_views(releases@) =~= seq![r@]);
            return UpConfigGithubReleases { releases };
        }
        match cv {
            ConfigValue::Array(a) => {
                let mut i: usize = 0;
                assert(a@.subrange(0, 0) =~= Seq::<ConfigValue>::empty());
                assert(error_views(errors@) =~= start + Seq::empty());
                while i < a.len()
                    invariant
                        i <= a@.len(),
                        release_views(releases@) == release_list_of(
                            a@.subrange(0, i as int),
                            error_key@,
                            current_os@,
                            current_arch@,
                        ).0,
                        error_views(errors@) == start + release_list_of(
                            a@.subrange(0, i as int),
                            error_key@,
                            current_os@,
                            current_arch@,
                        ).1,
                    decreases a.len() - i,
                {
                    assert(a@.subrange(0, i + 1).drop_last() =~= a@.subrange(0, i as int));
                    let ghost before = release_views(releases@);
                    let key = index_path_exec(error_key, i);
                    let r = UpConfigGithubRelease::from_config_value(
                        Some(&a[i]),
                        key.as_str(),
                        errors,
                        current_os,
                        current_arch,
                    );
                    releases.push(r);
                    assert(release_views(releases@) =~= before.push(r@));
                    assert(error_views(errors@) =~= start + release_list_of(
                        a@.subrange(0, i + 1),
                        error_key@,
                        current_os@,
                        current_arch@,
                    ).1);
                    i = i + 1;
                }
                assert(a@.subrange(0, i as int) =~= a@);
                UpConfigGithubReleases { releases }
            },
            ConfigValue::Table(t) => {
                if repo_value_exec(cv).is_some() {
                    let r = UpConfigGithubRelease::from_config_value(
                        Some(cv),
                        error_key,
                        errors,
                        current_os,
                        current_arch,
                    );
                    releases.push(r);
                    assert(release_views(releases@) =~= seq![r@]);
                    return UpConfigGithubReleases { releases };
                }
                let keys = crate::config_value::sorted_table_keys(t);
                let ghost kv = Seq::new(keys@.len(), |k: int| keys@[k]@);
                let mut i: usize = 0;
                assert(kv.subrange(0, 0) =~= Seq::<Seq<char>>::empty());
                assert(error_views(errors@) =~= start + Seq::empty());
                while i < keys.len()
                    invariant
                        i <= keys@.len(),
                        kv == Seq::new(keys@.len(), |k: int| keys@[k]@),
                        release_views(releases@) == release_map_of(
                            t@,
                            kv.subrange(0, i as int),
                            error_key@,
                            current_os@,
                            current_arch@,
                        ).0,
                        error_views(errors@) == start + release_map_of(
                            t@,
                            kv.subrange(0, i as int),
                            error_key@,
                            current_os@,
                            current_arch@,
                        ).1,
                    decreases keys.len() - i,
                {
                    assert(kv.subrange(0, i + 1).drop_last() =~= kv.subrange(0, i as int));
                    let ghost before = release_views(releases@);
                    match crate::config_value::table_get(t, keys[i].as_str()) {
                        None => {},
                        Some(v) => {
                            let key = key_path_exec(error_key, keys[i].as_str());
                            let name = crate::text::copy_string(&keys[i]);
                            let r = if v.is_table() {
                                UpConfigGithubRelease::from_settings(
                                    name,
                                    Some(v),
                                    None,
                                    key.as_str(),
                                    errors,
                                    current_os,
                                    current_arch,
                                )
                            } else {
                                match v.as_str_forced() {
                                    Some(text) => UpConfigGithubRelease::from_settings(
                                        name,
                                        None,
                                        Some(&text),
                                        key.as_str(),
                                        errors,
                                        current_os,
                                        current_arch,
                                    ),
                                    None => UpConfigGithubRelease::from_settings(
                                        name,
                                        None,
                                        None,
                                        key.as_str(),
                                        errors,
                                        current_os,
                                        current_arch,
                                    ),
                                }
                            };
                            releases.push(r);
                            assert(release_views(releases@) =~= before.push(r@));
                            assert(error_views(errors@) =~= start + release_map_of(
                                t@,
                                kv.subrange(0, i + 1),
                                error_key@,
                                current_os@,
                                current_arch@,
                            ).1);
                        },
                    }
                    i = i + 1;
                }
                assert(kv.subrange(0, i as int) =~= kv);
                if releases.len() == 0 {
                    report(errors, from_chars(to_chars(error_key).as_slice()), ConfigErrorKind::EmptyKey);
                }
                UpConfigGithubReleases { releases }
            },
            _ => {
                report_type(errors, from_chars(to_chars(error_key).as_slice()), three_types("string", "array", "table"));
                UpConfigGithubReleases { releases }
            },
        }
    }
}


/// Whether a line of a checksum file ends with the asset's name, after a
/// space or a tab (once trimmed).
pub open spec fn names_asset(line: Seq<char>, asset: Seq<char>) -> bool {
    crate::text::has_suffix(trim(line), seq![' '] + asset) || crate::text::has_suffix(
        trim(line),
        seq!['\t'] + asset,
    )
}

/// The first line among `ls[i..]` that names the asset.
pub open spec fn first_naming_line(ls: Seq<Seq<char>>, asset: Seq<char>, i: int) -> Option<int>
    decreases ls.len() - i,
{
    if i < 0 || i >= ls.len() {
        None
    } else if names_asset(ls[i], asset) {
        Some(i)
    } else {
        first_naming_line(ls, asset, i + 1)
    }
}

/// The text of `s` before its first space, tab or other whitespace.
pub open spec fn before_ws(s: Seq<char>) -> Seq<char>
    decreases s.len(),
{
    if s.len() == 0 || crate::text::is_whitespace(s[0]) {
        Seq::empty()
    } else {
        seq![s[0]] + before_ws(s.drop_first())
    }
}

/// Whether `s` holds neither a space nor a tab.
pub open spec fn no_blank(s: Seq<char>) -> bool {
    forall|i: int| 0 <= i < s.len() ==> #[trigger] s[i] != ' ' && s[i] != '\t'
}

/// The checksum of `asset` in the contents of a checksum file: the first
/// word of the first line that ends with the asset's name; otherwise the
/// only line of the file, when it holds no space or tab.
pub open spec fn checksum_in(contents: Seq<char>, asset: Seq<char>) -> Option<Seq<char>> {
    let ls = crate::text::lines(contents);
    match first_naming_line(ls, asset, 0) {
        Some(i) => Some(before_ws(trim(ls[i]))),
        None => if ls.len() == 1 && no_blank(trim(ls[0])) {
            Some(trim(ls[0]))
        } else {
            None
        },
    }
}

fn before_ws_exec(s: &Vec<char>) -> (r: Vec<char>)
    ensures
        r@ == before_ws(s@),
{
    let mut i: usize = 0;
    assert(s@.skip(0) =~= s@);
    assert(s@.subrange(0, 0) =~= Seq::<char>::empty());
    while i < s.len() && !crate::text::whitespace(s[i])
        invariant
            i <= s@.len(),
            before_ws(s@) == s@.subrange(0, i as int) + before_ws(s@.skip(i as int)),
        decreases s.len() - i,
    {
        assert(s@.skip(i as int).drop_first() =~= s@.skip(i + 1));
        assert(s@.subrange(0, i + 1) =~= s@.subrange(0, i as int) + seq![s@[i as int]]);
        i = i + 1;
    }
    assert(before_ws(s@.skip(i as int)) =~= Seq::<char>::empty());
    slice(s, 0, i)
}

fn no_blank_exec(s: &Vec<char>) -> (r: bool)
    ensures
        r == no_blank(s@),
{
    let mut i: usize = 0;
    while i < s.len()
        invariant
            i <= s@.len(),
            forall|k: int| 0 <= k < i ==> #[trigger] s@[k] != ' ' && s@[k] != '\t',
        decreases s.len() - i,
    {
        if s[i] == ' ' || s[i] == '\t' {
            return false;
        }
        i = i + 1;
    }
    true
}

/// Finds the checksum of `asset_name` in the contents of a checksum file
/// (see `checksum_in`).
pub fn checksum_from_file(contents: &str, asset_name: &str) -> (r: Option<String>)
    ensures
        match checksum_in(contents@, asset_name@) {
            Some(c) => r matches Some(s) && s@ == c,
            None => r is None,
        },
{
    let ls = crate::text::split_lines(&to_chars(contents));
    let ghost lv = views(ls@);
    let asset = to_chars(asset_name);
    let mut with_space = vec![' '];
    crate::text::append(&mut with_space, &asset);
    let mut with_tab = vec!['\t'];
    crate::text::append(&mut with_tab, &asset);
    assert(with_space@ =~= seq![' '] + asset_name@);
    assert(with_tab@ =~= seq!['\t'] + asset_name@);
    let mut i: usize = 0;
    while i < ls.len()
        invariant
            i <= ls@.len(),
            lv == views(ls@),
            lv == crate::text::lines(contents@),
            with_space@ == seq![' '] + asset_name@,
            with_tab@ == seq!['\t'] + asset_name@,
            first_naming_line(lv, asset_name@, 0) == first_naming_line(lv, asset_name@, i as int),
        decreases ls.len() - i,
    {
        let t = trim_chars(&ls[i]);
        if crate::text::ends_with(&t, &with_space) || crate::text::ends_with(&t, &with_tab) {
            return Some(from_chars(before_ws_exec(&t).as_slice()));
        }
        i = i + 1;
    }
    if ls.len() == 1 {
        let t = trim_chars(&ls[0]);
        if no_blank_exec(&t) {
            return Some(from_chars(t.as_slice()));
        }
    }
    None
}

/// `checksum not found in {checksum file}: {asset}`, and the other failures
/// of a checksum check.
pub open spec fn checksum_not_found_msg(file: Seq<char>, asset: Seq<char>) -> Seq<char> {
    "checksum not found in "@ + file + ": "@ + asset
}

pub open spec fn algorithm_not_found_msg(value: Seq<char>) -> Seq<char> {
    "checksum algorithm not found for "@ + value
}

pub open spec fn mismatch_msg(asset: Seq<char>, expected: Seq<char>, got: Seq<char>) -> Seq<char> {
    "checksum mismatch for "@ + asset + ": expected "@ + expected + " but got "@ + got
}

/// The algorithm whose hex digests have `n` bytes.
pub open spec fn algorithm_for_len(n: nat) -> Option<GithubReleaseChecksumAlgorithm> {
    if n == 32 {
        Some(GithubReleaseChecksumAlgorithm::Md5)
    } else if n == 40 {
        Some(GithubReleaseChecksumAlgorithm::Sha1)
    } else if n == 64 {
        Some(GithubReleaseChecksumAlgorithm::Sha256)
    } else if n == 96 {
        Some(GithubReleaseChecksumAlgorithm::Sha384)
    } else if n == 128 {
        Some(GithubReleaseChecksumAlgorithm::Sha512)
    } else {
        None
    }
}

/// What checking the checksum of an asset gives, for the checksum
/// configuration `c`: the asset's name, its bytes, and the name and
/// contents of the checksum file downloaded for it, if any. `Ok` when
/// checksums are off, when there is nothing to check against, or when the
/// digest matches; otherwise the message of the failure.
pub open spec fn checksum_check_of(
    c: ChecksumView,
    asset: Seq<char>,
    data: Seq<u8>,
    checksum_file: Option<(Seq<char>, Seq<char>)>,
) -> Result<(), Seq<char>> {
    if c.enabled == Some(false) {
        Ok(())
    } else {
        let value = match c.value {
            Some(v) => Some(Ok(v)),
            None => match checksum_file {
                Some((name, contents)) => match checksum_in(contents, asset) {
                    Some(v) => Some(Ok(v)),
                    None => Some(Err(checksum_not_found_msg(name, asset))),
                },
                None => None,
            },
        };
        match value {
            None => Ok(()),
            Some(Err(m)) => Err(m),
            Some(Ok(v)) => {
                let algorithm = match c.algorithm {
                    Some(a) => Some(a),
                    None => algorithm_for_len(vstd::utf8::encode_utf8(v).len()),
                };
                match algorithm {
                    None => Err(algorithm_not_found_msg(v)),
                    Some(a) => if hex(digest_of(a, data)) == v {
                        Ok(())
                    } else {
                        Err(mismatch_msg(asset, v, hex(digest_of(a, data))))
                    },
                }
            },
        }
    }
}

fn exec_error(parts: &Vec<&str>) -> (r: UpError)
    ensures
        r == UpError::Exec(r->Exec_0),
        r->Exec_0@ == join(Seq::new(parts@.len(), |k: int| parts@[k]@), Seq::empty()),
{
    let mut out: Vec<char> = Vec::new();
    let mut i: usize = 0;
    let ghost pv = Seq::new(parts@.len(), |k: int| parts@[k]@);
    while i < parts.len()
        invariant
            i <= parts@.len(),
            pv == Seq::new(parts@.len(), |k: int| parts@[k]@),
            out@ == join(pv.subrange(0, i as int), Seq::empty()),
        decreases parts.len() - i,
    {
        crate::text::push_str(&mut out, parts[i]);
        assert(pv.subrange(0, i + 1).drop_last() =~= pv.subrange(0, i as int));
        assert(out@ =~= join(pv.subrange(0, i + 1), Seq::empty()));
        i = i + 1;
    }
    assert(pv.subrange(0, i as int) =~= pv);
    UpError::Exec(from_chars(out.as_slice()))
}

impl UpConfigGithubRelease {
    /// Checks the checksum of a downloaded asset (see `checksum_check_of`):
    /// `asset_data` is the asset's contents, `checksum_file` the name and
    /// contents of the checksum file downloaded for it, if any.
    pub fn validate_checksum(
        &self,
        asset_name: &str,
        asset_data: &[u8],
        checksum_file: Option<(&str, &str)>,
    ) -> (r: Result<(), UpError>)
        ensures
            match checksum_check_of(
                self.checksum@,
                asset_name@,
                asset_data@,
                match checksum_file {
                    Some((n, c)) => Some((n@, c@)),
                    None => None,
                },
            ) {
                Ok(()) => r is Ok,
                Err(m) => r matches Err(e) && e == UpError::Exec(e->Exec_0) && e->Exec_0@ == m,
            },
    {
        if !self.checksum.is_enabled() {
            return Ok(());
        }
        let value = match &self.checksum.value {
            Some(v) => crate::text::copy_string(v),
            None => match checksum_file {
                Some((name, contents)) => match checksum_from_file(contents, asset_name) {
                    Some(v) => v,
                    None => {
                        let parts = vec!["checksum not found in ", name, ": ", asset_name];
                        assert(Seq::new(parts@.len(), |k: int| parts@[k]@) =~= seq![
                            "checksum not found in "@,
                            name@,
                            ": "@,
                            asset_name@,
                        ]);
                        let e = exec_error(&parts);
                        assert(join(seq!["checksum not found in "@, name@, ": "@, asset_name@], Seq::empty())
                            =~= checksum_not_found_msg(name@, asset_name@)) by {
                            reveal_with_fuel(join, 5);
                        }
                        return Err(e);
                    },
                },
                None => {
                    return Ok(());
                },
            },
        };
        let algorithm = match self.checksum.algorithm {
            Some(a) => a,
            None => match GithubReleaseChecksumAlgorithm::from_hash(value.as_str()) {
                Some(a) => a,
                None => {
                    let parts = vec!["checksum algorithm not found for ", value.as_str()];
                    assert(Seq::new(parts@.len(), |k: int| parts@[k]@) =~= seq![
                        "checksum algorithm not found for "@,
                        value@,
                    ]);
                    let e = exec_error(&parts);
                    assert(join(seq!["checksum algorithm not found for "@, value@], Seq::empty())
                        =~= algorithm_not_found_msg(value@)) by {
                        reveal_with_fuel(join, 3);
                    }
                    return Err(e);
                },
            },
        };
        let computed = algorithm.compute_hash(asset_data);
        if !chars_eq(&to_chars(computed.as_str()), &to_chars(value.as_str())) {
            let parts = vec![
                "checksum mismatch for ",
                asset_name,
                ": expected ",
                value.as_str(),
                " but got ",
                computed.as_str(),
            ];
            assert(Seq::new(parts@.len(), |k: int| parts@[k]@) =~= seq![
                "checksum mismatch for "@,
                asset_name@,
                ": expected "@,
                value@,
                " but got "@,
                computed@,
            ]);
            let e = exec_error(&parts);
            assert(join(
                seq![
                    "checksum mismatch for "@,
                    asset_name@,
                    ": expected "@,
                    value@,
                    " but got "@,
                    computed@,
                ],
                Seq::empty(),
            ) =~= mismatch_msg(asset_name@, value@, computed@)) by {
                reveal_with_fuel(join, 7);
            }
            return Err(e);
        }
        Ok(())
    }
}


/// Whether a matcher applies and has patterns.
pub open spec fn filters(m: MatcherView) -> bool {
    !m.disabled && m.patterns.len() > 0
}

/// The digests of the matchers that filter, one after the other.
pub open spec fn filter_hashes(ms: Seq<MatcherView>) -> Seq<u8>
    decreases ms.len(),
{
    if ms.len() == 0 {
        Seq::empty()
    } else {
        filter_hashes(ms.drop_last()) + if filters(ms.last()) {
            sha256_digest(pattern_bytes(ms.last().patterns))
        } else {
            Seq::empty()
        }
    }
}

/// The UTF-8 bytes of `s`, when `b` holds.
pub open spec fn bytes_if(b: bool, s: Seq<char>) -> Seq<u8> {
    if b {
        vstd::utf8::encode_utf8(s)
    } else {
        Seq::empty()
    }
}

/// What identifies the settings of a release that change which assets
/// are installed: the digests of its filters, then a marker for each
/// setting that differs from its default.
pub open spec fn release_hash_input(r: GithubReleaseView) -> Seq<u8> {
    filter_hashes(r.asset_name) + bytes_if(!r.binary, "disabled_binary"@) + bytes_if(
        r.skip_os_matching,
        "skip_os_matching"@,
    ) + bytes_if(r.skip_arch_matching, "skip_arch_matching"@) + bytes_if(r.prefer_dist, "prefer_dist"@)
}

/// Whether a release's settings select assets as the defaults do.
pub open spec fn default_selection(r: GithubReleaseView) -> bool {
    (forall|k: int| 0 <= k < r.asset_name.len() ==> !filters(#[trigger] r.asset_name[k])) && r.binary
        && !r.skip_os_matching && !r.skip_arch_matching
}

/// The short hash of a release's asset settings: none when they select
/// assets as the defaults do, else the first 8 hex digits of the SHA-256 of
/// `release_hash_input`.
pub open spec fn release_config_hash_of(r: GithubReleaseView) -> Option<Seq<char>> {
    if default_selection(r) {
        None
    } else {
        Some(hex(sha256_digest(release_hash_input(r))).subrange(0, 8))
    }
}

fn push_bytes(data: &mut Vec<u8>, b: &[u8])
    ensures
        final(data)@ == old(data)@ + b@,
{
    let ghost start = data@;
    let mut k: usize = 0;
    while k < b.len()
        invariant
            k <= b@.len(),
            data@ == start + b@.subrange(0, k as int),
        decreases b.len() - k,
    {
        data.push(b[k]);
        assert(data@ =~= start + b@.subrange(0, k + 1));
        k = k + 1;
    }
    assert(b@.subrange(0, k as int) =~= b@);
}

impl UpConfigGithubRelease {
    /// The short hash of the release's asset settings (see
    /// `release_config_hash_of`).
    pub fn release_config_hash(&self) -> (r: Option<String>)
        ensures
            match release_config_hash_of(self@) {
                Some(h) => r matches Some(s) && s@ == h,
                None => r is None,
            },
    {
        let ghost ms = matcher_views(self.asset_name@);
        let mut any = false;
        let mut data: Vec<u8> = Vec::new();
        let mut i: usize = 0;
        assert(ms.subrange(0, 0) =~= Seq::<MatcherView>::empty());
        while i < self.asset_name.len()
            invariant
                i <= self.asset_name@.len(),
                ms == matcher_views(self.asset_name@),
                data@ == filter_hashes(ms.subrange(0, i as int)),
                any == exists|k: int| 0 <= k < i && filters(#[trigger] ms[k]),
            decreases self.asset_name.len() - i,
        {
            assert(ms.subrange(0, i + 1).drop_last() =~= ms.subrange(0, i as int));
            let m = &self.asset_name[i];
            if m.any_filter() {
                let h = m.hash_filter();
                push_bytes(&mut data, h.as_slice());
                any = true;
                assert(filters(ms[i as int]));
            } else {
                assert(data@ =~= filter_hashes(ms.subrange(0, i + 1)));
            }
            i = i + 1;
        }
        assert(ms.subrange(0, i as int) =~= ms);
        if !any && self.binary && !self.skip_os_matching && !self.skip_arch_matching {
            return None;
        }
        if !self.binary {
            push_bytes(&mut data, "disabled_binary".as_bytes());
        }
        if self.skip_os_matching {
            push_bytes(&mut data, "skip_os_matching".as_bytes());
        }
        if self.skip_arch_matching {
            push_bytes(&mut data, "skip_arch_matching".as_bytes());
        }
        if self.prefer_dist {
            push_bytes(&mut data, "prefer_dist".as_bytes());
        }
        assert(data@ =~= release_hash_input(self@));
        let digest = sha256_of(data.as_slice());
        proof {
            lemma_hex_len(digest@);
        }
        let full = to_chars(hex_string(digest.as_slice()).as_str());
        Some(from_chars(slice(&full, 0, 8).as_slice()))
    }

    /// The version as it is recorded: followed by `~` and the short hash of
    /// the asset settings, when there is one.
    pub fn version_with_config(&self, version: &str) -> (r: String)
        ensures
            match release_config_hash_of(self@) {
                Some(h) => r@ == version@ + seq!['~'] + h,
                None => r@ == version@,
            },
    {
        match self.release_config_hash() {
            Some(h) => {
                let mut out = to_chars(version);
                out.push('~');
                crate::text::append(&mut out, &to_chars(h.as_str()));
                from_chars(out.as_slice())
            },
            None => from_chars(to_chars(version).as_slice()),
        }
    }

    /// How the release is shown: `github release:` without a repository,
    /// else `{repository} ({version or latest}):`.
    pub fn desc(&self) -> (r: String)
        ensures
            self.repository@.len() == 0 ==> r@ == "github release:"@,
            self.repository@.len() > 0 ==> r@ == self.repository@ + " ("@ + (match self.version {
                Some(v) => if v@.len() == 0 {
                    "latest"@
                } else {
                    v@
                },
                None => "latest"@,
            }) + "):"@,
    {
        if self.repository.unicode_len() == 0 {
            return String::from_str("github release:");
        }
        let mut out = to_chars(self.repository.as_str());
        crate::text::push_str(&mut out, " (");
        match &self.version {
            Some(v) => if v.unicode_len() == 0 {
                crate::text::push_str(&mut out, "latest");
            } else {
                crate::text::push_str(&mut out, v.as_str());
            },
            None => crate::text::push_str(&mut out, "latest"),
        }
        crate::text::push_str(&mut out, "):");
        from_chars(out.as_slice())
    }

    /// The error raised before downloading an asset when a checksum is
    /// required but there is neither a checksum value nor a checksum file
    /// for it.
    pub fn missing_checksum_error(&self, asset_name: &str, has_checksum_asset: bool) -> (r: Option<UpError>)
        ensures
            (self.checksum.enabled != Some(false) && self.checksum.is_required_of()
                && self.checksum.value is None && !has_checksum_asset) ==> (r matches Some(e) && e
                == UpError::Exec(e->Exec_0) && e->Exec_0@ == "could not find checksum file for "@
                + asset_name@),
            !(self.checksum.enabled != Some(false) && self.checksum.is_required_of()
                && self.checksum.value is None && !has_checksum_asset) ==> r is None,
    {
        if self.checksum.is_enabled() && self.checksum.is_required() && self.checksum.value.is_none()
            && !has_checksum_asset {
            let mut out = to_chars("could not find checksum file for ");
            crate::text::push_str(&mut out, asset_name);
            Some(UpError::Exec(from_chars(out.as_slice())))
        } else {
            None
        }
    }
}


/// A hex digest of the length the algorithm gives is recognized, from its
/// length, as coming from that algorithm.
pub proof fn law_digest_length_names_algorithm(a: GithubReleaseChecksumAlgorithm, bytes: Seq<u8>)
    requires
        bytes.len() == digest_len(a),
    ensures
        algorithm_for_len(vstd::utf8::encode_utf8(hex(bytes)).len()) == Some(a),
{
    lemma_hex_len(bytes);
    lemma_hex_ascii(bytes);
    vstd::utf8::is_ascii_chars_encode_utf8(hex(bytes));
}

/// The hex digits of bytes are ASCII characters.
pub proof fn lemma_hex_ascii(bytes: Seq<u8>)
    ensures
        vstd::utf8::is_ascii_chars(hex(bytes)),
    decreases bytes.len(),
{
    if bytes.len() > 0 {
        lemma_hex_ascii(bytes.drop_last());
        let h = hex(bytes.drop_last());
        let d = seq![hex_digit(bytes.last() as int / 16), hex_digit(bytes.last() as int % 16)];
        assert(hex(bytes) == h + d);
        assert forall|i: int| 0 <= i < (h + d).len() implies '\0' <= #[trigger] (h + d)[i] <= '\u{7f}' by {
            if i < h.len() {
                assert((h + d)[i] == h[i]);
            } else {
                assert((h + d)[i] == d[i - h.len()]);
            }
        }
    }
}

/// An asset whose digest is the configured checksum passes the check, and
/// one whose digest differs fails it with a mismatch, when checksums are on
/// and the algorithm is configured.
pub proof fn law_checksum_check_compares_digests(
    c: ChecksumView,
    asset: Seq<char>,
    data: Seq<u8>,
    checksum_file: Option<(Seq<char>, Seq<char>)>,
)
    requires
        c.enabled != Some(false),
        c.value is Some,
        c.algorithm is Some,
    ensures
        hex(digest_of(c.algorithm->0, data)) == c.value->0 ==> checksum_check_of(
            c,
            asset,
            data,
            checksum_file,
        ) is Ok,
        hex(digest_of(c.algorithm->0, data)) != c.value->0 ==> checksum_check_of(
            c,
            asset,
            data,
            checksum_file,
        ) == Err::<(), Seq<char>>(
            mismatch_msg(asset, c.value->0, hex(digest_of(c.algorithm->0, data))),
        ),
{
}

/// With checksums off, every asset passes the check.
pub proof fn law_disabled_checksum_accepts(
    c: ChecksumView,
    asset: Seq<char>,
    data: Seq<u8>,
    checksum_file: Option<(Seq<char>, Seq<char>)>,
)
    requires
        c.enabled == Some(false),
    ensures
        checksum_check_of(c, asset, data, checksum_file) is Ok,
{
}

/// The releases listed in a summary are those counted as installed or
/// already there, and there are none exactly when no release was.
pub proof fn lemma_release_labels_counted(cs: Seq<GithubReleaseView>)
    ensures
        release_labels(cs).len() == release_count(cs, GithubReleaseHandled::Handled) + release_count(cs, GithubReleaseHandled::Noop),
        (release_labels(cs).len() == 0) <==> !(exists|k: int| 0 <= k < cs.len() && release_upped(#[trigger] cs[k])),
    decreases cs.len(),
{
    if cs.len() > 0 {
        let init = cs.drop_last();
        lemma_release_labels_counted(init);
        if exists|k: int| 0 <= k < init.len() && release_upped(#[trigger] init[k]) {
            let k = choose|k: int| 0 <= k < init.len() && release_upped(#[trigger] init[k]);
            assert(cs[k] == init[k]);
        }
        if exists|k: int| 0 <= k < cs.len() && release_upped(#[trigger] cs[k]) {
            let k = choose|k: int| 0 <= k < cs.len() && release_upped(#[trigger] cs[k]);
            if k < cs.len() - 1 {
                assert(init[k] == cs[k]);
            }
        }
        if release_upped(cs.last()) {
            assert(release_upped(cs[cs.len() - 1]));
        }
    }
}

/// The summary of a step says `nothing done` exactly when no release was
/// installed or found installed.
pub proof fn law_release_summary_nothing_done(cs: Seq<GithubReleaseView>)
    ensures
        (install_summary(release_labels(cs), release_count(cs, GithubReleaseHandled::Handled), release_count(cs, GithubReleaseHandled::Noop))
            == "nothing done"@) <==> !(exists|k: int| 0 <= k < cs.len() && release_upped(#[trigger] cs[k])),
{
    lemma_release_labels_counted(cs);
    crate::summary::law_summary_nothing_done(
        release_labels(cs),
        release_count(cs, GithubReleaseHandled::Handled),
        release_count(cs, GithubReleaseHandled::Noop),
    );
}

/// The name of each checksum algorithm reads back as that algorithm,
/// written in small letters or in capitals: the names are ASCII, so
/// reading one lowercases it letter by letter.
pub proof fn law_algorithm_names_read_back(a: GithubReleaseChecksumAlgorithm)
    ensures
        is_ascii_text(algorithm_name(a)),
        is_ascii_text(ascii_uppercase(algorithm_name(a))),
        algorithm_named(ascii_lowercase(algorithm_name(a))) == Some(a),
        algorithm_named(ascii_lowercase(ascii_uppercase(algorithm_name(a)))) == Some(a),
{
    let n = algorithm_name(a);
    assert(ascii_lowercase(n) =~= n);
    assert(ascii_lowercase(ascii_uppercase(n)) =~= n);
}

/// An ASCII text names an algorithm, in whatever mix of small letters and
/// capitals, exactly when lowercasing it letter by letter gives that
/// algorithm's name; any other ASCII text names none.
pub proof fn law_algorithm_named_in_any_case(a: GithubReleaseChecksumAlgorithm, s: Seq<char>)
    requires
        is_ascii_text(s),
    ensures
        algorithm_named(ascii_lowercase(s)) == Some(a) <==> ascii_lowercase(s) == algorithm_name(a),
        (forall|b: GithubReleaseChecksumAlgorithm| ascii_lowercase(s) != algorithm_name(b)) ==> algorithm_named(
            ascii_lowercase(s),
        ) is None,
{
    let l = ascii_lowercase(s);
    if l == algorithm_name(a) {
        match a {
            GithubReleaseChecksumAlgorithm::Md5 => {},
            GithubReleaseChecksumAlgorithm::Sha1 => {},
            GithubReleaseChecksumAlgorithm::Sha256 => {},
            GithubReleaseChecksumAlgorithm::Sha384 => {},
            GithubReleaseChecksumAlgorithm::Sha512 => {},
        }
    }
    if (forall|b: GithubReleaseChecksumAlgorithm| l != algorithm_name(b)) {
        assert(l != algorithm_name(GithubReleaseChecksumAlgorithm::Md5));
        assert(l != algorithm_name(GithubReleaseChecksumAlgorithm::Sha1));
        assert(l != algorithm_name(GithubReleaseChecksumAlgorithm::Sha256));
        assert(l != algorithm_name(GithubReleaseChecksumAlgorithm::Sha384));
        assert(l != algorithm_name(GithubReleaseChecksumAlgorithm::Sha512));
    }
}

/// The name a binary found in a release is installed under: the file
/// name of its path, or the whole path when it ends with none.
pub open spec fn binary_name_of(p: Seq<char>) -> Seq<char> {
    match crate::nix::file_name_of(p) {
        Some(n) => n,
        None => p,
    }
}

/// The names the executable files found in an extracted release are
/// installed under, in the order found; it is an error when none was
/// found.
pub fn binary_names(executables: &Vec<String>) -> (r: Result<Vec<String>, UpError>)
    ensures
        executables@.len() == 0 ==> (r matches Err(UpError::Exec(m)) && m@ == "no binaries found"@),
        executables@.len() > 0 ==> (r matches Ok(v) && v@.len() == executables@.len() && forall|k: int|
            0 <= k < v@.len() ==> (#[trigger] v@[k])@ == binary_name_of(executables@[k]@)),
{
    if executables.len() == 0 {
        return Err(UpError::Exec(String::from_str("no binaries found")));
    }
    let mut v: Vec<String> = Vec::new();
    let mut i: usize = 0;
    while i < executables.len()
        invariant
            i <= executables@.len(),
            v@.len() == i,
            forall|k: int| 0 <= k < i ==> (#[trigger] v@[k])@ == binary_name_of(executables@[k]@),
        decreases executables.len() - i,
    {
        let n = match crate::nix::file_name(executables[i].as_str()) {
            Some(n) => n,
            None => from_chars(to_chars(executables[i].as_str()).as_slice()),
        };
        v.push(n);
        i = i + 1;
    }
    Ok(v)
}

} // verus!
