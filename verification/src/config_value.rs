//! The values of a parsed configuration file, and the errors found while
//! reading them.
use vstd::prelude::*;

use crate::error::{decimal, decimal_chars};
use crate::text::{append, chars_eq, from_chars, seq_lt, to_chars};

verus! {

/// A configuration value: a scalar, a list, or a table of named values
/// (a table's keys are distinct).
#[derive(Debug)]
pub enum ConfigValue {
    Null,
    Bool(bool),
    Integer(i64),
    Str(String),
    Array(Vec<ConfigValue>),
    Table(Vec<(String, ConfigValue)>),
}

/// What kind of problem a configuration error reports.
#[derive(Debug, Clone, Copy, PartialEq, Eq, Structural)]
pub enum ConfigErrorKind {
    InvalidValueType,
    MissingKey,
    ParsingError,
    NotExactlyOneKeyInTable,
    UnsupportedValueInContext,
    EmptyKey,
}

/// A problem found at `key` (a dotted path, with `[i]` for list items),
/// and, for a value of the wrong type, the types that were expected there
/// (none named otherwise).
#[derive(Debug, Clone)]
pub struct ConfigError {
    pub key: String,
    pub kind: ConfigErrorKind,
    pub expected: Vec<String>,
}

pub struct ConfigErrorView {
    pub key: Seq<char>,
    pub kind: ConfigErrorKind,
    pub expected: Seq<Seq<char>>,
}

impl View for ConfigError {
    type V = ConfigErrorView;

    open spec fn view(&self) -> ConfigErrorView {
        ConfigErrorView { key: self.key@, kind: self.kind, expected: string_views(self.expected@) }
    }
}

/// A problem of the kind `kind` at `key`, naming no expected type.
pub open spec fn config_err(key: Seq<char>, kind: ConfigErrorKind) -> ConfigErrorView {
    ConfigErrorView { key, kind, expected: Seq::empty() }
}

/// A value of the wrong type at `key`, where one of `expected` was
/// expected.
pub open spec fn type_err(key: Seq<char>, expected: Seq<Seq<char>>) -> ConfigErrorView {
    ConfigErrorView { key, kind: ConfigErrorKind::InvalidValueType, expected }
}

pub open spec fn error_views(v: Seq<ConfigError>) -> Seq<ConfigErrorView> {
    Seq::new(v.len(), |k: int| v[k]@)
}

/// `base.name`, or `name` when `base` is empty.
pub open spec fn key_path(base: Seq<char>, name: Seq<char>) -> Seq<char> {
    if base.len() == 0 {
        name
    } else {
        base + seq!['.'] + name
    }
}

/// `base[idx]`.
pub open spec fn index_path(base: Seq<char>, idx: nat) -> Seq<char> {
    base + seq!['['] + decimal(idx) + seq![']']
}

pub fn key_path_exec(base: &str, name: &str) -> (r: String)
    ensures
        r@ == key_path(base@, name@),
{
    let b = to_chars(base);
    if b.len() == 0 {
        return from_chars(to_chars(name).as_slice());
    }
    let mut out = b;
    out.push('.');
    append(&mut out, &to_chars(name));
    from_chars(out.as_slice())
}

pub fn index_path_exec(base: &str, idx: usize) -> (r: String)
    ensures
        r@ == index_path(base@, idx as nat),
{
    let mut out = to_chars(base);
    out.push('[');
    append(&mut out, &decimal_chars(idx));
    out.push(']');
    from_chars(out.as_slice())
}

pub fn report(errors: &mut Vec<ConfigError>, key: String, kind: ConfigErrorKind)
    ensures
        error_views(final(errors)@) == error_views(old(errors)@).push(config_err(key@, kind)),
{
    let ghost before = error_views(errors@);
    let e = ConfigError { key, kind, expected: Vec::new() };
    assert(e@.expected =~= Seq::<Seq<char>>::empty());
    errors.push(e);
    assert(error_views(errors@) =~= before.push(config_err(key@, kind)));
}

/// Reports a value of the wrong type at `key`, naming the types expected
/// there.
pub fn report_type(errors: &mut Vec<ConfigError>, key: String, expected: Vec<String>)
    ensures
        error_views(final(errors)@) == error_views(old(errors)@).push(type_err(key@, string_views(expected@))),
{
    let ghost before = error_views(errors@);
    let e = ConfigError { key, kind: ConfigErrorKind::InvalidValueType, expected };
    errors.push(e);
    assert(error_views(errors@) =~= before.push(e@));
}

/// The single type name `a`.
pub fn one_type(a: &str) -> (r: Vec<String>)
    ensures
        string_views(r@) == seq![a@],
{
    let r = vec![from_chars(to_chars(a).as_slice())];
    assert(string_views(r@) =~= seq![a@]);
    r
}

/// The type names `a`, `b`, in order.
pub fn two_types(a: &str, b: &str) -> (r: Vec<String>)
    ensures
        string_views(r@) == seq![a@, b@],
{
    let r = vec![from_chars(to_chars(a).as_slice()), from_chars(to_chars(b).as_slice())];
    assert(string_views(r@) =~= seq![a@, b@]);
    r
}

/// The type names `a`, `b`, `c`, in order.
pub fn three_types(a: &str, b: &str, c: &str) -> (r: Vec<String>)
    ensures
        string_views(r@) == seq![a@, b@, c@],
{
    let r = vec![
        from_chars(to_chars(a).as_slice()),
        from_chars(to_chars(b).as_slice()),
        from_chars(to_chars(c).as_slice()),
    ];
    assert(string_views(r@) =~= seq![a@, b@, c@]);
    r
}

/// The value under `key` in the entries of a table.
pub open spec fn lookup(entries: Seq<(String, ConfigValue)>, key: Seq<char>) -> Option<ConfigValue>
    decreases entries.len(),
{
    if entries.len() == 0 {
        None
    } else if entries[0].0@ == key {
        Some(entries[0].1)
    } else {
        lookup(entries.drop_first(), key)
    }
}

/// The text of `true` or `false`.
pub open spec fn bool_text(b: bool) -> Seq<char> {
    if b {
        seq!['t', 'r', 'u', 'e']
    } else {
        seq!['f', 'a', 'l', 's', 'e']
    }
}

/// The decimal text of an integer.
pub open spec fn int_text(n: int) -> Seq<char> {
    if n < 0 {
        seq!['-'] + decimal((-n) as nat)
    } else {
        decimal(n as nat)
    }
}

impl ConfigValue {
    /// The string, if the value is one.
    pub open spec fn str_of(self) -> Option<Seq<char>> {
        match self {
            ConfigValue::Str(s) => Some(s@),
            _ => None,
        }
    }

    /// The value read as a string: strings as they are, booleans and
    /// integers as their text.
    pub open spec fn str_forced_of(self) -> Option<Seq<char>> {
        match self {
            ConfigValue::Str(s) => Some(s@),
            ConfigValue::Bool(b) => Some(bool_text(b)),
            ConfigValue::Integer(n) => Some(int_text(n as int)),
            _ => None,
        }
    }

    /// The value read as a boolean: booleans as they are, and the strings
    /// `true` and `false`.
    pub open spec fn bool_forced_of(self) -> Option<bool> {
        match self {
            ConfigValue::Bool(b) => Some(b),
            ConfigValue::Str(s) => if s@ == bool_text(true) {
                Some(true)
            } else if s@ == bool_text(false) {
                Some(false)
            } else {
                None
            },
            _ => None,
        }
    }

    /// The value under `key`, if the value is a table that has it.
    pub open spec fn get_of(self, key: Seq<char>) -> Option<ConfigValue> {
        match self {
            ConfigValue::Table(entries) => lookup(entries@, key),
            _ => None,
        }
    }

    pub fn is_null(&self) -> (r: bool)
        ensures
            r == (*self is Null),
    {
        match self {
            ConfigValue::Null => true,
            _ => false,
        }
    }

    pub fn is_table(&self) -> (r: bool)
        ensures
            r == (*self is Table),
    {
        match self {
            ConfigValue::Table(_) => true,
            _ => false,
        }
    }

    pub fn as_str(&self) -> (r: Option<String>)
        ensures
            r matches Some(s) ==> self.str_of() == Some(s@),
            r is None ==> self.str_of() is None,
    {
        match self {
            ConfigValue::Str(s) => Some(s.clone()),
            _ => None,
        }
    }

    pub fn as_str_forced(&self) -> (r: Option<String>)
        ensures
            r matches Some(s) ==> self.str_forced_of() == Some(s@),
            r is None ==> self.str_forced_of() is None,
    {
        match self {
            ConfigValue::Str(s) => Some(s.clone()),
            ConfigValue::Bool(b) => {
                let v = if *b {
                    vec!['t', 'r', 'u', 'e']
                } else {
                    vec!['f', 'a', 'l', 's', 'e']
                };
                assert(v@ =~= bool_text(*b));
                Some(from_chars(v.as_slice()))
            },
            ConfigValue::Integer(n) => {
                let mut v: Vec<char> = Vec::new();
                if *n < 0 {
                    v.push('-');
                    let m: u64 = if *n == i64::MIN {
                        9223372036854775808u64
                    } else {
                        (-*n) as u64
                    };
                    append(&mut v, &decimal_u64(m));
                } else {
                    append(&mut v, &decimal_u64(*n as u64));
                }
                assert(v@ =~= int_text(*n as int));
                Some(from_chars(v.as_slice()))
            },
            _ => None,
        }
    }

    pub fn as_bool(&self) -> (r: Option<bool>)
        ensures
            r == (match *self {
                ConfigValue::Bool(b) => Some(b),
                _ => None,
            }),
    {
        match self {
            ConfigValue::Bool(b) => Some(*b),
            _ => None,
        }
    }

    pub fn as_bool_forced(&self) -> (r: Option<bool>)
        ensures
            r == self.bool_forced_of(),
    {
        match self {
            ConfigValue::Bool(b) => Some(*b),
            ConfigValue::Str(s) => {
                let c = to_chars(s.as_str());
                let t = vec!['t', 'r', 'u', 'e'];
                let f = vec!['f', 'a', 'l', 's', 'e'];
                assert(t@ =~= bool_text(true));
                assert(f@ =~= bool_text(false));
                if chars_eq(&c, &t) {
                    Some(true)
                } else if chars_eq(&c, &f) {
                    Some(false)
                } else {
                    None
                }
            },
            _ => None,
        }
    }

    pub fn as_array(&self) -> (r: Option<&Vec<ConfigValue>>)
        ensures
            r matches Some(a) ==> *self == ConfigValue::Array(*a),
            r is None ==> !(*self is Array),
    {
        match self {
            ConfigValue::Array(a) => Some(a),
            _ => None,
        }
    }

    pub fn as_table(&self) -> (r: Option<&Vec<(String, ConfigValue)>>)
        ensures
            r matches Some(t) ==> *self == ConfigValue::Table(*t),
            r is None ==> !(*self is Table),
    {
        match self {
            ConfigValue::Table(t) => Some(t),
            _ => None,
        }
    }

    /// The value under `key`, if this is a table that has it.
    pub fn get(&self, key: &str) -> (r: Option<&ConfigValue>)
        ensures
            r matches Some(v) ==> self.get_of(key@) == Some(*v),
            r is None ==> self.get_of(key@) is None,
    {
        match self {
            ConfigValue::Table(entries) => table_get(entries, key),
            _ => None,
        }
    }

    /// The value under `key` read as a string (see `as_str_forced`).
    pub fn get_as_str_forced(&self, key: &str) -> (r: Option<String>)
        ensures
            r matches Some(s) ==> (self.get_of(key@) matches Some(v) && v.str_forced_of() == Some(
                s@,
            )),
            r is None ==> !(self.get_of(key@) matches Some(v) && v.str_forced_of() is Some),
    {
        match self.get(key) {
            Some(v) => v.as_str_forced(),
            None => None,
        }
    }

    /// The value under `key` read as a boolean (see `as_bool_forced`).
    pub fn get_as_bool_forced(&self, key: &str) -> (r: Option<bool>)
        ensures
            r == (match self.get_of(key@) {
                Some(v) => v.bool_forced_of(),
                None => None,
            }),
    {
        match self.get(key) {
            Some(v) => v.as_bool_forced(),
            None => None,
        }
    }
}

/// The value under `key` among the entries of a table.
pub fn table_get<'a>(entries: &'a Vec<(String, ConfigValue)>, key: &str) -> (r: Option<
    &'a ConfigValue,
>)
    ensures
        r matches Some(v) ==> lookup(entries@, key@) == Some(*v),
        r is None ==> lookup(entries@, key@) is None,
{
    let k = to_chars(key);
    let mut i: usize = 0;
    assert(entries@.subrange(0, entries@.len() as int) =~= entries@);
    while i < entries.len()
        invariant
            i <= entries@.len(),
            k@ == key@,
            lookup(entries@, key@) == lookup(entries@.subrange(i as int, entries@.len() as int), key@),
        decreases entries.len() - i,
    {
        let ghost rest = entries@.subrange(i as int, entries@.len() as int);
        assert(rest.drop_first() =~= entries@.subrange(i + 1, entries@.len() as int));
        if chars_eq(&to_chars(entries[i].0.as_str()), &k) {
            return Some(&entries[i].1);
        }
        i = i + 1;
    }
    None
}

/// The decimal digits of `n`.
pub fn decimal_u64(n: u64) -> (r: Vec<char>)
    ensures
        r@ == decimal(n as nat),
    decreases n,
{
    if n < 10 {
        decimal_chars(n as usize)
    } else {
        let mut v = decimal_u64(n / 10);
        let d = decimal_chars((n % 10) as usize);
        assert(d@ == seq![crate::error::digit((n % 10) as nat)]);
        v.push(d[0]);
        v
    }
}


/// The errors that reading `key` of `cv` as an optional value of the kind
/// `ok` reports: one type error at `base.key` when the key holds a value of
/// another kind.
pub open spec fn optional_field_errors(present_wrong: bool, base: Seq<char>, key: Seq<char>) -> Seq<ConfigErrorView> {
    if present_wrong {
        seq![config_err(key_path(base, key), ConfigErrorKind::InvalidValueType)]
    } else {
        Seq::empty()
    }
}

impl ConfigValue {
    /// The boolean under `key`: `None` when there is none, and when the
    /// value there is not a boolean, which is then reported at
    /// `error_key.key`.
    pub fn get_as_bool_or_none(
        &self,
        key: &str,
        error_key: &str,
        errors: &mut Vec<ConfigError>,
    ) -> (r: Option<bool>)
        ensures
            r == (match self.get_of(key@) {
                Some(ConfigValue::Bool(b)) => Some(b),
                _ => None,
            }),
            error_views(final(errors)@) == error_views(old(errors)@) + optional_field_errors(
                self.get_of(key@) is Some && !(self.get_of(key@)->0 is Bool),
                error_key@,
                key@,
            ),
    {
        match self.get(key) {
            Some(v) => match v.as_bool() {
                Some(b) => {
                    assert(error_views(errors@) =~= error_views(errors@) + Seq::empty());
                    Some(b)
                },
                None => {
                    let ghost before = error_views(errors@);
                    report(errors, key_path_exec(error_key, key), ConfigErrorKind::InvalidValueType);
                    assert(error_views(errors@) =~= before + optional_field_errors(
                        true,
                        error_key@,
                        key@,
                    ));
                    None
                },
            },
            None => {
                assert(error_views(errors@) =~= error_views(errors@) + Seq::empty());
                None
            },
        }
    }

    /// The string under `key`: `None` when there is none, and when the
    /// value there is not a string, which is then reported at
    /// `error_key.key`.
    pub fn get_as_str_or_none(
        &self,
        key: &str,
        error_key: &str,
        errors: &mut Vec<ConfigError>,
    ) -> (r: Option<String>)
        ensures
            match self.get_of(key@) {
                Some(ConfigValue::Str(s)) => r matches Some(t) && t@ == s@,
                _ => r is None,
            },
            error_views(final(errors)@) == error_views(old(errors)@) + optional_field_errors(
                self.get_of(key@) is Some && !(self.get_of(key@)->0 is Str),
                error_key@,
                key@,
            ),
    {
        match self.get(key) {
            Some(v) => match v.as_str() {
                Some(s) => {
                    assert(error_views(errors@) =~= error_views(errors@) + Seq::empty());
                    Some(s)
                },
                None => {
                    let ghost before = error_views(errors@);
                    report(errors, key_path_exec(error_key, key), ConfigErrorKind::InvalidValueType);
                    assert(error_views(errors@) =~= before + optional_field_errors(
                        true,
                        error_key@,
                        key@,
                    ));
                    None
                },
            },
            None => {
                assert(error_views(errors@) =~= error_views(errors@) + Seq::empty());
                None
            },
        }
    }
}


/// The view of an optional character sequence.
pub open spec fn opt_chars_view(o: Option<Vec<char>>) -> Option<Seq<char>> {
    match o {
        Some(l) => Some(l@),
        None => None,
    }
}

/// The keys of the entries of a table.
pub open spec fn key_views(entries: Seq<(String, ConfigValue)>) -> Seq<Seq<char>> {
    Seq::new(entries.len(), |k: int| entries[k].0@)
}

/// The least key among `keys` that comes after `lo` (any key when `lo` is
/// `None`).
pub open spec fn least_key_above(keys: Seq<Seq<char>>, lo: Option<Seq<char>>) -> Option<Seq<char>>
    decreases keys.len(),
{
    if keys.len() == 0 {
        None
    } else {
        let rest = least_key_above(keys.drop_last(), lo);
        let k = keys.last();
        let above = match lo {
            None => true,
            Some(l) => seq_lt(l, k),
        };
        if !above {
            rest
        } else {
            match rest {
                None => Some(k),
                Some(m) => if seq_lt(k, m) {
                    Some(k)
                } else {
                    Some(m)
                },
            }
        }
    }
}

/// The keys after `lo`, least first, taking at most `fuel` of them.
pub open spec fn keys_in_order(keys: Seq<Seq<char>>, lo: Option<Seq<char>>, fuel: nat) -> Seq<Seq<char>>
    decreases fuel,
{
    if fuel == 0 {
        Seq::empty()
    } else {
        match least_key_above(keys, lo) {
            None => Seq::empty(),
            Some(k) => seq![k] + keys_in_order(keys, Some(k), (fuel - 1) as nat),
        }
    }
}

/// The distinct keys of a table in increasing order.
pub open spec fn sorted_keys(entries: Seq<(String, ConfigValue)>) -> Seq<Seq<char>> {
    keys_in_order(key_views(entries), None, entries.len() + 1)
}

fn least_string_above(keys: &Vec<String>, lo: &Option<Vec<char>>) -> (r: Option<Vec<char>>)
    ensures
        match least_key_above(string_views(keys@), opt_chars_view(*lo)) {
            Some(k) => r matches Some(v) && v@ == k,
            None => r is None,
        },
{
    let ghost lov = opt_chars_view(*lo);
    let mut best: Option<Vec<char>> = None;
    let mut i: usize = 0;
    while i < keys.len()
        invariant
            i <= keys@.len(),
            lov == opt_chars_view(*lo),
            match least_key_above(string_views(keys@).subrange(0, i as int), lov) {
                Some(k) => best matches Some(v) && v@ == k,
                None => best is None,
            },
        decreases keys.len() - i,
    {
        assert(string_views(keys@).subrange(0, i + 1).drop_last() =~= string_views(keys@).subrange(
            0,
            i as int,
        ));
        let k = to_chars(keys[i].as_str());
        let above = match lo {
            None => true,
            Some(l) => crate::text::chars_lt(l, &k),
        };
        if above {
            let replace = match &best {
                None => true,
                Some(m) => crate::text::chars_lt(&k, m),
            };
            if replace {
                best = Some(k);
            }
        }
        i = i + 1;
    }
    assert(string_views(keys@).subrange(0, i as int) =~= string_views(keys@));
    best
}

/// The views of strings.
pub open spec fn string_views(v: Seq<String>) -> Seq<Seq<char>> {
    Seq::new(v.len(), |k: int| v[k]@)
}

/// The distinct strings among `keys`, in increasing order.
pub fn sorted_distinct(keys: &Vec<String>) -> (r: Vec<String>)
    ensures
        string_views(r@) == keys_in_order(string_views(keys@), None, (keys@.len() + 1) as nat),
{
    let n = keys.len();
    let mut r: Vec<String> = Vec::new();
    let mut lo: Option<Vec<char>> = None;
    let mut fuel: usize = 0;
    let ghost ks = string_views(keys@);
    assert(string_views(r@) + keys_in_order(ks, None, (n + 1) as nat) =~= keys_in_order(
        ks,
        None,
        (n + 1) as nat,
    ));
    while fuel <= n
        invariant
            n == keys@.len(),
            ks == string_views(keys@),
            fuel <= n + 1,
            string_views(r@) + keys_in_order(ks, opt_chars_view(lo), (n + 1 - fuel) as nat)
                == keys_in_order(ks, None, (n + 1) as nat),
        decreases n + 1 - fuel,
    {
        let ghost lov = opt_chars_view(lo);
        let ghost before = string_views(r@);
        match least_string_above(keys, &lo) {
            None => {
                assert(keys_in_order(ks, lov, (n + 1 - fuel) as nat) =~= Seq::<Seq<char>>::empty());
                assert(before =~= before + Seq::<Seq<char>>::empty());
                return r;
            },
            Some(k) => {
                let ghost kv = k@;
                r.push(from_chars(k.as_slice()));
                assert(string_views(r@) =~= before.push(kv));
                assert(before.push(kv) + keys_in_order(ks, Some(kv), (n + 1 - fuel - 1) as nat)
                    =~= before + (seq![kv] + keys_in_order(ks, Some(kv), (n + 1 - fuel - 1) as nat)));
                lo = Some(k);
            },
        }
        if fuel == n {
            assert(keys_in_order(ks, opt_chars_view(lo), 0) =~= Seq::<Seq<char>>::empty());
            assert(string_views(r@) =~= string_views(r@) + Seq::<Seq<char>>::empty());
            return r;
        }
        fuel = fuel + 1;
    }
    assert(keys_in_order(ks, opt_chars_view(lo), 0) =~= Seq::<Seq<char>>::empty());
    assert(string_views(r@) =~= string_views(r@) + Seq::<Seq<char>>::empty());
    r
}

/// The distinct keys of a table, in increasing order.
pub fn sorted_table_keys(entries: &Vec<(String, ConfigValue)>) -> (r: Vec<String>)
    ensures
        Seq::new(r@.len(), |k: int| r@[k]@) == sorted_keys(entries@),
{
    let mut keys: Vec<String> = Vec::new();
    let mut i: usize = 0;
    while i < entries.len()
        invariant
            i <= entries@.len(),
            string_views(keys@) == key_views(entries@).subrange(0, i as int),
        decreases entries.len() - i,
    {
        let ghost before = string_views(keys@);
        keys.push(crate::text::copy_string(&entries[i].0));
        assert(string_views(keys@) =~= before.push(entries@[i as int].0@));
        assert(string_views(keys@) =~= key_views(entries@).subrange(0, i + 1));
        i = i + 1;
    }
    assert(key_views(entries@).subrange(0, i as int) =~= key_views(entries@));
    let r = sorted_distinct(&keys);
    assert(Seq::new(r@.len(), |k: int| r@[k]@) =~= string_views(r@));
    r
}

/// An optional reference to a value, as an optional value.
pub open spec fn deref_opt(v: Option<&ConfigValue>) -> Option<ConfigValue> {
    match v {
        Some(x) => Some(*x),
        None => None,
    }
}

/// The boolean an optional value holds, if it is one.
pub open spec fn opt_bool_of(v: Option<ConfigValue>) -> Option<bool> {
    match v {
        Some(ConfigValue::Bool(b)) => Some(b),
        _ => None,
    }
}

/// The errors that reading an optional value as a boolean reports at
/// `base.key`: one when the value is there and is not a boolean.
pub open spec fn opt_bool_errors(v: Option<ConfigValue>, base: Seq<char>, key: Seq<char>) -> Seq<ConfigErrorView> {
    optional_field_errors(v is Some && !(v->0 is Bool), base, key)
}

/// Reads an optional value as a boolean; a value there that is not a
/// boolean is reported at `error_key.key`.
pub fn read_bool_or_none(
    v: Option<&ConfigValue>,
    error_key: &str,
    key: &str,
    errors: &mut Vec<ConfigError>,
) -> (r: Option<bool>)
    ensures
        r == opt_bool_of(deref_opt(v)),
        error_views(final(errors)@) == error_views(old(errors)@) + opt_bool_errors(
            deref_opt(v),
            error_key@,
            key@,
        ),
{
    match v {
        Some(x) => match x.as_bool() {
            Some(b) => {
                assert(error_views(errors@) =~= error_views(errors@) + Seq::empty());
                Some(b)
            },
            None => {
                let ghost before = error_views(errors@);
                report(errors, key_path_exec(error_key, key), ConfigErrorKind::InvalidValueType);
                assert(error_views(errors@) =~= before + opt_bool_errors(deref_opt(v), error_key@, key@));
                None
            },
        },
        None => {
            assert(error_views(errors@) =~= error_views(errors@) + Seq::empty());
            None
        },
    }
}


/// Whether `k` comes after `lo` (every key does when `lo` is `None`).
pub open spec fn above(lo: Option<Seq<char>>, k: Seq<char>) -> bool {
    match lo {
        Some(l) => seq_lt(l, k),
        None => true,
    }
}

/// The least key above `lo` is one of the keys, comes after `lo`, and
/// comes before every other key that does; there is one when some key
/// comes after `lo`.
pub proof fn lemma_least_key_above(keys: Seq<Seq<char>>, lo: Option<Seq<char>>)
    ensures
        least_key_above(keys, lo) matches Some(k) ==> keys.contains(k) && above(lo, k) && forall|j: int|
            0 <= j < keys.len() && above(lo, keys[j]) ==> !seq_lt(#[trigger] keys[j], k),
        least_key_above(keys, lo) is None ==> forall|j: int|
            0 <= j < keys.len() ==> !above(lo, #[trigger] keys[j]),
    decreases keys.len(),
{
    if keys.len() > 0 {
        let rest = keys.drop_last();
        lemma_least_key_above(rest, lo);
        let k = keys.last();
        assert forall|j: int| 0 <= j < keys.len() - 1 implies #[trigger] keys[j] == rest[j] by {}
        match least_key_above(keys, lo) {
            Some(m) => {
                assert forall|j: int| 0 <= j < keys.len() && above(lo, keys[j]) implies !seq_lt(
                    #[trigger] keys[j],
                    m,
                ) by {
                    if j < keys.len() - 1 {
                        assert(keys[j] == rest[j]);
                        match least_key_above(rest, lo) {
                            Some(r) => {
                                if m != r {
                                    assert(m == k && seq_lt(k, r));
                                    if seq_lt(keys[j], k) {
                                        crate::order::lemma_seq_lt_transitive(keys[j], k, r);
                                    }
                                }
                            },
                            None => {},
                        }
                    } else {
                        assert(keys[j] == k);
                        if m == k {
                            crate::order::lemma_seq_lt_irreflexive(k);
                        }
                    }
                }
                if m == k {
                    assert(keys[keys.len() - 1] == k);
                } else {
                    let r = least_key_above(rest, lo)->0;
                    assert(m == r);
                    let w = choose|w: int| 0 <= w < rest.len() && rest[w] == r;
                    assert(keys[w] == r);
                }
            },
            None => {
                assert forall|j: int| 0 <= j < keys.len() implies !above(lo, #[trigger] keys[j]) by {
                    if j < keys.len() - 1 {
                        assert(keys[j] == rest[j]);
                    }
                }
            },
        }
    }
}

/// The keys given in order are in strictly increasing order, each after
/// `lo`, and each one of the keys.
pub proof fn lemma_keys_in_order(keys: Seq<Seq<char>>, lo: Option<Seq<char>>, fuel: nat)
    ensures
        forall|i: int, j: int|
            0 <= i < j < keys_in_order(keys, lo, fuel).len() ==> seq_lt(
                #[trigger] keys_in_order(keys, lo, fuel)[i],
                #[trigger] keys_in_order(keys, lo, fuel)[j],
            ),
        forall|i: int|
            0 <= i < keys_in_order(keys, lo, fuel).len() ==> keys.contains(
                #[trigger] keys_in_order(keys, lo, fuel)[i],
            ) && above(lo, keys_in_order(keys, lo, fuel)[i]),
    decreases fuel,
{
    if fuel > 0 {
        lemma_least_key_above(keys, lo);
        match least_key_above(keys, lo) {
            None => {},
            Some(k) => {
                let rest = keys_in_order(keys, Some(k), (fuel - 1) as nat);
                lemma_keys_in_order(keys, Some(k), (fuel - 1) as nat);
                let all = seq![k] + rest;
                assert(keys_in_order(keys, lo, fuel) == all);
                assert forall|i: int| 0 <= i < all.len() implies keys.contains(#[trigger] all[i]) && above(
                    lo,
                    all[i],
                ) by {
                    if i > 0 {
                        assert(all[i] == rest[i - 1]);
                        match lo {
                            Some(l) => {
                                crate::order::lemma_seq_lt_transitive(l, k, rest[i - 1]);
                            },
                            None => {},
                        }
                    }
                }
                assert forall|i: int, j: int| 0 <= i < j < all.len() implies seq_lt(
                    #[trigger] all[i],
                    #[trigger] all[j],
                ) by {
                    assert(all[j] == rest[j - 1]);
                    if i > 0 {
                        assert(all[i] == rest[i - 1]);
                    }
                }
            },
        }
    }
}

/// The keys of a table are taken in strictly increasing order, and each is
/// a key of the table.
pub proof fn law_sorted_keys_increasing(entries: Seq<(String, ConfigValue)>)
    ensures
        forall|i: int, j: int|
            0 <= i < j < sorted_keys(entries).len() ==> seq_lt(
                #[trigger] sorted_keys(entries)[i],
                #[trigger] sorted_keys(entries)[j],
            ),
        forall|i: int|
            0 <= i < sorted_keys(entries).len() ==> key_views(entries).contains(
                #[trigger] sorted_keys(entries)[i],
            ),
{
    lemma_keys_in_order(key_views(entries), None, (entries.len() + 1) as nat);
}


/// The distinct keys that come after `lo`.
pub open spec fn keys_above(keys: Seq<Seq<char>>, lo: Option<Seq<char>>) -> Set<Seq<char>> {
    keys.to_set().filter(|k: Seq<char>| above(lo, k))
}

/// With enough fuel, every key after `lo` is given.
pub proof fn lemma_keys_in_order_complete(keys: Seq<Seq<char>>, lo: Option<Seq<char>>, fuel: nat)
    requires
        keys_above(keys, lo).len() < fuel,
    ensures
        forall|j: int|
            0 <= j < keys.len() && above(lo, keys[j]) ==> keys_in_order(keys, lo, fuel).contains(
                #[trigger] keys[j],
            ),
    decreases fuel,
{
    vstd::seq_lib::seq_to_set_is_finite(keys);
    keys.to_set().lemma_len_filter(|k: Seq<char>| above(lo, k));
    lemma_least_key_above(keys, lo);
    match least_key_above(keys, lo) {
        None => {},
        Some(k) => {
            let next = Some(k);
            assert(keys_above(keys, next) =~= keys_above(keys, lo).remove(k)) by {
                assert forall|x: Seq<char>| #[trigger] keys_above(keys, next).contains(x) implies keys_above(
                    keys,
                    lo,
                ).remove(k).contains(x) by {
                    crate::order::lemma_seq_lt_irreflexive(k);
                    match lo {
                        Some(l) => {
                            crate::order::lemma_seq_lt_transitive(l, k, x);
                        },
                        None => {},
                    }
                }
                assert forall|x: Seq<char>| #[trigger] keys_above(keys, lo).remove(k).contains(x) implies keys_above(
                    keys,
                    next,
                ).contains(x) by {
                    let w = choose|w: int| 0 <= w < keys.len() && keys[w] == x;
                    assert(!seq_lt(keys[w], k));
                    crate::order::lemma_seq_lt_total(x, k);
                }
            }
            assert(keys.contains(k));
            let w = choose|w: int| 0 <= w < keys.len() && keys[w] == k;
            assert(keys_above(keys, lo).contains(keys[w]));
            lemma_keys_in_order_complete(keys, next, (fuel - 1) as nat);
            let rest = keys_in_order(keys, next, (fuel - 1) as nat);
            assert(keys_in_order(keys, lo, fuel) == seq![k] + rest);
            assert forall|j: int| 0 <= j < keys.len() && above(lo, keys[j]) implies keys_in_order(
                keys,
                lo,
                fuel,
            ).contains(#[trigger] keys[j]) by {
                if keys[j] == k {
                    assert((seq![k] + rest)[0] == k);
                } else {
                    crate::order::lemma_seq_lt_total(keys[j], k);
                    assert(rest.contains(keys[j]));
                    let v = choose|v: int| 0 <= v < rest.len() && rest[v] == keys[j];
                    assert((seq![k] + rest)[v + 1] == keys[j]);
                }
            }
        },
    }
}

/// Every key of a table is taken when its keys are taken in order.
pub proof fn law_sorted_keys_complete(entries: Seq<(String, ConfigValue)>)
    ensures
        forall|j: int| 0 <= j < entries.len() ==> sorted_keys(entries).contains(#[trigger] entries[j].0@),
{
    let keys = key_views(entries);
    keys.lemma_cardinality_of_set();
    vstd::seq_lib::seq_to_set_is_finite(keys);
    keys.to_set().lemma_len_filter(|k: Seq<char>| above(None, k));
    lemma_keys_in_order_complete(keys, None, (entries.len() + 1) as nat);
    assert forall|j: int| 0 <= j < entries.len() implies sorted_keys(entries).contains(#[trigger] entries[j].0@) by {
        assert(keys[j] == entries[j].0@);
    }
}

} // verus!
