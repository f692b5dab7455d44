//! The environment file that a custom `up` step writes to: each line sets,
//! extends or unsets an environment variable of the work directory.
use vstd::prelude::*;

use crate::error::{UpError, UpErrorKind, UpErrorView};
use crate::text::{
    append, chars_eq, find, find_pat, from_chars, has_prefix, is_ascii_alpha, is_word_char, lines,
    slice, split_lines, split_once, split_once_at, split_words, starts_with, strip_prefix, to_chars,
    trim, trim_chars, views, word_char, words, skip_ws, back_ws, is_whitespace,
};

verus! {

/// How an environment operation changes its variable.
#[derive(Debug, Clone, Copy, PartialEq, Eq, Structural)]
pub enum EnvOperationEnum {
    Assign,
    Append,
    Prepend,
    Remove,
    Prefix,
    Suffix,
}

/// One environment operation: its variable, what it does, and its value
/// (`None` unsets the variable).
#[derive(Debug, Clone, PartialEq, Eq)]
pub struct UpEnvVar {
    pub name: String,
    pub operation: EnvOperationEnum,
    pub value: Option<String>,
}

pub struct EnvVarView {
    pub name: Seq<char>,
    pub operation: EnvOperationEnum,
    pub value: Option<Seq<char>>,
}

impl View for UpEnvVar {
    type V = EnvVarView;

    open spec fn view(&self) -> EnvVarView {
        EnvVarView {
            name: self.name@,
            operation: self.operation,
            value: match self.value {
                Some(v) => Some(v@),
                None => None,
            },
        }
    }
}

pub open spec fn env_views(v: Seq<UpEnvVar>) -> Seq<EnvVarView> {
    Seq::new(v.len(), |k: int| v[k]@)
}

pub open spec fn str_views(v: Seq<&str>) -> Seq<Seq<char>> {
    Seq::new(v.len(), |k: int| v[k]@)
}

/// A valid environment variable name: an ASCII letter or `_`, then ASCII
/// letters, digits and `_`.
pub open spec fn valid_env_name(s: Seq<char>) -> bool {
    &&& s.len() > 0
    &&& (is_ascii_alpha(s[0]) || s[0] == '_')
    &&& forall|i: int| 0 <= i < s.len() ==> is_word_char(#[trigger] s[i])
}

/// A valid heredoc delimiter: non-empty, ASCII letters, digits and `_`.
pub open spec fn valid_delimiter(s: Seq<char>) -> bool {
    &&& s.len() > 0
    &&& forall|i: int| 0 <= i < s.len() ==> is_word_char(#[trigger] s[i])
}

fn all_word_chars(s: &Vec<char>) -> (r: bool)
    ensures
        r == forall|i: int| 0 <= i < s@.len() ==> is_word_char(#[trigger] s@[i]),
{
    let mut i: usize = 0;
    while i < s.len()
        invariant
            i <= s@.len(),
            forall|k: int| 0 <= k < i ==> is_word_char(#[trigger] s@[k]),
        decreases s.len() - i,
    {
        if !word_char(s[i]) {
            return false;
        }
        i = i + 1;
    }
    true
}

fn env_name_ok(s: &Vec<char>) -> (r: bool)
    ensures
        r == valid_env_name(s@),
{
    if s.len() == 0 {
        return false;
    }
    let c = s[0];
    if !(('a' <= c && c <= 'z') || ('A' <= c && c <= 'Z') || c == '_') {
        return false;
    }
    all_word_chars(s)
}

fn delimiter_ok(s: &Vec<char>) -> (r: bool)
    ensures
        r == valid_delimiter(s@),
{
    s.len() > 0 && all_word_chars(s)
}

/// Whether `name` is a valid environment variable name.
pub fn is_valid_env_name(name: &str) -> (r: bool)
    ensures
        r == valid_env_name(name@),
{
    env_name_ok(&to_chars(name))
}

/// Whether `delimiter` can end a heredoc.
pub fn is_valid_delimiter(delimiter: &str) -> (r: bool)
    ensures
        r == valid_delimiter(delimiter@),
{
    delimiter_ok(&to_chars(delimiter))
}

/// The operators, in the order they are tried on a line.
pub open spec fn op_pattern(k: int) -> Seq<char> {
    if k == 0 {
        seq!['>', '>', '=']
    } else if k == 1 {
        seq!['<', '<', '=']
    } else if k == 2 {
        seq!['-', '=']
    } else if k == 3 {
        seq!['>', '=']
    } else if k == 4 {
        seq!['<', '=']
    } else {
        seq!['=']
    }
}

/// What each operator does: `>>=` appends to a path list, `<<=` prepends to
/// it, `-=` removes from it, `>=` appends to the value, `<=` prepends to the
/// value, `=` sets it.
pub open spec fn op_kind(k: int) -> EnvOperationEnum {
    if k == 0 {
        EnvOperationEnum::Append
    } else if k == 1 {
        EnvOperationEnum::Prepend
    } else if k == 2 {
        EnvOperationEnum::Remove
    } else if k == 3 {
        EnvOperationEnum::Suffix
    } else if k == 4 {
        EnvOperationEnum::Prefix
    } else {
        EnvOperationEnum::Assign
    }
}

/// The first operator, from `k` on, that occurs in `l`.
pub open spec fn first_op_from(l: Seq<char>, k: int) -> Option<int>
    decreases 6 - k,
{
    if k < 0 || k >= 6 {
        None
    } else if find(l, op_pattern(k)) is Some {
        Some(k)
    } else {
        first_op_from(l, k + 1)
    }
}

pub open spec fn unset_keyword() -> Seq<char> {
    seq!['u', 'n', 's', 'e', 't', ' ']
}

pub open spec fn export_keyword() -> Seq<char> {
    seq!['e', 'x', 'p', 'o', 'r', 't', ' ']
}

pub open spec fn heredoc_op() -> Seq<char> {
    seq!['<', '<']
}

/// `l` without a leading `export `.
pub open spec fn after_export(l: Seq<char>) -> Seq<char> {
    if has_prefix(l, export_keyword()) {
        l.subrange(7, l.len() as int)
    } else {
        l
    }
}

/// The first name among `ws`, from `k` on, that is not a valid variable name.
pub open spec fn first_invalid_from(ws: Seq<Seq<char>>, k: int) -> Option<int>
    decreases ws.len() - k,
{
    if k < 0 || k >= ws.len() {
        None
    } else if !valid_env_name(ws[k]) {
        Some(k)
    } else {
        first_invalid_from(ws, k + 1)
    }
}

/// The operations that unset each of `ws`.
pub open spec fn unset_ops(ws: Seq<Seq<char>>) -> Seq<EnvVarView> {
    Seq::new(
        ws.len(),
        |k: int| EnvVarView { name: ws[k], operation: EnvOperationEnum::Assign, value: None },
    )
}

/// How a heredoc's lines are indented away.
#[derive(PartialEq, Eq, Structural, Clone, Copy)]
pub enum Dedent {
    Keep,
    All,
    Minimum,
}

/// The delimiter text after `<<` (before quotes are removed), and the dedent mode.
pub open spec fn heredoc_delimiter(rest: Seq<char>) -> (Seq<char>, Dedent) {
    let d = trim(rest);
    if d.len() > 0 && d[0] == '-' {
        (trim(d.subrange(1, d.len() as int)), Dedent::All)
    } else if d.len() > 0 && d[0] == '~' {
        (trim(d.subrange(1, d.len() as int)), Dedent::Minimum)
    } else {
        (d, Dedent::Keep)
    }
}

/// Whether `d` is wrapped in the quote `q`.
pub open spec fn quoted_by(d: Seq<char>, q: char) -> bool {
    d.len() > 0 && d[0] == q && d.last() == q
}

/// Removing the quotes would need `d[1..0]`: a lone quote character.
pub open spec fn unquote_fails(d: Seq<char>) -> bool {
    (quoted_by(d, '\'') || quoted_by(d, '"')) && d.len() < 2
}

/// `d` without one pair of surrounding quotes.
pub open spec fn unquote(d: Seq<char>) -> Seq<char> {
    if quoted_by(d, '\'') || quoted_by(d, '"') {
        d.subrange(1, d.len() - 1)
    } else {
        d
    }
}

/// `l` without its leading spaces and tabs.
pub open spec fn strip_indent(l: Seq<char>) -> Seq<char> {
    l.subrange(indent_end(l, 0), l.len() as int)
}

pub open spec fn indent_end(l: Seq<char>, i: int) -> int
    decreases l.len() - i,
{
    if 0 <= i < l.len() && (l[i] == ' ' || l[i] == '\t') {
        indent_end(l, i + 1)
    } else {
        i
    }
}

/// A heredoc line as it is compared and kept.
pub open spec fn body_line(l: Seq<char>, mode: Dedent) -> Seq<char> {
    if mode == Dedent::All {
        strip_indent(l)
    } else {
        l
    }
}

/// The index of the first line, from `j` on, that is the delimiter.
pub open spec fn body_end(ls: Seq<Seq<char>>, j: int, d: Seq<char>, mode: Dedent) -> Option<int>
    decreases ls.len() - j,
{
    if j < 0 || j >= ls.len() {
        None
    } else if body_line(ls[j], mode) == d {
        Some(j)
    } else {
        body_end(ls, j + 1, d, mode)
    }
}

/// The heredoc lines `j..k`, each followed by a line feed.
pub open spec fn body_text(ls: Seq<Seq<char>>, j: int, k: int, mode: Dedent) -> Seq<char>
    decreases k - j,
{
    if k <= j {
        Seq::empty()
    } else {
        body_text(ls, j, k - 1, mode) + body_line(ls[k - 1], mode) + seq!['\n']
    }
}

/// The number of leading `c` in `l` from `i` on.
pub open spec fn run_end(l: Seq<char>, c: char, i: int) -> int
    decreases l.len() - i,
{
    if 0 <= i < l.len() && l[i] == c {
        run_end(l, c, i + 1)
    } else {
        i
    }
}

/// The smallest indentation shared by the non-empty lines from `i` on, given
/// the smallest so far and the indent character seen so far; zero when a
/// line is not indented or mixes spaces and tabs with the others.
pub open spec fn min_indent_from(ls: Seq<Seq<char>>, i: int, min: int, ty: Option<char>) -> int
    decreases ls.len() - i,
{
    if i < 0 || i >= ls.len() {
        min
    } else if ls[i].len() == 0 {
        min_indent_from(ls, i + 1, min, ty)
    } else if ls[i][0] != ' ' && ls[i][0] != '\t' {
        0
    } else if ty is Some && ty->0 != ls[i][0] {
        0
    } else {
        let ind = run_end(ls[i], ls[i][0], 0);
        let m = if ind < min || min == 0 {
            ind
        } else {
            min
        };
        min_indent_from(ls, i + 1, m, Some(ls[i][0]))
    }
}

/// The lines `0..k` of `ls` with `m` characters of indentation removed,
/// each followed by a line feed.
pub open spec fn dedented(ls: Seq<Seq<char>>, k: int, m: int) -> Seq<char>
    decreases k,
{
    if k <= 0 {
        Seq::empty()
    } else {
        let l = ls[k - 1];
        dedented(ls, k - 1, m) + (if l.len() >= m {
            l.subrange(m, l.len() as int)
        } else {
            Seq::empty()
        }) + seq!['\n']
    }
}

/// `v` with its smallest shared indentation removed from each line.
pub open spec fn dedent(v: Seq<char>) -> Seq<char> {
    let ls = lines(v);
    dedented(ls, ls.len() as int, min_indent_from(ls, 0, 0, None))
}

/// `v` without one final line feed.
pub open spec fn drop_final_newline(v: Seq<char>) -> Seq<char> {
    if v.len() > 0 && v.last() == '\n' {
        v.drop_last()
    } else {
        v
    }
}

/// What parsing an environment file gives: the operations, an error
/// message.
pub enum ParseOutcome {
    Done(Seq<EnvVarView>),
    Failed(Seq<char>),
}

pub open spec fn msg_bad_name(var: Seq<char>, op: Seq<char>) -> Seq<char> {
    "invalid environment variable name: '"@ + var + "', in '"@ + op + "' operation"@
}

pub open spec fn msg_bad_delimiter(d: Seq<char>) -> Seq<char> {
    "invalid delimiter: '"@ + d + "', in '<<' operation"@
}

pub open spec fn msg_unterminated(d: Seq<char>) -> Seq<char> {
    "expected delimiter '"@ + d + "' to end '<<' operation"@
}

pub open spec fn msg_bad_operation(l: Seq<char>) -> Seq<char> {
    "invalid environment operation: '"@ + l + "'"@
}

pub proof fn lemma_body_end_bounds(ls: Seq<Seq<char>>, j: int, d: Seq<char>, mode: Dedent)
    ensures
        body_end(ls, j, d, mode) matches Some(k) ==> j <= k < ls.len(),
    decreases ls.len() - j,
{
    if j < 0 || j >= ls.len() {
    } else if body_line(ls[j], mode) == d {
    } else {
        lemma_body_end_bounds(ls, j + 1, d, mode);
    }
}

/// What reading a heredoc that starts on line `i` for `var` gives, where
/// `rest` is the text after `<<`: the operation and the index of the line
/// after its delimiter, or an error.
pub enum HeredocStep {
    Failed(Seq<char>),
    Read(EnvVarView, int),
}

pub open spec fn heredoc_step(ls: Seq<Seq<char>>, i: int, var: Seq<char>, rest: Seq<char>) -> HeredocStep {
    let (d0, mode) = heredoc_delimiter(rest);
    if unquote_fails(d0) {
        HeredocStep::Failed(msg_bad_delimiter(d0))
    } else {
        let d = unquote(d0);
        if !valid_delimiter(d) {
            HeredocStep::Failed(msg_bad_delimiter(d))
        } else {
            match body_end(ls, i + 1, d, mode) {
                None => HeredocStep::Failed(msg_unterminated(d)),
                Some(k) => {
                    let raw = body_text(ls, i + 1, k, mode);
                    let v = if mode == Dedent::Minimum {
                        dedent(raw)
                    } else {
                        raw
                    };
                    HeredocStep::Read(
                        EnvVarView {
                            name: var,
                            operation: EnvOperationEnum::Assign,
                            value: Some(drop_final_newline(v)),
                        },
                        k + 1,
                    )
                },
            }
        }
    }
}

pub proof fn lemma_heredoc_step_advances(ls: Seq<Seq<char>>, i: int, var: Seq<char>, rest: Seq<char>)
    ensures
        heredoc_step(ls, i, var, rest) matches HeredocStep::Read(_, n) ==> i < n <= ls.len(),
{
    let (d0, mode) = heredoc_delimiter(rest);
    lemma_body_end_bounds(ls, i + 1, unquote(d0), mode);
}

/// What line `i` does: the operations it gives and the index of the next
/// line to read, or an error.
pub enum LineStep {
    Failed(Seq<char>),
    Next(Seq<EnvVarView>, int),
}

pub open spec fn line_step(ls: Seq<Seq<char>>, i: int) -> LineStep {
    let line = trim(ls[i]);
    if line.len() == 0 || line[0] == '#' {
        LineStep::Next(Seq::empty(), i + 1)
    } else if has_prefix(line, unset_keyword()) {
        let ws = words(line.subrange(6, line.len() as int));
        match first_invalid_from(ws, 0) {
            Some(k) => LineStep::Failed(msg_bad_name(ws[k], "unset"@)),
            None => LineStep::Next(unset_ops(ws), i + 1),
        }
    } else {
        let l = after_export(line);
        match first_op_from(l, 0) {
            Some(k) => {
                let (var, val) = split_once(l, op_pattern(k))->0;
                if !valid_env_name(var) {
                    LineStep::Failed(msg_bad_name(var, op_pattern(k)))
                } else {
                    LineStep::Next(
                        seq![EnvVarView { name: var, operation: op_kind(k), value: Some(val) }],
                        i + 1,
                    )
                }
            },
            None => match split_once(l, heredoc_op()) {
                Some((var, rest)) => if !valid_env_name(var) {
                    LineStep::Failed(msg_bad_name(var, heredoc_op()))
                } else {
                    match heredoc_step(ls, i, var, rest) {
                        HeredocStep::Failed(m) => LineStep::Failed(m),
                        HeredocStep::Read(op, n) => LineStep::Next(seq![op], n),
                    }
                },
                None => LineStep::Failed(msg_bad_operation(l)),
            },
        }
    }
}

pub proof fn lemma_line_step_advances(ls: Seq<Seq<char>>, i: int)
    ensures
        line_step(ls, i) matches LineStep::Next(_, n) ==> i < n && (n <= ls.len() || (0 <= i
            < ls.len() ==> n <= ls.len())),
{
    let line = trim(ls[i]);
    let l = after_export(line);
    match split_once(l, heredoc_op()) {
        Some((var, rest)) => {
            lemma_heredoc_step_advances(ls, i, var, rest);
        },
        None => {},
    }
}

pub proof fn lemma_first_op(l: Seq<char>, j: int)
    ensures
        first_op_from(l, j) matches Some(k) ==> 0 <= k < 6 && find(l, op_pattern(k)) is Some,
    decreases 6 - j,
{
    if j < 0 || j >= 6 {
    } else if find(l, op_pattern(j)) is Some {
    } else {
        lemma_first_op(l, j + 1);
    }
}

/// The outcome of parsing the lines from `i` on, with `acc` parsed before.
pub open spec fn parse_from(ls: Seq<Seq<char>>, i: int, acc: Seq<EnvVarView>) -> ParseOutcome
    decreases ls.len() - i,
{
    if i < 0 || i >= ls.len() {
        ParseOutcome::Done(acc)
    } else {
        match line_step(ls, i) {
            LineStep::Failed(m) => ParseOutcome::Failed(m),
            LineStep::Next(ops, n) => {
                proof {
                    lemma_line_step_advances(ls, i);
                }
                parse_from(ls, n, acc + ops)
            },
        }
    }
}

/// What parsing the environment file lines `ls` gives.
pub open spec fn parse_env(ls: Seq<Seq<char>>) -> ParseOutcome {
    parse_from(ls, 0, Seq::empty())
}

fn exec_error(msg: Vec<char>) -> (e: UpError)
    ensures
        e@ == (UpErrorView { kind: UpErrorKind::Exec, text: msg@, step: None }),
{
    UpError::Exec(from_chars(msg.as_slice()))
}

fn bad_name_error(var: &Vec<char>, op: &Vec<char>) -> (e: UpError)
    ensures
        e@ == (UpErrorView { kind: UpErrorKind::Exec, text: msg_bad_name(var@, op@), step: None }),
{
    let mut m = to_chars("invalid environment variable name: '");
    append(&mut m, var);
    append(&mut m, &to_chars("', in '"));
    append(&mut m, op);
    append(&mut m, &to_chars("' operation"));
    assert(m@ =~= msg_bad_name(var@, op@));
    exec_error(m)
}

fn op_pattern_exec(k: usize) -> (p: Vec<char>)
    requires
        k < 6,
    ensures
        p@ == op_pattern(k as int),
{
    let p = if k == 0 {
        vec!['>', '>', '=']
    } else if k == 1 {
        vec!['<', '<', '=']
    } else if k == 2 {
        vec!['-', '=']
    } else if k == 3 {
        vec!['>', '=']
    } else if k == 4 {
        vec!['<', '=']
    } else {
        vec!['=']
    };
    assert(p@ =~= op_pattern(k as int));
    p
}

fn op_kind_exec(k: usize) -> (o: EnvOperationEnum)
    ensures
        o == op_kind(k as int),
{
    if k == 0 {
        EnvOperationEnum::Append
    } else if k == 1 {
        EnvOperationEnum::Prepend
    } else if k == 2 {
        EnvOperationEnum::Remove
    } else if k == 3 {
        EnvOperationEnum::Suffix
    } else if k == 4 {
        EnvOperationEnum::Prefix
    } else {
        EnvOperationEnum::Assign
    }
}

fn first_op(l: &Vec<char>) -> (r: Option<usize>)
    ensures
        r matches Some(k) ==> k < 6 && first_op_from(l@, 0) == Some(k as int),
        r is None ==> first_op_from(l@, 0) is None,
{
    let mut k: usize = 0;
    while k < 6
        invariant
            k <= 6,
            first_op_from(l@, 0) == first_op_from(l@, k as int),
        decreases 6 - k,
    {
        let p = op_pattern_exec(k);
        if find_pat(l, &p).is_some() {
            return Some(k);
        }
        k = k + 1;
    }
    None
}

fn strip_indent_exec(l: &Vec<char>) -> (r: Vec<char>)
    ensures
        r@ == strip_indent(l@),
{
    let mut i: usize = 0;
    while i < l.len() && (l[i] == ' ' || l[i] == '\t')
        invariant
            i <= l@.len(),
            indent_end(l@, 0) == indent_end(l@, i as int),
        decreases l.len() - i,
    {
        i = i + 1;
    }
    slice(l, i, l.len())
}

fn run_end_exec(l: &Vec<char>, c: char) -> (r: usize)
    ensures
        r == run_end(l@, c, 0),
        r <= l@.len(),
{
    let mut i: usize = 0;
    while i < l.len() && l[i] == c
        invariant
            i <= l@.len(),
            run_end(l@, c, 0) == run_end(l@, c, i as int),
        decreases l.len() - i,
    {
        i = i + 1;
    }
    i
}

fn min_indent(ls: &Vec<Vec<char>>) -> (r: usize)
    ensures
        r == min_indent_from(views(ls@), 0, 0, None),
{
    let mut min: usize = 0;
    let mut ty: Option<char> = None;
    let mut i: usize = 0;
    while i < ls.len()
        invariant
            i <= ls@.len(),
            min_indent_from(views(ls@), 0, 0, None) == min_indent_from(
                views(ls@),
                i as int,
                min as int,
                ty,
            ),
        decreases ls.len() - i,
    {
        let l = &ls[i];
        if l.len() > 0 {
            let c = l[0];
            if c != ' ' && c != '\t' {
                return 0;
            }
            match ty {
                Some(t) => {
                    if t != c {
                        return 0;
                    }
                },
                None => {},
            }
            let ind = run_end_exec(l, c);
            if ind < min || min == 0 {
                min = ind;
            }
            ty = Some(c);
        }
        i = i + 1;
    }
    min
}

fn dedent_exec(v: &Vec<char>) -> (r: Vec<char>)
    ensures
        r@ == dedent(v@),
{
    let ls = split_lines(v);
    let m = min_indent(&ls);
    let mut out: Vec<char> = Vec::new();
    let mut i: usize = 0;
    while i < ls.len()
        invariant
            i <= ls@.len(),
            views(ls@) == lines(v@),
            m == min_indent_from(views(ls@), 0, 0, None),
            out@ == dedented(views(ls@), i as int, m as int),
        decreases ls.len() - i,
    {
        let l = &ls[i];
        if l.len() >= m {
            append(&mut out, &slice(l, m, l.len()));
        }
        out.push('\n');
        proof {
            assert(views(ls@)[i as int] == l@);
        }
        i = i + 1;
        assert(out@ =~= dedented(views(ls@), i as int, m as int));
    }
    out
}

#[verifier::loop_isolation(false)]
fn heredoc_exec(ls: &Vec<Vec<char>>, i: usize, var: &Vec<char>, rest: &Vec<char>) -> (r: Result<
    (UpEnvVar, usize),
    UpError,
>)
    requires
        i < ls@.len(),
    ensures
        match heredoc_step(views(ls@), i as int, var@, rest@) {
            HeredocStep::Failed(m) => r matches Err(e) && e@ == (UpErrorView {
                kind: UpErrorKind::Exec,
                text: m,
                step: None,
            }),
            HeredocStep::Read(op, n) => r matches Ok((u, k)) && u@ == op && k == n,
        },
{
    let ghost gl = views(ls@);
    let nls = ls.len();
    let d = trim_chars(rest);
    let (d0, mode) = if d.len() > 0 && d[0] == '-' {
        (trim_chars(&slice(&d, 1, d.len())), Dedent::All)
    } else if d.len() > 0 && d[0] == '~' {
        (trim_chars(&slice(&d, 1, d.len())), Dedent::Minimum)
    } else {
        (d, Dedent::Keep)
    };
    assert(heredoc_delimiter(rest@) == (d0@, mode));
    let n0 = d0.len();
    if n0 == 1 && (d0[0] == '\'' || d0[0] == '"') {
        assert(unquote_fails(d0@));
        let mut msg = to_chars("invalid delimiter: '");
        append(&mut msg, &d0);
        append(&mut msg, &to_chars("', in '<<' operation"));
        assert(msg@ =~= msg_bad_delimiter(d0@));
        return Err(exec_error(msg));
    }
    let quoted = n0 > 0 && ((d0[0] == '\'' && d0[n0 - 1] == '\'') || (d0[0] == '"' && d0[n0
        - 1] == '"'));
    let delim = if quoted {
        slice(&d0, 1, n0 - 1)
    } else {
        d0
    };
    assert(delim@ == unquote(heredoc_delimiter(rest@).0));
    if !delimiter_ok(&delim) {
        assert(heredoc_step(gl, i as int, var@, rest@) == HeredocStep::Failed(
            msg_bad_delimiter(delim@),
        ));
        let mut msg = to_chars("invalid delimiter: '");
        append(&mut msg, &delim);
        append(&mut msg, &to_chars("', in '<<' operation"));
        assert(msg@ =~= msg_bad_delimiter(delim@));
        return Err(exec_error(msg));
    }
    let mut raw: Vec<char> = Vec::new();
    let mut j: usize = i + 1;
    loop
        invariant
            i < j <= ls@.len(),
            gl == views(ls@),
            body_end(gl, i + 1, delim@, mode) == body_end(gl, j as int, delim@, mode),
            raw@ == body_text(gl, i + 1, j as int, mode),
        decreases ls.len() - j,
    {
        if j == ls.len() {
            let mut msg = to_chars("expected delimiter '");
            append(&mut msg, &delim);
            append(&mut msg, &to_chars("' to end '<<' operation"));
            assert(msg@ =~= msg_unterminated(delim@));
            return Err(exec_error(msg));
        }
        let bl = if mode == Dedent::All {
            strip_indent_exec(&ls[j])
        } else {
            ls[j].clone()
        };
        assert(bl@ == body_line(gl[j as int], mode));
        if chars_eq(&bl, &delim) {
            break;
        }
        append(&mut raw, &bl);
        raw.push('\n');
        j = j + 1;
        assert(raw@ =~= body_text(gl, i + 1, j as int, mode));
    }
    let mut v = if mode == Dedent::Minimum {
        dedent_exec(&raw)
    } else {
        raw
    };
    if v.len() > 0 && v[v.len() - 1] == '\n' {
        v.pop();
    }
    let op = UpEnvVar {
        name: from_chars(var.as_slice()),
        operation: EnvOperationEnum::Assign,
        value: Some(from_chars(v.as_slice())),
    };
    Ok((op, j + 1))
}

fn char_lines(lines: &[&str]) -> (r: Vec<Vec<char>>)
    ensures
        views(r@) == str_views(lines@),
{
    let mut r: Vec<Vec<char>> = Vec::new();
    let mut i: usize = 0;
    while i < lines.len()
        invariant
            i <= lines@.len(),
            r@.len() == i,
            forall|k: int| 0 <= k < i ==> #[trigger] r@[k]@ == lines@[k]@,
        decreases lines.len() - i,
    {
        r.push(to_chars(lines[i]));
        i = i + 1;
    }
    assert(views(r@) =~= str_views(lines@));
    r
}

#[verifier::loop_isolation(false)]
fn line_exec(
    ls: &Vec<Vec<char>>,
    i: usize,
    unset_kw: &Vec<char>,
    export_kw: &Vec<char>,
    heredoc_kw: &Vec<char>,
) -> (r: Result<(Vec<UpEnvVar>, usize), UpError>)
    requires
        i < ls@.len(),
        unset_kw@ == unset_keyword(),
        export_kw@ == export_keyword(),
        heredoc_kw@ == heredoc_op(),
    ensures
        match line_step(views(ls@), i as int) {
            LineStep::Failed(m) => r matches Err(e) && e@ == (UpErrorView {
                kind: UpErrorKind::Exec,
                text: m,
                step: None,
            }),
            LineStep::Next(ops, n) => r matches Ok((v, k)) && env_views(v@) == ops && k == n,
        },
{
    let ghost gl = views(ls@);
    let nls = ls.len();
    let mut acc: Vec<UpEnvVar> = Vec::new();
    let line = trim_chars(&ls[i]);
    assert(line@ == trim(gl[i as int]));
    if line.len() == 0 || line[0] == '#' {
        assert(env_views(acc@) =~= Seq::empty());
        return Ok((acc, i + 1));
    }
    if starts_with(&line, unset_kw) {
        let ws = split_words(&slice(&line, 6, line.len()));
        let mut k: usize = 0;
        while k < ws.len()
            invariant
                k <= ws@.len(),
                first_invalid_from(views(ws@), 0) == first_invalid_from(views(ws@), k as int),
                env_views(acc@) == unset_ops(views(ws@).subrange(0, k as int)),
            decreases ws.len() - k,
        {
            assert(views(ws@)[k as int] == ws@[k as int]@);
            if !env_name_ok(&ws[k]) {
                assert(first_invalid_from(views(ws@), 0) == Some(k as int));
                return Err(bad_name_error(&ws[k], &to_chars("unset")));
            }
            let ghost before = env_views(acc@);
            acc.push(
                UpEnvVar {
                    name: from_chars(ws[k].as_slice()),
                    operation: EnvOperationEnum::Assign,
                    value: None,
                },
            );
            assert(env_views(acc@) =~= before.push(
                EnvVarView { name: ws@[k as int]@, operation: EnvOperationEnum::Assign, value: None },
            ));
            k = k + 1;
            assert(env_views(acc@) =~= unset_ops(views(ws@).subrange(0, k as int)));
        }
        assert(views(ws@).subrange(0, k as int) =~= views(ws@));
        return Ok((acc, i + 1));
    }
    let l = match strip_prefix(&line, export_kw) {
        Some(t) => t,
        None => line,
    };
    assert(l@ == after_export(trim(gl[i as int])));
    match first_op(&l) {
        Some(k) => {
            proof {
                lemma_first_op(l@, 0);
            }
            let p = op_pattern_exec(k);
            match split_once_at(&l, &p) {
                Some((var, val)) => {
                    if !env_name_ok(&var) {
                        return Err(bad_name_error(&var, &p));
                    }
                    acc.push(
                        UpEnvVar {
                            name: from_chars(var.as_slice()),
                            operation: op_kind_exec(k),
                            value: Some(from_chars(val.as_slice())),
                        },
                    );
                    assert(env_views(acc@) =~= seq![
                        EnvVarView { name: var@, operation: op_kind(k as int), value: Some(val@) },
                    ]);
                    Ok((acc, i + 1))
                },
                None => {
                    Err(exec_error(Vec::new()))
                },
            }
        },
        None => {
            match split_once_at(&l, heredoc_kw) {
                Some((var, rest)) => {
                    if !env_name_ok(&var) {
                        return Err(bad_name_error(&var, heredoc_kw));
                    }
                    match heredoc_exec(ls, i, &var, &rest) {
                        Ok((op, next)) => {
                            let ghost opv = op@;
                            acc.push(op);
                            assert(env_views(acc@) =~= seq![opv]);
                            Ok((acc, next))
                        },
                        Err(e) => Err(e),
                    }
                },
                None => {
                    let mut m = to_chars("invalid environment operation: '");
                    append(&mut m, &l);
                    append(&mut m, &to_chars("'"));
                    assert(m@ =~= msg_bad_operation(l@));
                    Err(exec_error(m))
                },
            }
        },
    }
}

/// Parses the lines of an environment file into the operations to apply to
/// the work directory's environment.
///
/// - `unset VAR1 VAR2...` unsets each variable;
/// - `VAR=value` sets a variable, `VAR>=value` appends to it, `VAR<=value`
///   prepends to it, and `VAR>>=value`, `VAR<<=value` and `VAR-=value` append
///   to, prepend to and remove from a colon-separated path list;
/// - `VAR<<EOF` sets a multi-line value read up to a line `EOF` (any
///   delimiter, possibly quoted; `<<-` strips each line's indentation and
///   `<<~` the indentation the lines share).
///
/// A leading `export ` is ignored, as are empty lines and `#` comments; any
/// other line is an error.
#[verifier::loop_isolation(false)]
pub fn parse_env_file_lines(lines: &[&str]) -> (r: Result<Vec<UpEnvVar>, UpError>)
    ensures
        match parse_env(str_views(lines@)) {
            ParseOutcome::Done(ops) => r matches Ok(v) && env_views(v@) == ops,
            ParseOutcome::Failed(m) => r matches Err(e) && e@ == (UpErrorView {
                kind: UpErrorKind::Exec,
                text: m,
                step: None,
            }),
        },
{
    let ls = char_lines(lines);
    let ghost gl = str_views(lines@);
    let unset_kw = vec!['u', 'n', 's', 'e', 't', ' '];
    let export_kw = vec!['e', 'x', 'p', 'o', 'r', 't', ' '];
    let heredoc_kw = vec!['<', '<'];
    assert(unset_kw@ =~= unset_keyword());
    assert(export_kw@ =~= export_keyword());
    assert(heredoc_kw@ =~= heredoc_op());
    let mut acc: Vec<UpEnvVar> = Vec::new();
    assert(env_views(acc@) =~= Seq::empty());
    let mut i: usize = 0;
    while i < ls.len()
        invariant
            i <= ls@.len(),
            gl == views(ls@),
            parse_env(gl) == parse_from(gl, i as int, env_views(acc@)),
            unset_kw@ == unset_keyword(),
            export_kw@ == export_keyword(),
            heredoc_kw@ == heredoc_op(),
        decreases ls.len() - i,
    {
        proof {
            lemma_line_step_advances(gl, i as int);
        }
        match line_exec(&ls, i, &unset_kw, &export_kw, &heredoc_kw) {
            Ok((ops, next)) => {
                let ghost before = env_views(acc@);
                let ghost added = env_views(ops@);
                let mut ops = ops;
                acc.append(&mut ops);
                assert(env_views(acc@) =~= before + added);
                i = next;
            },
            Err(e) => {
                assert(line_step(gl, i as int) is Failed);
                return Err(e);
            },
        }
    }
    Ok(acc)
}


/// Whether a line is blank or a comment once trimmed.
pub open spec fn ignored_line(l: Seq<char>) -> bool {
    trim(l).len() == 0 || trim(l)[0] == '#'
}

/// Lines that are blank or comments give no operation.
pub proof fn law_comments_give_nothing(ls: Seq<Seq<char>>, i: int, acc: Seq<EnvVarView>)
    requires
        0 <= i,
        forall|k: int| i <= k < ls.len() ==> ignored_line(#[trigger] ls[k]),
    ensures
        parse_from(ls, i, acc) == ParseOutcome::Done(acc),
    decreases ls.len() - i,
{
    if i < ls.len() {
        assert(ignored_line(ls[i]));
        assert(acc + Seq::<EnvVarView>::empty() =~= acc);
        law_comments_give_nothing(ls, i + 1, acc);
    }
}

/// A file of blank lines and comments gives no operation.
pub proof fn law_comment_file_is_empty(ls: Seq<Seq<char>>)
    requires
        forall|k: int| 0 <= k < ls.len() ==> ignored_line(#[trigger] ls[k]),
    ensures
        parse_env(ls) == ParseOutcome::Done(Seq::<EnvVarView>::empty()),
{
    law_comments_give_nothing(ls, 0, Seq::empty());
}

pub open spec fn shifted_heredoc(h: HeredocStep, by: int) -> HeredocStep {
    match h {
        HeredocStep::Read(op, n) => HeredocStep::Read(op, n + by),
        other => other,
    }
}

pub open spec fn shifted_line(l: LineStep, by: int) -> LineStep {
    match l {
        LineStep::Next(ops, n) => LineStep::Next(ops, n + by),
        other => other,
    }
}

proof fn lemma_body_end_shift(pre: Seq<Seq<char>>, ls: Seq<Seq<char>>, j: int, d: Seq<char>, mode: Dedent)
    requires
        0 <= j,
    ensures
        body_end(pre + ls, pre.len() + j, d, mode) == (match body_end(ls, j, d, mode) {
            Some(k) => Some(k + pre.len()),
            None => None,
        }),
    decreases ls.len() - j,
{
    let all = pre + ls;
    if j >= ls.len() {
    } else {
        assert(all[pre.len() + j] == ls[j]);
        if body_line(ls[j], mode) != d {
            lemma_body_end_shift(pre, ls, j + 1, d, mode);
            assert(pre.len() + j + 1 == pre.len() + (j + 1));
        }
    }
}

proof fn lemma_body_text_shift(pre: Seq<Seq<char>>, ls: Seq<Seq<char>>, j: int, k: int, mode: Dedent)
    requires
        0 <= j,
        k <= ls.len(),
    ensures
        body_text(pre + ls, pre.len() + j, pre.len() + k, mode) == body_text(ls, j, k, mode),
    decreases k - j,
{
    if k > j {
        lemma_body_text_shift(pre, ls, j, k - 1, mode);
        assert((pre + ls)[pre.len() + k - 1] == ls[k - 1]);
        assert(pre.len() + k - 1 == pre.len() + (k - 1));
    }
}

proof fn lemma_heredoc_step_shift(pre: Seq<Seq<char>>, ls: Seq<Seq<char>>, i: int, var: Seq<char>, rest: Seq<char>)
    requires
        0 <= i,
    ensures
        heredoc_step(pre + ls, pre.len() + i, var, rest) == shifted_heredoc(
            heredoc_step(ls, i, var, rest),
            pre.len() as int,
        ),
{
    let (d0, mode) = heredoc_delimiter(rest);
    let d = unquote(d0);
    lemma_body_end_shift(pre, ls, i + 1, d, mode);
    assert(pre.len() + i + 1 == pre.len() + (i + 1));
    lemma_body_end_bounds(ls, i + 1, d, mode);
    match body_end(ls, i + 1, d, mode) {
        Some(k) => {
            lemma_body_text_shift(pre, ls, i + 1, k, mode);
            assert(pre.len() + k == k + pre.len());
        },
        None => {},
    }
}

proof fn lemma_line_step_shift(pre: Seq<Seq<char>>, ls: Seq<Seq<char>>, i: int)
    requires
        0 <= i < ls.len(),
    ensures
        line_step(pre + ls, pre.len() + i) == shifted_line(line_step(ls, i), pre.len() as int),
{
    assert((pre + ls)[pre.len() + i] == ls[i]);
    let l = after_export(trim(ls[i]));
    match split_once(l, heredoc_op()) {
        Some((var, rest)) => {
            lemma_heredoc_step_shift(pre, ls, i, var, rest);
        },
        None => {},
    }
}

/// Parsing from a line gives the same whatever lines come before it.
proof fn lemma_parse_from_shift(pre: Seq<Seq<char>>, ls: Seq<Seq<char>>, i: int, acc: Seq<EnvVarView>)
    requires
        0 <= i,
    ensures
        parse_from(pre + ls, pre.len() + i, acc) == parse_from(ls, i, acc),
    decreases ls.len() - i,
{
    if i < ls.len() {
        lemma_line_step_shift(pre, ls, i);
        lemma_line_step_advances(ls, i);
        match line_step(ls, i) {
            LineStep::Next(ops, n) => {
                lemma_parse_from_shift(pre, ls, n, acc + ops);
                assert(n + pre.len() == pre.len() + n);
            },
            _ => {},
        }
    }
}

/// A blank or comment line put where a line starts (before line `i`, at
/// which parsing resumes) changes nothing of what parsing from there
/// gives: neither the operations nor the error.
pub proof fn law_ignored_line_changes_nothing(
    ls: Seq<Seq<char>>,
    i: int,
    l: Seq<char>,
    acc: Seq<EnvVarView>,
)
    requires
        0 <= i <= ls.len(),
        ignored_line(l),
    ensures
        parse_from(ls.insert(i, l), i, acc) == parse_from(ls, i, acc),
{
    let ls2 = ls.insert(i, l);
    let tail = ls.subrange(i, ls.len() as int);
    assert(ls2[i] == l);
    assert(acc + Seq::<EnvVarView>::empty() =~= acc);
    assert(parse_from(ls2, i, acc) == parse_from(ls2, i + 1, acc));
    let pre2 = ls.subrange(0, i).push(l);
    assert(ls2 =~= pre2 + tail);
    lemma_parse_from_shift(pre2, tail, 0, acc);
    let pre = ls.subrange(0, i);
    assert(ls =~= pre + tail);
    lemma_parse_from_shift(pre, tail, 0, acc);
}

/// Blank and comment lines at the top of a file change nothing of what
/// parsing it gives.
pub proof fn law_leading_ignored_lines(pre: Seq<Seq<char>>, ls: Seq<Seq<char>>)
    requires
        forall|k: int| 0 <= k < pre.len() ==> ignored_line(#[trigger] pre[k]),
    ensures
        parse_env(pre + ls) == parse_env(ls),
    decreases pre.len(),
{
    if pre.len() > 0 {
        let rest = pre.drop_first();
        assert forall|k: int| 0 <= k < rest.len() implies ignored_line(#[trigger] rest[k]) by {
            assert(rest[k] == pre[k + 1]);
        }
        law_leading_ignored_lines(rest, ls);
        assert(pre[0] == (pre + ls)[0]);
        assert(ignored_line(pre[0]));
        law_ignored_line_changes_nothing(rest + ls, 0, pre[0], Seq::empty());
        assert((rest + ls).insert(0, pre[0]) =~= pre + ls);
    }
}

proof fn lemma_skip_ws_stops(s: Seq<char>, i: int)
    requires
        0 <= i <= s.len(),
    ensures
        skip_ws(s, i) == s.len() || !is_whitespace(s[skip_ws(s, i)]),
    decreases s.len() - i,
{
    if i < s.len() && is_whitespace(s[i]) {
        lemma_skip_ws_stops(s, i + 1);
    }
}

proof fn lemma_back_ws_stops(s: Seq<char>, lo: int, j: int)
    requires
        0 <= lo <= j <= s.len(),
    ensures
        back_ws(s, lo, j) == lo || !is_whitespace(s[back_ws(s, lo, j) - 1]),
    decreases j - lo,
{
    if lo < j && is_whitespace(s[j - 1]) {
        lemma_back_ws_stops(s, lo, j - 1);
    }
}

/// A trimmed line that is not empty starts and ends with a character
/// that is not whitespace, so trimming it again changes nothing.
proof fn lemma_trim_ends(l: Seq<char>)
    ensures
        trim(l).len() > 0 ==> !is_whitespace(trim(l)[0]) && !is_whitespace(trim(l).last()),
{
    let a = skip_ws(l, 0);
    crate::text::lemma_skip_ws_bounds(l, 0);
    crate::text::lemma_back_ws_bounds(l, a, l.len() as int);
    lemma_skip_ws_stops(l, 0);
    lemma_back_ws_stops(l, a, l.len() as int);
}

/// Whether line `l` holds one operation written without `export `: not
/// blank, not a comment, not an `unset` and not already exported.
pub open spec fn exportable_line(l: Seq<char>) -> bool {
    &&& !ignored_line(l)
    &&& !has_prefix(trim(l), unset_keyword())
    &&& !has_prefix(trim(l), export_keyword())
}

/// Writing `export ` before the operation of line `i` leaves what that
/// line gives unchanged.
proof fn lemma_export_line_step(ls: Seq<Seq<char>>, i: int)
    requires
        0 <= i < ls.len(),
        exportable_line(ls[i]),
    ensures
        line_step(ls.update(i, export_keyword() + trim(ls[i])), i) == line_step(ls, i),
{
    let t = trim(ls[i]);
    let x = export_keyword() + t;
    let ls2 = ls.update(i, x);
    lemma_trim_ends(ls[i]);
    assert(x[0] == 'e');
    assert(x.last() == t.last());
    assert(skip_ws(x, 0) == 0);
    assert(back_ws(x, 0, x.len() as int) == x.len());
    assert(trim(x) =~= x);
    assert(x.subrange(0, 7) =~= export_keyword());
    assert(after_export(x) =~= t);
    assert(!has_prefix(x, unset_keyword())) by {
        assert(x.subrange(0, 6)[0] == 'e');
    }
    assert(after_export(t) == t);
    let tail = ls.subrange(i + 1, ls.len() as int);
    let pre = ls.subrange(0, i + 1);
    let pre2 = ls2.subrange(0, i + 1);
    assert(ls =~= pre + tail);
    assert(ls2 =~= pre2 + tail);
    let pre_i = ls.subrange(0, i);
    let pre2_i = ls2.subrange(0, i);
    let full = ls.subrange(i, ls.len() as int);
    let full2 = ls2.subrange(i, ls.len() as int);
    assert(ls =~= pre_i + full);
    assert(ls2 =~= pre2_i + full2);
    assert(full[0] == ls[i]);
    assert(full2[0] == x);
    assert(full =~= seq![ls[i]] + tail);
    assert(full2 =~= seq![x] + tail);
    // The heredoc of the line reads the same lines, after it, in both.
    match split_once(t, heredoc_op()) {
        Some((var, rest)) => {
            lemma_heredoc_step_shift(seq![ls[i]], tail, 0, var, rest);
            lemma_heredoc_step_shift(seq![x], tail, 0, var, rest);
            let (d0, mode) = heredoc_delimiter(rest);
            lemma_body_end_shift(pre_i, full, 1, unquote(d0), mode);
            lemma_body_end_shift(pre2_i, full2, 1, unquote(d0), mode);
            lemma_body_end_shift(seq![ls[i]], tail, 0, unquote(d0), mode);
            lemma_body_end_shift(seq![x], tail, 0, unquote(d0), mode);
            lemma_body_end_bounds(tail, 0, unquote(d0), mode);
            match body_end(tail, 0, unquote(d0), mode) {
                Some(k) => {
                    lemma_body_text_shift(pre, tail, 0, k, mode);
                    lemma_body_text_shift(pre2, tail, 0, k, mode);
                },
                None => {},
            }
            assert(heredoc_step(ls2, i, var, rest) == heredoc_step(ls, i, var, rest));
        },
        None => {},
    }
}

/// Writing `export ` before the operation of line `i` (the line trimmed)
/// changes nothing of what parsing from that line gives.
pub proof fn law_export_prefix_changes_nothing(ls: Seq<Seq<char>>, i: int, acc: Seq<EnvVarView>)
    requires
        0 <= i < ls.len(),
        exportable_line(ls[i]),
    ensures
        parse_from(ls.update(i, export_keyword() + trim(ls[i])), i, acc) == parse_from(ls, i, acc),
{
    let ls2 = ls.update(i, export_keyword() + trim(ls[i]));
    lemma_export_line_step(ls, i);
    let tail = ls.subrange(i + 1, ls.len() as int);
    let pre = ls.subrange(0, i + 1);
    let pre2 = ls2.subrange(0, i + 1);
    assert(ls =~= pre + tail);
    assert(ls2 =~= pre2 + tail);
    lemma_line_step_advances(ls, i);
    match line_step(ls, i) {
        LineStep::Next(ops, n) => {
            lemma_parse_from_shift(pre, tail, n - (i + 1), acc + ops);
            lemma_parse_from_shift(pre2, tail, n - (i + 1), acc + ops);
            assert(pre.len() + (n - (i + 1)) == n);
        },
        _ => {},
    }
}

proof fn lemma_body_end_prefix(p: Seq<Seq<char>>, t: Seq<Seq<char>>, j: int, d: Seq<char>, mode: Dedent)
    requires
        0 <= j,
    ensures
        body_end(p, j, d, mode) is Some ==> body_end(p + t, j, d, mode) == body_end(p, j, d, mode),
        forall|e: int|
            body_end(p + t, j, d, mode) == Some(e) && e < p.len() ==> body_end(p, j, d, mode) == Some(e),
    decreases p.len() - j,
{
    if j < p.len() {
        assert((p + t)[j] == p[j]);
        lemma_body_end_prefix(p, t, j + 1, d, mode);
    } else {
        lemma_body_end_bounds(p + t, j, d, mode);
    }
}

proof fn lemma_body_text_prefix(p: Seq<Seq<char>>, t: Seq<Seq<char>>, j: int, e: int, mode: Dedent)
    requires
        0 <= j,
        e <= p.len(),
    ensures
        body_text(p + t, j, e, mode) == body_text(p, j, e, mode),
    decreases e - j,
{
    if e > j {
        assert((p + t)[e - 1] == p[e - 1]);
        lemma_body_text_prefix(p, t, j, e - 1, mode);
    }
}

/// A line that reads up to line `n` of `p` reads the same whatever lines
/// follow `p`; and one that reads, within `p`, up to line `n` when lines
/// follow reads the same without them.
proof fn lemma_line_step_prefix(p: Seq<Seq<char>>, t: Seq<Seq<char>>)
    requires
        p.len() > 0,
    ensures
        line_step(p, 0) is Next ==> line_step(p + t, 0) == line_step(p, 0),
        line_step(p + t, 0) matches LineStep::Next(_, n) && n <= p.len() ==> line_step(p, 0) == line_step(
            p + t,
            0,
        ),
{
    assert((p + t)[0] == p[0]);
    let l = after_export(trim(p[0]));
    match split_once(l, heredoc_op()) {
        Some((var, rest)) => {
            let (d0, mode) = heredoc_delimiter(rest);
            let d = unquote(d0);
            lemma_body_end_prefix(p, t, 1, d, mode);
            lemma_body_end_bounds(p, 1, d, mode);
            lemma_body_end_bounds(p + t, 1, d, mode);
            match body_end(p, 1, d, mode) {
                Some(e) => {
                    lemma_body_text_prefix(p, t, 1, e, mode);
                },
                None => {},
            }
            match body_end(p + t, 1, d, mode) {
                Some(e) => {
                    if e < p.len() {
                        lemma_body_text_prefix(p, t, 1, e, mode);
                    }
                },
                None => {},
            }
        },
        None => {},
    }
}

/// Whether line `k` of `b` on is line `i` of `a` on with blank and comment
/// lines put where lines start, and some operation lines written with
/// `export ` before them (trimmed): each line of `a` that parsing reaches
/// is in `b`, as it is or exported, followed by the lines it reads as
/// they are; after a line that fails, the rest is as it is.
pub open spec fn padding_of(a: Seq<Seq<char>>, i: int, b: Seq<Seq<char>>, k: int) -> bool
    decreases (a.len() - i) + (b.len() - k),
{
    if !(0 <= i <= a.len() && 0 <= k <= b.len()) {
        false
    } else if k < b.len() && ignored_line(b[k]) && padding_of(a, i, b, k + 1) {
        true
    } else if i == a.len() {
        k == b.len()
    } else if k == b.len() {
        false
    } else {
        &&& (b[k] == a[i] || (exportable_line(a[i]) && b[k] == export_keyword() + trim(a[i])))
        &&& match line_step(a, i) {
            LineStep::Next(_, n) => {
                proof {
                    lemma_line_step_advances(a, i);
                }
                &&& k + (n - i) <= b.len()
                &&& forall|j: int| 1 <= j < n - i ==> b[k + j] == #[trigger] a[i + j]
                &&& padding_of(a, n, b, k + (n - i))
            },
            LineStep::Failed(_) => {
                &&& b.len() - k == a.len() - i
                &&& forall|j: int| 1 <= j < a.len() - i ==> b[k + j] == #[trigger] a[i + j]
            },
        }
    }
}

/// Line `k` of `b` gives what line `i` of `a` gives when `b[k]` is `a[i]`
/// or `a[i]` exported, and the lines that `a[i]` reads (or, when it
/// fails, all the following lines) are the same in both.
proof fn lemma_line_step_local(a: Seq<Seq<char>>, i: int, b: Seq<Seq<char>>, k: int)
    requires
        0 <= i < a.len(),
        0 <= k < b.len(),
        b[k] == a[i] || (exportable_line(a[i]) && b[k] == export_keyword() + trim(a[i])),
        match line_step(a, i) {
            LineStep::Next(_, n) => k + (n - i) <= b.len() && forall|j: int|
                1 <= j < n - i ==> b[k + j] == #[trigger] a[i + j],
            LineStep::Failed(_) => b.len() - k == a.len() - i && forall|j: int|
                1 <= j < a.len() - i ==> b[k + j] == #[trigger] a[i + j],
        },
    ensures
        line_step(b, k) == shifted_line(line_step(a, i), k - i),
{
    let big_a = a.subrange(i, a.len() as int);
    let big_b = b.subrange(k, b.len() as int);
    assert(a =~= a.subrange(0, i) + big_a);
    assert(b =~= b.subrange(0, k) + big_b);
    lemma_line_step_shift(a.subrange(0, i), big_a, 0);
    lemma_line_step_shift(b.subrange(0, k), big_b, 0);
    assert(line_step(a, i) == shifted_line(line_step(big_a, 0), i));
    assert(line_step(b, k) == shifted_line(line_step(big_b, 0), k));
    // `a2`: the lines of `a` from `i`, the first one as in `b`.
    let a2 = big_a.update(0, b[k]);
    if b[k] == a[i] {
        assert(a2 =~= big_a);
    } else {
        assert(big_a[0] == a[i]);
        lemma_export_line_step(big_a, 0);
    }
    assert(line_step(a2, 0) == line_step(big_a, 0));
    lemma_line_step_advances(a, i);
    lemma_line_step_advances(big_a, 0);
    match line_step(big_a, 0) {
        LineStep::Next(ops, m) => {
            assert(line_step(a, i) == LineStep::Next(ops, m + i));
            let p = a2.subrange(0, m);
            assert forall|j: int| 0 <= j < m implies p[j] == big_b[j] by {
                if j > 0 {
                    assert(b[k + j] == a[i + j]);
                }
            }
            assert(p =~= big_b.subrange(0, m));
            assert(a2 =~= p + a2.subrange(m, a2.len() as int));
            assert(big_b =~= p + big_b.subrange(m, big_b.len() as int));
            lemma_line_step_prefix(p, a2.subrange(m, a2.len() as int));
            lemma_line_step_prefix(p, big_b.subrange(m, big_b.len() as int));
        },
        LineStep::Failed(_) => {
            assert forall|j: int| 0 <= j < a2.len() implies a2[j] == big_b[j] by {
                if j > 0 {
                    assert(b[k + j] == a[i + j]);
                }
            }
            assert(a2 =~= big_b);
        },
    }
}

/// Blank and comment lines put where lines start, and operation lines
/// written with `export ` before them (see `padding_of`), change nothing
/// of what parsing gives, however many there are: neither the operations
/// nor the error.
pub proof fn law_padding_changes_nothing(
    a: Seq<Seq<char>>,
    i: int,
    b: Seq<Seq<char>>,
    k: int,
    acc: Seq<EnvVarView>,
)
    requires
        padding_of(a, i, b, k),
    ensures
        parse_from(b, k, acc) == parse_from(a, i, acc),
    decreases (a.len() - i) + (b.len() - k),
{
    if k < b.len() && ignored_line(b[k]) && padding_of(a, i, b, k + 1) {
        law_padding_changes_nothing(a, i, b, k + 1, acc);
        assert(acc + Seq::<EnvVarView>::empty() =~= acc);
        assert(parse_from(b, k, acc) == parse_from(b, k + 1, acc));
    } else if i == a.len() {
    } else {
        lemma_line_step_advances(a, i);
        lemma_line_step_local(a, i, b, k);
        match line_step(a, i) {
            LineStep::Next(ops, n) => {
                law_padding_changes_nothing(a, n, b, k + (n - i), acc + ops);
                assert(n + (k - i) == k + (n - i));
            },
            LineStep::Failed(_) => {},
        }
    }
}

/// A padded file (see `padding_of`) parses as the file it pads.
pub proof fn law_padded_file_parses_the_same(a: Seq<Seq<char>>, b: Seq<Seq<char>>)
    requires
        padding_of(a, 0, b, 0),
    ensures
        parse_env(b) == parse_env(a),
{
    law_padding_changes_nothing(a, 0, b, 0, Seq::empty());
}

proof fn lemma_indent_end(l: Seq<char>, i: int)
    requires
        0 <= i <= l.len(),
    ensures
        i <= indent_end(l, i) <= l.len(),
        forall|k: int| i <= k < indent_end(l, i) ==> l[k] == ' ' || l[k] == '\t',
        indent_end(l, i) < l.len() ==> l[indent_end(l, i)] != ' ' && l[indent_end(l, i)] != '\t',
    decreases l.len() - i,
{
    if i < l.len() && (l[i] == ' ' || l[i] == '\t') {
        lemma_indent_end(l, i + 1);
    }
}

/// Removing a line's indentation (for `<<-` heredocs) removes every
/// leading space and tab and nothing else: the line is its removed part,
/// all spaces and tabs, followed by what is left, which starts with
/// neither.
pub proof fn law_strip_indent_removes_leading_blanks(l: Seq<char>)
    ensures
        ({
            let r = strip_indent(l);
            let n = l.len() - r.len();
            &&& 0 <= n <= l.len()
            &&& l =~= l.subrange(0, n) + r
            &&& forall|k: int| 0 <= k < n ==> l[k] == ' ' || l[k] == '\t'
            &&& r.len() > 0 ==> r[0] != ' ' && r[0] != '\t'
        }),
{
    lemma_indent_end(l, 0);
    let n = indent_end(l, 0);
    assert(l =~= l.subrange(0, n) + l.subrange(n, l.len() as int));
}

/// A `<<-` heredoc ends at the first line after it that, its leading
/// spaces and tabs removed, is the delimiter.
pub proof fn law_dedented_heredoc_delimiter(ls: Seq<Seq<char>>, j: int, d: Seq<char>, pre: Seq<char>)
    requires
        0 <= j < ls.len(),
        ls[j] == pre + d,
        forall|k: int| 0 <= k < pre.len() ==> pre[k] == ' ' || pre[k] == '\t',
        d.len() > 0 ==> d[0] != ' ' && d[0] != '\t',
    ensures
        body_end(ls, j, d, Dedent::All) == Some(j),
{
    let l = ls[j];
    lemma_indent_end(l, 0);
    let n = indent_end(l, 0);
    assert forall|k: int| 0 <= k < pre.len() implies #[trigger] l[k] == ' ' || l[k] == '\t' by {
        assert(l[k] == pre[k]);
    }
    lemma_indent_run(l, pre.len() as int, 0);
    if d.len() > 0 {
        assert(l[pre.len() as int] == d[0]);
    }
    assert(strip_indent(l) =~= d);
}

proof fn lemma_indent_run(l: Seq<char>, p: int, i: int)
    requires
        0 <= i <= p <= l.len(),
        forall|k: int| i <= k < p ==> l[k] == ' ' || l[k] == '\t',
        p < l.len() ==> l[p] != ' ' && l[p] != '\t',
    ensures
        indent_end(l, i) == p,
    decreases p - i,
{
    if i < p {
        lemma_indent_run(l, p, i + 1);
    }
}

} // verus!
