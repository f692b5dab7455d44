//! Errors of the `up` operations, and how context is added to them.
use vstd::prelude::*;

use crate::text::{append, copy_string, from_chars, to_chars};

verus! {

/// An error raised while bringing a work directory up or down.
#[derive(Debug, Clone, PartialEq, Eq)]
pub enum UpError {
    Config(String),
    Exec(String),
    Timeout(String),
    Cache(String),
    HomebrewTapInUse,
    StepFailed(String, Option<(usize, usize)>),
    IOError(String),
}

/// The variant of an `UpError`.
#[derive(Debug, Clone, Copy, PartialEq, Eq, Structural)]
pub enum UpErrorKind {
    Config,
    Exec,
    Timeout,
    Cache,
    HomebrewTapInUse,
    StepFailed,
    IOError,
}

/// What an `UpError` holds: its variant, its payload text (the message, or
/// the step name for `StepFailed`) and the step position, if any.
pub struct UpErrorView {
    pub kind: UpErrorKind,
    pub text: Seq<char>,
    pub step: Option<(usize, usize)>,
}

impl View for UpError {
    type V = UpErrorView;

    open spec fn view(&self) -> UpErrorView {
        match self {
            UpError::Config(m) => UpErrorView { kind: UpErrorKind::Config, text: m@, step: None },
            UpError::Exec(m) => UpErrorView { kind: UpErrorKind::Exec, text: m@, step: None },
            UpError::Timeout(m) => UpErrorView {
                kind: UpErrorKind::Timeout,
                text: m@,
                step: None,
            },
            UpError::Cache(m) => UpErrorView { kind: UpErrorKind::Cache, text: m@, step: None },
            UpError::HomebrewTapInUse => UpErrorView {
                kind: UpErrorKind::HomebrewTapInUse,
                text: Seq::empty(),
                step: None,
            },
            UpError::StepFailed(m, s) => UpErrorView {
                kind: UpErrorKind::StepFailed,
                text: m@,
                step: *s,
            },
            UpError::IOError(m) => UpErrorView {
                kind: UpErrorKind::IOError,
                text: m@,
                step: None,
            },
        }
    }
}

/// The message of an error: its payload, or "tap in use".
pub open spec fn message_of(e: UpErrorView) -> Seq<char> {
    if e.kind == UpErrorKind::HomebrewTapInUse {
        "tap in use"@
    } else {
        e.text
    }
}

/// Whether context can be added to errors of this kind.
pub open spec fn takes_context(k: UpErrorKind) -> bool {
    k != UpErrorKind::StepFailed && k != UpErrorKind::HomebrewTapInUse
}

/// `e` with `ctx` put in front of its message, keeping its variant.
pub open spec fn with_context_of(e: UpErrorView, ctx: Seq<char>) -> UpErrorView {
    if takes_context(e.kind) {
        UpErrorView { kind: e.kind, text: ctx + ": "@ + message_of(e), step: None }
    } else {
        e
    }
}

/// The text that introduces a message of this kind when it is displayed.
pub open spec fn prefix_of(k: UpErrorKind) -> Seq<char> {
    match k {
        UpErrorKind::Config => "configuration error: "@,
        UpErrorKind::Exec => "execution error: "@,
        UpErrorKind::Timeout => "timeout: "@,
        UpErrorKind::Cache => "cache error: "@,
        UpErrorKind::IOError => "I/O error: "@,
        _ => Seq::empty(),
    }
}

/// The decimal digits of `n`.
pub open spec fn decimal(n: nat) -> Seq<char>
    decreases n,
{
    if n < 10 {
        seq![digit(n)]
    } else {
        decimal(n / 10).push(digit(n % 10))
    }
}

pub open spec fn digit(d: nat) -> char {
    seq!['0', '1', '2', '3', '4', '5', '6', '7', '8', '9'][d as int]
}

/// How an error is displayed.
pub open spec fn display_of(e: UpErrorView) -> Seq<char> {
    match e.kind {
        UpErrorKind::HomebrewTapInUse => "tap in use"@,
        UpErrorKind::StepFailed => match e.step {
            Some((s, t)) => "step "@ + decimal(s as nat) + "/"@ + decimal(t as nat) + " '"@
                + e.text + "' failed"@,
            None => "step '"@ + e.text + "' failed"@,
        },
        _ => prefix_of(e.kind) + e.text,
    }
}

fn digit_char(d: usize) -> (c: char)
    requires
        d < 10,
    ensures
        c == digit(d as nat),
{
    match d {
        0 => '0',
        1 => '1',
        2 => '2',
        3 => '3',
        4 => '4',
        5 => '5',
        6 => '6',
        7 => '7',
        8 => '8',
        _ => '9',
    }
}

/// The decimal digits of `n`.
pub fn decimal_chars(n: usize) -> (r: Vec<char>)
    ensures
        r@ == decimal(n as nat),
    decreases n,
{
    if n < 10 {
        let mut v: Vec<char> = Vec::new();
        v.push(digit_char(n));
        assert(v@ =~= seq![digit(n as nat)]);
        v
    } else {
        let mut v = decimal_chars(n / 10);
        v.push(digit_char(n % 10));
        v
    }
}

impl UpError {
    /// Adds context to an error without repeating its variant prefix: the
    /// variant is kept and the message becomes `"{context}: {message}"`.
    /// `StepFailed` and `HomebrewTapInUse` are returned unchanged.
    pub fn with_context(self, context: &str) -> (r: UpError)
        ensures
            r@ == with_context_of(self@, context@),
    {
        match self {
            UpError::StepFailed(_, _) => self,
            UpError::HomebrewTapInUse => self,
            UpError::Config(m) => UpError::Config(prefixed(context, &m)),
            UpError::Exec(m) => UpError::Exec(prefixed(context, &m)),
            UpError::Timeout(m) => UpError::Timeout(prefixed(context, &m)),
            UpError::Cache(m) => UpError::Cache(prefixed(context, &m)),
            UpError::IOError(m) => UpError::IOError(prefixed(context, &m)),
        }
    }

    /// A copy of the error.
    pub fn duplicate(&self) -> (r: UpError)
        ensures
            r@ == self@,
    {
        match self {
            UpError::Config(m) => UpError::Config(copy_string(m)),
            UpError::Exec(m) => UpError::Exec(copy_string(m)),
            UpError::Timeout(m) => UpError::Timeout(copy_string(m)),
            UpError::Cache(m) => UpError::Cache(copy_string(m)),
            UpError::HomebrewTapInUse => UpError::HomebrewTapInUse,
            UpError::StepFailed(m, s) => UpError::StepFailed(copy_string(m), *s),
            UpError::IOError(m) => UpError::IOError(copy_string(m)),
        }
    }

    /// The message of the error, without the variant's prefix.
    pub fn message(&self) -> (r: String)
        ensures
            r@ == message_of(self@),
    {
        match self {
            UpError::Config(m) => m.clone(),
            UpError::Exec(m) => m.clone(),
            UpError::Timeout(m) => m.clone(),
            UpError::Cache(m) => m.clone(),
            UpError::HomebrewTapInUse => String::from_str("tap in use"),
            UpError::StepFailed(m, _) => m.clone(),
            UpError::IOError(m) => m.clone(),
        }
    }

    /// The error as it is displayed to the user.
    pub fn display_string(&self) -> (r: String)
        ensures
            r@ == display_of(self@),
    {
        let mut out: Vec<char> = Vec::new();
        match self {
            UpError::HomebrewTapInUse => {
                out = to_chars("tap in use");
            },
            UpError::StepFailed(m, step) => {
                match step {
                    Some((s, t)) => {
                        append(&mut out, &to_chars("step "));
                        append(&mut out, &decimal_chars(*s));
                        append(&mut out, &to_chars("/"));
                        append(&mut out, &decimal_chars(*t));
                        append(&mut out, &to_chars(" '"));
                    },
                    None => {
                        append(&mut out, &to_chars("step '"));
                    },
                }
                append(&mut out, &to_chars(m.as_str()));
                append(&mut out, &to_chars("' failed"));
            },
            UpError::Config(m) => {
                out = to_chars("configuration error: ");
                append(&mut out, &to_chars(m.as_str()));
            },
            UpError::Exec(m) => {
                out = to_chars("execution error: ");
                append(&mut out, &to_chars(m.as_str()));
            },
            UpError::Timeout(m) => {
                out = to_chars("timeout: ");
                append(&mut out, &to_chars(m.as_str()));
            },
            UpError::Cache(m) => {
                out = to_chars("cache error: ");
                append(&mut out, &to_chars(m.as_str()));
            },
            UpError::IOError(m) => {
                out = to_chars("I/O error: ");
                append(&mut out, &to_chars(m.as_str()));
            },
        }
        assert(out@ =~= display_of(self@));
        from_chars(out.as_slice())
    }
}

fn prefixed(context: &str, m: &String) -> (r: String)
    ensures
        r@ == context@ + ": "@ + m@,
{
    let mut out = to_chars(context);
    append(&mut out, &to_chars(": "));
    append(&mut out, &to_chars(m.as_str()));
    from_chars(out.as_slice())
}

/// Adding context keeps the variant of the error.
pub proof fn law_context_keeps_variant(e: UpError, ctx: Seq<char>)
    ensures
        with_context_of(e@, ctx).kind == e@.kind,
{
}

/// Adding context to an error that takes it puts the context, a colon and
/// the old message after the variant's prefix, which appears once.
pub proof fn law_context_single_prefix(e: UpError, ctx: Seq<char>)
    requires
        takes_context(e@.kind),
    ensures
        display_of(with_context_of(e@, ctx)) == prefix_of(e@.kind) + ctx + ": "@ + message_of(
            e@,
        ),
{
}

/// Context added twice stacks: the outer context comes first, then the
/// inner one, then the message the error had.
pub proof fn law_context_stacks(e: UpError, inner: Seq<char>, outer: Seq<char>)
    requires
        takes_context(e@.kind),
    ensures
        message_of(with_context_of(with_context_of(e@, inner), outer)) == outer + ": "@ + inner
            + ": "@ + message_of(e@),
{
    assert(outer + ": "@ + (inner + ": "@ + message_of(e@)) =~= outer + ": "@ + inner + ": "@
        + message_of(e@));
}

/// A failed step, and the tap-in-use error, are left as they are.
pub proof fn law_context_leaves_steps_alone(e: UpError, ctx: Seq<char>)
    requires
        !takes_context(e@.kind),
    ensures
        with_context_of(e@, ctx) == e@,
{
}

} // verus!
