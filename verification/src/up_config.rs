//! The list of steps of a work directory's `up` configuration: how each
//! configured entry is read, and what the configuration reports.
use vstd::prelude::*;

use crate::config_value::{index_path, index_path_exec, int_text, ConfigValue};
use crate::error::{decimal, decimal_chars, UpError, UpErrorKind, UpErrorView};
use crate::detect::{insert_sorted, strictly_sorted};
use crate::order::string_seq;
use crate::path::{relative_parts, relative_parts_of};
use crate::text::{chars_eq, from_chars, join, join_chars, push_str, to_chars, views};

verus! {

/// What the `up` configuration reads of one of its steps.
#[derive(Debug, Clone)]
pub struct UpStep {
    /// Whether the step can run on this system.
    pub available: bool,
    /// Whether the step was brought up.
    pub was_upped: bool,
    /// The data paths the step uses.
    pub data_paths: Vec<String>,
    /// The directory the step runs in, if any.
    pub dir: Option<String>,
}

/// A problem recorded for the configuration's error tracker: its code,
/// the path of the value it is about, and its message.
#[derive(Debug, Clone)]
pub struct TrackedError {
    pub code: String,
    pub path: String,
    pub message: String,
}

pub struct TrackedErrorView {
    pub code: Seq<char>,
    pub path: Seq<char>,
    pub message: Seq<char>,
}

impl View for TrackedError {
    type V = TrackedErrorView;

    open spec fn view(&self) -> TrackedErrorView {
        TrackedErrorView { code: self.code@, path: self.path@, message: self.message@ }
    }
}

pub open spec fn record_seq(v: Seq<TrackedError>) -> Seq<TrackedErrorView> {
    Seq::new(v.len(), |k: int| v[k]@)
}

/// The steps of the configuration, the errors found reading it, and what
/// was recorded for the error tracker.
#[derive(Debug)]
pub struct UpConfig {
    pub steps: Vec<UpStep>,
    pub errors: Vec<UpError>,
    pub records: Vec<TrackedError>,
}

pub open spec fn error_seq(v: Seq<UpError>) -> Seq<UpErrorView> {
    Seq::new(v.len(), |k: int| v[k]@)
}

impl UpConfig {
    /// The errors found reading the configuration.
    pub fn errors(&self) -> (r: Vec<UpError>)
        ensures
            error_seq(r@) == error_seq(self.errors@),
    {
        let mut r: Vec<UpError> = Vec::new();
        let mut i: usize = 0;
        while i < self.errors.len()
            invariant
                i <= self.errors@.len(),
                error_seq(r@) == error_seq(self.errors@).subrange(0, i as int),
            decreases self.errors.len() - i,
        {
            let ghost before = error_seq(r@);
            r.push(self.errors[i].duplicate());
            assert(error_seq(r@) =~= before.push(error_seq(self.errors@)[i as int]));
            assert(error_seq(r@) =~= error_seq(self.errors@).subrange(0, i + 1));
            i = i + 1;
        }
        assert(error_seq(self.errors@).subrange(0, i as int) =~= error_seq(self.errors@));
        r
    }

    pub fn has_steps(&self) -> (r: bool)
        ensures
            r == (self.steps@.len() > 0),
    {
        self.steps.len() > 0
    }

    pub fn has_errors(&self) -> (r: bool)
        ensures
            r == (self.errors@.len() > 0),
    {
        self.errors.len() > 0
    }
}

/// The operation that a step tag names among those that cannot be given
/// without details: `cargo-install`, `github-release` or `go-install`,
/// under any of their aliases.
pub open spec fn empty_operation_of(tag: Seq<char>) -> Option<Seq<char>> {
    if tag == "cargo-install"@ || tag == "cargo_install"@ || tag == "cargoinstall"@ || tag
        == "cargo-install-crates"@ || tag == "cargo-install-crate"@ || tag == "cargo-crates"@ || tag
        == "cargo-crate"@ {
        Some("cargo-install"@)
    } else if tag == "github-release"@ || tag == "github_release"@ || tag == "githubrelease"@ || tag
        == "ghrelease"@ || tag == "github-releases"@ || tag == "github_releases"@ || tag
        == "githubreleases"@ || tag == "ghreleases"@ || tag == "github"@ || tag == "gh-release"@
        || tag == "gh-releases"@ {
        Some("github-release"@)
    } else if tag == "go-install"@ || tag == "go_install"@ || tag == "goinstall"@ || tag
        == "go-install-tools"@ || tag == "go-install-tool"@ || tag == "go-tools"@ || tag
        == "go-tool"@ {
        Some("go-install"@)
    } else {
        None
    }
}

fn is(t: &Vec<char>, w: &str) -> (r: bool)
    ensures
        r == (t@ == w@),
{
    chars_eq(t, &to_chars(w))
}

/// The operation that `tag` names among those that need details.
pub fn empty_operation_name(tag: &str) -> (r: Option<String>)
    ensures
        match empty_operation_of(tag@) {
            Some(op) => r matches Some(s) && s@ == op,
            None => r is None,
        },
{
    let t = to_chars(tag);
    if is(&t, "cargo-install") || is(&t, "cargo_install") || is(&t, "cargoinstall") || is(
        &t,
        "cargo-install-crates",
    ) || is(&t, "cargo-install-crate") || is(&t, "cargo-crates") || is(&t, "cargo-crate") {
        Some(String::from_str("cargo-install"))
    } else if is(&t, "github-release") || is(&t, "github_release") || is(&t, "githubrelease") || is(
        &t,
        "ghrelease",
    ) || is(&t, "github-releases") || is(&t, "github_releases") || is(&t, "githubreleases") || is(
        &t,
        "ghreleases",
    ) || is(&t, "github") || is(&t, "gh-release") || is(&t, "gh-releases") {
        Some(String::from_str("github-release"))
    } else if is(&t, "go-install") || is(&t, "go_install") || is(&t, "goinstall") || is(
        &t,
        "go-install-tools",
    ) || is(&t, "go-install-tool") || is(&t, "go-tools") || is(&t, "go-tool") {
        Some(String::from_str("go-install"))
    } else {
        None
    }
}

/// How a configured step is to be read.
#[derive(Debug, Clone)]
pub enum StepForm {
    /// An operation that needs details, given without any.
    EmptyOperation(String),
    /// A bare name: the tool of that name, with an empty configuration.
    NamedTool(String),
    /// The entry is read as it is.
    AsIs,
}

/// How a configured step is read: a bare name or a table of one key
/// without value that names an operation needing details is an empty
/// operation; another bare name, or an integer, names a tool.
pub open spec fn step_form_of(step: ConfigValue) -> (Option<Seq<char>>, Option<Seq<char>>) {
    match step {
        ConfigValue::Str(tag) => match empty_operation_of(tag@) {
            Some(op) => (Some(op), None),
            None => (None, Some(tag@)),
        },
        ConfigValue::Integer(n) => (None, Some(int_text(n as int))),
        ConfigValue::Table(entries) => if entries@.len() == 1 && entries@[0].1 is Null
            && empty_operation_of(entries@[0].0@) is Some {
            (empty_operation_of(entries@[0].0@), None)
        } else {
            (None, None)
        },
        _ => (None, None),
    }
}

/// Reads how a configured step is to be read (see `step_form_of`: the
/// first part is the empty operation, the second the tool's name).
pub fn step_form(step: &ConfigValue) -> (r: StepForm)
    ensures
        match step_form_of(*step) {
            (Some(op), _) => r matches StepForm::EmptyOperation(s) && s@ == op,
            (None, Some(name)) => r matches StepForm::NamedTool(s) && s@ == name,
            (None, None) => r is AsIs,
        },
{
    match step {
        ConfigValue::Str(tag) => match empty_operation_name(tag.as_str()) {
            Some(op) => StepForm::EmptyOperation(op),
            None => StepForm::NamedTool(crate::text::copy_string(tag)),
        },
        ConfigValue::Integer(_) => match step.as_str_forced() {
            Some(s) => StepForm::NamedTool(s),
            None => StepForm::AsIs,
        },
        ConfigValue::Table(entries) => {
            if entries.len() == 1 && entries[0].1.is_null() {
                match empty_operation_name(entries[0].0.as_str()) {
                    Some(op) => StepForm::EmptyOperation(op),
                    None => StepForm::AsIs,
                }
            } else {
                StepForm::AsIs
            }
        },
        _ => StepForm::AsIs,
    }
}

/// What reading one configured step gave.
#[derive(Debug)]
pub enum ParsedStep {
    /// An operation that needs details, given without any.
    EmptyOperation(String),
    /// A step that was read.
    Tool(UpStep),
    /// A step that could not be read.
    Invalid,
}

/// `{op} operation details are empty`.
pub open spec fn empty_operation_msg(op: Seq<char>) -> Seq<char> {
    op + " operation details are empty"@
}

/// `invalid config for step {n}`.
pub open spec fn invalid_step_msg(n: nat) -> Seq<char> {
    "invalid config for step "@ + decimal(n)
}

/// The errors that the read steps `ps` report, counting steps from 1.
pub open spec fn parsed_errors(ps: Seq<ParsedStep>) -> Seq<UpErrorView>
    decreases ps.len(),
{
    if ps.len() == 0 {
        Seq::empty()
    } else {
        let rest = parsed_errors(ps.drop_last());
        match ps.last() {
            ParsedStep::EmptyOperation(op) => rest.push(
                config_error_view(empty_operation_msg(op@)),
            ),
            ParsedStep::Tool(_) => rest,
            ParsedStep::Invalid => rest.push(
                config_error_view(invalid_step_msg(ps.len() as nat)),
            ),
        }
    }
}

/// The steps that were read, in order.
pub open spec fn parsed_tools(ps: Seq<ParsedStep>) -> Seq<UpStep>
    decreases ps.len(),
{
    if ps.len() == 0 {
        Seq::empty()
    } else {
        match ps.last() {
            ParsedStep::Tool(t) => parsed_tools(ps.drop_last()).push(t),
            _ => parsed_tools(ps.drop_last()),
        }
    }
}

/// The record of an empty operation `op` given as the step at position
/// `index` of the list at `base`: code `C002`, at `base[index].op`.
pub open spec fn empty_operation_record(base: Seq<char>, index: nat, op: Seq<char>) -> TrackedErrorView {
    TrackedErrorView {
        code: "C002"@,
        path: index_path(base, index) + "."@ + op,
        message: "operation details are empty"@,
    }
}

/// The tracker records of the read steps `ps`, listed at `base`: one for
/// each empty operation, in order.
pub open spec fn parsed_records(ps: Seq<ParsedStep>, base: Seq<char>) -> Seq<TrackedErrorView>
    decreases ps.len(),
{
    if ps.len() == 0 {
        Seq::empty()
    } else {
        let rest = parsed_records(ps.drop_last(), base);
        match ps.last() {
            ParsedStep::EmptyOperation(op) => rest.push(
                empty_operation_record(base, (ps.len() - 1) as nat, op@),
            ),
            _ => rest,
        }
    }
}

/// A configuration error with the message `text`.
pub open spec fn config_error_view(text: Seq<char>) -> UpErrorView {
    UpErrorView { kind: UpErrorKind::Config, text, step: None }
}

impl UpConfig {
    /// Builds the configuration from what reading each configured step gave,
    /// the steps being listed at `base`: the steps that were read, in order,
    /// one configuration error for each empty operation and each step that
    /// could not be read, and one tracker record (code `C002`) for each
    /// empty operation.
    pub fn from_parsed(parsed: Vec<ParsedStep>, base: &str) -> (r: UpConfig)
        ensures
            r.steps@ == parsed_tools(parsed@),
            error_seq(r.errors@) == parsed_errors(parsed@),
            record_seq(r.records@) == parsed_records(parsed@, base@),
    {
        let ghost ps = parsed@;
        let mut steps: Vec<UpStep> = Vec::new();
        let mut errors: Vec<UpError> = Vec::new();
        let mut records: Vec<TrackedError> = Vec::new();
        let mut parsed = parsed;
        let mut rev: Vec<ParsedStep> = Vec::new();
        while parsed.len() > 0
            invariant
                ps == parsed@ + rev@.reverse(),
            decreases parsed.len(),
        {
            let p = parsed.pop().unwrap();
            let ghost before = rev@;
            rev.push(p);
            assert(rev@.reverse() =~= seq![p] + before.reverse());
            assert(ps =~= parsed@ + rev@.reverse());
        }
        let n = rev.len();
        let mut i: usize = 0;
        assert(ps =~= rev@.reverse());
        while i < n
            invariant
                n == ps.len(),
                i <= n,
                rev@.len() == n - i,
                forall|k: int| 0 <= k < rev@.len() ==> rev@[k] == ps[n - 1 - k],
                steps@ == parsed_tools(ps.subrange(0, i as int)),
                error_seq(errors@) == parsed_errors(ps.subrange(0, i as int)),
                record_seq(records@) == parsed_records(ps.subrange(0, i as int), base@),
            decreases n - i,
        {
            let p = rev.pop().unwrap();
            assert(p == ps[i as int]);
            assert(ps.subrange(0, i + 1).drop_last() =~= ps.subrange(0, i as int));
            match p {
                ParsedStep::EmptyOperation(op) => {
                    let ghost before = error_seq(errors@);
                    let mut m = to_chars(op.as_str());
                    push_str(&mut m, " operation details are empty");
                    errors.push(UpError::Config(from_chars(m.as_slice())));
                    assert(error_seq(errors@) =~= before.push(
                        config_error_view(empty_operation_msg(op@)),
                    ));
                    let ghost tb = record_seq(records@);
                    let mut path = to_chars(index_path_exec(base, i).as_str());
                    push_str(&mut path, ".");
                    crate::text::append(&mut path, &to_chars(op.as_str()));
                    let rec = TrackedError {
                        code: String::from_str("C002"),
                        path: from_chars(path.as_slice()),
                        message: String::from_str("operation details are empty"),
                    };
                    assert(rec@ == empty_operation_record(base@, i as nat, op@));
                    records.push(rec);
                    assert(record_seq(records@) =~= tb.push(empty_operation_record(base@, i as nat, op@)));
                },
                ParsedStep::Tool(t) => {
                    steps.push(t);
                },
                ParsedStep::Invalid => {
                    let ghost before = error_seq(errors@);
                    let mut m = to_chars("invalid config for step ");
                    crate::text::append(&mut m, &decimal_chars(i + 1));
                    errors.push(UpError::Config(from_chars(m.as_slice())));
                    assert(error_seq(errors@) =~= before.push(
                        config_error_view(invalid_step_msg((i + 1) as nat)),
                    ));
                },
            }
            i = i + 1;
        }
        assert(ps.subrange(0, n as int) =~= ps);
        UpConfig { steps, errors, records }
    }
}


/// Every configured step is accounted for: it is either kept as a step or
/// reported by one error.
pub proof fn law_every_step_accounted(ps: Seq<ParsedStep>)
    ensures
        parsed_tools(ps).len() + parsed_errors(ps).len() == ps.len(),
    decreases ps.len(),
{
    if ps.len() > 0 {
        law_every_step_accounted(ps.drop_last());
    }
}

/// The data paths that a cleanup keeps: those of the steps that ran,
/// below the data path of the work directory, each once, in increasing
/// order.
pub fn expected_data_paths(wd_data_path: &str, data_paths: &Vec<String>) -> (r: Vec<String>)
    ensures
        strictly_sorted(string_seq(r@)),
        forall|y: Seq<char>| #[trigger] string_seq(r@).contains(y) <==> (string_seq(data_paths@).contains(y)
            && relative_parts_of(wd_data_path@, y) is Some),
{
    let mut r: Vec<String> = Vec::new();
    let mut i: usize = 0;
    while i < data_paths.len()
        invariant
            i <= data_paths@.len(),
            strictly_sorted(string_seq(r@)),
            forall|y: Seq<char>| #[trigger] string_seq(r@).contains(y) <==> (string_seq(data_paths@).subrange(0, i as int).contains(y)
                && relative_parts_of(wd_data_path@, y) is Some),
        decreases data_paths.len() - i,
    {
        let ghost pre = string_seq(data_paths@).subrange(0, i as int);
        let ghost post = string_seq(data_paths@).subrange(0, i + 1);
        assert(post =~= pre.push(data_paths@[i as int]@));
        let below = relative_parts(wd_data_path, data_paths[i].as_str()).is_some();
        if below {
            insert_sorted(&mut r, from_chars(to_chars(data_paths[i].as_str()).as_slice()));
        }
        proof {
            assert forall|y: Seq<char>| #[trigger] string_seq(r@).contains(y) <==> (post.contains(y)
                && relative_parts_of(wd_data_path@, y) is Some) by {
                if post.contains(y) {
                    let j = choose|j: int| 0 <= j < post.len() && post[j] == y;
                    if j < i {
                        assert(pre[j] == y);
                    }
                }
                if pre.contains(y) {
                    let j = choose|j: int| 0 <= j < pre.len() && pre[j] == y;
                    assert(post[j] == y);
                }
                if y == data_paths@[i as int]@ {
                    assert(post[i as int] == y);
                }
            }
        }
        i = i + 1;
    }
    assert(string_seq(data_paths@).subrange(0, i as int) =~= string_seq(data_paths@));
    r
}

/// What cleaning the data path of the work directory reports: that the
/// whole of it went, nothing when nothing went, else how many entries
/// went.
pub open spec fn data_path_report(wd_data_path: Seq<char>, root_removed: bool, num_removed: nat) -> Option<Seq<char>> {
    if root_removed {
        Some("removed workdir data path "@ + wd_data_path)
    } else if num_removed == 0 {
        None
    } else {
        Some("removed "@ + decimal(num_removed) + if num_removed > 1 {
            " entries from the data path"@
        } else {
            " entry from the data path"@
        })
    }
}

/// Builds what cleaning the data path reports (see `data_path_report`).
pub fn cleanup_data_path_report(wd_data_path: &str, root_removed: bool, num_removed: usize) -> (r: Option<String>)
    ensures
        match data_path_report(wd_data_path@, root_removed, num_removed as nat) {
            Some(x) => r matches Some(y) && y@ == x,
            None => r is None,
        },
{
    if root_removed {
        let mut out = to_chars("removed workdir data path ");
        push_str(&mut out, wd_data_path);
        return Some(from_chars(out.as_slice()));
    }
    if num_removed == 0 {
        return None;
    }
    let mut out = to_chars("removed ");
    crate::text::append(&mut out, &decimal_chars(num_removed));
    if num_removed > 1 {
        push_str(&mut out, " entries from the data path");
    } else {
        push_str(&mut out, " entry from the data path");
    }
    Some(from_chars(out.as_slice()))
}

/// What a cleanup of all the steps reports: the reports of each, joined
/// with `, `, or `nothing to do`.
pub fn cleanup_summary(cleanups: &Vec<String>) -> (r: String)
    ensures
        r@ == if cleanups@.len() == 0 {
            "nothing to do"@
        } else {
            join(string_seq(cleanups@), ", "@)
        },
{
    if cleanups.len() == 0 {
        return String::from_str("nothing to do");
    }
    let mut parts: Vec<Vec<char>> = Vec::new();
    let mut i: usize = 0;
    while i < cleanups.len()
        invariant
            i <= cleanups@.len(),
            views(parts@) == string_seq(cleanups@).subrange(0, i as int),
        decreases cleanups.len() - i,
    {
        let ghost before = views(parts@);
        parts.push(to_chars(cleanups[i].as_str()));
        assert(views(parts@) =~= before.push(cleanups@[i as int]@));
        assert(views(parts@) =~= string_seq(cleanups@).subrange(0, i + 1));
        i = i + 1;
    }
    assert(string_seq(cleanups@).subrange(0, i as int) =~= string_seq(cleanups@));
    from_chars(join_chars(&parts, &to_chars(", ")).as_slice())
}

} // verus!
