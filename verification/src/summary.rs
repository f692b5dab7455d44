//! The one-line summaries printed once a step has run.
use vstd::prelude::*;

use crate::error::{decimal, decimal_chars};
use crate::order::{sort_strings, sorted_strings, string_seq};
use crate::text::{append, from_chars, join, join_chars, push_str, to_chars, views};

verus! {

/// `n` followed by `what`, where `n` is written in decimal.
pub open spec fn counted(n: nat, what: Seq<char>) -> Seq<char> {
    decimal(n) + what
}

/// The summary of tools installed in one step: how many were installed
/// and how many were already there (each only when there were some),
/// then the labels of those handled, in increasing order. `nothing done`
/// when no tool was handled.
pub open spec fn install_summary(labels: Seq<Seq<char>>, installed: nat, already: nat) -> Seq<char> {
    let numbers = (if installed > 0 {
        seq![counted(installed, " installed"@)]
    } else {
        Seq::empty()
    }) + (if already > 0 {
        seq![counted(already, " already installed"@)]
    } else {
        Seq::empty()
    });
    if labels.len() == 0 || numbers.len() == 0 {
        "nothing done"@
    } else {
        join(numbers, ", "@) + " ("@ + join(sorted_strings(labels), ", "@) + ")"@
    }
}

fn counted_exec(n: usize, what: &str) -> (r: Vec<char>)
    ensures
        r@ == counted(n as nat, what@),
{
    let mut r = decimal_chars(n);
    push_str(&mut r, what);
    r
}

fn string_chars(v: &Vec<String>) -> (r: Vec<Vec<char>>)
    ensures
        views(r@) == string_seq(v@),
{
    let mut r: Vec<Vec<char>> = Vec::new();
    let mut i: usize = 0;
    while i < v.len()
        invariant
            i <= v@.len(),
            views(r@) == string_seq(v@).subrange(0, i as int),
        decreases v.len() - i,
    {
        let ghost before = views(r@);
        r.push(to_chars(v[i].as_str()));
        assert(views(r@) =~= before.push(v@[i as int]@));
        assert(views(r@) =~= string_seq(v@).subrange(0, i + 1));
        i = i + 1;
    }
    assert(string_seq(v@).subrange(0, i as int) =~= string_seq(v@));
    r
}

/// Builds the summary of tools installed in one step (see
/// `install_summary`).
pub fn install_summary_text(labels: &Vec<String>, installed: usize, already: usize) -> (r: String)
    ensures
        r@ == install_summary(string_seq(labels@), installed as nat, already as nat),
{
    let mut numbers: Vec<Vec<char>> = Vec::new();
    if installed > 0 {
        numbers.push(counted_exec(installed, " installed"));
    }
    if already > 0 {
        numbers.push(counted_exec(already, " already installed"));
    }
    let ghost expected = (if installed > 0 {
        seq![counted(installed as nat, " installed"@)]
    } else {
        Seq::empty()
    }) + (if already > 0 {
        seq![counted(already as nat, " already installed"@)]
    } else {
        Seq::empty()
    });
    assert(views(numbers@) =~= expected);
    if labels.len() == 0 || numbers.len() == 0 {
        return String::from_str("nothing done");
    }
    let sorted = sort_strings(labels);
    let mut out = join_chars(&numbers, &to_chars(", "));
    push_str(&mut out, " (");
    append(&mut out, &join_chars(&string_chars(&sorted), &to_chars(", ")));
    push_str(&mut out, ")");
    from_chars(out.as_slice())
}

/// What a cleanup reports: `all` when the whole directory went, nothing
/// when nothing was removed, else the labels of what was removed, or, when
/// none was recognised, how many `noun`s were removed.
pub open spec fn removal_report(
    all: Seq<char>,
    noun: Seq<char>,
    root_removed: bool,
    num_removed: nat,
    labels: Seq<Seq<char>>,
) -> Option<Seq<char>> {
    if root_removed {
        Some(all)
    } else if num_removed == 0 {
        None
    } else if labels.len() == 0 {
        Some(
            "removed "@ + decimal(num_removed) + " "@ + noun + if num_removed > 1 {
                "s"@
            } else {
                Seq::empty()
            },
        )
    } else {
        Some("removed "@ + join(labels, ", "@))
    }
}

/// Builds what a cleanup reports (see `removal_report`).
pub fn removal_report_text(
    all: &str,
    noun: &str,
    root_removed: bool,
    num_removed: usize,
    labels: &Vec<Vec<char>>,
) -> (r: Option<String>)
    ensures
        match removal_report(all@, noun@, root_removed, num_removed as nat, views(labels@)) {
            Some(x) => r matches Some(y) && y@ == x,
            None => r is None,
        },
{
    if root_removed {
        return Some(from_chars(to_chars(all).as_slice()));
    }
    if num_removed == 0 {
        return None;
    }
    let mut out = to_chars("removed ");
    if labels.len() == 0 {
        append(&mut out, &decimal_chars(num_removed));
        push_str(&mut out, " ");
        push_str(&mut out, noun);
        if num_removed > 1 {
            push_str(&mut out, "s");
        }
    } else {
        append(&mut out, &join_chars(labels, &to_chars(", ")));
    }
    Some(from_chars(out.as_slice()))
}

/// The decimal text of a number starts with a digit.
pub proof fn lemma_decimal_starts_with_digit(n: nat)
    ensures
        decimal(n).len() > 0,
        '0' <= decimal(n)[0] <= '9',
    decreases n,
{
    if n >= 10 {
        lemma_decimal_starts_with_digit(n / 10);
    }
}

/// Joining pieces starts with the first piece.
pub proof fn lemma_join_starts_with_first(segs: Seq<Seq<char>>, sep: Seq<char>)
    requires
        segs.len() > 0,
        segs[0].len() > 0,
    ensures
        join(segs, sep).len() > 0,
        join(segs, sep)[0] == segs[0][0],
    decreases segs.len(),
{
    if segs.len() > 1 {
        lemma_join_starts_with_first(segs.drop_last(), sep);
        assert(segs.drop_last()[0] == segs[0]);
    }
}

/// The summary of a step says `nothing done` exactly when no tool is
/// listed or none was counted as installed or already there.
pub proof fn law_summary_nothing_done(labels: Seq<Seq<char>>, installed: nat, already: nat)
    ensures
        (install_summary(labels, installed, already) == "nothing done"@) <==> (labels.len() == 0 || (installed
            == 0 && already == 0)),
{
    reveal_strlit("nothing done");
    let numbers = (if installed > 0 {
        seq![counted(installed, " installed"@)]
    } else {
        Seq::empty()
    }) + (if already > 0 {
        seq![counted(already, " already installed"@)]
    } else {
        Seq::empty()
    });
    if labels.len() > 0 && numbers.len() > 0 {
        let first = numbers[0];
        if installed > 0 {
            lemma_decimal_starts_with_digit(installed);
            assert(first == decimal(installed) + " installed"@);
        } else {
            lemma_decimal_starts_with_digit(already);
            assert(first == decimal(already) + " already installed"@);
        }
        assert(first[0] != 'n');
        lemma_join_starts_with_first(numbers, ", "@);
        let text = join(numbers, ", "@) + " ("@ + join(sorted_strings(labels), ", "@) + ")"@;
        assert(text[0] == join(numbers, ", "@)[0]);
        assert(text[0] != "nothing done"@[0]);
    }
}

} // verus!
