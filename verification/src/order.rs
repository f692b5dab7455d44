//! The order of strings (that of `String`'s `Ord`), and sorting by it.
use vstd::prelude::*;
use vstd::relations::{sorted_by, total_ordering};

use crate::text::{chars_lt, copy_string, seq_lt};

verus! {

broadcast use vstd::seq_lib::group_to_multiset_ensures;

/// `a` comes before `b`, or is equal to it.
pub open spec fn seq_le(a: Seq<char>, b: Seq<char>) -> bool {
    !seq_lt(b, a)
}

/// The order relation, as a function.
pub open spec fn le_rel() -> spec_fn(Seq<char>, Seq<char>) -> bool {
    |a: Seq<char>, b: Seq<char>| seq_le(a, b)
}

pub proof fn lemma_seq_lt_irreflexive(a: Seq<char>)
    ensures
        !seq_lt(a, a),
    decreases a.len(),
{
    if a.len() > 0 {
        lemma_seq_lt_irreflexive(a.drop_first());
    }
}

pub proof fn lemma_seq_lt_transitive(a: Seq<char>, b: Seq<char>, c: Seq<char>)
    requires
        seq_lt(a, b),
        seq_lt(b, c),
    ensures
        seq_lt(a, c),
    decreases a.len(),
{
    if a.len() == 0 {
    } else if a[0] != b[0] || b[0] != c[0] {
    } else {
        lemma_seq_lt_transitive(a.drop_first(), b.drop_first(), c.drop_first());
    }
}

pub proof fn lemma_seq_lt_total(a: Seq<char>, b: Seq<char>)
    ensures
        a == b || seq_lt(a, b) || seq_lt(b, a),
    decreases a.len(),
{
    if a.len() == 0 || b.len() == 0 {
        if a.len() == 0 && b.len() == 0 {
            assert(a =~= b);
        }
    } else if a[0] != b[0] {
    } else {
        lemma_seq_lt_total(a.drop_first(), b.drop_first());
        if a.drop_first() == b.drop_first() {
            assert(a =~= seq![a[0]] + a.drop_first());
            assert(b =~= seq![b[0]] + b.drop_first());
        }
    }
}

pub proof fn lemma_seq_lt_asymmetric(a: Seq<char>, b: Seq<char>)
    requires
        seq_lt(a, b),
    ensures
        !seq_lt(b, a),
{
    if seq_lt(b, a) {
        lemma_seq_lt_transitive(a, b, a);
        lemma_seq_lt_irreflexive(a);
    }
}

/// The order of strings is a total order.
pub proof fn lemma_le_total_ordering()
    ensures
        total_ordering(le_rel()),
{
    assert forall|a: Seq<char>| #[trigger] le_rel()(a, a) by {
        lemma_seq_lt_irreflexive(a);
    }
    assert forall|a: Seq<char>, b: Seq<char>| #[trigger] le_rel()(a, b) && #[trigger] le_rel()(b, a) implies a
        == b by {
        lemma_seq_lt_total(a, b);
    }
    assert forall|a: Seq<char>, b: Seq<char>, c: Seq<char>|
        #[trigger] le_rel()(a, b) && #[trigger] le_rel()(b, c) implies le_rel()(a, c) by {
        if seq_lt(c, a) {
            lemma_seq_lt_total(a, b);
            lemma_seq_lt_total(b, c);
            if seq_lt(a, b) {
                lemma_seq_lt_transitive(c, a, b);
            } else if a == b {
            }
        }
    }
    assert forall|a: Seq<char>, b: Seq<char>| #[trigger] le_rel()(a, b) || #[trigger] le_rel()(b, a) by {
        if seq_lt(b, a) {
            lemma_seq_lt_asymmetric(b, a);
        }
    }
}

pub open spec fn string_seq(v: Seq<String>) -> Seq<Seq<char>> {
    Seq::new(v.len(), |k: int| v[k]@)
}

/// The strings `s` in increasing order, equal ones kept.
pub open spec fn sorted_strings(s: Seq<Seq<char>>) -> Seq<Seq<char>> {
    s.sort_by(le_rel())
}

/// Sorts strings in increasing order, keeping equal ones.
pub fn sort_strings(v: &Vec<String>) -> (r: Vec<String>)
    ensures
        string_seq(r@) == sorted_strings(string_seq(v@)),
{
    let ghost vs = string_seq(v@);
    let mut r: Vec<String> = Vec::new();
    let mut i: usize = 0;
    proof {
        lemma_le_total_ordering();
    }
    assert(vs.subrange(0, 0) =~= Seq::<Seq<char>>::empty());
    assert(string_seq(r@) =~= Seq::<Seq<char>>::empty());
    while i < v.len()
        invariant
            i <= v@.len(),
            vs == string_seq(v@),
            total_ordering(le_rel()),
            sorted_by(string_seq(r@), le_rel()),
            string_seq(r@).to_multiset() == vs.subrange(0, i as int).to_multiset(),
        decreases v.len() - i,
    {
        let x = to_chars_of(&v[i]);
        let mut p: usize = 0;
        while p < r.len() && !chars_lt(&x, &to_chars_of(&r[p]))
            invariant
                p <= r@.len(),
                x@ == vs[i as int],
                forall|k: int| 0 <= k < p ==> seq_le(#[trigger] string_seq(r@)[k], x@),
            decreases r.len() - p,
        {
            p = p + 1;
        }
        let ghost before = string_seq(r@);
        proof {
            assert forall|k: int| p <= k < before.len() implies seq_le(x@, #[trigger] before[k]) by {
                assert(seq_lt(x@, before[p as int]));
                if k > p {
                    assert(le_rel()(before[p as int], before[k]));
                    if seq_lt(before[k], x@) {
                        lemma_seq_lt_transitive(before[k], x@, before[p as int]);
                        lemma_seq_lt_asymmetric(before[k], before[p as int]);
                        lemma_seq_lt_total(before[k], before[p as int]);
                    }
                }
                lemma_seq_lt_asymmetric(x@, before[p as int]);
                if k == p {
                }
            }
        }
        r.insert(p, copy_string(&v[i]));
        assert(string_seq(r@) =~= before.insert(p as int, x@));
        proof {
            let after = string_seq(r@);
            assert forall|a: int, b: int| 0 <= a < b < after.len() implies #[trigger] le_rel()(after[a], after[b]) by {
                if a < p && b < p {
                    assert(le_rel()(before[a], before[b]));
                } else if a < p && b == p {
                } else if a < p && b > p {
                    assert(le_rel()(before[a], before[b - 1]) || a == b - 1);
                    assert(seq_le(before[a], x@));
                    assert(seq_le(x@, before[b - 1]));
                } else if a == p {
                } else {
                    assert(le_rel()(before[a - 1], before[b - 1]));
                }
            }
            vstd::seq_lib::to_multiset_insert(before, p as int, x@);
            assert(vs.subrange(0, i + 1) =~= vs.subrange(0, i as int).push(vs[i as int]));
        }
        i = i + 1;
    }
    proof {
        assert(vs.subrange(0, i as int) =~= vs);
        vs.lemma_sort_by_ensures(le_rel());
        vstd::seq_lib::lemma_sorted_unique(string_seq(r@), vs.sort_by(le_rel()), le_rel());
    }
    r
}

fn to_chars_of(s: &String) -> (r: Vec<char>)
    ensures
        r@ == s@,
{
    crate::text::to_chars(s.as_str())
}


/// Sorting gives the same strings, in increasing order.
pub proof fn law_sorted_strings(s: Seq<Seq<char>>)
    ensures
        sorted_by(sorted_strings(s), le_rel()),
        sorted_strings(s).to_multiset() == s.to_multiset(),
{
    lemma_le_total_ordering();
    s.lemma_sort_by_ensures(le_rel());
}

} // verus!
