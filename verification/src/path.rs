//! Unix paths seen as sequences of components, as `std::path::Path` reads
//! them: the root is the component `/`, a leading `.` is kept as `.`,
//! empty and `.` components elsewhere are dropped.
use normalize_path::NormalizePath;
use vstd::prelude::*;

use crate::text::{chars_eq, join, split, split_char, views};

verus! {

/// Whether a piece between separators is dropped from the components.
pub open spec fn skipped_part(p: Seq<char>) -> bool {
    p.len() == 0 || p == seq!['.']
}

/// The pieces of `ps` that are real components, in order.
pub open spec fn path_parts(ps: Seq<Seq<char>>) -> Seq<Seq<char>>
    decreases ps.len(),
{
    if ps.len() == 0 {
        ps
    } else if skipped_part(ps.last()) {
        path_parts(ps.drop_last())
    } else {
        path_parts(ps.drop_last()).push(ps.last())
    }
}

/// The components of the path `s`.
pub open spec fn components(s: Seq<char>) -> Seq<Seq<char>> {
    let parts = split(s, '/');
    if s.len() > 0 && s[0] == '/' {
        seq![seq!['/']] + path_parts(parts.drop_first())
    } else if parts[0] == seq!['.'] {
        seq![seq!['.']] + path_parts(parts.drop_first())
    } else {
        path_parts(parts)
    }
}

/// The components of `path` that follow those of `base`, when `base`'s
/// components begin `path`'s.
pub open spec fn strip_components(path: Seq<Seq<char>>, base: Seq<Seq<char>>) -> Option<Seq<Seq<char>>> {
    if base.len() <= path.len() && path.subrange(0, base.len() as int) == base {
        Some(path.subrange(base.len() as int, path.len() as int))
    } else {
        None
    }
}

/// Relative components written back as a path.
pub open spec fn relative_text(comps: Seq<Seq<char>>) -> Seq<char> {
    join(comps, seq!['/'])
}

fn is_skipped(p: &Vec<char>) -> (r: bool)
    ensures
        r == skipped_part(p@),
{
    let dot = vec!['.'];
    assert(dot@ =~= seq!['.']);
    p.len() == 0 || chars_eq(p, &dot)
}

fn keep_parts(v: &Vec<Vec<char>>, from: usize) -> (r: Vec<Vec<char>>)
    requires
        from <= v@.len(),
    ensures
        views(r@) == path_parts(views(v@).subrange(from as int, v@.len() as int)),
{
    let mut r: Vec<Vec<char>> = Vec::new();
    let n = v.len();
    let mut i: usize = from;
    assert(views(v@).subrange(from as int, from as int) =~= Seq::<Seq<char>>::empty());
    while i < n
        invariant
            n == v@.len(),
            from <= i <= n,
            views(r@) == path_parts(views(v@).subrange(from as int, i as int)),
        decreases n - i,
    {
        let ghost before = views(r@);
        assert(views(v@).subrange(from as int, i + 1).drop_last() =~= views(v@).subrange(
            from as int,
            i as int,
        ));
        if !is_skipped(&v[i]) {
            r.push(v[i].clone());
            assert(views(r@) =~= before.push(views(v@)[i as int]));
        }
        i = i + 1;
    }
    r
}

/// The components of a path.
pub fn path_components(s: &Vec<char>) -> (r: Vec<Vec<char>>)
    ensures
        views(r@) == components(s@),
{
    let parts = split_char(s, '/');
    proof {
        crate::cargo_install::lemma_split_nonempty(s@, '/');
    }
    assert(views(parts@).subrange(1, parts@.len() as int) =~= views(parts@).drop_first());
    assert(views(parts@).subrange(0, parts@.len() as int) =~= views(parts@));
    if s.len() > 0 && s[0] == '/' {
        let mut r: Vec<Vec<char>> = Vec::new();
        let slash = vec!['/'];
        assert(slash@ =~= seq!['/']);
        r.push(slash);
        let rest = keep_parts(&parts, 1);
        let ghost head = views(r@);
        assert(head =~= seq![seq!['/']]);
        let mut i: usize = 0;
        while i < rest.len()
            invariant
                i <= rest@.len(),
                views(r@) == head + views(rest@).subrange(0, i as int),
            decreases rest.len() - i,
        {
            let ghost before = views(r@);
            r.push(rest[i].clone());
            assert(views(r@) =~= before.push(views(rest@)[i as int]));
            assert(views(r@) =~= head + views(rest@).subrange(0, i + 1));
            i = i + 1;
        }
        assert(views(rest@).subrange(0, rest@.len() as int) =~= views(rest@));
        r
    } else if is_dot(&parts[0]) {
        let mut r: Vec<Vec<char>> = Vec::new();
        let dot = vec!['.'];
        assert(dot@ =~= seq!['.']);
        r.push(dot);
        let rest = keep_parts(&parts, 1);
        let ghost head = views(r@);
        assert(head =~= seq![seq!['.']]);
        let mut i: usize = 0;
        while i < rest.len()
            invariant
                i <= rest@.len(),
                views(r@) == head + views(rest@).subrange(0, i as int),
            decreases rest.len() - i,
        {
            let ghost before = views(r@);
            r.push(rest[i].clone());
            assert(views(r@) =~= before.push(views(rest@)[i as int]));
            assert(views(r@) =~= head + views(rest@).subrange(0, i + 1));
            i = i + 1;
        }
        assert(views(rest@).subrange(0, rest@.len() as int) =~= views(rest@));
        r
    } else {
        keep_parts(&parts, 0)
    }
}

fn is_dot(p: &Vec<char>) -> (r: bool)
    ensures
        r == (p@ == seq!['.']),
{
    let dot = vec!['.'];
    assert(dot@ =~= seq!['.']);
    chars_eq(p, &dot)
}

/// The components of `path` after those of `base`, if `base`'s begin it.
pub fn strip_path_components(path: &Vec<Vec<char>>, base: &Vec<Vec<char>>) -> (r: Option<Vec<Vec<char>>>)
    ensures
        match strip_components(views(path@), views(base@)) {
            Some(rest) => r matches Some(v) && views(v@) == rest,
            None => r is None,
        },
{
    if base.len() > path.len() {
        return None;
    }
    let mut i: usize = 0;
    while i < base.len()
        invariant
            base@.len() <= path@.len(),
            i <= base@.len(),
            views(path@).subrange(0, i as int) == views(base@).subrange(0, i as int),
        decreases base.len() - i,
    {
        if !chars_eq(&path[i], &base[i]) {
            assert(views(path@).subrange(0, base@.len() as int)[i as int] != views(base@)[i as int]);
            return None;
        }
        assert(views(path@).subrange(0, i + 1) =~= views(base@).subrange(0, i + 1));
        i = i + 1;
    }
    assert(views(base@).subrange(0, base@.len() as int) =~= views(base@));
    let mut rest: Vec<Vec<char>> = Vec::new();
    let mut j: usize = base.len();
    while j < path.len()
        invariant
            base@.len() <= j <= path@.len(),
            views(rest@) == views(path@).subrange(base@.len() as int, j as int),
        decreases path.len() - j,
    {
        let ghost before = views(rest@);
        rest.push(path[j].clone());
        assert(views(rest@) =~= before.push(views(path@)[j as int]));
        assert(views(rest@) =~= views(path@).subrange(base@.len() as int, j + 1));
        j = j + 1;
    }
    Some(rest)
}

/// The components of `p` below `base`, if `p` lies below `base` (as
/// `Path::strip_prefix` then `components` find them).
pub open spec fn relative_parts_of(base: Seq<char>, p: Seq<char>) -> Option<Seq<Seq<char>>> {
    strip_components(components(p), components(base))
}

/// Finds the components of `p` below `base` (see `relative_parts_of`).
pub fn relative_parts(base: &str, p: &str) -> (r: Option<Vec<Vec<char>>>)
    ensures
        match relative_parts_of(base@, p@) {
            Some(rest) => r matches Some(v) && views(v@) == rest,
            None => r is None,
        },
{
    let pc = path_components(&crate::text::to_chars(p));
    let bc = path_components(&crate::text::to_chars(base));
    strip_path_components(&pc, &bc)
}

/// The text of the path that `normalize_path::NormalizePath::normalize`
/// gives for the path `s`.
pub uninterp spec fn normalized_path(s: Seq<char>) -> Seq<char>;

/// `Path::new(s).normalize()` of the normalize-path crate, read back as
/// text: the path with `.` dropped and `..` folded into what comes before
/// it (what it gives is named, not spelled out).
#[verifier::external_body]
pub(crate) fn normalize_path_text(s: &str) -> (r: String)
    ensures
        r@ == normalized_path(s@),
{
    std::path::Path::new(s).normalize().to_string_lossy().to_string()
}

} // verus!
