//! The versions of a tool that the directories of a work directory ask
//! for: each version once, in increasing order, with the directories that
//! ask for it, each once, in increasing order.
use vstd::prelude::*;

use crate::order::{lemma_seq_lt_irreflexive, lemma_seq_lt_total, lemma_seq_lt_transitive, string_seq};
use crate::path::{components, path_components};
use crate::text::{append, chars_eq, chars_lt, from_chars, join, join_chars, push_str, seq_lt, to_chars, views};

verus! {

/// Strings in strictly increasing order.
pub open spec fn strictly_sorted(s: Seq<Seq<char>>) -> bool {
    forall|i: int, j: int| 0 <= i < j < s.len() ==> seq_lt(#[trigger] s[i], #[trigger] s[j])
}

/// Inserting `x` at `i` keeps strings strictly increasing when the strings
/// before `i` come before `x` and the one at `i` comes after it.
pub proof fn lemma_insert_keeps_sorted(s: Seq<Seq<char>>, i: int, x: Seq<char>)
    requires
        strictly_sorted(s),
        0 <= i <= s.len(),
        forall|k: int| 0 <= k < i ==> seq_lt(#[trigger] s[k], x),
        i < s.len() ==> seq_lt(x, s[i]),
    ensures
        strictly_sorted(s.insert(i, x)),
{
    let t = s.insert(i, x);
    assert forall|a: int, b: int| 0 <= a < b < t.len() implies seq_lt(#[trigger] t[a], #[trigger] t[b]) by {
        if b < i {
            assert(t[a] == s[a] && t[b] == s[b]);
        } else if b == i {
            assert(t[a] == s[a] && t[b] == x);
        } else if a < i {
            assert(t[a] == s[a] && t[b] == s[b - 1]);
        } else if a == i {
            assert(t[a] == x && t[b] == s[b - 1]);
            if b - 1 > i {
                lemma_seq_lt_transitive(x, s[i], s[b - 1]);
            }
        } else {
            assert(t[a] == s[a - 1] && t[b] == s[b - 1]);
        }
    }
}

fn str_lt(a: &String, b: &String) -> (r: bool)
    ensures
        r == seq_lt(a@, b@),
{
    chars_lt(&to_chars(a.as_str()), &to_chars(b.as_str()))
}

/// The first index among the increasing strings `v` whose string does not
/// come before `x`.
fn position(v: &Vec<String>, x: &String) -> (i: usize)
    requires
        strictly_sorted(string_seq(v@)),
    ensures
        i <= v@.len(),
        forall|k: int| 0 <= k < i ==> seq_lt(#[trigger] v@[k]@, x@),
        i < v@.len() ==> !seq_lt(v@[i as int]@, x@),
{
    let mut i: usize = 0;
    while i < v.len()
        invariant
            i <= v@.len(),
            forall|k: int| 0 <= k < i ==> seq_lt(#[trigger] v@[k]@, x@),
        decreases v.len() - i,
    {
        if !str_lt(&v[i], x) {
            return i;
        }
        i = i + 1;
    }
    i
}

/// Adds `x` to the strictly increasing strings `v`, where it belongs,
/// unless it is there already.
pub fn insert_sorted(v: &mut Vec<String>, x: String)
    requires
        strictly_sorted(string_seq(old(v)@)),
    ensures
        strictly_sorted(string_seq(final(v)@)),
        forall|y: Seq<char>| #[trigger] string_seq(final(v)@).contains(y) <==> (string_seq(old(v)@).contains(y) || y == x@),
{
    let ghost s = string_seq(v@);
    let i = position(v, &x);
    if i < v.len() && !str_lt(&x, &v[i]) {
        proof {
            lemma_seq_lt_total(v@[i as int]@, x@);
            assert(s[i as int] == x@);
        }
        return;
    }
    proof {
        assert forall|k: int| 0 <= k < i implies seq_lt(#[trigger] s[k], x@) by {
            assert(s[k] == v@[k]@);
        }
        lemma_insert_keeps_sorted(s, i as int, x@);
    }
    let ghost xv = x@;
    v.insert(i, x);
    assert(string_seq(v@) =~= s.insert(i as int, xv));
    proof {
        let t = s.insert(i as int, xv);
        assert forall|y: Seq<char>| #[trigger] t.contains(y) <==> (s.contains(y) || y == xv) by {
            if t.contains(y) {
                let j = choose|j: int| 0 <= j < t.len() && t[j] == y;
                if j < i {
                    assert(s[j] == y);
                } else if j > i {
                    assert(s[j - 1] == y);
                }
            }
            if s.contains(y) {
                let j = choose|j: int| 0 <= j < s.len() && s[j] == y;
                if j < i {
                    assert(t[j] == y);
                } else {
                    assert(t[j + 1] == y);
                }
            }
            if y == xv {
                assert(t[i as int] == y);
            }
        }
    }
}

/// The versions found, each with the directories that ask for it.
#[derive(Debug, Clone)]
pub struct DetectedVersions {
    pub entries: Vec<(String, Vec<String>)>,
}

/// The versions of `e`, in order.
pub open spec fn keys_of(e: Seq<(String, Vec<String>)>) -> Seq<Seq<char>> {
    Seq::new(e.len(), |k: int| e[k].0@)
}

/// Whether `e` says that the directory `d` asks for the version `v`.
pub open spec fn asks_for(e: Seq<(String, Vec<String>)>, v: Seq<char>, d: Seq<char>) -> bool {
    exists|i: int| 0 <= i < e.len() && e[i].0@ == v && #[trigger] string_seq(e[i].1@).contains(d)
}

/// The first index among the entries, in increasing order of version,
/// whose version does not come before `x`.
fn key_position(entries: &Vec<(String, Vec<String>)>, x: &String) -> (i: usize)
    ensures
        i <= entries@.len(),
        forall|k: int| 0 <= k < i ==> seq_lt(#[trigger] entries@[k].0@, x@),
        i < entries@.len() ==> !seq_lt(entries@[i as int].0@, x@),
{
    let mut i: usize = 0;
    while i < entries.len()
        invariant
            i <= entries@.len(),
            forall|k: int| 0 <= k < i ==> seq_lt(#[trigger] entries@[k].0@, x@),
        decreases entries.len() - i,
    {
        if !str_lt(&entries[i].0, x) {
            return i;
        }
        i = i + 1;
    }
    i
}

impl DetectedVersions {
    /// The versions are strictly increasing, and so are the directories of
    /// each.
    pub open spec fn wf(&self) -> bool {
        &&& strictly_sorted(keys_of(self.entries@))
        &&& forall|k: int| 0 <= k < self.entries@.len() ==> strictly_sorted(string_seq(#[trigger] self.entries@[k].1@))
    }

    /// No version found yet.
    pub fn new() -> (r: DetectedVersions)
        ensures
            r.wf(),
            r.entries@.len() == 0,
    {
        DetectedVersions { entries: Vec::new() }
    }

    /// Whether no version was found.
    pub fn is_empty(&self) -> (r: bool)
        ensures
            r == (self.entries@.len() == 0),
    {
        self.entries.len() == 0
    }

    /// Records that the directory `dir` asks for `version`.
    pub fn insert(&mut self, version: String, dir: String)
        requires
            old(self).wf(),
        ensures
            final(self).wf(),
            forall|v: Seq<char>| #[trigger] keys_of(final(self).entries@).contains(v) <==> (keys_of(
                old(self).entries@,
            ).contains(v) || v == version@),
            forall|v: Seq<char>, d: Seq<char>|
                #[trigger] asks_for(final(self).entries@, v, d) <==> (asks_for(old(self).entries@, v, d) || (v
                    == version@ && d == dir@)),
    {
        let ghost e = self.entries@;
        let ghost ks = keys_of(e);
        let ghost vv = version@;
        let ghost dv = dir@;
        let i = key_position(&self.entries, &version);
        if i < self.entries.len() && !str_lt(&version, &self.entries[i].0) {
            proof {
                lemma_seq_lt_total(e[i as int].0@, vv);
            }
            let (k, mut ds) = self.entries.remove(i);
            assert(k == e[i as int].0 && ds == e[i as int].1);
            let ghost old_ds = string_seq(ds@);
            insert_sorted(&mut ds, dir);
            let ghost new_entry = (k, ds);
            assert(forall|y: Seq<char>| #[trigger] string_seq(new_entry.1@).contains(y) <==> (old_ds.contains(y) || y == dv));
            self.entries.insert(i, (k, ds));
            let ghost f = self.entries@;
            assert(f =~= e.update(i as int, new_entry));
            assert(keys_of(f) =~= ks);
            proof {
                assert(ks[i as int] == vv);
                assert(ks.contains(vv));
                assert forall|v: Seq<char>, d: Seq<char>|
                    #[trigger] asks_for(f, v, d) <==> (asks_for(e, v, d) || (v == vv && d == dv)) by {
                    if asks_for(f, v, d) {
                        let j = choose|j: int| 0 <= j < f.len() && f[j].0@ == v && #[trigger] string_seq(f[j].1@).contains(d);
                        if j != i {
                            assert(e[j] == f[j]);
                        } else {
                            assert(f[j] == new_entry);
                            assert(string_seq(new_entry.1@).contains(d));
                            if d != dv {
                                assert(old_ds.contains(d));
                                assert(string_seq(e[j].1@).contains(d));
                            }
                        }
                    }
                    if asks_for(e, v, d) {
                        let j = choose|j: int| 0 <= j < e.len() && e[j].0@ == v && #[trigger] string_seq(e[j].1@).contains(d);
                        if j != i {
                            assert(e[j] == f[j]);
                        } else {
                            assert(f[j] == new_entry);
                            assert(old_ds.contains(d));
                            assert(string_seq(new_entry.1@).contains(d));
                        }
                    }
                    if v == vv && d == dv {
                        assert(f[i as int] == new_entry);
                        assert(string_seq(new_entry.1@).contains(d));
                    }
                }
                assert forall|k: int| 0 <= k < f.len() implies strictly_sorted(string_seq(#[trigger] f[k].1@)) by {
                    if k != i {
                        assert(f[k] == e[k]);
                    }
                }
            }
        } else {
            let mut ds: Vec<String> = Vec::new();
            ds.push(dir);
            proof {
                lemma_insert_keeps_sorted(ks, i as int, vv);
                assert(string_seq(ds@) =~= seq![dv]);
            }
            let ghost new_entry = (version, ds);
            self.entries.insert(i, (version, ds));
            let ghost f = self.entries@;
            assert(f =~= e.insert(i as int, new_entry));
            assert(keys_of(f) =~= ks.insert(i as int, vv));
            proof {
                assert forall|v: Seq<char>| #[trigger] keys_of(f).contains(v) <==> (ks.contains(v) || v == vv) by {
                    let t = ks.insert(i as int, vv);
                    if t.contains(v) {
                        let j = choose|j: int| 0 <= j < t.len() && t[j] == v;
                        if j < i {
                            assert(ks[j] == v);
                        } else if j > i {
                            assert(ks[j - 1] == v);
                        }
                    }
                    if ks.contains(v) {
                        let j = choose|j: int| 0 <= j < ks.len() && ks[j] == v;
                        if j < i {
                            assert(t[j] == v);
                        } else {
                            assert(t[j + 1] == v);
                        }
                    }
                    if v == vv {
                        assert(t[i as int] == v);
                    }
                }
                assert forall|v: Seq<char>, d: Seq<char>|
                    #[trigger] asks_for(f, v, d) <==> (asks_for(e, v, d) || (v == vv && d == dv)) by {
                    if asks_for(f, v, d) {
                        let j = choose|j: int| 0 <= j < f.len() && f[j].0@ == v && #[trigger] string_seq(f[j].1@).contains(d);
                        if j < i {
                            assert(e[j] == f[j]);
                        } else if j > i {
                            assert(e[j - 1] == f[j]);
                        } else {
                            assert(string_seq(f[j].1@)[0] == dv);
                        }
                    }
                    if asks_for(e, v, d) {
                        let j = choose|j: int| 0 <= j < e.len() && e[j].0@ == v && #[trigger] string_seq(e[j].1@).contains(d);
                        if j < i {
                            assert(e[j] == f[j]);
                        } else {
                            assert(e[j] == f[j + 1]);
                        }
                    }
                    if v == vv && d == dv {
                        assert(string_seq(f[i as int].1@)[0] == dv);
                        assert(string_seq(f[i as int].1@).contains(d));
                    }
                }
                assert forall|k: int| 0 <= k < f.len() implies strictly_sorted(string_seq(#[trigger] f[k].1@)) by {
                    if k < i {
                        assert(f[k] == e[k]);
                    } else if k > i {
                        assert(f[k] == e[k - 1]);
                    }
                }
            }
        }
    }
}

/// `s` without the `c`s it starts with.
pub open spec fn drop_leading(s: Seq<char>, c: char) -> Seq<char>
    decreases s.len(),
{
    if s.len() > 0 && s[0] == c {
        drop_leading(s.drop_first(), c)
    } else {
        s
    }
}

/// `s` without the `c`s it ends with.
pub open spec fn drop_trailing(s: Seq<char>, c: char) -> Seq<char>
    decreases s.len(),
{
    if s.len() > 0 && s.last() == c {
        drop_trailing(s.drop_last(), c)
    } else {
        s
    }
}

fn drop_leading_exec(s: &Vec<char>, c: char) -> (r: Vec<char>)
    ensures
        r@ == drop_leading(s@, c),
{
    let mut i: usize = 0;
    assert(s@.subrange(0, s@.len() as int) =~= s@);
    while i < s.len() && s[i] == c
        invariant
            i <= s@.len(),
            drop_leading(s@, c) == drop_leading(s@.subrange(i as int, s@.len() as int), c),
        decreases s.len() - i,
    {
        assert(s@.subrange(i as int, s@.len() as int).drop_first() =~= s@.subrange(i + 1, s@.len() as int));
        i = i + 1;
    }
    crate::text::slice(s, i, s.len())
}

fn drop_trailing_exec(s: &Vec<char>, c: char) -> (r: Vec<char>)
    ensures
        r@ == drop_trailing(s@, c),
{
    let mut j: usize = s.len();
    assert(s@.subrange(0, s@.len() as int) =~= s@);
    while j > 0 && s[j - 1] == c
        invariant
            j <= s@.len(),
            drop_trailing(s@, c) == drop_trailing(s@.subrange(0, j as int), c),
        decreases j,
    {
        assert(s@.subrange(0, j as int).drop_last() =~= s@.subrange(0, j - 1));
        j = j - 1;
    }
    crate::text::slice(s, 0, j)
}

/// Where a search starts: the directory, without leading `/`, so that it
/// stays inside the work directory.
pub fn search_dir(dir: &str) -> (r: String)
    ensures
        r@ == drop_leading(dir@, '/'),
{
    from_chars(drop_leading_exec(&to_chars(dir), '/').as_slice())
}

/// The directories to search: those configured, or the work directory
/// itself (the empty path) when none is, each without leading `/`.
pub fn search_dirs(dirs: &Vec<String>) -> (r: Vec<String>)
    ensures
        string_seq(r@) == if dirs@.len() == 0 {
            seq![Seq::<char>::empty()]
        } else {
            Seq::new(dirs@.len(), |k: int| drop_leading(dirs@[k]@, '/'))
        },
{
    let mut r: Vec<String> = Vec::new();
    if dirs.len() == 0 {
        r.push(String::new());
        assert(string_seq(r@) =~= seq![Seq::<char>::empty()]);
        return r;
    }
    let mut i: usize = 0;
    while i < dirs.len()
        invariant
            i <= dirs@.len(),
            string_seq(r@) == Seq::new(i as nat, |k: int| drop_leading(dirs@[k]@, '/')),
        decreases dirs.len() - i,
    {
        let ghost before = string_seq(r@);
        let d = search_dir(dirs[i].as_str());
        r.push(d);
        assert(string_seq(r@) =~= before.push(drop_leading(dirs@[i as int]@, '/')));
        assert(string_seq(r@) =~= Seq::new((i + 1) as nat, |k: int| drop_leading(dirs@[k]@, '/')));
        i = i + 1;
    }
    r
}

/// The directory, relative to the work directory, in which a version was
/// found: without leading or trailing `/`.
pub fn detected_dir(rel: &str) -> (r: String)
    ensures
        r@ == drop_trailing(drop_leading(rel@, '/'), '/'),
{
    let lead = drop_leading_exec(&to_chars(rel), '/');
    from_chars(drop_trailing_exec(&lead, '/').as_slice())
}

/// `text` without the `c`s it starts or ends with.
pub fn trim_matches_char(text: &str, c: char) -> (r: String)
    ensures
        r@ == drop_trailing(drop_leading(text@, c), c),
{
    let lead = drop_leading_exec(&to_chars(text), c);
    from_chars(drop_trailing_exec(&lead, c).as_slice())
}

/// What is reported when a directory asks for a version: `at root` for
/// the work directory itself, else `in` and the directory.
pub fn detection_message(version: &str, dir: &str) -> (r: String)
    ensures
        r@ == "detected required version "@ + version@ + if dir@.len() == 0 {
            " at root"@
        } else {
            " in "@ + dir@
        },
{
    let mut out = to_chars("detected required version ");
    push_str(&mut out, version);
    if dir.unicode_len() == 0 {
        push_str(&mut out, " at root");
    } else {
        push_str(&mut out, " in ");
        push_str(&mut out, dir);
    }
    from_chars(out.as_slice())
}

/// Whether a path, relative to where a search started, goes through a
/// `vendor` directory.
pub open spec fn in_vendor(rel: Seq<char>) -> bool {
    components(rel).contains("vendor"@)
}

/// Whether a path, relative to where a search started, goes through a
/// `vendor` directory (see `in_vendor`).
pub fn is_in_vendor(rel: &str) -> (r: bool)
    ensures
        r == in_vendor(rel@),
{
    let comps = path_components(&to_chars(rel));
    assert(views(comps@) == components(rel@));
    let vendor = to_chars("vendor");
    let mut i: usize = 0;
    while i < comps.len()
        invariant
            i <= comps@.len(),
            vendor@ == "vendor"@,
            views(comps@) == components(rel@),
            forall|k: int| 0 <= k < i ==> views(comps@)[k] != "vendor"@,
        decreases comps.len() - i,
    {
        if chars_eq(&comps[i], &vendor) {
            assert(views(comps@)[i as int] == "vendor"@);
            assert(0 <= i < views(comps@).len() && views(comps@)[i as int] == "vendor"@);
            assert(views(comps@).contains("vendor"@));
            return true;
        }
        i = i + 1;
    }
    assert(!views(comps@).contains("vendor"@));
    false
}

/// What an automatic run reports: the versions installed and those
/// already there, each list after the tool's name, joined with `, `.
pub open spec fn auto_up_message(tool: Seq<char>, installed: Seq<Seq<char>>, already: Seq<Seq<char>>) -> Seq<char> {
    let msgs = (if installed.len() > 0 {
        seq![tool + " "@ + join(installed, ", "@) + " installed"@]
    } else {
        Seq::empty()
    }) + (if already.len() > 0 {
        seq![tool + " "@ + join(already, ", "@) + " already installed"@]
    } else {
        Seq::empty()
    });
    join(msgs, ", "@)
}

fn string_chars(v: &Vec<String>) -> (r: Vec<Vec<char>>)
    ensures
        views(r@) == string_seq(v@),
{
    let mut r: Vec<Vec<char>> = Vec::new();
    let mut i: usize = 0;
    while i < v.len()
        invariant
            i <= v@.len(),
            views(r@) == string_seq(v@).subrange(0, i as int),
        decreases v.len() - i,
    {
        let ghost before = views(r@);
        r.push(to_chars(v[i].as_str()));
        assert(views(r@) =~= before.push(v@[i as int]@));
        assert(views(r@) =~= string_seq(v@).subrange(0, i + 1));
        i = i + 1;
    }
    assert(string_seq(v@).subrange(0, i as int) =~= string_seq(v@));
    r
}

fn versions_line(tool: &str, versions: &Vec<String>, what: &str) -> (r: Vec<char>)
    ensures
        r@ == tool@ + " "@ + join(string_seq(versions@), ", "@) + what@,
{
    let mut out = to_chars(tool);
    push_str(&mut out, " ");
    append(&mut out, &join_chars(&string_chars(versions), &to_chars(", ")));
    push_str(&mut out, what);
    out
}

/// Builds what an automatic run reports (see `auto_up_message`).
pub fn auto_up_text(tool: &str, installed: &Vec<String>, already: &Vec<String>) -> (r: String)
    ensures
        r@ == auto_up_message(tool@, string_seq(installed@), string_seq(already@)),
{
    let mut msgs: Vec<Vec<char>> = Vec::new();
    if installed.len() > 0 {
        msgs.push(versions_line(tool, installed, " installed"));
    }
    if already.len() > 0 {
        msgs.push(versions_line(tool, already, " already installed"));
    }
    let ghost expected = (if installed@.len() > 0 {
        seq![tool@ + " "@ + join(string_seq(installed@), ", "@) + " installed"@]
    } else {
        Seq::empty()
    }) + (if already@.len() > 0 {
        seq![tool@ + " "@ + join(string_seq(already@), ", "@) + " already installed"@]
    } else {
        Seq::empty()
    });
    assert(views(msgs@) =~= expected);
    from_chars(join_chars(&msgs, &to_chars(", ")).as_slice())
}

/// What a run for one version reports: that it was installed, or that it
/// was already there.
pub fn up_text(tool: &str, version: &str, installed: bool) -> (r: String)
    ensures
        r@ == tool@ + " "@ + version@ + if installed {
            " installed"@
        } else {
            " already installed"@
        },
{
    let mut out = to_chars(tool);
    push_str(&mut out, " ");
    push_str(&mut out, version);
    if installed {
        push_str(&mut out, " installed");
    } else {
        push_str(&mut out, " already installed");
    }
    from_chars(out.as_slice())
}

} // verus!
