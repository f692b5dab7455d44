//! Versions that a work directory pins in its version files: the lines of
//! `.tool-versions`, and `.{tool}-version` files.
use vstd::prelude::*;

use crate::text::{
    from_chars, has_prefix, is_ascii_digit, lines, push_str, split_lines, split_words, starts_with,
    to_chars, to_lowercase, trim, trim_chars, unicode_lowercase, views, words,
};

verus! {

/// A word made of digits and dots that begins with a digit.
pub open spec fn is_plain_version(p: Seq<char>) -> bool {
    p.len() > 0 && is_ascii_digit(p[0]) && forall|i: int|
        0 <= i < p.len() ==> is_ascii_digit(#[trigger] p[i]) || p[i] == '.'
}

/// The first plain version among `ws[k..]`.
pub open spec fn first_plain_version(ws: Seq<Seq<char>>, k: int) -> Option<Seq<char>>
    decreases ws.len() - k,
{
    if k < 0 || k >= ws.len() {
        None
    } else if is_plain_version(ws[k]) {
        Some(ws[k])
    } else {
        first_plain_version(ws, k + 1)
    }
}

/// The version that the lines `ls[i..]` of a `.tool-versions` file give for
/// `tool`: on the first line that begins with the tool's name (once
/// trimmed) and has a plain version after its first word, that version.
pub open spec fn tool_versions_from(ls: Seq<Seq<char>>, i: int, tool: Seq<char>) -> Option<Seq<char>>
    decreases ls.len() - i,
{
    if i < 0 || i >= ls.len() {
        None
    } else {
        let l = trim(ls[i]);
        if has_prefix(l, tool) && first_plain_version(words(l), 1) is Some {
            first_plain_version(words(l), 1)
        } else {
            tool_versions_from(ls, i + 1, tool)
        }
    }
}

/// The version a `.tool-versions` file gives for a tool, whose name is
/// compared in lowercase.
pub open spec fn tool_versions_version(contents: Seq<char>, tool_name: Seq<char>) -> Option<Seq<char>> {
    tool_versions_from(lines(contents), 0, unicode_lowercase(tool_name))
}

fn plain_version(p: &Vec<char>) -> (r: bool)
    ensures
        r == is_plain_version(p@),
{
    if p.len() == 0 {
        return false;
    }
    if !(p[0] >= '0' && p[0] <= '9') {
        return false;
    }
    let mut i: usize = 0;
    while i < p.len()
        invariant
            i <= p@.len(),
            forall|k: int| 0 <= k < i ==> is_ascii_digit(#[trigger] p@[k]) || p@[k] == '.',
        decreases p.len() - i,
    {
        if !((p[i] >= '0' && p[i] <= '9') || p[i] == '.') {
            return false;
        }
        i = i + 1;
    }
    true
}

/// Reads the version of `tool_name` from the contents of a `.tool-versions`
/// file (see `tool_versions_version`).
#[verifier::loop_isolation(false)]
pub fn version_from_tool_versions(contents: &str, tool_name: &str) -> (r: Option<String>)
    ensures
        match tool_versions_version(contents@, tool_name@) {
            Some(v) => r matches Some(s) && s@ == v,
            None => r is None,
        },
{
    let tool = to_chars(to_lowercase(tool_name).as_str());
    let ls = split_lines(&to_chars(contents));
    let ghost lv = views(ls@);
    let mut i: usize = 0;
    while i < ls.len()
        invariant
            i <= ls@.len(),
            lv == views(ls@),
            lv == lines(contents@),
            tool@ == unicode_lowercase(tool_name@),
            tool_versions_from(lv, 0, tool@) == tool_versions_from(lv, i as int, tool@),
        decreases ls.len() - i,
    {
        let l = trim_chars(&ls[i]);
        if starts_with(&l, &tool) {
            let ws = split_words(&l);
            let mut k: usize = 1;
            while k < ws.len()
                invariant
                    1 <= k,
                    views(ws@) == words(l@),
                    first_plain_version(views(ws@), 1) == first_plain_version(views(ws@), k as int),
                decreases ws.len() - k,
            {
                if plain_version(&ws[k]) {
                    return Some(from_chars(ws[k].as_slice()));
                }
                k = k + 1;
            }
        }
        i = i + 1;
    }
    None
}

/// The prefixes of the `.{prefix}-version` files that may hold a tool's
/// version: `go_alias` (the name under which Go is known) looks in both
/// `.go-version` and `.golang-version`, `node` in `.node-version` and
/// `.nodejs-version`, any other tool in its own.
pub open spec fn version_file_prefixes(tool: Seq<char>, go_alias: Seq<char>) -> Seq<Seq<char>> {
    if tool == go_alias {
        seq!["go"@, "golang"@]
    } else if tool == "node"@ {
        seq!["node"@, "nodejs"@]
    } else {
        seq![tool]
    }
}

/// The names of a tool's version files, in the order they are looked at;
/// the tool's name is taken in lowercase.
pub open spec fn version_file_names_of(tool_name: Seq<char>, go_alias: Seq<char>) -> Seq<Seq<char>> {
    let ps = version_file_prefixes(unicode_lowercase(tool_name), go_alias);
    Seq::new(ps.len(), |k: int| "."@ + ps[k] + "-version"@)
}

fn file_name(prefix: &str) -> (r: String)
    ensures
        r@ == "."@ + prefix@ + "-version"@,
{
    let mut out = to_chars(".");
    push_str(&mut out, prefix);
    push_str(&mut out, "-version");
    from_chars(out.as_slice())
}

/// The names of the version files of `tool_name`.
pub fn version_file_names(tool_name: &str, go_alias: &str) -> (r: Vec<String>)
    ensures
        Seq::new(r@.len(), |k: int| r@[k]@) == version_file_names_of(tool_name@, go_alias@),
{
    let tool = to_lowercase(tool_name);
    let t = to_chars(tool.as_str());
    let mut r: Vec<String> = Vec::new();
    if crate::text::chars_eq(&t, &to_chars(go_alias)) {
        r.push(file_name("go"));
        r.push(file_name("golang"));
    } else if crate::text::chars_eq(&t, &to_chars("node")) {
        r.push(file_name("node"));
        r.push(file_name("nodejs"));
    } else {
        r.push(file_name(tool.as_str()));
    }
    assert(Seq::new(r@.len(), |k: int| r@[k]@) =~= version_file_names_of(tool_name@, go_alias@));
    r
}

/// The version a `.{tool}-version` file holds: its trimmed contents, when
/// not empty.
pub fn version_from_version_file(contents: &str) -> (r: Option<String>)
    ensures
        trim(contents@).len() == 0 ==> r is None,
        trim(contents@).len() > 0 ==> (r matches Some(s) && s@ == trim(contents@)),
{
    let t = trim_chars(&to_chars(contents));
    if t.len() == 0 {
        None
    } else {
        Some(from_chars(t.as_slice()))
    }
}

} // verus!
