//! Version-string validation and identifier helpers.

use vstd::prelude::*;
use crate::text::{starts_with, ends_with, occurs_at_exec, contains, contains_exec, chars_of, is_ascii_alnum, is_digit, is_ascii_alpha};

verus! {

pub open spec fn version_char_ok(c: char) -> bool {
    is_ascii_alnum(c) || c == '.' || c == '-' || c == '_' || c == '+'
}

/// Fragments whose presence marks a string as unresolved code.
pub open spec fn looks_like_code(v: Seq<char>) -> bool {
    contains(v, seq!['$', '{']) || contains(v, seq!['l', 'i', 'b', '.'])
        || contains(v, seq!['(']) || contains(v, seq![')'])
        || contains(v, seq!['{']) || contains(v, seq!['}'])
        || contains(v, seq!['s', 'p', 'l', 'i', 't', 'S', 't', 'r', 'i', 'n', 'g'])
}

/// A version string is non-empty, holds no code fragment, has a digit, and
/// uses only alphanumerics and `. - _ +`.
pub open spec fn valid_version(v: Seq<char>) -> bool {
    v.len() > 0
    && !looks_like_code(v)
    && (exists|i: int| 0 <= i < v.len() && is_digit(#[trigger] v[i]))
    && (forall|i: int| 0 <= i < v.len() ==> version_char_ok(#[trigger] v[i]))
}

fn looks_like_code_exec(v: &[char]) -> (r: bool)
    ensures
        r == looks_like_code(v@),
{
    let interp = vec!['$', '{'];
    let lib_call = vec!['l', 'i', 'b', '.'];
    let open_paren = vec!['('];
    let close_paren = vec![')'];
    let open_brace = vec!['{'];
    let close_brace = vec!['}'];
    let split_call = vec!['s', 'p', 'l', 'i', 't', 'S', 't', 'r', 'i', 'n', 'g'];
    assert(interp@ =~= seq!['$', '{']);
    assert(lib_call@ =~= seq!['l', 'i', 'b', '.']);
    assert(open_paren@ =~= seq!['(']);
    assert(close_paren@ =~= seq![')']);
    assert(open_brace@ =~= seq!['{']);
    assert(close_brace@ =~= seq!['}']);
    assert(split_call@ =~= seq!['s', 'p', 'l', 'i', 't', 'S', 't', 'r', 'i', 'n', 'g']);
    contains_exec(v, &interp) || contains_exec(v, &lib_call) || contains_exec(v, &open_paren)
        || contains_exec(v, &close_paren) || contains_exec(v, &open_brace) || contains_exec(v, &close_brace)
        || contains_exec(v, &split_call)
}

/// Whether `version` reads as a real version rather than unresolved code.
pub fn is_valid_version(version: &str) -> (r: bool)
    ensures
        r == valid_version(version@),
{
    let v = chars_of(version);
    is_valid_version_chars(v.as_slice())
}

/// [`is_valid_version`] on a character sequence.
pub fn is_valid_version_chars(v: &[char]) -> (r: bool)
    ensures
        r == valid_version(v@),
{
    if v.len() == 0 || looks_like_code_exec(&v) {
        return false;
    }
    let mut has_digit = false;
    let mut i: usize = 0;
    while i < v.len()
        invariant
            i <= v.len(),
            forall|j: int| 0 <= j < i ==> version_char_ok(#[trigger] v@[j]),
            has_digit == (exists|j: int| 0 <= j < i && is_digit(#[trigger] v@[j])),
        decreases v.len() - i,
    {
        let c = v[i];
        let ok = ('0' <= c && c <= '9') || ('a' <= c && c <= 'z') || ('A' <= c && c <= 'Z')
            || c == '.' || c == '-' || c == '_' || c == '+';
        if !ok {
            return false;
        }
        if '0' <= c && c <= '9' {
            has_digit = true;
        }
        i = i + 1;
    }
    has_digit
}


/// Strings holding an interpolation opener, a parenthesis or brace, or a
/// string-splitting call never validate, whatever digits they hold.
pub proof fn lemma_code_fragments_rejected(v: Seq<char>)
    requires
        contains(v, seq!['$', '{']) || contains(v, seq!['(']) || contains(v, seq![')'])
            || contains(v, seq!['{']) || contains(v, seq!['}'])
            || contains(v, seq!['s', 'p', 'l', 'i', 't', 'S', 't', 'r', 'i', 'n', 'g']),
    ensures
        !valid_version(v),
{
}

/// The pieces of `s` between occurrences of `sep`, as `str::split` gives them.
pub open spec fn split_on(s: Seq<char>, sep: char) -> Seq<Seq<char>>
    decreases s.len(),
{
    if s.len() == 0 {
        seq![Seq::<char>::empty()]
    } else {
        let prev = split_on(s.drop_last(), sep);
        if s.last() == sep {
            prev.push(Seq::<char>::empty())
        } else {
            prev.update(prev.len() - 1, prev.last().push(s.last()))
        }
    }
}

pub proof fn lemma_split_nonempty(s: Seq<char>, sep: char)
    ensures
        split_on(s, sep).len() >= 1,
    decreases s.len(),
{
    if s.len() > 0 {
        lemma_split_nonempty(s.drop_last(), sep);
    }
}

pub open spec fn pkgs_root() -> Seq<char> {
    seq!['p', 'k', 'g', 's']
}

/// Identifier taken from a path `pkgs/<category>/<subcategory>/<name>/...`:
/// the file's parent directory, when the path has at least four segments and
/// starts at the package root.
pub open spec fn attr_from_path(path: Seq<char>) -> Option<Seq<char>> {
    let parts = split_on(path, '/');
    if parts.len() >= 4 && parts[0] == pkgs_root() {
        Some(parts[parts.len() - 2])
    } else {
        None
    }
}

/// Splits `s` at every `sep`.
pub fn split_chars(s: &[char], sep: char) -> (r: Vec<Vec<char>>)
    ensures
        r@.len() == split_on(s@, sep).len(),
        forall|j: int| 0 <= j < r@.len() ==> (#[trigger] r@[j])@ == split_on(s@, sep)[j],
{
    let mut done: Vec<Vec<char>> = Vec::new();
    let mut cur: Vec<char> = Vec::new();
    let mut i: usize = 0;
    proof {
        assert(s@.subrange(0, 0) =~= Seq::<char>::empty());
    }
    while i < s.len()
        invariant
            i <= s.len(),
            split_on(s@.subrange(0, i as int), sep).len() == done@.len() + 1,
            forall|j: int| 0 <= j < done@.len() ==> (#[trigger] done@[j])@ == split_on(s@.subrange(0, i as int), sep)[j],
            cur@ == split_on(s@.subrange(0, i as int), sep).last(),
        decreases s.len() - i,
    {
        let c = s[i];
        proof {
            let t = s@.subrange(0, i + 1);
            assert(t.drop_last() =~= s@.subrange(0, i as int));
            assert(t.last() == c);
        }
        if c == sep {
            done.push(cur);
            cur = Vec::new();
        } else {
            cur.push(c);
        }
        i = i + 1;
    }
    assert(s@.subrange(0, s.len() as int) =~= s@);
    done.push(cur);
    done
}

fn is_pkgs(v: &[char]) -> (r: bool)
    ensures
        r == (v@ == pkgs_root()),
{
    if v.len() != 4 {
        return false;
    }
    let r = v[0] == 'p' && v[1] == 'k' && v[2] == 'g' && v[3] == 's';
    if r {
        assert(v@ =~= pkgs_root());
    }
    r
}

/// The identifier a package path implies: the parent directory of the file.
pub fn path_to_attr_name(path: &str) -> (r: Option<String>)
    ensures
        r matches Some(s) ==> attr_from_path(path@) == Some(s@),
        r is None ==> attr_from_path(path@) is None,
{
    let p = chars_of(path);
    let parts = split_chars(&p, '/');
    let n = parts.len();
    if n >= 4 && is_pkgs(&parts[0]) {
        return Some(crate::text::string_of(&parts[n - 2]));
    }
    None
}

/// The identifier of a package path: the file's parent directory, as
/// [`path_to_attr_name`] gives it.
pub fn extract_attr_name(path: &str) -> (r: Option<String>)
    ensures
        r matches Some(s) ==> attr_from_path(path@) == Some(s@),
        r is None ==> attr_from_path(path@) is None,
{
    path_to_attr_name(path)
}

pub open spec fn name_char_ok(c: char) -> bool {
    is_ascii_alnum(c) || c == '-' || c == '_'
}

/// A plausible attribute name: 1 to 80 characters, starting with a letter or
/// `_`, made of alphanumerics, `-` and `_`.
pub open spec fn package_name_like(name: Seq<char>) -> bool {
    1 <= name.len() <= 80
    && (is_ascii_alpha(name[0]) || name[0] == '_')
    && forall|i: int| 0 <= i < name.len() ==> name_char_ok(#[trigger] name[i])
}

pub fn looks_like_package_name(name: &str) -> (r: bool)
    ensures
        r == package_name_like(name@),
{
    let v = chars_of(name);
    if v.len() == 0 || v.len() > 80 {
        return false;
    }
    let c0 = v[0];
    if !(('a' <= c0 && c0 <= 'z') || ('A' <= c0 && c0 <= 'Z') || c0 == '_') {
        return false;
    }
    let mut i: usize = 0;
    while i < v.len()
        invariant
            i <= v.len(),
            v@ == name@,
            forall|j: int| 0 <= j < i ==> name_char_ok(#[trigger] v@[j]),
        decreases v.len() - i,
    {
        let c = v[i];
        if !(('0' <= c && c <= '9') || ('a' <= c && c <= 'z') || ('A' <= c && c <= 'Z') || c == '-' || c == '_') {
            return false;
        }
        i = i + 1;
    }
    true
}


/// How a file changed in a revision relative to its parent.
#[derive(Debug, Clone, Copy, PartialEq, Eq)]
pub enum ChangeKind {
    Added,
    Modified,
    Deleted,
    Other,
}

/// A declaration file of the package tree: under `pkgs/`, ending in `.nix`.
pub open spec fn package_file(path: Seq<char>) -> bool {
    starts_with(path, "pkgs/"@) && ends_with(path, ".nix"@)
}

pub fn is_package_file(path: &str) -> (r: bool)
    ensures
        r == package_file(path@),
{
    let p = chars_of(path);
    let root = chars_of("pkgs/");
    let ext = chars_of(".nix");
    if !occurs_at_exec(p.as_slice(), root.as_slice(), 0) {
        return false;
    }
    if ext.len() > p.len() {
        return false;
    }
    occurs_at_exec(p.as_slice(), ext.as_slice(), p.len() - ext.len())
}

/// Whether a change in a revision is indexed: added or modified package
/// files only; deletions retract nothing.
pub fn indexes_change(kind: ChangeKind, path: &str) -> (r: bool)
    ensures
        r == ((kind == ChangeKind::Added || kind == ChangeKind::Modified) && package_file(path@)),
{
    match kind {
        ChangeKind::Added | ChangeKind::Modified => is_package_file(path),
        _ => false,
    }
}

} // verus!
