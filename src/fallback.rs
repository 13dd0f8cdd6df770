//! Heuristic extraction for files the structured parser rejects: regular
//! expressions and a line scan find at most one package.

use vstd::prelude::*;
use crate::text::{chars_of, contains, contains_exec, string_of};
use crate::validate::{split_on, split_chars, valid_version, attr_from_path, path_to_attr_name, is_valid_version_chars};
use crate::extract::{dotted3, append_chars, opt_chars};

verus! {

/// Capture group `group` of the leftmost match of `pattern` in `text`;
/// nothing when the pattern does not compile, nothing matches, or the group
/// took no part in the match.
pub uninterp spec fn regex_capture(pattern: Seq<char>, text: Seq<char>, group: nat) -> Option<Seq<char>>;

pub open spec fn opt_string(o: Option<String>) -> Option<Seq<char>> {
    match o {
        Some(s) => Some(s@),
        None => None,
    }
}

/// Relies on `regex::Regex::new` and `regex::Regex::captures`: the text of
/// one capture group of the leftmost match.
#[verifier::external_body]
fn capture(pattern: &str, text: &str, group: usize) -> (r: Option<String>)
    ensures
        opt_string(r) == regex_capture(pattern@, text@, group as nat),
{
    let re = regex::Regex::new(pattern).ok()?;
    re.captures(text)?.get(group).map(|m| m.as_str().to_string())
}

/// Unicode `White_Space`, as `char::is_whitespace` documents it.
pub open spec fn is_ws(c: char) -> bool {
    c == ' ' || ('\t' <= c && c <= '\r') || c == '\u{85}' || c == '\u{A0}' || c == '\u{1680}'
    || ('\u{2000}' <= c && c <= '\u{200A}') || c == '\u{2028}' || c == '\u{2029}'
    || c == '\u{202F}' || c == '\u{205F}' || c == '\u{3000}'
}

fn is_ws_exec(c: char) -> (r: bool)
    ensures
        r == is_ws(c),
{
    c == ' ' || ('\t' <= c && c <= '\r') || c == '\u{85}' || c == '\u{A0}' || c == '\u{1680}'
    || ('\u{2000}' <= c && c <= '\u{200A}') || c == '\u{2028}' || c == '\u{2029}'
    || c == '\u{202F}' || c == '\u{205F}' || c == '\u{3000}'
}

pub open spec fn strip_cr(l: Seq<char>) -> Seq<char> {
    if l.len() > 0 && l.last() == '\r' { l.drop_last() } else { l }
}

/// The lines of a text as `str::lines` gives them: split at `\n`, without a
/// final empty line, each without a trailing `\r`.
pub open spec fn lines_of(s: Seq<char>) -> Seq<Seq<char>> {
    let parts = split_on(s, '\n');
    let kept = if parts.last().len() == 0 { parts.drop_last() } else { parts };
    kept.map_values(|l: Seq<char>| strip_cr(l))
}

/// The maximal run of non-whitespace characters that ends `s`.
pub open spec fn word_suffix(s: Seq<char>) -> Seq<char>
    decreases s.len(),
{
    if s.len() == 0 || is_ws(s.last()) { Seq::empty() } else { word_suffix(s.drop_last()).push(s.last()) }
}

/// The last whitespace-separated word of `s`.
pub open spec fn last_word(s: Seq<char>) -> Option<Seq<char>>
    decreases s.len(),
{
    if s.len() == 0 {
        None
    } else if is_ws(s.last()) {
        last_word(s.drop_last())
    } else {
        Some(word_suffix(s))
    }
}

/// Index of the first `c` in `s` (the length when there is none).
pub open spec fn first_index(s: Seq<char>, c: char) -> int
    decreases s.len(),
{
    if s.len() == 0 { 0 } else if s[0] == c { 0 } else { 1 + first_index(s.skip(1), c) }
}

/// The first non-whitespace character of the line is `}`.
pub open spec fn opens_with_close(l: Seq<char>) -> bool
    decreases l.len(),
{
    if l.len() == 0 { false } else if is_ws(l[0]) { opens_with_close(l.skip(1)) } else { l[0] == '}' }
}

/// A `sourceVersion` mention among lines `[j, end)`, before a line that
/// closes a block without opening one.
pub open spec fn source_version_follows(ls: Seq<Seq<char>>, j: int, end: int) -> bool
    decreases end - j,
{
    if j < 0 || j >= end || j >= ls.len() {
        false
    } else if contains(ls[j], "sourceVersion"@) {
        true
    } else if opens_with_close(ls[j]) && !ls[j].contains('{') {
        false
    } else {
        source_version_follows(ls, j + 1, end)
    }
}

/// From line `i` on: the name bound on the first `name = callPackage ...`
/// line that has a `sourceVersion` within the next 19 lines of its block.
pub open spec fn call_package_from(ls: Seq<Seq<char>>, i: int) -> Option<Seq<char>>
    decreases ls.len() - i,
{
    if i < 0 || i >= ls.len() {
        None
    } else {
        let line = ls[i];
        if line.contains('=') && contains(line, "callPackage"@) {
            match last_word(line.take(first_index(line, '='))) {
                None => None,
                Some(w) => {
                    let end = if i + 20 < ls.len() { i + 20 } else { ls.len() as int };
                    if source_version_follows(ls, i + 1, end) { Some(w) } else { call_package_from(ls, i + 1) }
                },
            }
        } else {
            call_package_from(ls, i + 1)
        }
    }
}

pub open spec fn call_package_attr(content: Seq<char>) -> Option<Seq<char>> {
    call_package_from(lines_of(content), 0)
}


fn lines_exec(s: &[char]) -> (r: Vec<Vec<char>>)
    ensures
        r@.len() == lines_of(s@).len(),
        forall|j: int| 0 <= j < r@.len() ==> (#[trigger] r@[j])@ == lines_of(s@)[j],
{
    let mut parts = split_chars(s, '\n');
    let ghost sp = split_on(s@, '\n');
    proof {
        crate::validate::lemma_split_nonempty(s@, '\n');
    }
    let n = parts.len();
    if parts[n - 1].len() == 0 {
        parts.pop();
    }
    let ghost kept = if sp.last().len() == 0 { sp.drop_last() } else { sp };
    assert(parts@.len() == kept.len());
    assert(forall|j: int| 0 <= j < parts@.len() ==> (#[trigger] parts@[j])@ == kept[j]);
    let mut r: Vec<Vec<char>> = Vec::new();
    let mut i: usize = 0;
    while i < parts.len()
        invariant
            i <= parts@.len(),
            parts@.len() == kept.len(),
            forall|j: int| 0 <= j < parts@.len() ==> (#[trigger] parts@[j])@ == kept[j],
            lines_of(s@) == kept.map_values(|l: Seq<char>| strip_cr(l)),
            r@.len() == i,
            forall|j: int| 0 <= j < i ==> (#[trigger] r@[j])@ == strip_cr(kept[j]),
        decreases parts@.len() - i,
    {
        let l = &parts[i];
        let m = l.len();
        let line: Vec<char> = if m > 0 && l[m - 1] == '\r' {
            let mut t: Vec<char> = Vec::new();
            append_chars(&mut t, &l.as_slice()[0..m - 1]);
            assert(t@ =~= l@.drop_last());
            t
        } else {
            l.clone()
        };
        r.push(line);
        i = i + 1;
    }
    r
}

fn last_word_exec(s: &[char]) -> (r: Option<Vec<char>>)
    ensures
        opt_chars(r) == last_word(s@),
{
    let mut e: usize = s.len();
    assert(s@.take(s@.len() as int) =~= s@);
    while e > 0 && is_ws_exec(s[e - 1])
        invariant
            e <= s@.len(),
            last_word(s@) == last_word(s@.take(e as int)),
        decreases e,
    {
        assert(s@.take(e as int).drop_last() =~= s@.take(e - 1));
        e = e - 1;
    }
    if e == 0 {
        return None;
    }
    let mut k: usize = e;
    assert(s@.subrange(e as int, e as int) =~= Seq::<char>::empty());
    assert(word_suffix(s@.take(e as int)) =~= word_suffix(s@.take(e as int)) + Seq::<char>::empty());
    while k > 0 && !is_ws_exec(s[k - 1])
        invariant
            k <= e <= s@.len(),
            word_suffix(s@.take(e as int)) == word_suffix(s@.take(k as int)) + s@.subrange(k as int, e as int),
        decreases k,
    {
        assert(s@.take(k as int).drop_last() =~= s@.take(k - 1));
        assert(s@.take(k as int).last() == s@[k - 1]);
        assert(word_suffix(s@.take(k as int)) == word_suffix(s@.take(k - 1)).push(s@[k - 1]));
        assert(word_suffix(s@.take(k - 1)).push(s@[k - 1]) + s@.subrange(k as int, e as int)
            =~= word_suffix(s@.take(k - 1)) + s@.subrange(k - 1, e as int));
        k = k - 1;
    }
    assert(word_suffix(s@.take(k as int)) =~= Seq::<char>::empty());
    let mut w: Vec<char> = Vec::new();
    append_chars(&mut w, &s[k..e]);
    assert(w@ =~= word_suffix(s@.take(e as int)));
    Some(w)
}

pub fn first_index_exec(s: &[char], c: char) -> (r: usize)
    ensures
        r as int == first_index(s@, c),
        r <= s@.len(),
{
    let mut i: usize = 0;
    assert(s@.skip(0) =~= s@);
    while i < s.len() && s[i] != c
        invariant
            i <= s@.len(),
            first_index(s@, c) == i + first_index(s@.skip(i as int), c),
        decreases s@.len() - i,
    {
        assert(s@.skip(i as int).skip(1) =~= s@.skip(i + 1));
        i = i + 1;
    }
    i
}

fn opens_with_close_exec(s: &[char]) -> (r: bool)
    ensures
        r == opens_with_close(s@),
{
    let mut i: usize = 0;
    assert(s@.skip(0) =~= s@);
    while i < s.len() && is_ws_exec(s[i])
        invariant
            i <= s@.len(),
            opens_with_close(s@) == opens_with_close(s@.skip(i as int)),
        decreases s@.len() - i,
    {
        assert(s@.skip(i as int).skip(1) =~= s@.skip(i + 1));
        i = i + 1;
    }
    i < s.len() && s[i] == '}'
}

fn source_version_follows_exec(ls: &Vec<Vec<char>>, start: usize, end: usize) -> (r: bool)
    requires
        end <= ls@.len(),
    ensures
        r == source_version_follows(ls@.map_values(|l: Vec<char>| l@), start as int, end as int),
{
    let ghost v = ls@.map_values(|l: Vec<char>| l@);
    let sv = chars_of("sourceVersion");
    let mut j: usize = start;
    while j < end
        invariant
            start <= j,
            end <= ls@.len(),
            v == ls@.map_values(|l: Vec<char>| l@),
            sv@ == "sourceVersion"@,
            source_version_follows(v, start as int, end as int) == source_version_follows(v, j as int, end as int),
        decreases end - j,
    {
        let l = ls[j].as_slice();
        assert(v[j as int] == l@);
        if contains_exec(l, sv.as_slice()) {
            return true;
        }
        if opens_with_close_exec(l) && !crate::text::has_char(l, '{') {
            return false;
        }
        j = j + 1;
    }
    false
}

fn call_package_attr_exec(content: &[char]) -> (r: Option<Vec<char>>)
    ensures
        opt_chars(r) == call_package_attr(content@),
{
    let ls = lines_exec(content);
    let ghost v = ls@.map_values(|l: Vec<char>| l@);
    assert(v =~= lines_of(content@));
    let cp = chars_of("callPackage");
    let mut i: usize = 0;
    while i < ls.len()
        invariant
            i <= ls@.len(),
            v == ls@.map_values(|l: Vec<char>| l@),
            cp@ == "callPackage"@,
            call_package_attr(content@) == call_package_from(v, i as int),
        decreases ls@.len() - i,
    {
        let line = ls[i].as_slice();
        assert(v[i as int] == line@);
        if crate::text::has_char(line, '=') && contains_exec(line, cp.as_slice()) {
            let eq = first_index_exec(line, '=');
            let head = &line[0..eq];
            assert(head@ =~= line@.take(eq as int));
            match last_word_exec(head) {
                None => { return None; },
                Some(w) => {
                    let end: usize = if ls.len() - i > 20 { i + 20 } else { ls.len() };
                    if source_version_follows_exec(&ls, i + 1, end) {
                        return Some(w);
                    }
                },
            }
        }
        i = i + 1;
    }
    None
}

/// The name bound on the first `name = callPackage ...` line that mentions
/// `sourceVersion` within the next lines of its block.
pub fn extract_callpackage_attr(content: &str) -> (r: Option<String>)
    ensures
        opt_string(r) == call_package_attr(content@),
{
    let c = chars_of(content);
    match call_package_attr_exec(c.as_slice()) {
        Some(w) => Some(string_of(w.as_slice())),
        None => None,
    }
}

pub const PNAME_PATTERN: &'static str = r#"pname\s*=\s*"([^"]+)""#;
pub const VERSION_PATTERN: &'static str = r#"version\s*=\s*"([^"]+)""#;
pub const SOURCE_VERSION_PATTERN: &'static str = r#"sourceVersion\s*=\s*\{[^}]*major\s*=\s*"(\d+)"[^}]*minor\s*=\s*"(\d+)"[^}]*patch\s*=\s*"(\d+)"[^}]*\}"#;
pub const SUFFIX_PATTERN: &'static str = r#"suffix\s*=\s*"([^"]*)""#;
pub const MARKETPLACE_PATTERN: &'static str = r#"mktplcRef\s*=\s*\{[^}]*version\s*=\s*"([^"]+)"[^}]*\}"#;
pub const MAJOR_PATTERN: &'static str = r#"\bmajor\s*=\s*"(\d+)""#;
pub const MINOR_PATTERN: &'static str = r#"\bminor\s*=\s*"(\d+)""#;
pub const PATCH_PATTERN: &'static str = r#"\bpatch\s*=\s*"(\d+)""#;

pub open spec fn fallback_name(path: Seq<char>, content: Seq<char>) -> Option<Seq<char>> {
    match regex_capture(PNAME_PATTERN@, content, 1) {
        Some(n) => Some(n),
        None => match call_package_attr(content) {
            Some(n) => Some(n),
            None => attr_from_path(path),
        },
    }
}

pub open spec fn source_version_text(content: Seq<char>) -> Option<Seq<char>> {
    match (
        regex_capture(SOURCE_VERSION_PATTERN@, content, 1),
        regex_capture(SOURCE_VERSION_PATTERN@, content, 2),
        regex_capture(SOURCE_VERSION_PATTERN@, content, 3),
    ) {
        (Some(a), Some(b), Some(p)) => {
            let suffix = match regex_capture(SUFFIX_PATTERN@, content, 1) {
                Some(x) => x,
                None => Seq::empty(),
            };
            Some(dotted3(a, b, p, suffix))
        },
        _ => None,
    }
}

pub open spec fn interpolated_version(content: Seq<char>) -> Option<Seq<char>> {
    match (regex_capture(MAJOR_PATTERN@, content, 1), regex_capture(MINOR_PATTERN@, content, 1)) {
        (Some(a), Some(b)) => {
            let p = match regex_capture(PATCH_PATTERN@, content, 1) {
                Some(x) => x,
                None => seq!['0'],
            };
            Some(dotted3(a, b, p, Seq::empty()))
        },
        _ => None,
    }
}

/// The version heuristics in order: a valid `version = "..."`, a
/// `sourceVersion` block, a valid marketplace-reference version, then
/// `major`/`minor`/`patch` strings.
pub open spec fn fallback_version(content: Seq<char>) -> Option<Seq<char>> {
    let plain = crate::extract::valid_or_none(regex_capture(VERSION_PATTERN@, content, 1));
    let market = crate::extract::valid_or_none(regex_capture(MARKETPLACE_PATTERN@, content, 1));
    if plain is Some {
        plain
    } else if source_version_text(content) is Some {
        source_version_text(content)
    } else if market is Some {
        market
    } else {
        interpolated_version(content)
    }
}

pub open spec fn fallback_package(path: Seq<char>, content: Seq<char>) -> Option<(Seq<char>, Seq<char>)> {
    match (fallback_name(path, content), fallback_version(content)) {
        (Some(n), Some(v)) => Some((n, v)),
        _ => None,
    }
}

fn valid_capture(pattern: &str, content: &str) -> (r: Option<String>)
    ensures
        opt_string(r) == crate::extract::valid_or_none(regex_capture(pattern@, content@, 1)),
{
    match capture(pattern, content, 1) {
        Some(v) => {
            let c = chars_of(v.as_str());
            if is_valid_version_chars(c.as_slice()) { Some(v) } else { None }
        },
        None => None,
    }
}

fn dotted3_string(a: &String, b: &String, p: &String, suffix: &String) -> (r: String)
    ensures
        r@ == dotted3(a@, b@, p@, suffix@),
{
    let mut r = a.clone();
    r.append(".");
    r.append(b.as_str());
    r.append(".");
    r.append(p.as_str());
    r.append(suffix.as_str());
    proof {
        reveal_strlit(".");
    }
    assert(r@ =~= dotted3(a@, b@, p@, suffix@));
    r
}

/// The `pname = "..."` string, if any.
pub fn extract_pname(content: &str) -> (r: Option<String>)
    ensures
        opt_string(r) == regex_capture(PNAME_PATTERN@, content@, 1),
{
    capture(PNAME_PATTERN, content, 1)
}

/// `major.minor.patch` and `suffix` from a `sourceVersion = { ... }` block.
pub fn extract_sourceversion(content: &str) -> (r: Option<String>)
    ensures
        opt_string(r) == source_version_text(content@),
{
    let a = capture(SOURCE_VERSION_PATTERN, content, 1);
    let b = capture(SOURCE_VERSION_PATTERN, content, 2);
    let p = capture(SOURCE_VERSION_PATTERN, content, 3);
    match (a, b, p) {
        (Some(a), Some(b), Some(p)) => {
            let suffix = match capture(SUFFIX_PATTERN, content, 1) {
                Some(x) => x,
                None => String::new(),
            };
            Some(dotted3_string(&a, &b, &p, &suffix))
        },
        _ => None,
    }
}

/// The version inside a `mktplcRef = { ... }` block, when it validates.
pub fn extract_mktplcref(content: &str) -> (r: Option<String>)
    ensures
        opt_string(r) == crate::extract::valid_or_none(regex_capture(MARKETPLACE_PATTERN@, content@, 1)),
{
    valid_capture(MARKETPLACE_PATTERN, content)
}

/// `major.minor.patch` from separate `major`, `minor` and `patch` strings,
/// the patch defaulting to `0`.
pub fn extract_interpolation(content: &str) -> (r: Option<String>)
    ensures
        opt_string(r) == interpolated_version(content@),
{
    match (capture(MAJOR_PATTERN, content, 1), capture(MINOR_PATTERN, content, 1)) {
        (Some(a), Some(b)) => {
            let p = match capture(PATCH_PATTERN, content, 1) {
                Some(x) => x,
                None => String::from_str("0"),
            };
            proof {
                reveal_strlit("0");
            }
            Some(dotted3_string(&a, &b, &p, &String::new()))
        },
        _ => None,
    }
}

fn fallback_version_exec(content: &str) -> (r: Option<String>)
    ensures
        opt_string(r) == fallback_version(content@),
{
    let plain = valid_capture(VERSION_PATTERN, content);
    if plain.is_some() {
        return plain;
    }
    let sv = extract_sourceversion(content);
    if sv.is_some() {
        return sv;
    }
    let market = extract_mktplcref(content);
    if market.is_some() {
        return market;
    }
    extract_interpolation(content)
}

/// Heuristic extraction of one package from a file's text: the name from a
/// `pname` string, a `callPackage` line or the path; the version from the
/// first heuristic that finds one.
pub fn extract_packages_regex(path: &str, content: &str) -> (r: Option<crate::entry::PackageInfo>)
    ensures
        match r {
            Some(p) => fallback_package(path@, content@) == Some(crate::extract::info_view(p)),
            None => fallback_package(path@, content@) is None,
        },
{
    let name = match extract_pname(content) {
        Some(n) => Some(n),
        None => match extract_callpackage_attr(content) {
            Some(n) => Some(n),
            None => path_to_attr_name(path),
        },
    };
    let name = match name {
        Some(n) => n,
        None => { return None; },
    };
    match fallback_version_exec(content) {
        Some(v) => Some(crate::entry::PackageInfo { attr_name: name, version: v }),
        None => None,
    }
}

} // verus!
