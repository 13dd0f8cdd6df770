//! Structured extraction: the three strategies run over the bindings of a
//! parsed file (several sibling packages; a marketplace reference; a single
//! package).

use vstd::prelude::*;
use crate::syntax::{Binding, Entry, Shape, StrPart, literal_of, simple_key, literal_exec, simple_key_exec, key_is, eq_chars};
use crate::validate::{valid_version, attr_from_path, package_name_like, is_valid_version_chars, path_to_attr_name, looks_like_package_name};
use crate::text::chars_of;

verus! {

pub open spec fn opt_chars(o: Option<Vec<char>>) -> Option<Seq<char>> {
    match o {
        Some(v) => Some(v@),
        None => None,
    }
}

pub fn append_chars(out: &mut Vec<char>, s: &[char])
    ensures
        final(out)@ == old(out)@ + s@,
{
    let mut k: usize = 0;
    while k < s.len()
        invariant
            k <= s@.len(),
            out@ == old(out)@ + s@.take(k as int),
        decreases s@.len() - k,
    {
        out.push(s[k]);
        k = k + 1;
        assert(out@ =~= old(out)@ + s@.take(k as int));
    }
    assert(s@.take(s@.len() as int) =~= s@);
}

pub fn append_bytes(out: &mut Vec<u8>, s: &[u8])
    ensures
        final(out)@ == old(out)@ + s@,
{
    let mut k: usize = 0;
    while k < s.len()
        invariant
            k <= s@.len(),
            out@ == old(out)@ + s@.take(k as int),
        decreases s@.len() - k,
    {
        out.push(s[k]);
        k = k + 1;
        assert(out@ =~= old(out)@ + s@.take(k as int));
    }
    assert(s@.take(s@.len() as int) =~= s@);
}

// ─── string bindings of the whole file ──────────────────────────────────────

/// The literal that binding `b` gives to `name`, if it binds `name` to a
/// string without interpolation.
pub open spec fn binding_literal(b: Binding, name: Seq<char>) -> Option<Seq<char>> {
    if simple_key(b.path@) == Some(name) {
        match b.value {
            Some(Shape::Str(parts)) => literal_of(parts@),
            _ => None,
        }
    } else {
        None
    }
}

/// The first literal string bound to `name` at or after binding `i`.
pub open spec fn first_literal_from(bs: Seq<Binding>, name: Seq<char>, i: int) -> Option<Seq<char>>
    decreases bs.len() - i,
{
    if i < 0 || i >= bs.len() {
        None
    } else if binding_literal(bs[i], name) is Some {
        binding_literal(bs[i], name)
    } else {
        first_literal_from(bs, name, i + 1)
    }
}

/// The file's string variables: the first literal bound to `name` wins.
pub open spec fn first_literal(bs: Seq<Binding>, name: Seq<char>) -> Option<Seq<char>> {
    first_literal_from(bs, name, 0)
}

fn binding_literal_exec(b: &Binding, name: &[char]) -> (r: Option<Vec<char>>)
    ensures
        opt_chars(r) == binding_literal(*b, name@),
{
    if !key_is(&b.path, name) {
        return None;
    }
    match &b.value {
        Some(Shape::Str(parts)) => literal_exec(parts),
        _ => None,
    }
}

pub fn first_literal_exec(bs: &Vec<Binding>, name: &[char]) -> (r: Option<Vec<char>>)
    ensures
        opt_chars(r) == first_literal(bs@, name@),
{
    let mut i: usize = 0;
    while i < bs.len()
        invariant
            i <= bs@.len(),
            first_literal(bs@, name@) == first_literal_from(bs@, name@, i as int),
        decreases bs@.len() - i,
    {
        let l = binding_literal_exec(&bs[i], name);
        if l.is_some() {
            return l;
        }
        i = i + 1;
    }
    None
}

// ─── interpolation ──────────────────────────────────────────────────────────

/// A string with `${name}` pieces filled in from the file's string
/// variables; nothing when a piece is not a plain name, or names no variable.
pub open spec fn interpolate(parts: Seq<StrPart>, bs: Seq<Binding>) -> Option<Seq<char>>
    decreases parts.len(),
{
    if parts.len() == 0 {
        Some(Seq::empty())
    } else {
        match interpolate(parts.drop_last(), bs) {
            Some(t) => match parts.last() {
                StrPart::Lit(l) => Some(t + l@),
                StrPart::Var(n) => match first_literal(bs, n@) {
                    Some(v) => Some(t + v),
                    None => None,
                },
                StrPart::Complex => None,
            },
            None => None,
        }
    }
}

proof fn lemma_interpolate_none_extends(parts: Seq<StrPart>, bs: Seq<Binding>, i: int)
    requires
        0 <= i < parts.len(),
        interpolate(parts.take(i + 1), bs) is None,
    ensures
        interpolate(parts, bs) is None,
    decreases parts.len(),
{
    if i < parts.len() - 1 {
        assert(parts.drop_last().take(i + 1) =~= parts.take(i + 1));
        lemma_interpolate_none_extends(parts.drop_last(), bs, i);
    } else {
        assert(parts.take(i + 1) =~= parts);
    }
}

pub fn interpolate_exec(parts: &Vec<StrPart>, bs: &Vec<Binding>) -> (r: Option<Vec<char>>)
    ensures
        opt_chars(r) == interpolate(parts@, bs@),
{
    let mut out: Vec<char> = Vec::new();
    let mut i: usize = 0;
    assert(parts@.take(0) =~= Seq::<StrPart>::empty());
    while i < parts.len()
        invariant
            i <= parts@.len(),
            interpolate(parts@.take(i as int), bs@) == Some(out@),
        decreases parts@.len() - i,
    {
        assert(parts@.take(i + 1).drop_last() =~= parts@.take(i as int));
        match &parts[i] {
            StrPart::Lit(l) => {
                append_chars(&mut out, l.as_slice());
            },
            StrPart::Var(n) => {
                match first_literal_exec(bs, n.as_slice()) {
                    Some(v) => {
                        append_chars(&mut out, v.as_slice());
                    },
                    None => {
                        proof {
                            lemma_interpolate_none_extends(parts@, bs@, i as int);
                        }
                        return None;
                    },
                }
            },
            StrPart::Complex => {
                proof {
                    lemma_interpolate_none_extends(parts@, bs@, i as int);
                }
                return None;
            },
        }
        i = i + 1;
    }
    assert(parts@.take(parts@.len() as int) =~= parts@);
    Some(out)
}


// ─── single package: pname + version ────────────────────────────────────────

pub open spec fn valid_or_none(v: Option<Seq<char>>) -> Option<Seq<char>> {
    match v {
        Some(s) => if valid_version(s) { Some(s) } else { None },
        None => None,
    }
}

/// The version a `version = ...` binding's value yields: a valid literal, a
/// valid string after filling in `${name}` pieces, or the same from the body
/// of a `with ...; "..."` form.
pub open spec fn version_candidate(value: Option<Shape>, bs: Seq<Binding>) -> Option<Seq<char>> {
    match value {
        Some(Shape::Str(parts)) => {
            if valid_or_none(literal_of(parts@)) is Some {
                valid_or_none(literal_of(parts@))
            } else {
                valid_or_none(interpolate(parts@, bs))
            }
        },
        Some(Shape::With(body)) => match *body {
            Shape::Str(parts) => valid_or_none(interpolate(parts@, bs)),
            _ => None,
        },
        _ => None,
    }
}

pub open spec fn dotted3(a: Seq<char>, b: Seq<char>, c: Seq<char>, suffix: Seq<char>) -> Seq<char> {
    a + seq!['.'] + b + seq!['.'] + c + suffix
}

/// `major.minor.patch` followed by `suffix`, from the file's string variables.
pub open spec fn assembled_version(bs: Seq<Binding>) -> Option<Seq<char>> {
    match (first_literal(bs, "major"@), first_literal(bs, "minor"@), first_literal(bs, "patch"@)) {
        (Some(ma), Some(mi), Some(pa)) => {
            let suffix = match first_literal(bs, "suffix"@) {
                Some(s) => s,
                None => Seq::empty(),
            };
            valid_or_none(Some(dotted3(ma, mi, pa, suffix)))
        },
        _ => None,
    }
}

pub open spec fn version_from(bs: Seq<Binding>, i: int) -> Option<Seq<char>>
    decreases bs.len() - i,
{
    if i < 0 || i >= bs.len() {
        assembled_version(bs)
    } else if simple_key(bs[i].path@) == Some("version"@) && version_candidate(bs[i].value, bs) is Some {
        version_candidate(bs[i].value, bs)
    } else {
        version_from(bs, i + 1)
    }
}

/// The first `version` binding that yields a valid version, else the
/// version assembled from `major`, `minor`, `patch` and `suffix`.
pub open spec fn resolved_version(bs: Seq<Binding>) -> Option<Seq<char>> {
    version_from(bs, 0)
}

/// A single package: named by `pname` (else by its path), with the
/// resolved version.
pub open spec fn single_package(bs: Seq<Binding>, path: Seq<char>) -> Option<(Seq<char>, Seq<char>)> {
    let name = match first_literal(bs, "pname"@) {
        Some(n) => Some(n),
        None => attr_from_path(path),
    };
    match (name, resolved_version(bs)) {
        (Some(n), Some(v)) => Some((n, v)),
        _ => None,
    }
}

fn valid_or_none_exec(v: Option<Vec<char>>) -> (r: Option<Vec<char>>)
    ensures
        opt_chars(r) == valid_or_none(opt_chars(v)),
{
    match v {
        Some(s) => if is_valid_version_chars(s.as_slice()) { Some(s) } else { None },
        None => None,
    }
}

fn version_candidate_exec(value: &Option<Shape>, bs: &Vec<Binding>) -> (r: Option<Vec<char>>)
    ensures
        opt_chars(r) == version_candidate(*value, bs@),
{
    match value {
        Some(Shape::Str(parts)) => {
            let lit = valid_or_none_exec(literal_exec(parts));
            if lit.is_some() {
                lit
            } else {
                valid_or_none_exec(interpolate_exec(parts, bs))
            }
        },
        Some(Shape::With(body)) => match &**body {
            Shape::Str(parts) => valid_or_none_exec(interpolate_exec(parts, bs)),
            _ => None,
        },
        _ => None,
    }
}

fn dotted3_exec(a: &[char], b: &[char], c: &[char], suffix: &[char]) -> (r: Vec<char>)
    ensures
        r@ == dotted3(a@, b@, c@, suffix@),
{
    let mut r: Vec<char> = Vec::new();
    append_chars(&mut r, a);
    r.push('.');
    append_chars(&mut r, b);
    r.push('.');
    append_chars(&mut r, c);
    append_chars(&mut r, suffix);
    assert(r@ =~= dotted3(a@, b@, c@, suffix@));
    r
}

fn assembled_version_exec(bs: &Vec<Binding>) -> (r: Option<Vec<char>>)
    ensures
        opt_chars(r) == assembled_version(bs@),
{
    let major = first_literal_exec(bs, chars_of("major").as_slice());
    let minor = first_literal_exec(bs, chars_of("minor").as_slice());
    let patch = first_literal_exec(bs, chars_of("patch").as_slice());
    match (major, minor, patch) {
        (Some(ma), Some(mi), Some(pa)) => {
            let suffix = match first_literal_exec(bs, chars_of("suffix").as_slice()) {
                Some(s) => s,
                None => Vec::new(),
            };
            valid_or_none_exec(Some(dotted3_exec(ma.as_slice(), mi.as_slice(), pa.as_slice(), suffix.as_slice())))
        },
        _ => None,
    }
}

fn resolved_version_exec(bs: &Vec<Binding>) -> (r: Option<Vec<char>>)
    ensures
        opt_chars(r) == resolved_version(bs@),
{
    let version_key = chars_of("version");
    let mut i: usize = 0;
    while i < bs.len()
        invariant
            i <= bs@.len(),
            version_key@ == "version"@,
            resolved_version(bs@) == version_from(bs@, i as int),
        decreases bs@.len() - i,
    {
        if key_is(&bs[i].path, version_key.as_slice()) {
            let c = version_candidate_exec(&bs[i].value, bs);
            if c.is_some() {
                return c;
            }
        }
        i = i + 1;
    }
    assembled_version_exec(bs)
}

fn single_package_exec(bs: &Vec<Binding>, path: &str) -> (r: Option<(Vec<char>, Vec<char>)>)
    ensures
        match r {
            Some((n, v)) => single_package(bs@, path@) == Some((n@, v@)),
            None => single_package(bs@, path@) is None,
        },
{
    let name = match first_literal_exec(bs, chars_of("pname").as_slice()) {
        Some(n) => Some(n),
        None => match path_to_attr_name(path) {
            Some(s) => Some(chars_of(s.as_str())),
            None => None,
        },
    };
    let version = resolved_version_exec(bs);
    match (name, version) {
        (Some(n), Some(v)) => Some((n, v)),
        _ => None,
    }
}


// ─── several sibling packages: name = f ... { sourceVersion = {...}; } ─────

/// Keys of a top-level set that never name a package.
pub open spec fn non_package_key(k: Seq<char>) -> bool {
    k == "self"@ || k == "hash"@ || k == "passthruFun"@ || k == "callPackage"@
    || k == "sourceVersion"@ || k == "patches"@ || k == "meta"@ || k == "src"@
    || k == "lib"@ || k == "stdenv"@ || k == "buildInputs"@ || k == "nativeBuildInputs"@
    || k == "propagatedBuildInputs"@ || k == "config"@ || k == "pkgs"@ || k == "inherit"@
    || k == "version"@ || k == "pname"@ || k == "description"@ || k == "homepage"@
    || k == "license"@
}

/// The last literal that a direct entry binds to `name`.
pub open spec fn entry_literal(es: Seq<Entry>, name: Seq<char>) -> Option<Seq<char>>
    decreases es.len(),
{
    if es.len() == 0 {
        None
    } else {
        let e = es.last();
        let here = if simple_key(e.path@) == Some(name) {
            match e.text {
                Some(parts) => literal_of(parts@),
                None => None,
            }
        } else {
            None
        };
        if here is Some { here } else { entry_literal(es.drop_last(), name) }
    }
}

/// `major.minor.patch` (patch defaulting to `0`) followed by `suffix`,
/// from a source-version set's entries.
pub open spec fn entries_version(es: Seq<Entry>) -> Option<Seq<char>> {
    match (entry_literal(es, "major"@), entry_literal(es, "minor"@)) {
        (Some(ma), Some(mi)) => {
            let pa = match entry_literal(es, "patch"@) { Some(p) => p, None => seq!['0'] };
            let su = match entry_literal(es, "suffix"@) { Some(x) => x, None => Seq::empty() };
            Some(dotted3(ma, mi, pa, su))
        },
        _ => None,
    }
}

/// The version of the first `sourceVersion = { ... }` binding in `[lo, hi)`
/// that yields one.
pub open spec fn source_version_in(bs: Seq<Binding>, lo: int, hi: int) -> Option<Seq<char>>
    decreases hi - lo,
{
    if lo < 0 || lo >= hi || lo >= bs.len() {
        None
    } else {
        let here = if simple_key(bs[lo].path@) == Some("sourceVersion"@) {
            match bs[lo].value {
                Some(Shape::AttrSet(es)) => entries_version(es@),
                _ => None,
            }
        } else {
            None
        };
        if here is Some { here } else { source_version_in(bs, lo + 1, hi) }
    }
}

/// One past the last binding nested in binding `i`.
pub open spec fn nested_end(bs: Seq<Binding>, i: int) -> int {
    if i + 1 + bs[i].inner > bs.len() { bs.len() as int } else { i + 1 + bs[i].inner }
}

/// Binding `i` as a package of a multi-package file: a package-like key
/// bound to a function application with a source version nested inside.
pub open spec fn sibling_package(bs: Seq<Binding>, i: int) -> Option<(Seq<char>, Seq<char>)> {
    match simple_key(bs[i].path@) {
        Some(k) => {
            if !non_package_key(k) && package_name_like(k) && (bs[i].value matches Some(Shape::Apply)) {
                match source_version_in(bs, i + 1, nested_end(bs, i)) {
                    Some(v) => Some((k, v)),
                    None => None,
                }
            } else {
                None
            }
        },
        None => None,
    }
}

/// The sibling packages among the first `n` bindings, in document order.
pub open spec fn sibling_packages_upto(bs: Seq<Binding>, n: int) -> Seq<(Seq<char>, Seq<char>)>
    decreases n,
{
    if n <= 0 || n > bs.len() {
        Seq::empty()
    } else {
        let prev = sibling_packages_upto(bs, n - 1);
        match sibling_package(bs, n - 1) {
            Some(p) => prev.push(p),
            None => prev,
        }
    }
}

pub open spec fn sibling_packages(bs: Seq<Binding>) -> Seq<(Seq<char>, Seq<char>)> {
    sibling_packages_upto(bs, bs.len() as int)
}

fn non_package_key_exec(k: &[char]) -> (r: bool)
    ensures
        r == non_package_key(k@),
{
    eq_chars(k, chars_of("self").as_slice()) || eq_chars(k, chars_of("hash").as_slice())
    || eq_chars(k, chars_of("passthruFun").as_slice()) || eq_chars(k, chars_of("callPackage").as_slice())
    || eq_chars(k, chars_of("sourceVersion").as_slice()) || eq_chars(k, chars_of("patches").as_slice())
    || eq_chars(k, chars_of("meta").as_slice()) || eq_chars(k, chars_of("src").as_slice())
    || eq_chars(k, chars_of("lib").as_slice()) || eq_chars(k, chars_of("stdenv").as_slice())
    || eq_chars(k, chars_of("buildInputs").as_slice()) || eq_chars(k, chars_of("nativeBuildInputs").as_slice())
    || eq_chars(k, chars_of("propagatedBuildInputs").as_slice()) || eq_chars(k, chars_of("config").as_slice())
    || eq_chars(k, chars_of("pkgs").as_slice()) || eq_chars(k, chars_of("inherit").as_slice())
    || eq_chars(k, chars_of("version").as_slice()) || eq_chars(k, chars_of("pname").as_slice())
    || eq_chars(k, chars_of("description").as_slice()) || eq_chars(k, chars_of("homepage").as_slice())
    || eq_chars(k, chars_of("license").as_slice())
}

fn entry_literal_exec(es: &Vec<Entry>, name: &[char]) -> (r: Option<Vec<char>>)
    ensures
        opt_chars(r) == entry_literal(es@, name@),
{
    let mut i: usize = es.len();
    assert(es@.take(es@.len() as int) =~= es@);
    while i > 0
        invariant
            i <= es@.len(),
            entry_literal(es@, name@) == entry_literal(es@.take(i as int), name@),
        decreases i,
    {
        let e = &es[i - 1];
        assert(es@.take(i as int).last() == *e);
        assert(es@.take(i as int).drop_last() =~= es@.take(i - 1));
        if key_is(&e.path, name) {
            match &e.text {
                Some(parts) => {
                    let l = literal_exec(parts);
                    if l.is_some() {
                        return l;
                    }
                },
                None => {},
            }
        }
        i = i - 1;
    }
    None
}

fn entries_version_exec(es: &Vec<Entry>) -> (r: Option<Vec<char>>)
    ensures
        opt_chars(r) == entries_version(es@),
{
    let major = entry_literal_exec(es, chars_of("major").as_slice());
    let minor = entry_literal_exec(es, chars_of("minor").as_slice());
    match (major, minor) {
        (Some(ma), Some(mi)) => {
            let pa = match entry_literal_exec(es, chars_of("patch").as_slice()) {
                Some(p) => p,
                None => {
                    let z = vec!['0'];
                    assert(z@ =~= seq!['0']);
                    z
                },
            };
            let su = match entry_literal_exec(es, chars_of("suffix").as_slice()) {
                Some(x) => x,
                None => Vec::new(),
            };
            Some(dotted3_exec(ma.as_slice(), mi.as_slice(), pa.as_slice(), su.as_slice()))
        },
        _ => None,
    }
}

fn source_version_in_exec(bs: &Vec<Binding>, lo: usize, hi: usize) -> (r: Option<Vec<char>>)
    requires
        hi <= bs@.len(),
    ensures
        opt_chars(r) == source_version_in(bs@, lo as int, hi as int),
{
    let sv = chars_of("sourceVersion");
    let mut j: usize = lo;
    while j < hi
        invariant
            lo <= j,
            hi <= bs@.len(),
            sv@ == "sourceVersion"@,
            source_version_in(bs@, lo as int, hi as int) == source_version_in(bs@, j as int, hi as int),
        decreases hi - j,
    {
        if key_is(&bs[j].path, sv.as_slice()) {
            match &bs[j].value {
                Some(Shape::AttrSet(es)) => {
                    let v = entries_version_exec(es);
                    if v.is_some() {
                        return v;
                    }
                },
                _ => {},
            }
        }
        j = j + 1;
    }
    None
}

pub open spec fn pairs_view(r: Seq<(Vec<char>, Vec<char>)>) -> Seq<(Seq<char>, Seq<char>)> {
    r.map_values(|p: (Vec<char>, Vec<char>)| (p.0@, p.1@))
}

fn sibling_packages_exec(bs: &Vec<Binding>) -> (r: Vec<(Vec<char>, Vec<char>)>)
    ensures
        pairs_view(r@) == sibling_packages(bs@),
{
    let mut r: Vec<(Vec<char>, Vec<char>)> = Vec::new();
    let mut i: usize = 0;
    while i < bs.len()
        invariant
            i <= bs@.len(),
            pairs_view(r@) == sibling_packages_upto(bs@, i as int),
        decreases bs@.len() - i,
    {
        let b = &bs[i];
        let ghost before = r@;
        match simple_key_exec(&b.path) {
            Some(k) => {
                let k_str = crate::text::string_of(k.as_slice());
                if !non_package_key_exec(k.as_slice()) && looks_like_package_name(k_str.as_str())
                    && (match &b.value { Some(Shape::Apply) => true, _ => false }) {
                    let end: usize = if b.inner >= bs.len() - i { bs.len() } else { i + 1 + b.inner };
                    assert(end as int == nested_end(bs@, i as int));
                    match source_version_in_exec(bs, i + 1, end) {
                        Some(v) => {
                            r.push((k, v));
                            assert(pairs_view(r@) =~= pairs_view(before).push((k@, v@)));
                        },
                        None => {},
                    }
                }
            },
            None => {},
        }
        i = i + 1;
    }
    r
}


// ─── marketplace reference: mktplcRef = { publisher; name; version; } ──────

/// The attribute set a value reduces to: the value itself, the body of a
/// `let ... in`, or the left operand of a merge.
pub open spec fn base_set(v: Shape) -> Option<Seq<Entry>>
    decreases v,
{
    match v {
        Shape::AttrSet(es) => Some(es@),
        Shape::LetIn(body) => base_set(*body),
        Shape::BinOp(lhs) => base_set(*lhs),
        _ => None,
    }
}

/// The string bound to `name` by the first direct entry that binds `name`
/// to a string; nothing if that string is interpolated.
pub open spec fn string_entry(es: Seq<Entry>, name: Seq<char>, i: int) -> Option<Seq<char>>
    decreases es.len() - i,
{
    if i < 0 || i >= es.len() {
        None
    } else if simple_key(es[i].path@) == Some(name) && es[i].text is Some {
        literal_of(es[i].text.unwrap()@)
    } else {
        string_entry(es, name, i + 1)
    }
}

/// The first `pname` binding to a string, read as a literal.
pub open spec fn pname_from(bs: Seq<Binding>, i: int) -> Option<Seq<char>>
    decreases bs.len() - i,
{
    if i < 0 || i >= bs.len() {
        None
    } else if simple_key(bs[i].path@) == Some("pname"@) && (bs[i].value matches Some(Shape::Str(_))) {
        match bs[i].value {
            Some(Shape::Str(parts)) => literal_of(parts@),
            _ => None,
        }
    } else {
        pname_from(bs, i + 1)
    }
}

pub open spec fn namespace_prefix() -> Seq<char> {
    "vscode-extensions."@
}

/// Identifier of a marketplace extension: `<namespace>.<publisher>.<name>`
/// when both are given, else the path's or the first `pname`'s.
pub open spec fn marketplace_name(es: Seq<Entry>, bs: Seq<Binding>, path: Seq<char>) -> Option<Seq<char>> {
    match (string_entry(es, "publisher"@, 0), string_entry(es, "name"@, 0)) {
        (Some(p), Some(n)) => Some(namespace_prefix() + p + seq!['.'] + n),
        _ => match attr_from_path(path) {
            Some(a) => Some(a),
            None => pname_from(bs, 0),
        },
    }
}

/// The first `mktplcRef` binding, from binding `i` on, whose base set
/// binds `version` to a literal.
pub open spec fn marketplace_from(bs: Seq<Binding>, path: Seq<char>, i: int) -> Option<(Seq<char>, Seq<char>)>
    decreases bs.len() - i,
{
    if i < 0 || i >= bs.len() {
        None
    } else {
        let found = if simple_key(bs[i].path@) == Some("mktplcRef"@) && bs[i].value is Some {
            match base_set(bs[i].value.unwrap()) {
                Some(es) => match string_entry(es, "version"@, 0) {
                    Some(v) => Some((es, v)),
                    None => None,
                },
                None => None,
            }
        } else {
            None
        };
        match found {
            Some((es, v)) => match marketplace_name(es, bs, path) {
                Some(n) => Some((n, v)),
                None => None,
            },
            None => marketplace_from(bs, path, i + 1),
        }
    }
}

pub open spec fn marketplace_package(bs: Seq<Binding>, path: Seq<char>) -> Option<(Seq<char>, Seq<char>)> {
    marketplace_from(bs, path, 0)
}

fn base_set_exec(v: &Shape) -> (r: Option<&Vec<Entry>>)
    ensures
        match r {
            Some(es) => base_set(*v) == Some(es@),
            None => base_set(*v) is None,
        },
    decreases v,
{
    match v {
        Shape::AttrSet(es) => Some(es),
        Shape::LetIn(body) => base_set_exec(&**body),
        Shape::BinOp(lhs) => base_set_exec(&**lhs),
        _ => None,
    }
}

fn string_entry_exec(es: &Vec<Entry>, name: &[char]) -> (r: Option<Vec<char>>)
    ensures
        opt_chars(r) == string_entry(es@, name@, 0),
{
    let mut i: usize = 0;
    while i < es.len()
        invariant
            i <= es@.len(),
            string_entry(es@, name@, 0) == string_entry(es@, name@, i as int),
        decreases es@.len() - i,
    {
        if key_is(&es[i].path, name) {
            match &es[i].text {
                Some(parts) => { return literal_exec(parts); },
                None => {},
            }
        }
        i = i + 1;
    }
    None
}

fn pname_exec(bs: &Vec<Binding>) -> (r: Option<Vec<char>>)
    ensures
        opt_chars(r) == pname_from(bs@, 0),
{
    let pname = chars_of("pname");
    let mut i: usize = 0;
    while i < bs.len()
        invariant
            i <= bs@.len(),
            pname@ == "pname"@,
            pname_from(bs@, 0) == pname_from(bs@, i as int),
        decreases bs@.len() - i,
    {
        if key_is(&bs[i].path, pname.as_slice()) {
            match &bs[i].value {
                Some(Shape::Str(parts)) => { return literal_exec(parts); },
                _ => {},
            }
        }
        i = i + 1;
    }
    None
}

fn marketplace_name_exec(es: &Vec<Entry>, bs: &Vec<Binding>, path: &str) -> (r: Option<Vec<char>>)
    ensures
        opt_chars(r) == marketplace_name(es@, bs@, path@),
{
    let publisher = string_entry_exec(es, chars_of("publisher").as_slice());
    let name = string_entry_exec(es, chars_of("name").as_slice());
    match (publisher, name) {
        (Some(p), Some(n)) => {
            let mut r = chars_of("vscode-extensions.");
            append_chars(&mut r, p.as_slice());
            r.push('.');
            append_chars(&mut r, n.as_slice());
            assert(r@ =~= namespace_prefix() + p@ + seq!['.'] + n@);
            Some(r)
        },
        _ => match path_to_attr_name(path) {
            Some(a) => Some(chars_of(a.as_str())),
            None => pname_exec(bs),
        },
    }
}

fn marketplace_package_exec(bs: &Vec<Binding>, path: &str) -> (r: Option<(Vec<char>, Vec<char>)>)
    ensures
        match r {
            Some((n, v)) => marketplace_package(bs@, path@) == Some((n@, v@)),
            None => marketplace_package(bs@, path@) is None,
        },
{
    let key = chars_of("mktplcRef");
    let version_key = chars_of("version");
    let mut i: usize = 0;
    while i < bs.len()
        invariant
            i <= bs@.len(),
            key@ == "mktplcRef"@,
            version_key@ == "version"@,
            marketplace_package(bs@, path@) == marketplace_from(bs@, path@, i as int),
        decreases bs@.len() - i,
    {
        if key_is(&bs[i].path, key.as_slice()) {
            match &bs[i].value {
                Some(v) => {
                    match base_set_exec(v) {
                        Some(es) => {
                            match string_entry_exec(es, version_key.as_slice()) {
                                Some(ver) => {
                                    return match marketplace_name_exec(es, bs, path) {
                                        Some(n) => Some((n, ver)),
                                        None => None,
                                    };
                                },
                                None => {},
                            }
                        },
                        None => {},
                    }
                },
                None => {},
            }
        }
        i = i + 1;
    }
    None
}

// ─── the three strategies together ──────────────────────────────────────────

/// What structured extraction yields for a parsed file: its sibling
/// packages if there are any, else its marketplace reference, else its
/// single package, else nothing.
pub open spec fn structured_packages(bs: Seq<Binding>, path: Seq<char>) -> Seq<(Seq<char>, Seq<char>)> {
    if sibling_packages(bs).len() > 0 {
        sibling_packages(bs)
    } else if marketplace_package(bs, path) is Some {
        seq![marketplace_package(bs, path).unwrap()]
    } else if single_package(bs, path) is Some {
        seq![single_package(bs, path).unwrap()]
    } else {
        Seq::empty()
    }
}

pub open spec fn info_view(p: crate::entry::PackageInfo) -> (Seq<char>, Seq<char>) {
    (p.attr_name@, p.version@)
}

pub open spec fn infos_view(r: Seq<crate::entry::PackageInfo>) -> Seq<(Seq<char>, Seq<char>)> {
    r.map_values(|p: crate::entry::PackageInfo| info_view(p))
}

fn to_info(n: &[char], v: &[char]) -> (r: crate::entry::PackageInfo)
    ensures
        info_view(r) == (n@, v@),
{
    crate::entry::PackageInfo { attr_name: crate::text::string_of(n), version: crate::text::string_of(v) }
}

/// Runs the three strategies, in order, over the bindings of a parsed file.
pub fn extract_from_bindings(bs: &Vec<Binding>, path: &str) -> (r: Vec<crate::entry::PackageInfo>)
    ensures
        infos_view(r@) == structured_packages(bs@, path@),
{
    let multi = sibling_packages_exec(bs);
    if multi.len() > 0 {
        let mut r: Vec<crate::entry::PackageInfo> = Vec::new();
        let mut i: usize = 0;
        while i < multi.len()
            invariant
                i <= multi@.len(),
                pairs_view(multi@) == sibling_packages(bs@),
                infos_view(r@) == pairs_view(multi@).take(i as int),
            decreases multi@.len() - i,
        {
            let info = to_info(multi[i].0.as_slice(), multi[i].1.as_slice());
            let ghost before = r@;
            r.push(info);
            assert(infos_view(r@) =~= infos_view(before).push(info_view(info)));
            assert(pairs_view(multi@).take(i + 1) =~= pairs_view(multi@).take(i as int).push(pairs_view(multi@)[i as int]));
            i = i + 1;
        }
        assert(pairs_view(multi@).take(multi@.len() as int) =~= pairs_view(multi@));
        return r;
    }
    match marketplace_package_exec(bs, path) {
        Some((n, v)) => {
            let r = vec![to_info(n.as_slice(), v.as_slice())];
            assert(infos_view(r@) =~= seq![(n@, v@)]);
            return r;
        },
        None => {},
    }
    match single_package_exec(bs, path) {
        Some((n, v)) => {
            let r = vec![to_info(n.as_slice(), v.as_slice())];
            assert(infos_view(r@) =~= seq![(n@, v@)]);
            r
        },
        None => {
            let r: Vec<crate::entry::PackageInfo> = Vec::new();
            assert(infos_view(r@) =~= Seq::<(Seq<char>, Seq<char>)>::empty());
            r
        },
    }
}

} // verus!
