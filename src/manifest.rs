//! The pinned package file: one package-set snapshot per distinct
//! revision, and one import per resolved package.

use vstd::prelude::*;
use crate::entry::PackageEntry;
use crate::extract::append_chars;
use crate::text::{chars_of, string_of};

verus! {

/// The distinct values of `s`, in order of first appearance.
pub open spec fn distinct(s: Seq<Seq<char>>) -> Seq<Seq<char>>
    decreases s.len(),
{
    if s.len() == 0 {
        s
    } else if distinct(s.drop_last()).contains(s.last()) {
        distinct(s.drop_last())
    } else {
        distinct(s.drop_last()).push(s.last())
    }
}

pub open spec fn shas(entries: Seq<PackageEntry>) -> Seq<Seq<char>> {
    entries.map_values(|e: PackageEntry| e.commit_sha@)
}

pub open spec fn strings(v: Seq<String>) -> Seq<Seq<char>> {
    v.map_values(|s: String| s@)
}

fn contains_string(v: &Vec<String>, s: &String) -> (r: bool)
    ensures
        r == strings(v@).contains(s@),
{
    let target = chars_of(s.as_str());
    let mut i: usize = 0;
    while i < v.len()
        invariant
            i <= v@.len(),
            target@ == s@,
            forall|j: int| 0 <= j < i ==> strings(v@)[j] != s@,
        decreases v@.len() - i,
    {
        let c = chars_of(v[i].as_str());
        if crate::syntax::eq_chars(c.as_slice(), target.as_slice()) {
            assert(strings(v@)[i as int] == s@);
            return true;
        }
        i = i + 1;
    }
    false
}

/// The revisions the entries were observed in, each once, in order of
/// first appearance.
pub fn unique_commits(entries: &Vec<PackageEntry>) -> (r: Vec<String>)
    ensures
        strings(r@) == distinct(shas(entries@)),
{
    let mut r: Vec<String> = Vec::new();
    let mut i: usize = 0;
    assert(shas(entries@).take(0) =~= Seq::<Seq<char>>::empty());
    while i < entries.len()
        invariant
            i <= entries@.len(),
            strings(r@) == distinct(shas(entries@).take(i as int)),
        decreases entries@.len() - i,
    {
        let sha = &entries[i].commit_sha;
        assert(shas(entries@).take(i + 1).drop_last() =~= shas(entries@).take(i as int));
        assert(shas(entries@).take(i + 1).last() == sha@);
        if !contains_string(&r, sha) {
            let ghost before = r@;
            r.push(sha.clone());
            assert(strings(r@) =~= strings(before).push(sha@));
        }
        i = i + 1;
    }
    assert(shas(entries@).take(entries@.len() as int) =~= shas(entries@));
    r
}

/// The name a snapshot is bound to: `nixpkgs_` and the revision's first
/// twelve characters.
pub open spec fn snapshot_var(commit: Seq<char>) -> Seq<char> {
    "nixpkgs_"@ + (if commit.len() <= 12 { commit } else { commit.take(12) })
}

pub fn nixpkgs_var(commit: &str) -> (r: String)
    ensures
        r@ == snapshot_var(commit@),
{
    let c = chars_of(commit);
    let n: usize = if c.len() <= 12 { c.len() } else { 12 };
    let mut out = chars_of("nixpkgs_");
    append_chars(&mut out, &c.as_slice()[0..n]);
    assert(out@ =~= snapshot_var(commit@));
    string_of(out.as_slice())
}

/// The let-binding of one snapshot, given how it is fetched.
pub open spec fn snapshot_line(commit: Seq<char>, source: Seq<char>) -> Seq<char> {
    "  "@ + snapshot_var(commit) + " = "@ + source + ";\n"@
}

/// The two lines that import one package from its snapshot.
pub open spec fn package_lines(e: PackageEntry) -> Seq<char> {
    "  # "@ + e.attr_name@ + " v"@ + e.version@ + " (commit: "@ + e.commit_sha@ + ")\n"@
        + "  "@ + e.attr_name@ + " = import "@ + snapshot_var(e.commit_sha@) + " {};\n\n"@
}

pub open spec fn snapshot_lines(commits: Seq<Seq<char>>, sources: Seq<Seq<char>>, n: int) -> Seq<char>
    decreases n,
{
    if n <= 0 { Seq::empty() } else { snapshot_lines(commits, sources, n - 1) + snapshot_line(commits[n - 1], sources[n - 1]) }
}

pub open spec fn all_package_lines(entries: Seq<PackageEntry>, n: int) -> Seq<char>
    decreases n,
{
    if n <= 0 { Seq::empty() } else { all_package_lines(entries, n - 1) + package_lines(entries[n - 1]) }
}

pub open spec fn manifest_header() -> Seq<char> {
    "# Pins packages to specific historical versions from Nixpkgs\n\nlet\n"@
}

/// The whole file: a header, a `let` binding per snapshot, and a set with
/// an import per package.
pub open spec fn manifest_text(entries: Seq<PackageEntry>, commits: Seq<Seq<char>>, sources: Seq<Seq<char>>) -> Seq<char> {
    manifest_header() + snapshot_lines(commits, sources, commits.len() as int) + "in\n{\n"@
        + all_package_lines(entries, entries.len() as int) + "}\n"@
}

fn push_str(out: &mut Vec<char>, s: &str)
    ensures
        final(out)@ == old(out)@ + s@,
{
    let c = chars_of(s);
    append_chars(out, c.as_slice());
}

fn push_package_lines(out: &mut Vec<char>, e: &PackageEntry)
    ensures
        final(out)@ == old(out)@ + package_lines(*e),
{
    push_str(out, "  # ");
    push_str(out, e.attr_name.as_str());
    push_str(out, " v");
    push_str(out, e.version.as_str());
    push_str(out, " (commit: ");
    push_str(out, e.commit_sha.as_str());
    push_str(out, ")\n");
    push_str(out, "  ");
    push_str(out, e.attr_name.as_str());
    push_str(out, " = import ");
    push_str(out, nixpkgs_var(e.commit_sha.as_str()).as_str());
    push_str(out, " {};\n\n");
    assert(out@ =~= old(out)@ + package_lines(*e));
}

/// Renders the pinned file; `sources[i]` is the expression that fetches
/// snapshot `commits[i]`.
pub fn render_manifest(entries: &Vec<PackageEntry>, commits: &Vec<String>, sources: &Vec<String>) -> (r: String)
    requires
        commits@.len() == sources@.len(),
    ensures
        r@ == manifest_text(entries@, strings(commits@), strings(sources@)),
{
    let ghost cs = strings(commits@);
    let ghost ss = strings(sources@);
    let mut out: Vec<char> = Vec::new();
    push_str(&mut out, "# Pins packages to specific historical versions from Nixpkgs\n\nlet\n");
    let mut i: usize = 0;
    while i < commits.len()
        invariant
            i <= commits@.len(),
            commits@.len() == sources@.len(),
            cs == strings(commits@),
            ss == strings(sources@),
            out@ == manifest_header() + snapshot_lines(cs, ss, i as int),
        decreases commits@.len() - i,
    {
        let ghost before = out@;
        push_str(&mut out, "  ");
        push_str(&mut out, nixpkgs_var(commits[i].as_str()).as_str());
        push_str(&mut out, " = ");
        push_str(&mut out, sources[i].as_str());
        push_str(&mut out, ";\n");
        assert(cs[i as int] == commits@[i as int]@);
        assert(ss[i as int] == sources@[i as int]@);
        assert(out@ =~= before + snapshot_line(cs[i as int], ss[i as int]));
        i = i + 1;
    }
    push_str(&mut out, "in\n{\n");
    let ghost mid = out@;
    let mut j: usize = 0;
    assert(mid + all_package_lines(entries@, 0) =~= mid);
    while j < entries.len()
        invariant
            j <= entries@.len(),
            out@ == mid + all_package_lines(entries@, j as int),
        decreases entries@.len() - j,
    {
        let e = &entries[j];
        push_package_lines(&mut out, e);
        assert(mid + all_package_lines(entries@, j as int) + package_lines(*e)
            =~= mid + all_package_lines(entries@, j + 1));
        j = j + 1;
    }
    push_str(&mut out, "}\n");
    assert(out@ =~= manifest_text(entries@, cs, ss));
    string_of(out.as_slice())
}


/// The revisions whose archive hash is to be fetched: those not cached
/// (all of them when `force`), in order.
pub open spec fn fetch_list(commits: Seq<Seq<char>>, cached: Seq<bool>, force: bool) -> Seq<Seq<char>>
    decreases commits.len(),
{
    if commits.len() == 0 || cached.len() != commits.len() {
        Seq::empty()
    } else if force || !cached.last() {
        fetch_list(commits.drop_last(), cached.drop_last(), force).push(commits.last())
    } else {
        fetch_list(commits.drop_last(), cached.drop_last(), force)
    }
}

pub open spec fn capped(s: Seq<Seq<char>>, limit: Option<usize>) -> Seq<Seq<char>> {
    match limit {
        Some(n) => if n < s.len() { s.take(n as int) } else { s },
        None => s,
    }
}

/// The revisions to prefetch, at most `limit` of them; `cached[i]` tells
/// whether `commits[i]` already has a hash.
pub fn commits_to_prefetch(commits: &Vec<String>, cached: &Vec<bool>, force: bool, limit: Option<usize>) -> (r: Vec<String>)
    requires
        commits@.len() == cached@.len(),
    ensures
        strings(r@) == capped(fetch_list(strings(commits@), cached@, force), limit),
{
    let ghost cs = strings(commits@);
    let mut all: Vec<String> = Vec::new();
    let mut i: usize = 0;
    assert(cs.take(0) =~= Seq::<Seq<char>>::empty());
    while i < commits.len()
        invariant
            i <= commits@.len(),
            commits@.len() == cached@.len(),
            cs == strings(commits@),
            strings(all@) == fetch_list(cs.take(i as int), cached@.take(i as int), force),
        decreases commits@.len() - i,
    {
        assert(cs.take(i + 1).drop_last() =~= cs.take(i as int));
        assert(cached@.take(i + 1).drop_last() =~= cached@.take(i as int));
        assert(cs.take(i + 1).last() == commits@[i as int]@);
        if force || !cached[i] {
            let ghost before = all@;
            all.push(commits[i].clone());
            assert(strings(all@) =~= strings(before).push(commits@[i as int]@));
        }
        i = i + 1;
    }
    assert(cs.take(cs.len() as int) =~= cs);
    assert(cached@.take(cached@.len() as int) =~= cached@);
    match limit {
        Some(n) => {
            if n < all.len() {
                let mut out: Vec<String> = Vec::new();
                let mut k: usize = 0;
                while k < n
                    invariant
                        k <= n,
                        n < all@.len(),
                        strings(out@) == strings(all@).take(k as int),
                    decreases n - k,
                {
                    let ghost before = out@;
                    out.push(all[k].clone());
                    assert(strings(out@) =~= strings(before).push(all@[k as int]@));
                    assert(strings(all@).take(k + 1) =~= strings(all@).take(k as int).push(all@[k as int]@));
                    k = k + 1;
                }
                out
            } else {
                all
            }
        },
        None => all,
    }
}

} // verus!
