//! Narrowing a package's versions by major version, pattern and date.

use vstd::prelude::*;
use crate::entry::{CoreError, PackageEntry};
use crate::version_key::{has_major, major_of};

verus! {

/// Whether `pattern` compiles as a regular expression.
pub uninterp spec fn regex_compiles(pattern: Seq<char>) -> bool;

/// Whether the compiled `pattern` matches somewhere in `text`.
pub uninterp spec fn regex_is_match(pattern: Seq<char>, text: Seq<char>) -> bool;

/// The first second (UTC, seconds since the epoch) of a `YYYY-MM-DD` date.
pub uninterp spec fn date_start_of(date: Seq<char>) -> Option<i64>;

/// Relies on `regex::Regex::new`: whether the pattern is accepted.
#[verifier::external_body]
fn pattern_compiles(pattern: &str) -> (r: bool)
    ensures
        r == regex_compiles(pattern@),
{
    regex::Regex::new(pattern).is_ok()
}

/// Relies on `regex::Regex::is_match`, for a pattern that compiles.
#[verifier::external_body]
fn pattern_matches(pattern: &str, text: &str) -> (r: bool)
    requires
        regex_compiles(pattern@),
    ensures
        r == regex_is_match(pattern@, text@),
{
    regex::Regex::new(pattern).map(|re| re.is_match(text)).unwrap_or(false)
}

/// Relies on `chrono::NaiveDate::parse_from_str` with `%Y-%m-%d`, and on
/// `NaiveDateTime::and_utc().timestamp()` for its midnight.
#[verifier::external_body]
fn date_start(date: &str) -> (r: Option<i64>)
    ensures
        r == date_start_of(date@),
{
    let d = chrono::NaiveDate::parse_from_str(date, "%Y-%m-%d").ok()?;
    Some(d.and_hms_opt(0, 0, 0)?.and_utc().timestamp())
}

pub open spec fn opt_str(o: Option<&str>) -> Option<Seq<char>> {
    match o {
        Some(s) => Some(s@),
        None => None,
    }
}

/// Whether an entry passes the three filters.
pub open spec fn passes(e: PackageEntry, major: Option<u64>, pattern: Option<Seq<char>>, since: Option<u64>) -> bool {
    (match major { Some(m) => major_of(e.version@) == m, None => true })
    && (match pattern { Some(p) => regex_is_match(p, e.version@), None => true })
    && (match since { Some(t) => e.timestamp >= t, None => true })
}

/// The entries of `s` that pass the filters, in order.
pub open spec fn kept(s: Seq<PackageEntry>, major: Option<u64>, pattern: Option<Seq<char>>, since: Option<u64>) -> Seq<PackageEntry>
    decreases s.len(),
{
    if s.len() == 0 {
        s
    } else if passes(s.last(), major, pattern, since) {
        kept(s.drop_last(), major, pattern, since).push(s.last())
    } else {
        kept(s.drop_last(), major, pattern, since)
    }
}

/// The `since` bound in seconds: the date's midnight, read as unsigned.
pub open spec fn since_bound(since: Option<&str>) -> Option<u64> {
    match since {
        Some(s) => match date_start_of(s@) {
            Some(t) => Some(t as u64),
            None => None,
        },
        None => None,
    }
}

/// Keeps the versions with the given major version, matching the pattern
/// and observed on or after the date. A pattern that does not compile, or a
/// date that is not `YYYY-MM-DD`, is an error (the pattern is checked first).
pub fn filter_versions(versions: Vec<PackageEntry>, major: Option<u64>, pattern: Option<&str>, since: Option<&str>)
    -> (r: Result<Vec<PackageEntry>, CoreError>)
    ensures
        (pattern matches Some(p) && !regex_compiles(p@)) ==> r is Err,
        (since matches Some(s) && date_start_of(s@) is None) ==> r is Err,
        r is Err ==> (pattern matches Some(p) && !regex_compiles(p@))
            || (since matches Some(s) && date_start_of(s@) is None),
        r matches Ok(v) ==> v@ == kept(versions@, major, opt_str(pattern), since_bound(since)),
{
    match pattern {
        Some(p) => {
            if !pattern_compiles(p) {
                let mut msg = String::from_str("Invalid regex pattern: ");
                msg.append(p);
                return Err(CoreError::VersionParsing(msg));
            }
        },
        None => {},
    }
    let since_ts: Option<u64> = match since {
        Some(s) => match date_start(s) {
            Some(t) => Some(t as u64),
            None => {
                let mut msg = String::from_str("Invalid date format: ");
                msg.append(s);
                return Err(CoreError::VersionParsing(msg));
            },
        },
        None => None,
    };
    let ghost pat = opt_str(pattern);
    let mut out: Vec<PackageEntry> = Vec::new();
    let mut input = versions;
    let ghost orig = input@;
    let n = input.len();
    let mut i: usize = 0;
    assert(orig.take(0) =~= Seq::<PackageEntry>::empty());
    assert(orig.skip(0) =~= orig);
    while i < n
        invariant
            n == orig.len(),
            i <= n,
            input@ == orig.skip(i as int),
            out@ == kept(orig.take(i as int), major, pat, since_ts),
            pat == opt_str(pattern),
            pattern matches Some(p) ==> regex_compiles(p@),
            since_ts == since_bound(since),
        decreases n - i,
    {
        let e = input.remove(0);
        assert(e == orig[i as int]);
        assert(input@ =~= orig.skip(i + 1));
        assert(orig.take(i + 1).drop_last() =~= orig.take(i as int));
        assert(orig.take(i + 1).last() == e);
        let ok_major = match major {
            Some(m) => has_major(e.version.as_str(), m),
            None => true,
        };
        let ok_pattern = match pattern {
            Some(p) => pattern_matches(p, e.version.as_str()),
            None => true,
        };
        let ok_since = match since_ts {
            Some(t) => e.timestamp >= t,
            None => true,
        };
        if ok_major && ok_pattern && ok_since {
            out.push(e);
        }
        i = i + 1;
    }
    assert(orig.take(n as int) =~= orig);
    Ok(out)
}

} // verus!
