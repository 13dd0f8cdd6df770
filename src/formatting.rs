//! Human-readable numbers, durations and sizes for run summaries.

use vstd::prelude::*;
use crate::extract::append_chars;
use crate::text::{chars_of, string_of};

verus! {

pub open spec fn digit_char(d: nat) -> char {
    if d == 0 { '0' } else if d == 1 { '1' } else if d == 2 { '2' } else if d == 3 { '3' }
    else if d == 4 { '4' } else if d == 5 { '5' } else if d == 6 { '6' } else if d == 7 { '7' }
    else if d == 8 { '8' } else { '9' }
}

/// The decimal digits of `n`.
pub open spec fn decimal(n: nat) -> Seq<char>
    decreases n,
{
    if n < 10 { seq![digit_char(n)] } else { decimal(n / 10).push(digit_char(n % 10)) }
}

fn digit_exec(d: u64) -> (r: char)
    requires
        d < 10,
    ensures
        r == digit_char(d as nat),
{
    if d == 0 { '0' } else if d == 1 { '1' } else if d == 2 { '2' } else if d == 3 { '3' }
    else if d == 4 { '4' } else if d == 5 { '5' } else if d == 6 { '6' } else if d == 7 { '7' }
    else if d == 8 { '8' } else { '9' }
}

pub fn decimal_exec(n: u64) -> (r: Vec<char>)
    ensures
        r@ == decimal(n as nat),
    decreases n,
{
    if n < 10 {
        let r = vec![digit_exec(n)];
        assert(r@ =~= decimal(n as nat));
        r
    } else {
        let mut r = decimal_exec(n / 10);
        r.push(digit_exec(n % 10));
        r
    }
}

/// The first `k` digits of `s`, with a comma before each digit that starts
/// a group of three counted from the right.
pub open spec fn grouped_prefix(s: Seq<char>, k: int) -> Seq<char>
    decreases k,
{
    if k <= 0 {
        Seq::empty()
    } else {
        let prev = grouped_prefix(s, k - 1);
        if k - 1 > 0 && (s.len() - (k - 1)) % 3 == 0 {
            prev + seq![',', s[k - 1]]
        } else {
            prev.push(s[k - 1])
        }
    }
}

pub open spec fn grouped(n: nat) -> Seq<char> {
    grouped_prefix(decimal(n), decimal(n).len() as int)
}

/// `n` in decimal with thousands separators, e.g. `1,234,567`.
pub fn format_number(n: usize) -> (r: String)
    ensures
        r@ == grouped(n as nat),
{
    let s = decimal_exec(n as u64);
    let mut out: Vec<char> = Vec::new();
    let mut i: usize = 0;
    while i < s.len()
        invariant
            i <= s@.len(),
            s@ == decimal(n as nat),
            out@ == grouped_prefix(s@, i as int),
        decreases s@.len() - i,
    {
        if i > 0 && (s.len() - i) % 3 == 0 {
            out.push(',');
        }
        out.push(s[i]);
        i = i + 1;
        assert(out@ =~= grouped_prefix(s@, i as int));
    }
    string_of(out.as_slice())
}

/// A duration given in milliseconds: `12.3s` under a minute (tenths
/// rounded half up), `4m 5s` under an hour, else `1h 2m 3s`.
pub open spec fn duration_text(millis: nat) -> Seq<char> {
    let secs = millis / 1000;
    if secs < 60 {
        let tenths = (millis + 50) / 100;
        decimal(tenths / 10) + seq!['.'] + decimal(tenths % 10) + seq!['s']
    } else if secs < 3600 {
        decimal(secs / 60) + seq!['m', ' '] + decimal(secs % 60) + seq!['s']
    } else {
        decimal(secs / 3600) + seq!['h', ' '] + decimal((secs % 3600) / 60) + seq!['m', ' ']
            + decimal(secs % 60) + seq!['s']
    }
}

pub fn format_duration(millis: u64) -> (r: String)
    ensures
        r@ == duration_text(millis as nat),
{
    let secs = millis / 1000;
    let mut out: Vec<char> = Vec::new();
    if secs < 60 {
        let tenths = (millis + 50) / 100;
        append_chars(&mut out, decimal_exec(tenths / 10).as_slice());
        out.push('.');
        append_chars(&mut out, decimal_exec(tenths % 10).as_slice());
        out.push('s');
    } else if secs < 3600 {
        append_chars(&mut out, decimal_exec(secs / 60).as_slice());
        out.push('m');
        out.push(' ');
        append_chars(&mut out, decimal_exec(secs % 60).as_slice());
        out.push('s');
    } else {
        append_chars(&mut out, decimal_exec(secs / 3600).as_slice());
        out.push('h');
        out.push(' ');
        append_chars(&mut out, decimal_exec((secs % 3600) / 60).as_slice());
        out.push('m');
        out.push(' ');
        append_chars(&mut out, decimal_exec(secs % 60).as_slice());
        out.push('s');
    }
    assert(out@ =~= duration_text(millis as nat));
    string_of(out.as_slice())
}

pub const KIB: u64 = 1024;
pub const MIB: u64 = 1048576;
pub const GIB: u64 = 1073741824;

/// `value / unit` with `places` decimals, rounded half up.
pub open spec fn scaled(value: nat, unit: nat, places: nat) -> Seq<char> {
    let factor: nat = if places == 2 { 100 } else { 10 };
    let q = (value * factor + unit / 2) / unit;
    let frac = decimal(q % factor);
    let padded = if places == 2 && q % factor < 10 { seq!['0'] + frac } else { frac };
    decimal(q / factor) + seq!['.'] + padded
}

/// A byte count in the largest binary unit it reaches: `1.50 GiB`,
/// `3.25 MiB`, `2.0 KiB`, `512 B`.
pub open spec fn size_text(bytes: nat) -> Seq<char> {
    if bytes >= GIB {
        scaled(bytes, GIB as nat, 2) + " GiB"@
    } else if bytes >= MIB {
        scaled(bytes, MIB as nat, 2) + " MiB"@
    } else if bytes >= KIB {
        scaled(bytes, KIB as nat, 1) + " KiB"@
    } else {
        decimal(bytes) + " B"@
    }
}

fn scaled_exec(value: u64, unit: u64, places: u64) -> (r: Vec<char>)
    requires
        unit == KIB || unit == MIB || unit == GIB,
        places == 1 || places == 2,
    ensures
        r@ == scaled(value as nat, unit as nat, places as nat),
{
    let factor: u128 = if places == 2 { 100 } else { 10 };
    assert((value as u128) * factor <= 100 * (u64::MAX as u128)) by (nonlinear_arith)
        requires factor <= 100;
    let num: u128 = (value as u128) * factor + (unit as u128) / 2;
    let u: u128 = unit as u128;
    let q128: u128 = num / u;
    assert(q128 <= u64::MAX) by (nonlinear_arith)
        requires
            q128 == num / u,
            num <= 100 * (u64::MAX as u128) + u64::MAX as u128, u >= 1024;
    let q = q128 as u64;
    let f = factor as u64;
    let mut out = decimal_exec(q / f);
    out.push('.');
    if places == 2 && q % f < 10 {
        out.push('0');
    }
    append_chars(&mut out, decimal_exec(q % f).as_slice());
    assert(out@ =~= scaled(value as nat, unit as nat, places as nat));
    out
}

pub fn format_size(bytes: u64) -> (r: String)
    ensures
        r@ == size_text(bytes as nat),
{
    let mut out = if bytes >= GIB {
        let mut o = scaled_exec(bytes, GIB, 2);
        append_chars(&mut o, chars_of(" GiB").as_slice());
        o
    } else if bytes >= MIB {
        let mut o = scaled_exec(bytes, MIB, 2);
        append_chars(&mut o, chars_of(" MiB").as_slice());
        o
    } else if bytes >= KIB {
        let mut o = scaled_exec(bytes, KIB, 1);
        append_chars(&mut o, chars_of(" KiB").as_slice());
        o
    } else {
        let mut o = decimal_exec(bytes);
        append_chars(&mut o, chars_of(" B").as_slice());
        o
    };
    string_of(out.as_slice())
}

/// The package set an attribute belongs to: the part before the first dot,
/// or `(top-level)`.
pub open spec fn namespace_of(attr: Seq<char>) -> Seq<char> {
    if attr.contains('.') {
        attr.take(crate::fallback::first_index(attr, '.'))
    } else {
        "(top-level)"@
    }
}

pub fn attr_namespace(attr_name: &str) -> (r: String)
    ensures
        r@ == namespace_of(attr_name@),
{
    let a = chars_of(attr_name);
    if crate::text::has_char(a.as_slice(), '.') {
        let i = crate::fallback::first_index_exec(a.as_slice(), '.');
        string_of(&a.as_slice()[0..i])
    } else {
        String::from_str("(top-level)")
    }
}

/// Whether a listing is narrowed by a major version, a pattern or a date.
pub fn filter_is_specific(major: Option<u64>, pattern: &Option<String>, since: &Option<String>) -> (r: bool)
    ensures
        r == (major is Some || pattern is Some || since is Some),
{
    major.is_some() || pattern.is_some() || since.is_some()
}


pub open spec fn plural(n: nat, unit: Seq<char>) -> Seq<char> {
    decimal(n) + seq![' '] + unit + (if n == 1 { Seq::<char>::empty() } else { seq!['s'] }) + " ago"@
}

/// How long before `now` the moment `then` lies (both in seconds since the
/// epoch): `just now` under a minute (or in the future), then minutes,
/// hours, days, months of 30 days and years of 365 days.
pub open spec fn relative_text(now: int, then: int) -> Seq<char> {
    let secs = now - then;
    if secs < 60 {
        "just now"@
    } else if secs < 3600 {
        plural((secs / 60) as nat, "min"@)
    } else if secs < 86400 {
        plural((secs / 3600) as nat, "hour"@)
    } else if secs < 86400 * 30 {
        plural((secs / 86400) as nat, "day"@)
    } else if secs < 86400 * 365 {
        plural((secs / 86400 / 30) as nat, "month"@)
    } else {
        plural((secs / 86400 / 365) as nat, "year"@)
    }
}

fn plural_exec(n: u64, unit: &str) -> (r: Vec<char>)
    ensures
        r@ == plural(n as nat, unit@),
{
    let mut out = decimal_exec(n);
    out.push(' ');
    append_chars(&mut out, chars_of(unit).as_slice());
    if n != 1 {
        out.push('s');
    }
    append_chars(&mut out, chars_of(" ago").as_slice());
    assert(out@ =~= plural(n as nat, unit@));
    out
}

pub fn format_relative_time(now: i64, then: i64) -> (r: String)
    ensures
        r@ == relative_text(now as int, then as int),
{
    let secs: i128 = (now as i128) - (then as i128);
    let out = if secs < 60 {
        chars_of("just now")
    } else if secs < 3600 {
        plural_exec((secs / 60) as u64, "min")
    } else if secs < 86400 {
        plural_exec((secs / 3600) as u64, "hour")
    } else if secs < 86400 * 30 {
        plural_exec((secs / 86400) as u64, "day")
    } else if secs < 86400 * 365 {
        plural_exec((secs / 86400 / 30) as u64, "month")
    } else {
        plural_exec((secs / 86400 / 365) as u64, "year")
    };
    string_of(out.as_slice())
}

} // verus!
