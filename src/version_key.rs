//! Ordering of free-form version strings: numeric components, then the
//! pre-release tier (stable > rc > beta > alpha), then the pre-release index.

use vstd::prelude::*;
use std::cmp::Ordering;
use crate::text::{chars_of, is_digit};
use crate::entry::PackageEntry;

verus! {

broadcast use vstd::seq_lib::group_to_multiset_ensures;

/// A comparable key derived from a version string.
#[derive(Debug, Clone, PartialEq, Eq)]
pub struct VersionKey {
    /// Numeric components, e.g. `[1, 20, 2]` for `1.20.2`.
    pub nums: Vec<u64>,
    /// 3 = stable, 2 = rc, 1 = beta, 0 = alpha.
    pub pre_tier: u8,
    /// Pre-release index, e.g. 3 for `rc3`.
    pub pre_num: u64,
}

pub open spec fn lower_char(c: char) -> char {
    if 'A' <= c && c <= 'Z' { (((c as u8) + 32) as u8) as char } else { c }
}

pub open spec fn lower(s: Seq<char>) -> Seq<char> {
    s.map_values(|c: char| lower_char(c))
}

/// Replaces every occurrence of `from` by `to`, scanning left to right.
pub open spec fn replace_all(s: Seq<char>, from: Seq<char>, to: Seq<char>) -> Seq<char>
    decreases s.len(),
{
    if from.len() == 0 || s.len() < from.len() {
        s
    } else if s.take(from.len() as int) == from {
        to + replace_all(s.skip(from.len() as int), from, to)
    } else {
        seq![s[0]] + replace_all(s.skip(1), from, to)
    }
}

pub open spec fn rc_sep() -> Seq<char> { seq!['-', 'r', 'c', '.'] }
pub open spec fn beta_sep() -> Seq<char> { seq!['-', 'b', 'e', 't', 'a', '.'] }
pub open spec fn alpha_sep() -> Seq<char> { seq!['-', 'a', 'l', 'p', 'h', 'a', '.'] }
pub open spec fn rc_tag() -> Seq<char> { seq!['r', 'c'] }
pub open spec fn beta_tag() -> Seq<char> { seq!['b', 'e', 't', 'a'] }
pub open spec fn alpha_tag() -> Seq<char> { seq!['a', 'l', 'p', 'h', 'a'] }

/// Lower-cased, with `-rc.`, `-beta.` and `-alpha.` folded into `rc`, `beta`, `alpha`.
pub open spec fn normalized(v: Seq<char>) -> Seq<char> {
    replace_all(replace_all(replace_all(lower(v), rc_sep(), rc_tag()), beta_sep(), beta_tag()), alpha_sep(), alpha_tag())
}

pub open spec fn num_char(c: char) -> bool {
    is_digit(c) || c == '.'
}

/// Index of the first character that is neither a digit nor a dot.
pub open spec fn tag_start(s: Seq<char>) -> int
    decreases s.len(),
{
    if s.len() == 0 {
        0
    } else if !num_char(s[0]) {
        0
    } else {
        1 + tag_start(s.skip(1))
    }
}

pub open spec fn digits_value(s: Seq<char>) -> nat
    decreases s.len(),
{
    if s.len() == 0 {
        0
    } else {
        digits_value(s.drop_last()) * 10 + ((s.last() as nat) - ('0' as nat)) as nat
    }
}

pub open spec fn all_digits(s: Seq<char>) -> bool {
    forall|i: int| 0 <= i < s.len() ==> is_digit(#[trigger] s[i])
}

/// `str::parse::<u64>`, with 0 wherever it fails.
pub open spec fn parse_u64_or_zero(s: Seq<char>) -> u64 {
    let d = if s.len() > 0 && s[0] == '+' { s.skip(1) } else { s };
    if d.len() > 0 && all_digits(d) && digits_value(d) <= u64::MAX as nat {
        digits_value(d) as u64
    } else {
        0
    }
}

/// The numeric components: dot-separated, empty pieces dropped.
pub open spec fn num_components(s: Seq<char>) -> Seq<u64> {
    nonempty_values(crate::validate::split_on(s, '.'))
}

/// The parsed values of the non-empty pieces, in order.
pub open spec fn nonempty_values(parts: Seq<Seq<char>>) -> Seq<u64>
    decreases parts.len(),
{
    if parts.len() == 0 {
        Seq::empty()
    } else {
        let prev = nonempty_values(parts.drop_last());
        if parts.last().len() > 0 { prev.push(parse_u64_or_zero(parts.last())) } else { prev }
    }
}

pub open spec fn digits_only(s: Seq<char>) -> Seq<char>
    decreases s.len(),
{
    if s.len() == 0 {
        s
    } else if is_digit(s.last()) {
        digits_only(s.drop_last()).push(s.last())
    } else {
        digits_only(s.drop_last())
    }
}

pub open spec fn tier_of(rest: Seq<char>) -> (u8, u64) {
    if rest.len() == 0 {
        (3, 0)
    } else if crate::text::starts_with(rest, rc_tag()) {
        (2, parse_u64_or_zero(rest.skip(2)))
    } else if crate::text::starts_with(rest, beta_tag()) {
        (1, parse_u64_or_zero(rest.skip(4)))
    } else if crate::text::starts_with(rest, alpha_tag()) {
        (0, parse_u64_or_zero(rest.skip(5)))
    } else {
        (3, parse_u64_or_zero(digits_only(rest)))
    }
}

pub open spec fn key_nums(v: Seq<char>) -> Seq<u64> {
    let n = normalized(v);
    num_components(n.take(tag_start(n)))
}

pub open spec fn key_tier(v: Seq<char>) -> (u8, u64) {
    let n = normalized(v);
    tier_of(n.skip(tag_start(n)))
}

pub open spec fn component(a: Seq<u64>, i: int) -> u64 {
    if 0 <= i < a.len() { a[i] } else { 0 }
}

/// Component-wise comparison from index `i`, missing components read as 0.
pub open spec fn cmp_nums_from(a: Seq<u64>, b: Seq<u64>, i: int) -> Ordering
    decreases a.len() + b.len() - i,
{
    if i >= a.len() && i >= b.len() {
        Ordering::Equal
    } else if component(a, i) < component(b, i) {
        Ordering::Less
    } else if component(a, i) > component(b, i) {
        Ordering::Greater
    } else {
        cmp_nums_from(a, b, i + 1)
    }
}

pub open spec fn cmp_nums(a: Seq<u64>, b: Seq<u64>) -> Ordering {
    cmp_nums_from(a, b, 0)
}

pub open spec fn cmp_u64(a: u64, b: u64) -> Ordering {
    if a < b { Ordering::Less } else if a > b { Ordering::Greater } else { Ordering::Equal }
}

/// How version `a` stands to version `b`: `Greater` when `a` is newer.
#[verifier::opaque]
pub open spec fn cmp_versions(a: Seq<char>, b: Seq<char>) -> Ordering {
    let c = cmp_nums(key_nums(a), key_nums(b));
    if c != Ordering::Equal {
        c
    } else if key_tier(a).0 != key_tier(b).0 {
        cmp_u64(key_tier(a).0 as u64, key_tier(b).0 as u64)
    } else {
        cmp_u64(key_tier(a).1, key_tier(b).1)
    }
}


pub fn lower_exec(v: &[char]) -> (r: Vec<char>)
    ensures
        r@ == lower(v@),
{
    let mut r: Vec<char> = Vec::new();
    let mut i: usize = 0;
    while i < v.len()
        invariant
            i <= v.len(),
            r@ =~= lower(v@.take(i as int)),
        decreases v.len() - i,
    {
        let c = v[i];
        let l = if 'A' <= c && c <= 'Z' { ((c as u8) + 32) as char } else { c };
        r.push(l);
        i = i + 1;
        assert(r@ =~= lower(v@.take(i as int)));
    }
    assert(v@.take(v.len() as int) =~= v@);
    r
}

fn starts_with_at(s: &[char], i: usize, p: &[char]) -> (r: bool)
    requires
        i <= s.len(),
    ensures
        r == (p@.len() <= s@.len() - i && s@.skip(i as int).take(p@.len() as int) == p@),
{
    let r = crate::text::occurs_at_exec(s, p, i);
    proof {
        if p@.len() <= s@.len() - i {
            assert(s@.skip(i as int).take(p@.len() as int) =~= s@.subrange(i as int, i + p@.len()));
        }
    }
    r
}

fn replace_all_exec(s: &[char], from: &[char], to: &[char]) -> (r: Vec<char>)
    requires
        from@.len() > 0,
    ensures
        r@ == replace_all(s@, from@, to@),
{
    let mut r: Vec<char> = Vec::new();
    let mut i: usize = 0;
    assert(s@.skip(0) =~= s@);
    assert(r@ + replace_all(s@, from@, to@) =~= replace_all(s@, from@, to@));
    while i < s.len()
        invariant
            i <= s.len(),
            from@.len() > 0,
            replace_all(s@, from@, to@) == r@ + replace_all(s@.skip(i as int), from@, to@),
        decreases s.len() - i,
    {
        let rest = Ghost(s@.skip(i as int));
        if from.len() <= s.len() - i && starts_with_at(s, i, from) {
            let mut k: usize = 0;
            let ghost r0 = r@;
            while k < to.len()
                invariant
                    k <= to.len(),
                    r@ == r0 + to@.take(k as int),
                decreases to.len() - k,
            {
                r.push(to[k]);
                k = k + 1;
                assert(r@ =~= r0 + to@.take(k as int));
            }
            assert(to@.take(to.len() as int) =~= to@);
            assert(rest@.skip(from@.len() as int) =~= s@.skip(i + from.len()));
            i = i + from.len();
            assert(r0 + (to@ + replace_all(s@.skip(i as int), from@, to@)) =~= r@ + replace_all(s@.skip(i as int), from@, to@));
        } else {
            proof {
                if rest@.len() >= from@.len() {
                    assert(!(rest@.take(from@.len() as int) == from@));
                }
            }
            let ghost r0 = r@;
            r.push(s[i]);
            assert(rest@.skip(1) =~= s@.skip(i + 1));
            proof {
            if rest@.len() < from@.len() {
                assert(replace_all(rest@, from@, to@) == rest@);
                assert(replace_all(s@.skip(i + 1), from@, to@) == s@.skip(i + 1)) by {
                    assert(s@.skip(i + 1).len() < from@.len());
                }
                assert(rest@ =~= seq![s@[i as int]] + s@.skip(i + 1));
            }
            }
            i = i + 1;
            assert(r0 + (seq![s@[i - 1]] + replace_all(s@.skip(i as int), from@, to@)) =~= r@ + replace_all(s@.skip(i as int), from@, to@));
        }
    }
    assert(s@.skip(s.len() as int) =~= Seq::<char>::empty());
    assert(r@ + Seq::<char>::empty() =~= r@);
    r
}


fn tag_start_exec(s: &[char]) -> (r: usize)
    ensures
        r as int == tag_start(s@),
        r <= s.len(),
{
    let mut i: usize = 0;
    assert(s@.skip(0) =~= s@);
    while i < s.len() && (('0' <= s[i] && s[i] <= '9') || s[i] == '.')
        invariant
            i <= s.len(),
            tag_start(s@) == i + tag_start(s@.skip(i as int)),
        decreases s.len() - i,
    {
        assert(s@.skip(i as int).skip(1) =~= s@.skip(i + 1));
        i = i + 1;
    }
    i
}

fn parse_u64_or_zero_exec(s: &[char]) -> (r: u64)
    ensures
        r == parse_u64_or_zero(s@),
{
    let start: usize = if s.len() > 0 && s[0] == '+' { 1 } else { 0 };
    let ghost d = if s@.len() > 0 && s@[0] == '+' { s@.skip(1) } else { s@ };
    assert(d =~= s@.subrange(start as int, s@.len() as int));
    if start >= s.len() {
        return 0;
    }
    let mut acc: u64 = 0;
    let mut overflow = false;
    let mut i: usize = start;
    assert(s@.subrange(start as int, start as int) =~= Seq::<char>::empty());
    while i < s.len()
        invariant
            start <= i <= s.len(),
            d == s@.subrange(start as int, s@.len() as int),
            d == (if s@.len() > 0 && s@[0] == '+' { s@.skip(1) } else { s@ }),
            all_digits(s@.subrange(start as int, i as int)),
            !overflow ==> acc as nat == digits_value(s@.subrange(start as int, i as int)),
            overflow ==> digits_value(s@.subrange(start as int, i as int)) > u64::MAX as nat,
        decreases s.len() - i,
    {
        let c = s[i];
        if !('0' <= c && c <= '9') {
            assert(d[i - start] == c);
            assert(!is_digit(d[i - start]));
            assert(!all_digits(d));
            return 0;
        }
        let ghost pre = s@.subrange(start as int, i as int);
        let ghost nxt = s@.subrange(start as int, i + 1);
        assert(nxt.drop_last() =~= pre);
        assert(nxt.last() == c);
        let dig: u64 = (c as u32 - '0' as u32) as u64;
        if !overflow {
            if acc > (u64::MAX - dig) / 10 {
                overflow = true;
                assert(digits_value(nxt) == digits_value(pre) * 10 + dig) by (nonlinear_arith)
                    requires digits_value(nxt) == digits_value(pre) * 10 + ((c as nat) - ('0' as nat)) as nat,
                        dig == (c as nat) - ('0' as nat);
                assert(acc * 10 + dig > u64::MAX) by (nonlinear_arith)
                    requires acc > (u64::MAX - dig) / 10, dig <= 9;
            } else {
                assert(acc * 10 + dig <= u64::MAX) by (nonlinear_arith)
                    requires acc <= (u64::MAX - dig) / 10, dig <= 9;
                acc = acc * 10 + dig;
            }
        } else {
            assert(digits_value(nxt) >= digits_value(pre)) by (nonlinear_arith)
                requires digits_value(nxt) == digits_value(pre) * 10 + ((c as nat) - ('0' as nat)) as nat;
        }
        i = i + 1;
        assert(all_digits(s@.subrange(start as int, i as int))) by {
            assert forall|j: int| 0 <= j < nxt.len() implies is_digit(#[trigger] nxt[j]) by {
                if j < pre.len() {
                    assert(nxt[j] == pre[j]);
                }
            }
        }
    }
    assert(s@.subrange(start as int, i as int) =~= d);
    if overflow { 0 } else { acc }
}

fn nonempty_values_exec(s: &[char]) -> (r: Vec<u64>)
    ensures
        r@ == num_components(s@),
{
    let parts = crate::validate::split_chars(s, '.');
    let ghost sp = crate::validate::split_on(s@, '.');
    let mut r: Vec<u64> = Vec::new();
    let mut j: usize = 0;
    assert(sp.take(0) =~= Seq::<Seq<char>>::empty());
    while j < parts.len()
        invariant
            j <= parts.len(),
            parts@.len() == sp.len(),
            forall|k: int| 0 <= k < parts@.len() ==> (#[trigger] parts@[k])@ == sp[k],
            r@ == nonempty_values(sp.take(j as int)),
        decreases parts.len() - j,
    {
        let p = &parts[j];
        assert(sp.take(j + 1).drop_last() =~= sp.take(j as int));
        assert(sp.take(j + 1).last() == p@);
        if p.len() > 0 {
            let v = parse_u64_or_zero_exec(p.as_slice());
            r.push(v);
        }
        j = j + 1;
    }
    assert(sp.take(sp.len() as int) =~= sp);
    r
}

fn digits_only_exec(s: &[char]) -> (r: Vec<char>)
    ensures
        r@ == digits_only(s@),
{
    let mut r: Vec<char> = Vec::new();
    let mut i: usize = 0;
    assert(s@.take(0) =~= Seq::<char>::empty());
    while i < s.len()
        invariant
            i <= s.len(),
            r@ == digits_only(s@.take(i as int)),
        decreases s.len() - i,
    {
        assert(s@.take(i + 1).drop_last() =~= s@.take(i as int));
        assert(s@.take(i + 1).last() == s@[i as int]);
        if '0' <= s[i] && s[i] <= '9' {
            r.push(s[i]);
        }
        i = i + 1;
    }
    assert(s@.take(s.len() as int) =~= s@);
    r
}

fn tier_exec(rest: &[char]) -> (r: (u8, u64))
    ensures
        r == tier_of(rest@),
{
    if rest.len() == 0 {
        return (3, 0);
    }
    let rc = vec!['r', 'c'];
    let beta = vec!['b', 'e', 't', 'a'];
    let alpha = vec!['a', 'l', 'p', 'h', 'a'];
    assert(rc@ =~= rc_tag());
    assert(beta@ =~= beta_tag());
    assert(alpha@ =~= alpha_tag());
    if crate::text::occurs_at_exec(rest, &rc, 0) {
        let tail = &rest[2..rest.len()];
        assert(tail@ =~= rest@.skip(2));
        (2, parse_u64_or_zero_exec(tail))
    } else if crate::text::occurs_at_exec(rest, &beta, 0) {
        let tail = &rest[4..rest.len()];
        assert(tail@ =~= rest@.skip(4));
        (1, parse_u64_or_zero_exec(tail))
    } else if crate::text::occurs_at_exec(rest, &alpha, 0) {
        let tail = &rest[5..rest.len()];
        assert(tail@ =~= rest@.skip(5));
        (0, parse_u64_or_zero_exec(tail))
    } else {
        let digits = digits_only_exec(rest);
        (3, parse_u64_or_zero_exec(digits.as_slice()))
    }
}

fn normalized_exec(v: &str) -> (r: Vec<char>)
    ensures
        r@ == normalized(v@),
{
    let chars = chars_of(v);
    let l = lower_exec(chars.as_slice());
    let rc_sep_v = vec!['-', 'r', 'c', '.'];
    let rc = vec!['r', 'c'];
    let beta_sep_v = vec!['-', 'b', 'e', 't', 'a', '.'];
    let beta = vec!['b', 'e', 't', 'a'];
    let alpha_sep_v = vec!['-', 'a', 'l', 'p', 'h', 'a', '.'];
    let alpha = vec!['a', 'l', 'p', 'h', 'a'];
    assert(rc_sep_v@ =~= rc_sep());
    assert(rc@ =~= rc_tag());
    assert(beta_sep_v@ =~= beta_sep());
    assert(beta@ =~= beta_tag());
    assert(alpha_sep_v@ =~= alpha_sep());
    assert(alpha@ =~= alpha_tag());
    let a = replace_all_exec(l.as_slice(), rc_sep_v.as_slice(), rc.as_slice());
    let b = replace_all_exec(a.as_slice(), beta_sep_v.as_slice(), beta.as_slice());
    replace_all_exec(b.as_slice(), alpha_sep_v.as_slice(), alpha.as_slice())
}

/// The comparable key of a version string.
pub fn parse_version_key(v: &str) -> (r: VersionKey)
    ensures
        r.nums@ == key_nums(v@),
        (r.pre_tier, r.pre_num) == key_tier(v@),
{
    let n = normalized_exec(v);
    let ts = tag_start_exec(n.as_slice());
    let num_part = &n.as_slice()[0..ts];
    let rest = &n.as_slice()[ts..n.len()];
    assert(num_part@ =~= n@.take(ts as int));
    assert(rest@ =~= n@.skip(ts as int));
    let nums = nonempty_values_exec(num_part);
    let (pre_tier, pre_num) = tier_exec(rest);
    VersionKey { nums, pre_tier, pre_num }
}

/// The leading numeric component of a version, `u64::MAX` when it has none.
pub open spec fn major_of(v: Seq<char>) -> u64 {
    if key_nums(v).len() > 0 { key_nums(v)[0] } else { u64::MAX }
}

/// Whether a version's leading numeric component is `major`.
pub fn has_major(version: &str, major: u64) -> (r: bool)
    ensures
        r == (major_of(version@) == major),
{
    let k = parse_version_key(version);
    let first = if k.nums.len() > 0 { k.nums[0] } else { u64::MAX };
    first == major
}

/// Component-wise comparison of two numeric-component lists; a missing
/// trailing component counts as 0.
pub fn cmp_num_vecs(a: &[u64], b: &[u64]) -> (r: Ordering)
    ensures
        r == cmp_nums(a@, b@),
{
    let len = if a.len() >= b.len() { a.len() } else { b.len() };
    let mut i: usize = 0;
    while i < len
        invariant
            i <= len,
            len == if a@.len() >= b@.len() { a@.len() } else { b@.len() },
            cmp_nums(a@, b@) == cmp_nums_from(a@, b@, i as int),
        decreases len - i,
    {
        let av = if i < a.len() { a[i] } else { 0 };
        let bv = if i < b.len() { b[i] } else { 0 };
        if av < bv {
            return Ordering::Less;
        } else if av > bv {
            return Ordering::Greater;
        }
        i = i + 1;
    }
    Ordering::Equal
}

fn cmp_u64_exec(a: u64, b: u64) -> (r: Ordering)
    ensures
        r == cmp_u64(a, b),
{
    if a < b { Ordering::Less } else if a > b { Ordering::Greater } else { Ordering::Equal }
}

/// How version `a` stands to version `b`: `Greater` when `a` is newer.
pub fn compare_versions(a: &str, b: &str) -> (r: Ordering)
    ensures
        r == cmp_versions(a@, b@),
{
    reveal(cmp_versions);
    let ka = parse_version_key(a);
    let kb = parse_version_key(b);
    let c = cmp_num_vecs(ka.nums.as_slice(), kb.nums.as_slice());
    match c {
        Ordering::Equal => {},
        _ => { return c; },
    }
    if ka.pre_tier != kb.pre_tier {
        cmp_u64_exec(ka.pre_tier as u64, kb.pre_tier as u64)
    } else {
        cmp_u64_exec(ka.pre_num, kb.pre_num)
    }
}


/// When the numeric components differ, they alone decide, whatever the tags.
pub proof fn lemma_numeric_components_dominate(a: Seq<char>, b: Seq<char>)
    requires
        cmp_nums(key_nums(a), key_nums(b)) != Ordering::Equal,
    ensures
        cmp_versions(a, b) == cmp_nums(key_nums(a), key_nums(b)),
{
    reveal(cmp_versions);
}

/// With equal numeric components, a higher pre-release tier (stable > rc >
/// beta > alpha) is newer, and within one tier a higher index is newer.
pub proof fn lemma_tier_then_index(a: Seq<char>, b: Seq<char>)
    requires
        cmp_nums(key_nums(a), key_nums(b)) == Ordering::Equal,
    ensures
        key_tier(a).0 > key_tier(b).0 ==> cmp_versions(a, b) == Ordering::Greater,
        key_tier(a).0 < key_tier(b).0 ==> cmp_versions(a, b) == Ordering::Less,
        key_tier(a).0 == key_tier(b).0 ==> cmp_versions(a, b) == cmp_u64(key_tier(a).1, key_tier(b).1),
{
    reveal(cmp_versions);
}

proof fn lemma_cmp_nums_from_antisym(a: Seq<u64>, b: Seq<u64>, i: int)
    ensures
        cmp_nums_from(a, b, i) == Ordering::Less <==> cmp_nums_from(b, a, i) == Ordering::Greater,
        cmp_nums_from(a, b, i) == Ordering::Equal <==> cmp_nums_from(b, a, i) == Ordering::Equal,
    decreases a.len() + b.len() - i,
{
    if !(i >= a.len() && i >= b.len()) && component(a, i) == component(b, i) {
        lemma_cmp_nums_from_antisym(a, b, i + 1);
    }
}

/// `a` is older than `b` exactly when `b` is newer than `a`.
pub proof fn lemma_cmp_versions_antisym(a: Seq<char>, b: Seq<char>)
    ensures
        cmp_versions(a, b) == Ordering::Less <==> cmp_versions(b, a) == Ordering::Greater,
{
    reveal(cmp_versions);
    lemma_cmp_nums_from_antisym(key_nums(a), key_nums(b), 0);
}

proof fn lemma_cmp_nums_from_trans(a: Seq<u64>, b: Seq<u64>, c: Seq<u64>, i: int)
    ensures
        cmp_nums_from(a, b, i) != Ordering::Less && cmp_nums_from(b, c, i) != Ordering::Less
            ==> cmp_nums_from(a, c, i) != Ordering::Less,
        cmp_nums_from(a, b, i) == Ordering::Equal && cmp_nums_from(b, c, i) == Ordering::Equal
            ==> cmp_nums_from(a, c, i) == Ordering::Equal,
        (cmp_nums_from(a, b, i) == Ordering::Greater && cmp_nums_from(b, c, i) != Ordering::Less)
            || (cmp_nums_from(a, b, i) != Ordering::Less && cmp_nums_from(b, c, i) == Ordering::Greater)
            ==> cmp_nums_from(a, c, i) == Ordering::Greater,
    decreases a.len() + b.len() + c.len() - i,
{
    if i >= a.len() && i >= b.len() && i >= c.len() {
    } else {
        if component(a, i) == component(b, i) && component(b, i) == component(c, i) {
            lemma_cmp_nums_from_trans(a, b, c, i + 1);
        }
        if i >= a.len() && i >= c.len() {
            // then b has a component at i; all of a's and c's are 0 from here
            lemma_cmp_nums_zero_tail(a, c, i);
        }
    }
}

proof fn lemma_cmp_nums_zero_tail(a: Seq<u64>, c: Seq<u64>, i: int)
    requires
        i >= a.len(),
        i >= c.len(),
    ensures
        cmp_nums_from(a, c, i) == Ordering::Equal,
{
}

/// Versions ordered by `cmp_versions` form a total preorder: "not older
/// than" is transitive.
pub proof fn lemma_cmp_versions_trans(a: Seq<char>, b: Seq<char>, c: Seq<char>)
    requires
        cmp_versions(a, b) != Ordering::Less,
        cmp_versions(b, c) != Ordering::Less,
    ensures
        cmp_versions(a, c) != Ordering::Less,
{
    reveal(cmp_versions);
    lemma_cmp_nums_from_trans(key_nums(a), key_nums(b), key_nums(c), 0);
}

/// Entries ordered newest first: no entry is older than the one after it.
pub open spec fn newest_first(s: Seq<PackageEntry>) -> bool {
    forall|i: int| 0 <= i < s.len() - 1 ==> #[trigger] not_older_than_next(s, i)
}

pub open spec fn not_older_than_next(s: Seq<PackageEntry>, i: int) -> bool {
    cmp_versions(s[i].version@, s[i + 1].version@) != Ordering::Less
}

/// Every entry is at least as new as every entry after it.
pub open spec fn newest_first_pairwise(s: Seq<PackageEntry>) -> bool {
    forall|i: int, j: int| 0 <= i < j < s.len() ==>
        cmp_versions(#[trigger] s[i].version@, #[trigger] s[j].version@) != Ordering::Less
}

proof fn lemma_adjacent_gives_pairwise(s: Seq<PackageEntry>)
    requires
        newest_first(s),
    ensures
        newest_first_pairwise(s),
{
    assert forall|i: int, j: int| 0 <= i < j < s.len() implies
        cmp_versions(#[trigger] s[i].version@, #[trigger] s[j].version@) != Ordering::Less by {
        lemma_chain(s, i, j);
    }
}

proof fn lemma_chain(s: Seq<PackageEntry>, i: int, j: int)
    requires
        newest_first(s),
        0 <= i < j < s.len(),
    ensures
        cmp_versions(s[i].version@, s[j].version@) != Ordering::Less,
    decreases j - i,
{
    assert(not_older_than_next(s, i));
    if j > i + 1 {
        lemma_chain(s, i + 1, j);
        lemma_cmp_versions_trans(s[i].version@, s[i + 1].version@, s[j].version@);
    }
}

/// The entries of `s` whose version is equivalent to `v` (neither newer nor
/// older), in order.
pub open spec fn same_version(s: Seq<PackageEntry>, v: Seq<char>) -> Seq<PackageEntry>
    decreases s.len(),
{
    if s.len() == 0 {
        s
    } else if cmp_versions(s.last().version@, v) == Ordering::Equal {
        same_version(s.drop_last(), v).push(s.last())
    } else {
        same_version(s.drop_last(), v)
    }
}

proof fn lemma_same_version_append(x: Seq<PackageEntry>, y: Seq<PackageEntry>, v: Seq<char>)
    ensures
        same_version(x + y, v) == same_version(x, v) + same_version(y, v),
    decreases y.len(),
{
    if y.len() == 0 {
        assert(x + y =~= x);
        assert(same_version(x, v) + same_version(y, v) =~= same_version(x, v));
    } else {
        lemma_same_version_append(x, y.drop_last(), v);
        assert((x + y).drop_last() =~= x + y.drop_last());
        assert((x + y).last() == y.last());
        assert(same_version(x, v) + same_version(y.drop_last(), v).push(y.last())
            =~= (same_version(x, v) + same_version(y.drop_last(), v)).push(y.last()));
    }
}

proof fn lemma_same_version_none(y: Seq<PackageEntry>, v: Seq<char>)
    requires
        forall|k: int| 0 <= k < y.len() ==> cmp_versions((#[trigger] y[k]).version@, v) != Ordering::Equal,
    ensures
        same_version(y, v) == Seq::<PackageEntry>::empty(),
    decreases y.len(),
{
    if y.len() > 0 {
        assert forall|k: int| 0 <= k < y.drop_last().len() implies
            cmp_versions((#[trigger] y.drop_last()[k]).version@, v) != Ordering::Equal by {
            assert(y.drop_last()[k] == y[k]);
        }
        lemma_same_version_none(y.drop_last(), v);
        assert(cmp_versions(y[y.len() - 1].version@, v) != Ordering::Equal);
    }
}

/// Equivalence of versions is symmetric.
proof fn lemma_equal_symmetric(a: Seq<char>, b: Seq<char>)
    ensures
        cmp_versions(a, b) == Ordering::Equal <==> cmp_versions(b, a) == Ordering::Equal,
{
    lemma_cmp_versions_antisym(a, b);
    lemma_cmp_versions_antisym(b, a);
}

/// Inserting `e` right before the first entry older than it puts `e` after
/// every entry of its own version.
proof fn lemma_insert_same_version(before: Seq<PackageEntry>, p: int, e: PackageEntry, v: Seq<char>)
    requires
        0 <= p <= before.len(),
        newest_first_pairwise(before),
        p < before.len() ==> cmp_versions(before[p].version@, e.version@) == Ordering::Less,
    ensures
        same_version(before.insert(p, e), v) == same_version(before, v)
            + (if cmp_versions(e.version@, v) == Ordering::Equal { seq![e] } else { Seq::empty() }),
{
    let a = before.take(p);
    let b = before.skip(p);
    assert(before =~= a + b);
    assert(before.insert(p, e) =~= a + seq![e] + b);
    lemma_same_version_append(a, b, v);
    lemma_same_version_append(a + seq![e], b, v);
    lemma_same_version_append(a, seq![e], v);
    assert(same_version(seq![e], v) == (if cmp_versions(e.version@, v) == Ordering::Equal { seq![e] } else { Seq::<PackageEntry>::empty() })) by {
        let one = seq![e];
        assert(one.drop_last() =~= Seq::<PackageEntry>::empty());
        assert(one.last() == e);
        assert(same_version(one.drop_last(), v) == Seq::<PackageEntry>::empty());
        assert(Seq::<PackageEntry>::empty().push(e) =~= one);
    }
    if cmp_versions(e.version@, v) == Ordering::Equal {
        assert forall|k: int| 0 <= k < b.len() implies cmp_versions((#[trigger] b[k]).version@, v) != Ordering::Equal by {
            let x = b[k];
            assert(x == before[p + k]);
            // x is older than e
            if k > 0 {
                assert(cmp_versions(before[p].version@, before[p + k].version@) != Ordering::Less);
            }
            if cmp_versions(x.version@, e.version@) != Ordering::Less {
                if k > 0 {
                    lemma_cmp_versions_trans(before[p].version@, x.version@, e.version@);
                }
            }
            assert(cmp_versions(x.version@, e.version@) == Ordering::Less);
            if cmp_versions(x.version@, v) == Ordering::Equal {
                lemma_equal_symmetric(e.version@, v);
                lemma_cmp_versions_trans(x.version@, v, e.version@);
            }
        }
        lemma_same_version_none(b, v);
        assert(same_version(a, v) + same_version(b, v) =~= same_version(a, v));
        assert(same_version(a, v) + seq![e] + same_version(b, v) =~= same_version(a, v) + seq![e]);
    } else {
        assert(same_version(a, v) + Seq::<PackageEntry>::empty() =~= same_version(a, v));
        assert(same_version(before, v) + Seq::<PackageEntry>::empty() =~= same_version(before, v));
    }
}

/// The first position whose entry is older than `e`.
fn insert_position(out: &Vec<PackageEntry>, e: &PackageEntry) -> (p: usize)
    ensures
        p <= out@.len(),
        forall|k: int| 0 <= k < p ==> cmp_versions((#[trigger] out@[k]).version@, e.version@) != Ordering::Less,
        p < out@.len() ==> cmp_versions(out@[p as int].version@, e.version@) == Ordering::Less,
{
    let mut p: usize = 0;
    while p < out.len()
        invariant
            p <= out@.len(),
            forall|k: int| 0 <= k < p ==> cmp_versions((#[trigger] out@[k]).version@, e.version@) != Ordering::Less,
        decreases out@.len() - p,
    {
        if let Ordering::Less = compare_versions(out[p].version.as_str(), e.version.as_str()) {
            return p;
        }
        p = p + 1;
    }
    p
}

proof fn lemma_insert_keeps_order(before: Seq<PackageEntry>, p: int, e: PackageEntry)
    requires
        0 <= p <= before.len(),
        newest_first(before),
        p > 0 ==> cmp_versions(before[p - 1].version@, e.version@) != Ordering::Less,
        p < before.len() ==> cmp_versions(before[p].version@, e.version@) == Ordering::Less,
    ensures
        newest_first(before.insert(p, e)),
{
    let out = before.insert(p, e);
    if p < before.len() {
        lemma_cmp_versions_antisym(before[p].version@, e.version@);
    }
    assert forall|k: int| 0 <= k < out.len() - 1 implies #[trigger] not_older_than_next(out, k) by {
        if k < p - 1 {
            assert(out[k] == before[k] && out[k + 1] == before[k + 1]);
            assert(not_older_than_next(before, k));
        } else if k == p - 1 {
            assert(out[k] == before[k] && out[k + 1] == e);
        } else if k == p {
            assert(out[k] == e && out[k + 1] == before[k]);
        } else {
            assert(out[k] == before[k - 1] && out[k + 1] == before[k]);
            assert(not_older_than_next(before, k - 1));
        }
    }
}

/// Sorts entries newest first by version; entries of equal version keep
/// their relative order.
pub fn sort_versions_semver(versions: Vec<PackageEntry>) -> (r: Vec<PackageEntry>)
    ensures
        r@.to_multiset() == versions@.to_multiset(),
        r@.len() == versions@.len(),
        newest_first(r@),
        newest_first_pairwise(r@),
        forall|v: Seq<char>| #[trigger] same_version(r@, v) == same_version(versions@, v),
{
    let mut input = versions;
    let ghost orig = input@;
    let mut out: Vec<PackageEntry> = Vec::new();
    proof {
        assert(orig.take(0) =~= Seq::<PackageEntry>::empty());
        assert(orig.skip(0) =~= orig);
    }
    let n = input.len();
    let mut i: usize = 0;
    while i < n
        invariant
            n == orig.len(),
            i <= n,
            input@ == orig.skip(i as int),
            out@.to_multiset() == orig.take(i as int).to_multiset(),
            out@.len() == i,
            newest_first(out@),
            forall|v: Seq<char>| #[trigger] same_version(out@, v) == same_version(orig.take(i as int), v),
        decreases n - i,
    {
        let e = input.remove(0);
        assert(e == orig[i as int]);
        assert(input@ =~= orig.skip(i + 1));
        let p = insert_position(&out, &e);
        let ghost before = out@;
        out.insert(p, e);
        proof {
            lemma_adjacent_gives_pairwise(before);
            assert forall|v: Seq<char>| #[trigger] same_version(before.insert(p as int, e), v)
                == same_version(orig.take(i + 1), v) by {
                lemma_insert_same_version(before, p as int, e, v);
                assert(orig.take(i + 1).drop_last() =~= orig.take(i as int));
                assert(orig.take(i + 1).last() == e);
                if cmp_versions(e.version@, v) == Ordering::Equal {
                    assert(same_version(before, v) + seq![e] =~= same_version(before, v).push(e));
                } else {
                    assert(same_version(before, v) + Seq::<PackageEntry>::empty() =~= same_version(before, v));
                }
            }
            lemma_insert_keeps_order(before, p as int, e);
            vstd::seq_lib::to_multiset_insert(before, p as int, e);
            assert(orig.take(i + 1) =~= orig.take(i as int).push(e));
            vstd::seq_lib::to_multiset_build(orig.take(i as int), e);
        }
        i = i + 1;
    }
    assert(orig.take(n as int) =~= orig);
    proof {
        lemma_adjacent_gives_pairwise(out@);
    }
    out
}

} // verus!
