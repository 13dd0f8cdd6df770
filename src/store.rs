//! The fact store's rules: which observation a key keeps, and the compact
//! record a fact is stored as.

use vstd::prelude::*;
use crate::entry::{PackageEntry, key_of};
use crate::version_key::lower;
use crate::text::starts_with;
use crate::nar::sri_string;

verus! {

/// Does a new observation displace what is stored under its key? It does
/// when nothing is stored (or what is stored cannot be read back) and when
/// it is strictly newer; an equal timestamp never overwrites.
pub open spec fn replaces(existing: Option<PackageEntry>, new: PackageEntry) -> bool {
    match existing {
        None => true,
        Some(old) => new.timestamp > old.timestamp,
    }
}

/// The decision the store makes atomically for one conditional insert;
/// `true` means the new fact is the new best observation for its key.
pub fn should_replace(existing: Option<&PackageEntry>, new: &PackageEntry) -> (r: bool)
    ensures
        r == replaces(
            match existing {
                None => None,
                Some(o) => Some(*o),
            },
            *new,
        ),
{
    match existing {
        None => true,
        Some(old) => new.timestamp > old.timestamp,
    }
}

/// The store's fact keyspace, keyed by `attr_name:version`.
pub open spec fn fact_key(e: PackageEntry) -> Seq<char> {
    key_of(e.attr_name@, e.version@)
}

/// The store after one conditional insert.
pub open spec fn store_insert(m: Map<Seq<char>, PackageEntry>, e: PackageEntry) -> Map<Seq<char>, PackageEntry> {
    let k = fact_key(e);
    if replaces(if m.contains_key(k) { Some(m[k]) } else { None }, e) {
        m.insert(k, e)
    } else {
        m
    }
}

/// The store after conditional inserts of `es`, in order.
pub open spec fn store_insert_all(m: Map<Seq<char>, PackageEntry>, es: Seq<PackageEntry>) -> Map<Seq<char>, PackageEntry>
    decreases es.len(),
{
    if es.len() == 0 {
        m
    } else {
        store_insert(store_insert_all(m, es.drop_last()), es.last())
    }
}

/// Inserting the same fact twice leaves the store as inserting it once.
pub proof fn lemma_insert_idempotent(m: Map<Seq<char>, PackageEntry>, e: PackageEntry)
    ensures
        store_insert(store_insert(m, e), e) == store_insert(m, e),
{
}

/// Inserting `a` and then `b` leaves the store as inserting `a + b`.
pub proof fn lemma_insert_all_append(m: Map<Seq<char>, PackageEntry>, a: Seq<PackageEntry>, b: Seq<PackageEntry>)
    ensures
        store_insert_all(store_insert_all(m, a), b) == store_insert_all(m, a + b),
    decreases b.len(),
{
    if b.len() == 0 {
        assert(a + b =~= a);
    } else {
        lemma_insert_all_append(m, a, b.drop_last());
        assert((a + b).drop_last() =~= a + b.drop_last());
        assert((a + b).last() == b.last());
    }
}

/// For observations that all share one key, starting from a store without
/// it, the stored fact is the first of those with the greatest timestamp.
pub proof fn lemma_newest_wins(m: Map<Seq<char>, PackageEntry>, es: Seq<PackageEntry>, k: Seq<char>)
    requires
        es.len() > 0,
        !m.contains_key(k),
        forall|i: int| 0 <= i < es.len() ==> fact_key(#[trigger] es[i]) == k,
    ensures
        store_insert_all(m, es).contains_key(k),
        exists|j: int| 0 <= j < es.len() && store_insert_all(m, es)[k] == es[j]
            && (forall|i: int| 0 <= i < es.len() ==> (#[trigger] es[i]).timestamp <= es[j].timestamp)
            && (forall|i: int| 0 <= i < j ==> (#[trigger] es[i]).timestamp < es[j].timestamp),
    decreases es.len(),
{
    let last = es.last();
    assert(fact_key(es[es.len() - 1]) == k);
    if es.len() == 1 {
        assert(store_insert_all(m, es.drop_last()) == m);
        assert(store_insert_all(m, es)[k] == es[0]);
    } else {
        let pre = es.drop_last();
        assert forall|i: int| 0 <= i < pre.len() implies fact_key(#[trigger] pre[i]) == k by {
            assert(pre[i] == es[i]);
        }
        lemma_newest_wins(m, pre, k);
        let mid = store_insert_all(m, pre);
        let j = choose|j: int| 0 <= j < pre.len() && mid[k] == pre[j]
            && (forall|i: int| 0 <= i < pre.len() ==> (#[trigger] pre[i]).timestamp <= pre[j].timestamp)
            && (forall|i: int| 0 <= i < j ==> (#[trigger] pre[i]).timestamp < pre[j].timestamp);
        if last.timestamp > mid[k].timestamp {
            let w = es.len() - 1;
            assert(store_insert_all(m, es)[k] == es[w]);
            assert forall|i: int| 0 <= i < es.len() implies (#[trigger] es[i]).timestamp <= es[w].timestamp by {
                if i < pre.len() {
                    assert(es[i] == pre[i]);
                }
            }
            assert forall|i: int| 0 <= i < w implies (#[trigger] es[i]).timestamp < es[w].timestamp by {
                assert(es[i] == pre[i]);
            }
        } else {
            assert(store_insert_all(m, es)[k] == es[j]);
            assert forall|i: int| 0 <= i < es.len() implies (#[trigger] es[i]).timestamp <= es[j].timestamp by {
                if i < pre.len() {
                    assert(es[i] == pre[i]);
                }
            }
            assert forall|i: int| 0 <= i < j implies (#[trigger] es[i]).timestamp < es[j].timestamp by {
                assert(es[i] == pre[i]);
            }
        }
    }
}


// ─── the stored record ──────────────────────────────────────────────────────

/// A fact as the store keeps it: the revision hash as its 20 raw bytes.
#[derive(Debug, Clone, PartialEq, Eq)]
pub struct StoredRecord {
    pub attr_name: String,
    pub version: String,
    pub commit: Vec<u8>,
    /// The 32 digest bytes of the content hash, when the fact has one.
    pub nar: Option<Vec<u8>>,
    pub timestamp: u64,
    pub is_primary: bool,
}

/// Why a fact cannot be stored.
#[derive(Debug, Clone, Copy, PartialEq, Eq)]
pub enum StoreError {
    /// The revision hash is not 40 hexadecimal digits.
    InvalidCommitSha,
    /// The content hash is not `sha256-` and the base64 of 32 bytes.
    InvalidNarHash,
}

pub open spec fn hex_digit(n: nat) -> char {
    if n < 10 { crate::formatting::digit_char(n) } else if n == 10 { 'a' } else if n == 11 { 'b' }
    else if n == 12 { 'c' } else if n == 13 { 'd' } else if n == 14 { 'e' } else { 'f' }
}

/// Two lowercase hexadecimal digits per byte, high nibble first.
pub open spec fn hex_lower(b: Seq<u8>) -> Seq<char>
    decreases b.len(),
{
    if b.len() == 0 {
        Seq::empty()
    } else {
        hex_lower(b.drop_last()) + seq![hex_digit((b.last() / 16) as nat), hex_digit((b.last() % 16) as nat)]
    }
}

/// Relies on `data_encoding::HEXLOWER.encode`: lowercase hexadecimal.
#[verifier::external_body]
fn hex_encode(b: &[u8]) -> (r: String)
    ensures
        r@ == hex_lower(b@),
{
    data_encoding::HEXLOWER.encode(b)
}

/// Relies on `data_encoding::HEXLOWER.decode`: it accepts exactly the
/// lowercase hexadecimal texts, and gives back the bytes they encode.
#[verifier::external_body]
fn hex_decode(s: &str) -> (r: Option<Vec<u8>>)
    ensures
        r matches Some(b) ==> hex_lower(b@) == s@,
        r is None ==> forall|b: Seq<u8>| hex_lower(b) != s@,
{
    data_encoding::HEXLOWER.decode(s.as_bytes()).ok()
}

/// A revision hash the store accepts: 20 bytes, written in hexadecimal
/// with either case.
pub open spec fn storable_sha(sha: Seq<char>) -> bool {
    exists|b: Seq<u8>| b.len() == 20 && hex_lower(b) == lower(sha)
}

proof fn lemma_hex_len(b: Seq<u8>)
    ensures
        hex_lower(b).len() == 2 * b.len(),
    decreases b.len(),
{
    if b.len() > 0 {
        lemma_hex_len(b.drop_last());
    }
}

fn pack_commit(sha_text: &String) -> (r: Option<Vec<u8>>)
    ensures
        r is Some <==> storable_sha(sha_text@),
        r matches Some(b) ==> b@.len() == 20 && hex_lower(b@) == lower(sha_text@),
{
    let sha = crate::text::chars_of(sha_text.as_str());
    let low = crate::version_key::lower_exec(sha.as_slice());
    let low_str = crate::text::string_of(low.as_slice());
    match hex_decode(low_str.as_str()) {
        Some(bytes) => {
            if bytes.len() != 20 {
                proof {
                    lemma_hex_len(bytes@);
                    assert forall|b: Seq<u8>| b.len() == 20 implies hex_lower(b) != lower(sha_text@) by {
                        lemma_hex_len(b);
                    }
                }
                return None;
            }
            Some(bytes)
        },
        None => None,
    }
}

pub open spec fn sri_prefix() -> Seq<char> {
    "sha256-"@
}

/// A content hash the store accepts: `sha256-` and the base64 of 32 bytes.
pub open spec fn storable_nar(h: Seq<char>) -> bool {
    exists|b: Seq<u8>| b.len() == 32 && sri_string(b) == h
}

/// The digest bytes of a content hash `sha256-<base64 of 32 bytes>`. The
/// decoded bytes are encoded again and must give back the text.
fn pack_nar(h: &String) -> (r: Option<Vec<u8>>)
    ensures
        r is Some <==> storable_nar(h@),
        r matches Some(b) ==> b@.len() == 32 && sri_string(b@) == h@,
{
    proof {
        reveal_strlit("sha256-");
    }
    let c = crate::text::chars_of(h.as_str());
    let prefix = crate::text::chars_of("sha256-");
    assert(prefix@ == sri_prefix());
    if !crate::text::occurs_at_exec(c.as_slice(), prefix.as_slice(), 0) {
        proof {
            assert forall|b: Seq<u8>| b.len() == 32 implies sri_string(b) != h@ by {
                if sri_string(b) == h@ {
                    assert(h@.subrange(0, 7) =~= sri_prefix());
                }
            }
        }
        return None;
    }
    assert(prefix@.len() == 7);
    let rest = crate::text::string_of(&c.as_slice()[7..c.len()]);
    assert(h@ =~= sri_prefix() + rest@);
    proof {
        assert forall|b: Seq<u8>| sri_string(b) == h@ implies crate::nar::base64_of(b) == rest@ by {
            assert(crate::nar::base64_of(b) =~= h@.subrange(7, h@.len() as int));
            assert(rest@ =~= h@.subrange(7, h@.len() as int));
        }
    }
    let decoded = crate::nar::base64_decode(rest.as_str());
    match decoded {
        Some(b) => {
            if b.len() != 32 {
                proof {
                    assert forall|x: Seq<u8>| x.len() == 32 implies sri_string(x) != h@ by {
                        if sri_string(x) == h@ {
                            assert(crate::nar::base64_of(x) == rest@);
                        }
                    }
                }
                return None;
            }
            let again = crate::nar::base64(b.as_slice());
            let again_c = crate::text::chars_of(again.as_str());
            let rest_c = crate::text::chars_of(rest.as_str());
            if crate::syntax::eq_chars(again_c.as_slice(), rest_c.as_slice()) {
                assert(sri_string(b@) =~= h@);
                Some(b)
            } else {
                proof {
                    assert forall|x: Seq<u8>| x.len() == 32 implies sri_string(x) != h@ by {
                        if sri_string(x) == h@ {
                            assert(crate::nar::base64_of(x) == rest@);
                        }
                    }
                }
                None
            }
        },
        None => {
            proof {
                assert forall|x: Seq<u8>| x.len() == 32 implies sri_string(x) != h@ by {
                    if sri_string(x) == h@ {
                        assert(crate::nar::base64_of(x) == rest@);
                    }
                }
            }
            None
        },
    }
}

/// The compact record of a fact. It fails exactly when the revision hash is
/// not 40 hexadecimal digits, or when the content hash is not `sha256-` and
/// the base64 of 32 bytes.
pub fn pack(entry: &PackageEntry) -> (r: Result<StoredRecord, StoreError>)
    ensures
        !storable_sha(entry.commit_sha@) ==> r == Err::<StoredRecord, StoreError>(StoreError::InvalidCommitSha),
        r is Ok <==> storable_sha(entry.commit_sha@)
            && (entry.nar_hash is None || (entry.nar_hash matches Some(h) && storable_nar(h@))),
        (storable_sha(entry.commit_sha@) && (entry.nar_hash matches Some(h) && !storable_nar(h@)))
            ==> r == Err::<StoredRecord, StoreError>(StoreError::InvalidNarHash),
        r matches Err(e) ==> (e == StoreError::InvalidCommitSha) == !storable_sha(entry.commit_sha@),
        r matches Ok(rec) ==> rec.attr_name@ == entry.attr_name@ && rec.version@ == entry.version@
            && rec.commit@.len() == 20 && hex_lower(rec.commit@) == lower(entry.commit_sha@)
            && rec.timestamp == entry.timestamp && rec.is_primary == entry.is_primary
            && (rec.nar is None <==> entry.nar_hash is None),
        r matches Ok(rec) ==> (rec.nar matches Some(b) ==> (b@.len() == 32
            && (entry.nar_hash matches Some(h) && h@ == sri_string(b@)))),
{
    let commit = match pack_commit(&entry.commit_sha) {
        Some(c) => c,
        None => { return Err(StoreError::InvalidCommitSha); },
    };
    let nar = match &entry.nar_hash {
        Some(h) => match pack_nar(h) {
            Some(b) => Some(b),
            None => { return Err(StoreError::InvalidNarHash); },
        },
        None => None,
    };
    Ok(StoredRecord {
        attr_name: entry.attr_name.clone(),
        version: entry.version.clone(),
        commit,
        nar,
        timestamp: entry.timestamp,
        is_primary: entry.is_primary,
    })
}

/// The fact a stored record holds, with its revision hash in lowercase
/// hexadecimal.
pub fn unpack(rec: &StoredRecord) -> (r: PackageEntry)
    ensures
        r.attr_name@ == rec.attr_name@,
        r.version@ == rec.version@,
        r.commit_sha@ == hex_lower(rec.commit@),
        rec.nar is None ==> r.nar_hash is None,
        (rec.nar matches Some(b) ==> (r.nar_hash matches Some(h) && h@ == sri_string(b@))),
        r.timestamp == rec.timestamp,
        r.is_primary == rec.is_primary,
{
    PackageEntry {
        attr_name: rec.attr_name.clone(),
        version: rec.version.clone(),
        commit_sha: hex_encode(rec.commit.as_slice()),
        nar_hash: match &rec.nar {
            Some(b) => Some(crate::nar::sri_text(b.as_slice())),
            None => None,
        },
        timestamp: rec.timestamp,
        is_primary: rec.is_primary,
    }
}


// ─── reading facts back ─────────────────────────────────────────────────────

/// Case-insensitive (ASCII) substring test used by the full-table search.
pub fn matches_substring(attr_name: &str, query: &str) -> (r: bool)
    ensures
        r == crate::text::contains(lower(attr_name@), lower(query@)),
{
    let a = crate::version_key::lower_exec(crate::text::chars_of(attr_name).as_slice());
    let q = crate::version_key::lower_exec(crate::text::chars_of(query).as_slice());
    crate::text::contains_exec(a.as_slice(), q.as_slice())
}

/// Facts ordered newest observation first.
pub open spec fn newest_observed_first(s: Seq<PackageEntry>) -> bool {
    forall|i: int| 0 <= i < s.len() - 1 ==> #[trigger] observed_no_earlier(s, i)
}

pub open spec fn observed_no_earlier(s: Seq<PackageEntry>, i: int) -> bool {
    s[i].timestamp >= s[i + 1].timestamp
}

/// Sorts facts by observation time, newest first; facts observed at the
/// same time keep their relative order.
pub fn sort_by_observed(entries: Vec<PackageEntry>) -> (r: Vec<PackageEntry>)
    ensures
        r@.to_multiset() == entries@.to_multiset(),
        r@.len() == entries@.len(),
        newest_observed_first(r@),
{
    broadcast use vstd::seq_lib::group_to_multiset_ensures;
    let mut input = entries;
    let ghost orig = input@;
    let mut out: Vec<PackageEntry> = Vec::new();
    proof {
        assert(orig.take(0) =~= Seq::<PackageEntry>::empty());
        assert(orig.skip(0) =~= orig);
    }
    let n = input.len();
    let mut i: usize = 0;
    while i < n
        invariant
            n == orig.len(),
            i <= n,
            input@ == orig.skip(i as int),
            out@.to_multiset() == orig.take(i as int).to_multiset(),
            out@.len() == i,
            newest_observed_first(out@),
        decreases n - i,
    {
        let e = input.remove(0);
        assert(e == orig[i as int]);
        assert(input@ =~= orig.skip(i + 1));
        let mut p: usize = 0;
        while p < out.len() && out[p].timestamp >= e.timestamp
            invariant
                p <= out@.len(),
                forall|k: int| 0 <= k < p ==> (#[trigger] out@[k]).timestamp >= e.timestamp,
            decreases out@.len() - p,
        {
            p = p + 1;
        }
        let ghost before = out@;
        out.insert(p, e);
        proof {
            let o = before.insert(p as int, e);
            assert forall|k: int| 0 <= k < o.len() - 1 implies #[trigger] observed_no_earlier(o, k) by {
                if k < p as int - 1 {
                    assert(observed_no_earlier(before, k));
                } else if k > p as int {
                    assert(observed_no_earlier(before, k - 1));
                }
            }
            vstd::seq_lib::to_multiset_insert(before, p as int, e);
            assert(orig.take(i + 1) =~= orig.take(i as int).push(e));
            vstd::seq_lib::to_multiset_build(orig.take(i as int), e);
        }
        i = i + 1;
    }
    assert(orig.take(n as int) =~= orig);
    out
}

} // verus!
