//! Content hash of a single file: its archive serialisation, hashed with
//! SHA-256, written as `sha256-<base64>`.

use vstd::prelude::*;
use crate::entry::CoreError;

verus! {

/// The SHA-256 digest of `data`.
pub uninterp spec fn sha256_of(data: Seq<u8>) -> Seq<u8>;

/// The standard base64 alphabet (RFC 4648).
pub open spec fn base64_alphabet() -> Seq<char> {
    "ABCDEFGHIJKLMNOPQRSTUVWXYZabcdefghijklmnopqrstuvwxyz0123456789+/"@
}

pub open spec fn b64(n: int) -> char {
    base64_alphabet()[n]
}

/// The standard, padded base64 text of `data`: four characters per group of
/// three bytes, the last group padded with `=`.
pub open spec fn base64_of(data: Seq<u8>) -> Seq<char>
    decreases data.len(),
{
    if data.len() == 0 {
        Seq::empty()
    } else if data.len() == 1 {
        let x = data[0] as int;
        seq![b64(x / 4), b64((x % 4) * 16), '=', '=']
    } else if data.len() == 2 {
        let x = data[0] as int;
        let y = data[1] as int;
        seq![b64(x / 4), b64((x % 4) * 16 + y / 16), b64((y % 16) * 4), '=']
    } else {
        let x = data[0] as int;
        let y = data[1] as int;
        let z = data[2] as int;
        seq![b64(x / 4), b64((x % 4) * 16 + y / 16), b64((y % 16) * 4 + z / 64), b64(z % 64)]
            + base64_of(data.skip(3))
    }
}

pub proof fn lemma_base64_len(data: Seq<u8>)
    ensures
        base64_of(data).len() == 4 * ((data.len() + 2) / 3),
    decreases data.len(),
{
    if data.len() >= 3 {
        lemma_base64_len(data.skip(3));
    }
}

/// Relies on `sha2::Sha256`: the 32-byte digest of `data`.
#[verifier::external_body]
fn sha256(data: &[u8]) -> (r: Vec<u8>)
    ensures
        r@ == sha256_of(data@),
        r@.len() == 32,
{
    <sha2::Sha256 as sha2::Digest>::digest(data).to_vec()
}

/// Relies on `data_encoding::BASE64.encode`: padded standard base64.
#[verifier::external_body]
pub(crate) fn base64(data: &[u8]) -> (r: String)
    ensures
        r@ == base64_of(data@),
{
    data_encoding::BASE64.encode(data)
}

/// Relies on `data_encoding::BASE64.decode`: it decodes every text that
/// `BASE64.encode` writes back to the bytes encoded. It also accepts some
/// other texts (concatenated padded groups), of which nothing is claimed.
#[verifier::external_body]
pub(crate) fn base64_decode(s: &str) -> (r: Option<Vec<u8>>)
    ensures
        r is None ==> forall|b: Seq<u8>| base64_of(b) != s@,
        r is Some ==> forall|b: Seq<u8>| base64_of(b) == s@ ==> r.unwrap()@ == b,
{
    data_encoding::BASE64.decode(s.as_bytes()).ok()
}

pub open spec fn zeros(n: nat) -> Seq<u8> {
    Seq::new(n, |i: int| 0u8)
}

/// The eight little-endian bytes of `n`.
pub open spec fn le_bytes(n: nat) -> Seq<u8> {
    Seq::new(8, |i: int| ((n / pow256(i)) % 256) as u8)
}

pub open spec fn pow256(i: int) -> nat
    decreases i,
{
    if i <= 0 { 1 } else { 256 * pow256(i - 1) }
}

pub open spec fn ascii(s: Seq<char>) -> Seq<u8> {
    s.map_values(|c: char| c as u8)
}

/// The archive of one regular file: header, type marker, the size as
/// eight little-endian bytes, the contents padded with zeros to a multiple
/// of eight, and the closing marker.
pub open spec fn nar_bytes(content: Seq<u8>) -> Seq<u8> {
    ascii("nix-archive-1"@) + zeros(3) + ascii("("@) + zeros(7) + ascii("type"@) + zeros(4)
        + ascii("regular"@) + zeros(1) + ascii("contents"@) + zeros(4)
        + le_bytes(content.len()) + content + zeros(((8 - content.len() % 8) % 8) as nat)
        + ascii(")"@) + zeros(7)
}

/// A SHA-256 digest in SRI form: `sha256-<base64>`.
pub open spec fn sri_string(digest: Seq<u8>) -> Seq<char> {
    "sha256-"@ + base64_of(digest)
}

/// The content hash of a file in SRI form.
pub open spec fn nar_hash_text(content: Seq<u8>) -> Seq<char> {
    sri_string(sha256_of(nar_bytes(content)))
}

/// A digest written in SRI form.
pub fn sri_text(digest: &[u8]) -> (r: String)
    ensures
        r@ == sri_string(digest@),
        r@.len() == 7 + 4 * ((digest@.len() + 2) / 3),
{
    let b64 = base64(digest);
    proof {
        lemma_base64_len(digest@);
    }
    let mut s = String::from_str("sha256-");
    s.append(b64.as_str());
    proof {
        reveal_strlit("sha256-");
    }
    assert(s@ =~= sri_string(digest@));
    s
}

fn push_ascii(out: &mut Vec<u8>, s: &str)
    requires
        s@.len() < 64,
        forall|i: int| 0 <= i < s@.len() ==> (#[trigger] s@[i]) as u32 <= 127,
    ensures
        final(out)@ == old(out)@ + ascii(s@),
{
    let cs = crate::text::chars_of(s);
    let mut i: usize = 0;
    while i < cs.len()
        invariant
            i <= cs@.len(),
            cs@ == s@,
            forall|j: int| 0 <= j < s@.len() ==> (#[trigger] s@[j]) as u32 <= 127,
            out@ == old(out)@ + ascii(s@).take(i as int),
        decreases cs@.len() - i,
    {
        out.push(cs[i] as u8);
        i = i + 1;
        assert(out@ =~= old(out)@ + ascii(s@).take(i as int));
    }
    assert(ascii(s@).take(cs@.len() as int) =~= ascii(s@));
}

fn push_zeros(out: &mut Vec<u8>, n: usize)
    ensures
        final(out)@ == old(out)@ + zeros(n as nat),
{
    let mut i: usize = 0;
    while i < n
        invariant
            i <= n,
            out@ == old(out)@ + zeros(i as nat),
        decreases n - i,
    {
        out.push(0u8);
        i = i + 1;
        assert(out@ =~= old(out)@ + zeros(i as nat));
    }
}

fn push_le_u64(out: &mut Vec<u8>, n: u64)
    ensures
        final(out)@ == old(out)@ + le_bytes(n as nat),
{
    let mut i: usize = 0;
    let mut rest: u64 = n;
    assert(pow256(0) == 1);
    while i < 8
        invariant
            i <= 8,
            rest as nat == (n as nat) / pow256(i as int),
            out@ == old(out)@ + le_bytes(n as nat).take(i as int),
        decreases 8 - i,
    {
        proof {
            lemma_pow256_pos(i as int);
            lemma_div_div(n as nat, pow256(i as int), 256);
        }
        out.push((rest % 256) as u8);
        rest = rest / 256;
        i = i + 1;
        assert(out@ =~= old(out)@ + le_bytes(n as nat).take(i as int));
    }
    assert(le_bytes(n as nat).take(8) =~= le_bytes(n as nat));
}

proof fn lemma_pow256_pos(i: int)
    ensures
        pow256(i) >= 1,
    decreases i,
{
    if i > 0 {
        lemma_pow256_pos(i - 1);
    }
}

proof fn lemma_div_div(n: nat, a: nat, b: nat)
    requires
        a >= 1,
        b >= 1,
    ensures
        n / a / b == n / (a * b),
{
    vstd::arithmetic::div_mod::lemma_div_denominator(n as int, a as int, b as int);
}

/// The archive of a single file with the given contents.
pub fn nar_serialize(content: &[u8]) -> (r: Vec<u8>)
    ensures
        r@ == nar_bytes(content@),
{
    let mut out: Vec<u8> = Vec::new();
    proof {
        reveal_strlit("nix-archive-1");
        reveal_strlit("(");
        reveal_strlit("type");
        reveal_strlit("regular");
        reveal_strlit("contents");
        reveal_strlit(")");
    }
    push_ascii(&mut out, "nix-archive-1");
    push_zeros(&mut out, 3);
    push_ascii(&mut out, "(");
    push_zeros(&mut out, 7);
    push_ascii(&mut out, "type");
    push_zeros(&mut out, 4);
    push_ascii(&mut out, "regular");
    push_zeros(&mut out, 1);
    push_ascii(&mut out, "contents");
    push_zeros(&mut out, 4);
    push_le_u64(&mut out, content.len() as u64);
    crate::extract::append_bytes(&mut out, content);
    push_zeros(&mut out, (8 - content.len() % 8) % 8);
    push_ascii(&mut out, ")");
    push_zeros(&mut out, 7);
    assert(out@ =~= nar_bytes(content@));
    out
}

/// The content hash of a file, as `sha256-<base64>`.
pub fn compute_nar_hash_for_blob(content: &[u8]) -> (r: Result<String, CoreError>)
    ensures
        r matches Ok(s) && s@ == nar_hash_text(content@),
        r matches Ok(s) && s@.len() == 51,
{
    let nar = nar_serialize(content);
    let digest = sha256(nar.as_slice());
    let s = sri_text(digest.as_slice());
    proof {
        reveal_strlit("sha256-");
    }
    Ok(s)
}

} // verus!
