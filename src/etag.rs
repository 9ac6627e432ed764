use vstd::prelude::*;
use vstd::slice::slice_to_vec;

verus! {

/// A modification time: whole seconds since the Unix epoch and the
/// nanoseconds within that second.
#[derive(Debug, Clone, Copy, PartialEq, Eq, Structural)]
pub struct Timestamp {
    pub secs: i64,
    pub nanos: u32,
}

/// The SHA-256 digest of a byte sequence.
pub uninterp spec fn sha256_of(data: Seq<u8>) -> Seq<u8>;

/// Relies on `sha2::Sha256::digest` (through `digest::Digest`): the 32-byte
/// SHA-256 digest of `data`, which depends on `data` alone.
#[verifier::external_body]
fn sha256(data: &[u8]) -> (r: Vec<u8>)
    ensures
        r@ == sha256_of(data@),
        r@.len() == 32,
{
    <sha2::Sha256 as sha2::Digest>::digest(data).to_vec()
}

/// The lowercase hexadecimal digit of a value below 16.
pub open spec fn hex_digit(d: u8) -> u8 {
    if d < 10 { (48 + d) as u8 } else { (87 + d) as u8 }
}

/// Two lowercase hexadecimal digits per byte, high nibble first.
pub open spec fn hex_lower(b: Seq<u8>) -> Seq<u8> {
    Seq::new(
        2 * b.len(),
        |i: int| if i % 2 == 0 { hex_digit(b[i / 2] / 16) } else { hex_digit(b[i / 2] % 16) },
    )
}

/// Relies on `hex::encode`: each byte becomes two digits of `0123456789abcdef`,
/// the high nibble first.
#[verifier::external_body]
fn to_hex(b: &[u8]) -> (r: Vec<u8>)
    ensures
        r@ == hex_lower(b@),
{
    hex::encode(b).into_bytes()
}

/// The `n` low bytes of `x`, least significant first.
pub open spec fn le_bytes(x: nat, n: nat) -> Seq<u8>
    decreases n,
{
    if n == 0 {
        Seq::empty()
    } else {
        seq![(x % 256) as u8] + le_bytes(x / 256, (n - 1) as nat)
    }
}

/// The two's-complement bit pattern of a signed second count, read unsigned.
pub open spec fn secs_bits(s: i64) -> nat {
    if s >= 0 { s as nat } else { (s + 0x1_0000_0000_0000_0000) as nat }
}

/// The bytes that an entity tag fingerprints: the path's text, then the whole
/// seconds as 8 little-endian bytes, then the nanoseconds as 4.
pub open spec fn etag_input(path: Seq<u8>, t: Timestamp) -> Seq<u8> {
    path + le_bytes(secs_bits(t.secs), 8) + le_bytes(t.nanos as nat, 4)
}

/// The entity tag of a resource: the hex digest of its fingerprint, in double quotes.
pub open spec fn etag_spec(path: Seq<u8>, t: Timestamp) -> Seq<u8> {
    seq![34u8] + hex_lower(sha256_of(etag_input(path, t))) + seq![34u8]
}

fn push_le(out: &mut Vec<u8>, x: u64, n: usize)
    ensures
        final(out)@ == old(out)@ + le_bytes(x as nat, n as nat),
{
    let mut v: u64 = x;
    let mut k: usize = 0;
    while k < n
        invariant
            k <= n,
            old(out)@ + le_bytes(x as nat, n as nat) == out@ + le_bytes(v as nat, (n - k) as nat),
        decreases n - k,
    {
        let ghost before = out@;
        let b = (v % 256) as u8;
        out.push(b);
        proof {
            let rest = le_bytes((v / 256) as nat, (n - k - 1) as nat);
            assert(le_bytes(v as nat, (n - k) as nat) == seq![b] + rest);
            assert(before + (seq![b] + rest) =~= out@ + rest);
        }
        v = v / 256;
        k += 1;
    }
    assert(out@ + le_bytes(v as nat, 0) =~= out@);
}

fn secs_as_bits(s: i64) -> (r: u64)
    ensures
        r as nat == secs_bits(s),
{
    if s >= 0 {
        s as u64
    } else {
        u64::MAX - ((-(s + 1)) as u64)
    }
}

/// The bytes that the entity tag of the resource at `path`, last modified at
/// `t`, fingerprints.
pub fn fingerprint_input(path: &[u8], t: Timestamp) -> (r: Vec<u8>)
    ensures
        r@ == etag_input(path@, t),
{
    let mut data = slice_to_vec(path);
    push_le(&mut data, secs_as_bits(t.secs), 8);
    push_le(&mut data, t.nanos as u64, 4);
    assert(data@ =~= etag_input(path@, t));
    data
}

/// A digest as a strong entity tag: its lowercase hex digits in double quotes.
pub fn quoted_hex(digest: &[u8]) -> (r: Vec<u8>)
    ensures
        r@ == seq![34u8] + hex_lower(digest@) + seq![34u8],
{
    let mut hex = to_hex(digest);
    let mut out: Vec<u8> = Vec::new();
    out.push(34);
    out.append(&mut hex);
    out.push(34);
    assert(out@ =~= seq![34u8] + hex_lower(digest@) + seq![34u8]);
    out
}

/// The strong entity tag of the resource at `path`, last modified at `t`.
pub fn etag_for(path: &[u8], t: Timestamp) -> (r: Vec<u8>)
    ensures
        r@ == etag_spec(path@, t),
{
    let data = fingerprint_input(path, t);
    let digest = sha256(data.as_slice());
    quoted_hex(digest.as_slice())
}

pub open spec fn pow256(n: nat) -> nat
    decreases n,
{
    if n == 0 { 1 } else { 256 * pow256((n - 1) as nat) }
}

proof fn lemma_le_bytes_len(x: nat, n: nat)
    ensures
        le_bytes(x, n).len() == n,
    decreases n,
{
    if n > 0 {
        lemma_le_bytes_len(x / 256, (n - 1) as nat);
    }
}

proof fn lemma_le_bytes_injective(x: nat, y: nat, n: nat)
    requires
        x < pow256(n),
        y < pow256(n),
        le_bytes(x, n) == le_bytes(y, n),
    ensures
        x == y,
    decreases n,
{
    if n > 0 {
        let m = (n - 1) as nat;
        let a = le_bytes(x, n);
        let b = le_bytes(y, n);
        lemma_le_bytes_len(x / 256, m);
        lemma_le_bytes_len(y / 256, m);
        assert(a[0] == b[0]);
        assert(le_bytes(x / 256, m) =~= a.subrange(1, n as int));
        assert(le_bytes(y / 256, m) =~= b.subrange(1, n as int));
        let p = pow256(m);
        assert(x / 256 < p && y / 256 < p) by (nonlinear_arith)
            requires
                x < 256 * p,
                y < 256 * p,
        ;
        lemma_le_bytes_injective(x / 256, y / 256, m);
        assert(x == 256 * (x / 256) + x % 256);
        assert(y == 256 * (y / 256) + y % 256);
    }
}

/// For one path, equal modification times give equal entity tags, and
/// modification times that differ, if only by a nanosecond, give different
/// fingerprinted bytes: their tags then differ unless SHA-256 collides.
pub proof fn lemma_etag_stable_and_time_sensitive(path: Seq<u8>, t1: Timestamp, t2: Timestamp)
    ensures
        t1 == t2 ==> etag_spec(path, t1) == etag_spec(path, t2),
        t1 != t2 ==> etag_input(path, t1) != etag_input(path, t2),
{
    if t1 != t2 && etag_input(path, t1) == etag_input(path, t2) {
        let a = etag_input(path, t1);
        let b = etag_input(path, t2);
        let p = path.len() as int;
        lemma_le_bytes_len(secs_bits(t1.secs), 8);
        lemma_le_bytes_len(secs_bits(t2.secs), 8);
        lemma_le_bytes_len(t1.nanos as nat, 4);
        lemma_le_bytes_len(t2.nanos as nat, 4);
        assert(a.subrange(p, p + 8) =~= le_bytes(secs_bits(t1.secs), 8));
        assert(b.subrange(p, p + 8) =~= le_bytes(secs_bits(t2.secs), 8));
        assert(a.subrange(p + 8, p + 12) =~= le_bytes(t1.nanos as nat, 4));
        assert(b.subrange(p + 8, p + 12) =~= le_bytes(t2.nanos as nat, 4));
        reveal_with_fuel(pow256, 9);
        assert(pow256(4) == 0x1_0000_0000);
        assert(pow256(8) == 0x1_0000_0000_0000_0000);
        lemma_le_bytes_injective(secs_bits(t1.secs), secs_bits(t2.secs), 8);
        lemma_le_bytes_injective(t1.nanos as nat, t2.nanos as nat, 4);
    }
}

} // verus!
