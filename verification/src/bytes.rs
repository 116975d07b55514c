//! Byte-level building blocks for the wire format: big-endian 64-bit
//! lengths, decimal renderings of integers, and lowercase hex digests.

use vstd::prelude::*;
use vstd::string::StringSliceAdditionalSpecFns;

verus! {

/// The eight bytes of `n` in big-endian order.
pub open spec fn be_u64_bytes(n: u64) -> Seq<u8> {
    seq![
        (n >> 56) as u8,
        (n >> 48) as u8,
        (n >> 40) as u8,
        (n >> 32) as u8,
        (n >> 24) as u8,
        (n >> 16) as u8,
        (n >> 8) as u8,
        n as u8,
    ]
}

/// The value read back from eight big-endian bytes.
pub open spec fn be_u64_value(b: Seq<u8>) -> u64
    recommends
        b.len() == 8,
{
    (((b[0] as u64) << 56) | ((b[1] as u64) << 48) | ((b[2] as u64) << 40) | ((b[3] as u64) << 32)
        | ((b[4] as u64) << 24) | ((b[5] as u64) << 16) | ((b[6] as u64) << 8) | (b[7] as u64)) as u64
}

/// Reading back the big-endian bytes of `n` yields `n` again.
pub proof fn lemma_be_u64_round_trip(n: u64)
    ensures
        be_u64_value(be_u64_bytes(n)) == n,
{
    let b0 = (n >> 56) as u8;
    let b1 = (n >> 48) as u8;
    let b2 = (n >> 40) as u8;
    let b3 = (n >> 32) as u8;
    let b4 = (n >> 24) as u8;
    let b5 = (n >> 16) as u8;
    let b6 = (n >> 8) as u8;
    let b7 = n as u8;
    assert((((b0 as u64) << 56) | ((b1 as u64) << 48) | ((b2 as u64) << 40) | ((b3 as u64) << 32)
        | ((b4 as u64) << 24) | ((b5 as u64) << 16) | ((b6 as u64) << 8) | (b7 as u64)) as u64 == n)
        by (bit_vector)
        requires
            b0 == (n >> 56) as u8,
            b1 == (n >> 48) as u8,
            b2 == (n >> 40) as u8,
            b3 == (n >> 32) as u8,
            b4 == (n >> 24) as u8,
            b5 == (n >> 16) as u8,
            b6 == (n >> 8) as u8,
            b7 == n as u8,
    ;
}

/// Appends the eight big-endian bytes of `n`.
pub fn push_be_u64(out: &mut Vec<u8>, n: u64)
    ensures
        final(out)@ == old(out)@ + be_u64_bytes(n),
{
    out.push((n >> 56) as u8);
    out.push((n >> 48) as u8);
    out.push((n >> 40) as u8);
    out.push((n >> 32) as u8);
    out.push((n >> 24) as u8);
    out.push((n >> 16) as u8);
    out.push((n >> 8) as u8);
    out.push(n as u8);
    assert(out@ =~= old(out)@ + be_u64_bytes(n));
}

/// Reads a big-endian u64 from `b` at offset `off`.
pub fn read_be_u64(b: &[u8], off: usize) -> (n: u64)
    requires
        off + 8 <= b@.len(),
    ensures
        n == be_u64_value(b@.subrange(off as int, off as int + 8)),
{
    let n: u64 = ((b[off] as u64) << 56) | ((b[off + 1] as u64) << 48) | ((b[off + 2] as u64) << 40)
        | ((b[off + 3] as u64) << 32) | ((b[off + 4] as u64) << 24) | ((b[off + 5] as u64) << 16)
        | ((b[off + 6] as u64) << 8) | (b[off + 7] as u64);
    proof {
        let s = b@.subrange(off as int, off as int + 8);
        assert(s[0] == b@[off as int]);
        assert(s[7] == b@[off as int + 7]);
    }
    n
}

/// Decimal digits of `n`, most significant first.
pub open spec fn dec_u64_bytes(n: nat) -> Seq<u8>
    decreases n,
{
    if n < 10 {
        seq![(48 + n) as u8]
    } else {
        dec_u64_bytes(n / 10) + seq![(48 + n % 10) as u8]
    }
}

/// Decimal rendering of a signed value, with a leading minus sign when negative.
pub open spec fn dec_i64_bytes(n: int) -> Seq<u8> {
    if n >= 0 {
        dec_u64_bytes(n as nat)
    } else {
        seq![45u8] + dec_u64_bytes((-n) as nat)
    }
}

/// Appends the decimal digits of `n`.
pub fn push_dec_u64(out: &mut Vec<u8>, n: u64)
    ensures
        final(out)@ == old(out)@ + dec_u64_bytes(n as nat),
    decreases n,
{
    if n < 10 {
        out.push(48 + n as u8);
        assert(out@ =~= old(out)@ + dec_u64_bytes(n as nat));
    } else {
        push_dec_u64(out, n / 10);
        out.push(48 + (n % 10) as u8);
        assert(out@ =~= old(out)@ + dec_u64_bytes(n as nat));
    }
}

/// Appends the decimal rendering of `n`, minus sign included when needed.
pub fn push_dec_i64(out: &mut Vec<u8>, n: i64)
    ensures
        final(out)@ == old(out)@ + dec_i64_bytes(n as int),
{
    if n >= 0 {
        push_dec_u64(out, n as u64);
    } else {
        out.push(45);
        let m: u64 = ((-(n + 1)) as u64) + 1;
        assert(m == -(n as int));
        push_dec_u64(out, m);
        assert(out@ =~= old(out)@ + dec_i64_bytes(n as int));
    }
}

/// The lowercase hex digit for a value below 16.
pub open spec fn hex_digit(d: u8) -> u8
    recommends
        d < 16,
{
    if d < 10 {
        (48 + d) as u8
    } else {
        (87 + d) as u8
    }
}

/// Lowercase hex rendering of a byte string, two digits per byte.
pub open spec fn hex_bytes(b: Seq<u8>) -> Seq<u8>
    decreases b.len(),
{
    if b.len() == 0 {
        Seq::empty()
    } else {
        seq![hex_digit(b[0] / 16), hex_digit(b[0] % 16)] + hex_bytes(b.drop_first())
    }
}

proof fn lemma_hex_bytes_push(b: Seq<u8>, x: u8)
    ensures
        hex_bytes(b.push(x)) == hex_bytes(b) + seq![hex_digit(x / 16), hex_digit(x % 16)],
    decreases b.len(),
{
    if b.len() == 0 {
        let s = b.push(x);
        assert(s[0] == x);
        assert(s.drop_first() =~= Seq::<u8>::empty());
        assert(hex_bytes(s.drop_first()) == Seq::<u8>::empty());
        assert(hex_bytes(b.push(x)) =~= hex_bytes(b) + seq![hex_digit(x / 16), hex_digit(x % 16)]);
    } else {
        assert(b.push(x).drop_first() =~= b.drop_first().push(x));
        lemma_hex_bytes_push(b.drop_first(), x);
        assert(hex_bytes(b.push(x)) =~= hex_bytes(b) + seq![hex_digit(x / 16), hex_digit(x % 16)]);
    }
}

/// Appends the lowercase hex rendering of `b`.
pub fn push_hex_bytes(out: &mut Vec<u8>, b: &[u8])
    ensures
        final(out)@ == old(out)@ + hex_bytes(b@),
{
    let ghost start = out@;
    let mut i: usize = 0;
    assert(b@.take(0) =~= Seq::<u8>::empty());
    while i < b.len()
        invariant
            i <= b@.len(),
            out@ == start + hex_bytes(b@.take(i as int)),
        decreases b@.len() - i,
    {
        let x = b[i];
        let hi = x / 16;
        let lo = x % 16;
        out.push(if hi < 10 { 48 + hi } else { 87 + hi });
        out.push(if lo < 10 { 48 + lo } else { 87 + lo });
        proof {
            lemma_hex_bytes_push(b@.take(i as int), x);
            assert(b@.take(i as int).push(x) =~= b@.take(i as int + 1));
            assert(out@ =~= start + hex_bytes(b@.take(i as int + 1)));
        }
        i = i + 1;
    }
    assert(b@.take(b@.len() as int) =~= b@);
}

/// Appends the UTF-8 bytes of `s`.
pub fn push_str_bytes(out: &mut Vec<u8>, s: &str)
    ensures
        final(out)@ == old(out)@ + s.spec_bytes(),
{
    out.extend_from_slice(s.as_bytes());
}

/// Compares two byte slices for equality.
pub fn bytes_eq(a: &[u8], b: &[u8]) -> (r: bool)
    ensures
        r == (a@ == b@),
{
    if a.len() != b.len() {
        return false;
    }
    let mut i: usize = 0;
    while i < a.len()
        invariant
            i <= a@.len(),
            a@.len() == b@.len(),
            forall|j: int| 0 <= j < i ==> a@[j] == b@[j],
        decreases a@.len() - i,
    {
        if a[i] != b[i] {
            return false;
        }
        i = i + 1;
    }
    proof {
        assert(a@ =~= b@);
    }
    true
}

/// Compares two string slices for equality of their characters.
pub fn str_eq(a: &str, b: &str) -> (r: bool)
    ensures
        r == (a@ == b@),
{
    let r = bytes_eq(a.as_bytes(), b.as_bytes());
    proof {
        if a.spec_bytes() == b.spec_bytes() {
            vstd::utf8::encode_utf8_decode_utf8(a@);
            vstd::utf8::encode_utf8_decode_utf8(b@);
        }
    }
    r
}

/// Relies on `String::from_utf8`: it succeeds exactly on valid UTF-8 input,
/// and the characters of the resulting string encode back to the input bytes.
#[verifier::external_body]
pub fn bytes_to_string(v: Vec<u8>) -> (r: Option<String>)
    ensures
        r is Some <==> vstd::utf8::valid_utf8(v@),
        r matches Some(s) ==> vstd::utf8::encode_utf8(s@) == v@,
{
    match String::from_utf8(v) {
        Ok(s) => Some(s),
        Err(_) => None,
    }
}

} // verus!
