//! Stream cipher codec for the control channel: a 16-byte key derived from
//! the shared token, and AES-128 in CFB mode applied as a true stream cipher,
//! with independent positions for the encrypt and decrypt directions.

use vstd::prelude::*;
use cipher::KeyIvInit;

use crate::bytes::{dec_i64_bytes, hex_bytes, push_dec_i64, push_hex_bytes, push_str_bytes};

verus! {

use vstd::string::StringSliceAdditionalSpecFns;

/// The 16-byte key that PBKDF2 (HMAC-SHA1, 64 iterations, fixed salt `frp`)
/// derives from a token. Stated, not computed: the library always obtains it
/// through `ring`.
pub uninterp spec fn pbkdf2_frp_key(token: Seq<char>) -> Seq<u8>;

/// The MD5 digest of a byte string. Stated, not computed: the library always
/// obtains it through the `md5` crate.
pub uninterp spec fn md5_of(data: Seq<u8>) -> Seq<u8>;

/// The ciphertext that AES-128-CFB produces for the whole plaintext stream
/// `plain` under `key` and `iv`, from the start of the stream.
pub uninterp spec fn aes_cfb_stream(key: Seq<u8>, iv: Seq<u8>, plain: Seq<u8>) -> Seq<u8>;

/// The key a [`CipherCore`] was built with.
pub uninterp spec fn cipher_key(c: CipherCore) -> Seq<u8>;

/// The initialization vector a [`CipherCore`] was built with.
pub uninterp spec fn cipher_iv(c: CipherCore) -> Seq<u8>;

/// The plaintext stream the encrypt direction of a [`CipherCore`] has
/// processed so far.
pub uninterp spec fn enc_processed(c: CipherCore) -> Seq<u8>;

/// The plaintext stream the decrypt direction of a [`CipherCore`] has
/// recovered so far.
pub uninterp spec fn dec_processed(c: CipherCore) -> Seq<u8>;

/// The two halves of the streaming cipher. The buffered CFB encryptor and
/// decryptor of `cfb_mode` keep their feedback block and intra-block position
/// between calls, which is exactly what makes the codec a stream cipher;
/// Verus sees the pair only through the spec functions above.
#[verifier::external_body]
pub struct CipherCore {
    enc: cfb_mode::BufEncryptor<aes::Aes128>,
    dec: cfb_mode::BufDecryptor<aes::Aes128>,
}

impl CipherCore {
    /// Relies on `cfb_mode::BufEncryptor::new_from_slices` and
    /// `BufDecryptor::new_from_slices`: a fresh pair starts at stream
    /// position zero. A 16-byte key and IV are always accepted.
    #[verifier::external_body]
    pub fn new(key: &[u8; 16], iv: &[u8; 16]) -> (c: CipherCore)
        ensures
            cipher_key(c) == key@,
            cipher_iv(c) == iv@,
            enc_processed(c) == Seq::<u8>::empty(),
            dec_processed(c) == Seq::<u8>::empty(),
    {
        CipherCore {
            enc: cfb_mode::BufEncryptor::<aes::Aes128>::new_from_slices(key, iv).unwrap(),
            dec: cfb_mode::BufDecryptor::<aes::Aes128>::new_from_slices(key, iv).unwrap(),
        }
    }

    /// Relies on `cfb_mode::BufEncryptor::encrypt`: it keeps the feedback
    /// state between calls, so encrypting this buffer extends the one
    /// ciphertext stream of the key, IV and plaintext processed so far;
    /// the buffer is replaced by its ciphertext, byte for byte.
    #[verifier::external_body]
    pub fn encrypt(&mut self, buf: &mut Vec<u8>)
        ensures
            cipher_key(*final(self)) == cipher_key(*old(self)),
            cipher_iv(*final(self)) == cipher_iv(*old(self)),
            dec_processed(*final(self)) == dec_processed(*old(self)),
            enc_processed(*final(self)) == enc_processed(*old(self)) + old(buf)@,
            final(buf)@.len() == old(buf)@.len(),
            aes_cfb_stream(
                cipher_key(*old(self)),
                cipher_iv(*old(self)),
                enc_processed(*old(self)) + old(buf)@,
            ) == aes_cfb_stream(
                cipher_key(*old(self)),
                cipher_iv(*old(self)),
                enc_processed(*old(self)),
            ) + final(buf)@,
    {
        self.enc.encrypt(buf.as_mut_slice());
    }

    /// Relies on `cfb_mode::BufDecryptor::decrypt`: it likewise keeps its
    /// state, and CFB decryption is the exact inverse of CFB encryption at
    /// the same stream position — the recovered bytes are the unique
    /// plaintext continuation whose encryption is the given ciphertext.
    #[verifier::external_body]
    pub fn decrypt(&mut self, buf: &mut Vec<u8>)
        ensures
            cipher_key(*final(self)) == cipher_key(*old(self)),
            cipher_iv(*final(self)) == cipher_iv(*old(self)),
            enc_processed(*final(self)) == enc_processed(*old(self)),
            dec_processed(*final(self)) == dec_processed(*old(self)) + final(buf)@,
            final(buf)@.len() == old(buf)@.len(),
            aes_cfb_stream(
                cipher_key(*old(self)),
                cipher_iv(*old(self)),
                dec_processed(*old(self)) + final(buf)@,
            ) == aes_cfb_stream(
                cipher_key(*old(self)),
                cipher_iv(*old(self)),
                dec_processed(*old(self)),
            ) + old(buf)@,
            forall|p: Seq<u8>|
                p.len() == old(buf)@.len() && #[trigger] aes_cfb_stream(
                    cipher_key(*old(self)),
                    cipher_iv(*old(self)),
                    dec_processed(*old(self)) + p,
                ) == aes_cfb_stream(
                    cipher_key(*old(self)),
                    cipher_iv(*old(self)),
                    dec_processed(*old(self)),
                ) + old(buf)@ ==> p == final(buf)@,
    {
        self.dec.decrypt(buf.as_mut_slice());
    }
}

/// Relies on `ring::pbkdf2::derive` with HMAC-SHA1, 64 iterations and the
/// fixed salt `frp`: the 16 derived bytes are a function of the token alone.
/// The weak iteration count is what the wire protocol requires.
#[verifier::external_body]
fn derive_key(token: &str) -> (key: [u8; 16])
    ensures
        key@ == pbkdf2_frp_key(token@),
{
    let mut key = [0u8; 16];
    ring::pbkdf2::derive(
        ring::pbkdf2::PBKDF2_HMAC_SHA1,
        core::num::NonZeroU32::new(64).unwrap(),
        b"frp",
        token.as_bytes(),
        &mut key,
    );
    key
}

/// Relies on `md5::compute`: the digest is a function of the input alone.
#[verifier::external_body]
fn md5_digest(data: &[u8]) -> (r: [u8; 16])
    ensures
        r@ == md5_of(data@),
{
    md5::compute(data).0
}

/// The hex digest that authenticates possession of the token at a given
/// timestamp: lowercase hex of `md5(token ++ decimal timestamp)`.
pub open spec fn privilege_key_bytes(token: Seq<char>, timestamp: int) -> Seq<u8> {
    hex_bytes(md5_of(vstd::utf8::encode_utf8(token) + dec_i64_bytes(timestamp)))
}

/// Computes the privilege key for `auth_token` at `timestamp`.
pub fn get_privilege_key(timestamp: i64, auth_token: &str) -> (r: Vec<u8>)
    ensures
        r@ == privilege_key_bytes(auth_token@, timestamp as int),
{
    let mut seed: Vec<u8> = Vec::new();
    push_str_bytes(&mut seed, auth_token);
    push_dec_i64(&mut seed, timestamp);
    let digest = md5_digest(seed.as_slice());
    let mut out: Vec<u8> = Vec::new();
    push_hex_bytes(&mut out, digest.as_slice());
    out
}

/// The session cipher codec: key and IV, plus the stateful encrypt and
/// decrypt directions.
pub struct FrpCoder {
    key: [u8; 16],
    iv: [u8; 16],
    core: CipherCore,
}

impl FrpCoder {
    /// The bytes of the derived key.
    pub closed spec fn key_bytes(self) -> Seq<u8> {
        self.key@
    }

    /// The bytes of the initialization vector.
    pub closed spec fn iv_bytes(self) -> Seq<u8> {
        self.iv@
    }

    /// The key the cipher halves were built with.
    pub closed spec fn stream_key(self) -> Seq<u8> {
        cipher_key(self.core)
    }

    /// The IV the cipher halves were built with.
    pub closed spec fn stream_iv(self) -> Seq<u8> {
        cipher_iv(self.core)
    }

    /// Plaintext already fed through the encrypt direction.
    pub closed spec fn enc_done(self) -> Seq<u8> {
        enc_processed(self.core)
    }

    /// Plaintext already recovered by the decrypt direction.
    pub closed spec fn dec_done(self) -> Seq<u8> {
        dec_processed(self.core)
    }

    /// Derives the key from `token` and builds both cipher directions over
    /// the same key and `iv`, each at stream position zero.
    pub fn new(token: &str, iv: [u8; 16]) -> (c: Self)
        ensures
            c.key_bytes() == pbkdf2_frp_key(token@),
            c.iv_bytes() == iv@,
            c.stream_key() == c.key_bytes(),
            c.stream_iv() == c.iv_bytes(),
            c.enc_done() == Seq::<u8>::empty(),
            c.dec_done() == Seq::<u8>::empty(),
    {
        let key = derive_key(token);
        let core = CipherCore::new(&key, &iv);
        FrpCoder { key, iv, core }
    }

    /// The derived key.
    pub fn key(&self) -> (r: &[u8; 16])
        ensures
            r@ == self.key_bytes(),
    {
        &self.key
    }

    /// The initialization vector.
    pub fn iv(&self) -> (r: &[u8; 16])
        ensures
            r@ == self.iv_bytes(),
    {
        &self.iv
    }

    /// Encrypts `buf` in place, advancing the encrypt direction by
    /// `buf.len()` bytes of the one ciphertext stream.
    pub fn encypt(&mut self, buf: &mut Vec<u8>)
        ensures
            final(self).key_bytes() == old(self).key_bytes(),
            final(self).iv_bytes() == old(self).iv_bytes(),
            final(self).stream_key() == old(self).stream_key(),
            final(self).stream_iv() == old(self).stream_iv(),
            final(self).dec_done() == old(self).dec_done(),
            final(self).enc_done() == old(self).enc_done() + old(buf)@,
            final(buf)@.len() == old(buf)@.len(),
            aes_cfb_stream(
                old(self).stream_key(),
                old(self).stream_iv(),
                old(self).enc_done() + old(buf)@,
            ) == aes_cfb_stream(old(self).stream_key(), old(self).stream_iv(), old(self).enc_done())
                + final(buf)@,
    {
        self.core.encrypt(buf);
    }

    /// Decrypts `buf` in place, advancing the decrypt direction by
    /// `buf.len()` bytes; the result is the unique plaintext continuation
    /// whose encryption at this position yields `buf`.
    pub fn decrypt(&mut self, buf: &mut Vec<u8>)
        ensures
            final(self).key_bytes() == old(self).key_bytes(),
            final(self).iv_bytes() == old(self).iv_bytes(),
            final(self).stream_key() == old(self).stream_key(),
            final(self).stream_iv() == old(self).stream_iv(),
            final(self).enc_done() == old(self).enc_done(),
            final(self).dec_done() == old(self).dec_done() + final(buf)@,
            final(buf)@.len() == old(buf)@.len(),
            aes_cfb_stream(
                old(self).stream_key(),
                old(self).stream_iv(),
                old(self).dec_done() + final(buf)@,
            ) == aes_cfb_stream(old(self).stream_key(), old(self).stream_iv(), old(self).dec_done())
                + old(buf)@,
            forall|p: Seq<u8>|
                p.len() == old(buf)@.len() && #[trigger] aes_cfb_stream(
                    old(self).stream_key(),
                    old(self).stream_iv(),
                    old(self).dec_done() + p,
                ) == aes_cfb_stream(
                    old(self).stream_key(),
                    old(self).stream_iv(),
                    old(self).dec_done(),
                ) + old(buf)@ ==> p == final(buf)@,
    {
        self.core.decrypt(buf);
    }
}

/// Key derivation is deterministic: equal tokens always derive equal keys.
pub proof fn lemma_key_derivation_deterministic(t1: Seq<char>, t2: Seq<char>)
    requires
        t1 == t2,
    ensures
        pbkdf2_frp_key(t1) == pbkdf2_frp_key(t2),
{
}

proof fn lemma_append_cancel(s: Seq<u8>, x: Seq<u8>, y: Seq<u8>)
    requires
        s + x == s + y,
        x.len() == y.len(),
    ensures
        x == y,
{
    assert forall|i: int| 0 <= i < x.len() implies x[i] == y[i] by {
        assert((s + x)[s.len() + i] == x[i]);
        assert((s + y)[s.len() + i] == y[i]);
    }
    assert(x =~= y);
}

/// Cipher round trip: a buffer encrypted by one codec comes back unchanged
/// from a codec that shares its key, IV and stream positions.
pub fn cipher_round_trip(enc: &mut FrpCoder, dec: &mut FrpCoder, data: Vec<u8>) -> (r: Vec<u8>)
    requires
        old(enc).stream_key() == old(dec).stream_key(),
        old(enc).stream_iv() == old(dec).stream_iv(),
        old(enc).enc_done() == old(dec).dec_done(),
    ensures
        r@ == data@,
        final(enc).enc_done() == old(enc).enc_done() + data@,
        final(dec).dec_done() == old(dec).dec_done() + data@,
        final(enc).stream_key() == old(enc).stream_key(),
        final(dec).stream_key() == old(dec).stream_key(),
        final(enc).stream_iv() == old(enc).stream_iv(),
        final(dec).stream_iv() == old(dec).stream_iv(),
{
    let ghost orig = data@;
    let mut buf = data;
    enc.encypt(&mut buf);
    let ghost sealed = buf@;
    dec.decrypt(&mut buf);
    proof {
        let k = old(enc).stream_key();
        let iv = old(enc).stream_iv();
        let h = old(enc).enc_done();
        assert(aes_cfb_stream(k, iv, h + orig) == aes_cfb_stream(k, iv, h) + sealed);
        assert(orig.len() == sealed.len());
        assert(buf@ == orig);
    }
    buf
}

/// Cipher round trip over any sequence of buffers: sealing each in turn on
/// one codec and opening each in turn on a codec that shares key, IV and
/// positions recovers every buffer, in order.
pub fn cipher_round_trip_sequence(
    enc: &mut FrpCoder,
    dec: &mut FrpCoder,
    bufs: Vec<Vec<u8>>,
) -> (r: Vec<Vec<u8>>)
    requires
        old(enc).stream_key() == old(dec).stream_key(),
        old(enc).stream_iv() == old(dec).stream_iv(),
        old(enc).enc_done() == old(dec).dec_done(),
    ensures
        r.deep_view() == bufs.deep_view(),
{
    let mut out: Vec<Vec<u8>> = Vec::new();
    let mut i: usize = 0;
    proof {
        assert(out.deep_view() =~~= bufs.deep_view().take(0));
    }
    while i < bufs.len()
        invariant
            i <= bufs@.len(),
            enc.stream_key() == dec.stream_key(),
            enc.stream_iv() == dec.stream_iv(),
            enc.enc_done() == dec.dec_done(),
            out.deep_view() == bufs.deep_view().take(i as int),
        decreases bufs@.len() - i,
    {
        let mut b: Vec<u8> = Vec::new();
        b.extend_from_slice(bufs[i].as_slice());
        proof {
            assert(b@ =~= bufs.deep_view()[i as int]);
        }
        let d = cipher_round_trip(enc, dec, b);
        let ghost prev = out.deep_view();
        let ghost d_view = d.deep_view();
        out.push(d);
        proof {
            assert(d_view =~= bufs.deep_view()[i as int]);
            assert(out.deep_view() =~~= prev.push(d_view));
            assert(bufs.deep_view().take(i as int + 1) =~~= bufs.deep_view().take(i as int).push(
                bufs.deep_view()[i as int],
            ));
            assert(out.deep_view() =~~= bufs.deep_view().take(i as int + 1));
        }
        i = i + 1;
    }
    proof {
        assert(bufs.deep_view().take(bufs@.len() as int) =~~= bufs.deep_view());
    }
    out
}

/// Statefulness: encrypting two buffers in turn produces exactly the
/// ciphertext of one call on their concatenation.
pub fn cipher_concat_consistent(
    c1: &mut FrpCoder,
    c2: &mut FrpCoder,
    part1: Vec<u8>,
    part2: Vec<u8>,
) -> (r: (Vec<u8>, Vec<u8>))
    requires
        old(c1).stream_key() == old(c2).stream_key(),
        old(c1).stream_iv() == old(c2).stream_iv(),
        old(c1).enc_done() == old(c2).enc_done(),
    ensures
        r.0@ == r.1@,
        r.0@.len() == part1@.len() + part2@.len(),
{
    let ghost p1 = part1@;
    let ghost p2 = part2@;
    let ghost h = old(c1).enc_done();
    let ghost k = old(c1).stream_key();
    let ghost iv = old(c1).stream_iv();

    let mut joined: Vec<u8> = Vec::new();
    joined.extend_from_slice(part1.as_slice());
    joined.extend_from_slice(part2.as_slice());
    assert(joined@ =~= p1 + p2);

    let mut buf_a = part1;
    c1.encypt(&mut buf_a);
    let mut buf_b = part2;
    c1.encypt(&mut buf_b);
    let ghost a = buf_a@;
    let ghost b = buf_b@;
    let mut two_calls = buf_a;
    two_calls.append(&mut buf_b);

    c2.encypt(&mut joined);
    proof {
        let w = joined@;
        assert(h + p1 + p2 =~= h + (p1 + p2));
        assert(aes_cfb_stream(k, iv, h) + a + b =~= aes_cfb_stream(k, iv, h) + (a + b));
        assert(aes_cfb_stream(k, iv, h) + (a + b) == aes_cfb_stream(k, iv, h) + w);
        lemma_append_cancel(aes_cfb_stream(k, iv, h), a + b, w);
    }
    (two_calls, joined)
}

} // verus!
