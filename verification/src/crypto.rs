use vstd::prelude::*;
use aes_gcm::KeyInit;
use aes_gcm::aead::Aead;
use md5::Digest;

verus! {

/// The MD5 digest of a byte string: sixteen bytes, a function of the
/// input alone.
pub uninterp spec fn md5_of(m: Seq<u8>) -> Seq<u8>;

/// What AES-256-GCM sealing produces for a key, a nonce and a plaintext:
/// the ciphertext with its sixteen-byte authentication tag appended.
pub uninterp spec fn seal_of(key: Seq<u8>, nonce: Seq<u8>, p: Seq<u8>) -> Seq<u8>;

/// What AES-256-GCM opening returns for a key, a nonce and a sealed
/// buffer: the plaintext, or nothing when the tag does not verify.
pub uninterp spec fn open_of(key: Seq<u8>, nonce: Seq<u8>, c: Seq<u8>) -> Option<Seq<u8>>;

/// Relies on md5::Md5 (the md-5 crate): a sixteen-byte digest that depends
/// on the input bytes alone.
#[verifier::external_body]
pub(crate) fn md5_digest(m: &Vec<u8>) -> (r: Vec<u8>)
    ensures
        r@ == md5_of(m@),
        r@.len() == 16,
{
    let mut h = md5::Md5::new();
    h.update(m.as_slice());
    h.finalize().to_vec()
}

/// Relies on aes_gcm::Aes256Gcm::encrypt: deterministic for a fixed key and
/// nonce, and appends a sixteen-byte tag after the ciphertext.
#[verifier::external_body]
pub(crate) fn aead_seal(key: &Vec<u8>, nonce: &Vec<u8>, p: &Vec<u8>) -> (r: Vec<u8>)
    requires
        key@.len() == 32,
        nonce@.len() == 12,
        p@.len() <= 65535,
    ensures
        r@ == seal_of(key@, nonce@, p@),
        r@.len() == p@.len() + 16,
{
    let cipher = aes_gcm::Aes256Gcm::new_from_slice(key.as_slice()).unwrap();
    let n = aes_gcm::aead::Nonce::<aes_gcm::Aes256Gcm>::try_from(nonce.as_slice()).unwrap();
    cipher.encrypt(&n, p.as_slice()).unwrap()
}

/// The plaintext bytes behind an optional buffer.
pub open spec fn opt_bytes(r: Option<Vec<u8>>) -> Option<Seq<u8>> {
    match r {
        Some(v) => Some(v@),
        None => None,
    }
}

/// Relies on aes_gcm::Aes256Gcm::decrypt: it returns the plaintext exactly
/// when the buffer is a valid seal under the same key and nonce (GCM
/// decryption inverts encryption, and a verifying tag implies the buffer
/// was produced by sealing that plaintext).
#[verifier::external_body]
pub(crate) fn aead_open(key: &Vec<u8>, nonce: &Vec<u8>, c: &Vec<u8>) -> (r: Option<Vec<u8>>)
    requires
        key@.len() == 32,
        nonce@.len() == 12,
        c@.len() <= 0x10000000,
    ensures
        opt_bytes(r) == open_of(key@, nonce@, c@),
        forall|p: Seq<u8>|
            c@ == #[trigger] seal_of(key@, nonce@, p) ==> opt_bytes(r) == Some(p),
        r matches Some(v) ==> c@ == seal_of(key@, nonce@, v@) && v@.len() + 16 == c@.len(),
{
    let cipher = aes_gcm::Aes256Gcm::new_from_slice(key.as_slice()).unwrap();
    let n = aes_gcm::aead::Nonce::<aes_gcm::Aes256Gcm>::try_from(nonce.as_slice()).unwrap();
    cipher.decrypt(&n, c.as_slice()).ok()
}

/// A thirty-two byte key stretched from arbitrary input by digest chaining.
pub open spec fn key32_of(m: Seq<u8>) -> Seq<u8> {
    md5_of(m) + md5_of(md5_of(m))
}

/// Stretches input bytes to a thirty-two byte cipher key.
pub fn derive_key32(m: &Vec<u8>) -> (r: Vec<u8>)
    ensures
        r@ == key32_of(m@),
        r@.len() == 32,
{
    let mut first = md5_digest(m);
    let mut second = md5_digest(&first);
    let ghost g1 = first@;
    let ghost g2 = second@;
    first.append(&mut second);
    proof {
        assert(first@ =~= g1 + g2);
    }
    first
}

/// The twelve-byte nonce that a chunk counter selects: the counter in
/// little-endian order, zero padded.
pub open spec fn nonce_of(c: u64) -> Seq<u8> {
    Seq::new(12, |i: int| if i < 8 {
        ((c >> ((8 * i) as u64)) & 0xff) as u8
    } else {
        0u8
    })
}

/// The two-byte big-endian encoding of a chunk length.
pub open spec fn len2(n: int) -> Seq<u8> {
    seq![(((n / 256) % 256) as u8), ((n % 256) as u8)]
}

/// The wire form of one payload: a sealed length chunk followed by the
/// sealed payload chunk, under consecutive nonces.
pub open spec fn chunks_of(k: Seq<u8>, c: u64, q: Seq<u8>) -> Seq<u8>
    recommends
        c < u64::MAX,
{
    seal_of(k, nonce_of(c), len2(q.len() as int)) + seal_of(k, nonce_of((c + 1) as u64), q)
}

/// The lengths that sealing gives the two chunks of one payload.
pub open spec fn chunk_lens_ok(k: Seq<u8>, c: u64, q: Seq<u8>) -> bool {
    seal_of(k, nonce_of(c), len2(q.len() as int)).len() == 18 && seal_of(
        k,
        nonce_of((c + 1) as u64),
        q,
    ).len() == q.len() + 16
}

/// Builds the nonce for a chunk counter.
pub fn nonce12(c: u64) -> (r: Vec<u8>)
    ensures
        r@ == nonce_of(c),
        r@.len() == 12,
{
    let mut out: Vec<u8> = Vec::new();
    let mut i: usize = 0;
    while i < 8
        invariant
            i <= 8,
            out@.len() == i as int,
            forall|j: int| 0 <= j < i ==> out@[j] == ((c >> ((8 * j) as u64)) & 0xff) as u8,
        decreases 8 - i,
    {
        out.push(((c >> ((8 * i) as u64)) & 0xff) as u8);
        i = i + 1;
    }
    out.push(0u8);
    out.push(0u8);
    out.push(0u8);
    out.push(0u8);
    proof {
        assert(out@ =~= nonce_of(c));
    }
    out
}

} // verus!
