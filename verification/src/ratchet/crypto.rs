//! The cryptographic primitives of the ratchet: HKDF-SHA-256, AES-128-GCM
//! and the system's random number generator. They are computed by outside
//! crates; what this module states of them is believed, not proved.

use vstd::prelude::*;
use vstd::utf8::encode_utf8;

verus! {

/// The first 32 bytes of HKDF-SHA-256 (RFC 5869): extract with `salt` (no
/// salt counts as 32 zero bytes) over `ikm`, then expand with `info`.
pub uninterp spec fn hkdf_sha256_32(salt: Option<Seq<u8>>, ikm: Seq<u8>, info: Seq<u8>) -> Seq<u8>;

/// What AES-128-GCM makes of a plaintext under a key and a nonce, without
/// associated data: the ciphertext followed by the 16-byte tag, or nothing
/// where the plaintext is too long for the cipher.
pub uninterp spec fn aes128_gcm_seal(key: Seq<u8>, nonce: Seq<u8>, plaintext: Seq<u8>) -> Option<
    Seq<u8>,
>;

/// What AES-128-GCM makes of a ciphertext with tag under a key and a nonce,
/// without associated data: the plaintext, or nothing where the tag does
/// not fit.
pub uninterp spec fn aes128_gcm_open(key: Seq<u8>, nonce: Seq<u8>, sealed: Seq<u8>) -> Option<
    Seq<u8>,
>;

/// The words of the one error that the cipher reports.
pub open spec fn aead_error_text() -> Seq<char> {
    "aead::Error"@
}

/// The length of the tag that AES-GCM puts behind the ciphertext.
pub const TAG_SIZE: usize = 16;

/// Whether AES-GCM takes a plaintext: one of at most 2^36 bytes. The
/// cipher refuses a longer one, and nothing else.
pub open spec fn aead_takes(plaintext: Seq<u8>) -> bool {
    plaintext.len() <= 0x10_0000_0000
}

/// `hkdf::Hkdf::<sha2::Sha256>::new` followed by `expand` into 32 bytes.
/// The output depends on the three inputs alone, and `expand` cannot fail
/// for an output this short (its limit is 255 blocks of 32 bytes).
#[verifier::external_body]
pub(crate) fn hkdf_expand_32(salt: Option<&[u8; 16]>, ikm: &[u8; 16], info: &[u8]) -> (okm: [u8; 32])
    ensures
        okm@ == hkdf_sha256_32(
            match salt {
                Some(s) => Some(s@),
                None => None,
            },
            ikm@,
            info@,
        ),
{
    let hk = hkdf::Hkdf::<sha2::Sha256>::new(salt.map(|s| &s[..]), &ikm[..]);
    let mut okm = [0u8; 32];
    hk.expand(info, &mut okm).ok();
    okm
}

/// `aes_gcm::Aes128Gcm::encrypt` under a fresh cipher for `key`: the
/// ciphertext with its tag of 16 bytes, or the error in words. The cipher
/// takes every plaintext of at most 2^36 bytes and refuses every longer
/// one. What was sealed opens again under the same key and nonce: that is
/// the promise of an AEAD.
#[verifier::external_body]
pub(crate) fn aes128_gcm_encrypt(key: &[u8; 16], nonce: &[u8; 12], plaintext: &[u8]) -> (r: Result<
    Vec<u8>,
    String,
>)
    ensures
        (r is Ok) == aead_takes(plaintext@),
        match r {
            Ok(sealed) => aes128_gcm_seal(key@, nonce@, plaintext@) == Some(sealed@)
                && aes128_gcm_open(key@, nonce@, sealed@) == Some(plaintext@) && sealed@.len()
                == plaintext@.len() + TAG_SIZE,
            Err(e) => aes128_gcm_seal(key@, nonce@, plaintext@).is_none() && e@
                == aead_error_text(),
        },
{
    let cipher = <aes_gcm::Aes128Gcm as aes_gcm::KeyInit>::new(key.into());
    match aes_gcm::aead::Aead::encrypt(&cipher, nonce.into(), plaintext) {
        Ok(sealed) => Ok(sealed),
        Err(e) => Err(e.to_string()),
    }
}

/// `aes_gcm::Aes128Gcm::decrypt` under a fresh cipher for `key`: the
/// plaintext, or the error in words where the tag does not fit.
#[verifier::external_body]
pub(crate) fn aes128_gcm_decrypt(key: &[u8; 16], nonce: &[u8; 12], sealed: &[u8]) -> (r: Result<
    Vec<u8>,
    String,
>)
    ensures
        match r {
            Ok(plaintext) => aes128_gcm_open(key@, nonce@, sealed@) == Some(plaintext@),
            Err(e) => aes128_gcm_open(key@, nonce@, sealed@).is_none() && e@ == aead_error_text(),
        },
{
    let cipher = <aes_gcm::Aes128Gcm as aes_gcm::KeyInit>::new(key.into());
    match aes_gcm::aead::Aead::decrypt(&cipher, nonce.into(), sealed) {
        Ok(plaintext) => Ok(plaintext),
        Err(e) => Err(e.to_string()),
    }
}

/// Twelve bytes from `aes_gcm::aead::OsRng`, the operating system's random
/// number generator. Nothing is promised of them.
#[verifier::external_body]
pub(crate) fn random_nonce() -> (nonce: [u8; 12]) {
    let mut nonce = [0u8; 12];
    aes_gcm::aead::rand_core::RngCore::fill_bytes(&mut aes_gcm::aead::OsRng, &mut nonce);
    nonce
}

/// The label under which the first keys of an epoch are derived.
pub open spec fn init_label() -> Seq<u8> {
    encode_utf8("SenderRatchetInit"@)
}

/// The label under which the chain is advanced.
pub open spec fn step_label() -> Seq<u8> {
    encode_utf8("MessageKeyDerivation"@)
}

/// The root key and the first chain key of an epoch: the two halves of what
/// HKDF makes of the epoch's secret.
pub open spec fn initial_keys(secret: Seq<u8>) -> (Seq<u8>, Seq<u8>) {
    let okm = hkdf_sha256_32(None, secret, init_label());
    (okm.subrange(0, 16), okm.subrange(16, 32))
}

/// One step of the chain: the next chain key and the message key of this
/// generation, the two halves of what HKDF makes of the chain key under
/// the root key.
pub open spec fn chain_step(root: Seq<u8>, chain: Seq<u8>) -> (Seq<u8>, Seq<u8>) {
    let okm = hkdf_sha256_32(Some(root), chain, step_label());
    (okm.subrange(0, 16), okm.subrange(16, 32))
}

/// The chain key of an epoch after `generation` steps.
pub open spec fn chain_key_at(secret: Seq<u8>, generation: nat) -> Seq<u8>
    decreases generation,
{
    if generation == 0 {
        initial_keys(secret).1
    } else {
        chain_step(initial_keys(secret).0, chain_key_at(secret, (generation - 1) as nat)).0
    }
}

/// The message key of a generation of an epoch.
pub open spec fn message_key_at(secret: Seq<u8>, generation: nat) -> Seq<u8> {
    chain_step(initial_keys(secret).0, chain_key_at(secret, generation)).1
}

/// The first and the second half of 32 bytes.
fn halves(okm: &[u8; 32]) -> (r: ([u8; 16], [u8; 16]))
    ensures
        r.0@ == okm@.subrange(0, 16),
        r.1@ == okm@.subrange(16, 32),
{
    let mut first = [0u8; 16];
    let mut second = [0u8; 16];
    let mut i: usize = 0;
    while i < 16
        invariant
            i <= 16,
            forall|j: int| 0 <= j < i ==> first@[j] == okm@[j],
            forall|j: int| 0 <= j < i ==> second@[j] == okm@[16 + j],
        decreases 16 - i,
    {
        first[i] = okm[i];
        second[i] = okm[16 + i];
        i += 1;
    }
    assert(first@ =~= okm@.subrange(0, 16));
    assert(second@ =~= okm@.subrange(16, 32));
    (first, second)
}

/// Derives the root key and the first chain key of an epoch.
pub fn derive_initial_keys(secret: &[u8; 16]) -> (r: ([u8; 16], [u8; 16]))
    ensures
        r.0@ == initial_keys(secret@).0,
        r.1@ == initial_keys(secret@).1,
{
    let okm = hkdf_expand_32(None, secret, "SenderRatchetInit".as_bytes());
    halves(&okm)
}

/// Advances the chain by one step: the next chain key and this
/// generation's message key.
pub fn derive_step(root: &[u8; 16], chain: &[u8; 16]) -> (r: ([u8; 16], [u8; 16]))
    ensures
        r.0@ == chain_step(root@, chain@).0,
        r.1@ == chain_step(root@, chain@).1,
{
    let okm = hkdf_expand_32(Some(root), chain, "MessageKeyDerivation".as_bytes());
    halves(&okm)
}

} // verus!
