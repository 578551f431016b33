//! Signatures of the group's cipher suite (Ed25519). They are computed by
//! the MLS crypto provider; what this module states of them is believed,
//! not proved.

use vstd::prelude::*;

verus! {

/// Whether `signature` is a valid signature over `message` under
/// `public_key`.
pub uninterp spec fn signature_valid(public_key: Seq<u8>, signature: Seq<u8>, message: Seq<u8>) -> bool;

/// The signature that a secret key makes over a message, if the key is one.
pub uninterp spec fn signature_of(secret_key: Seq<u8>, message: Seq<u8>) -> Option<Seq<u8>>;

/// The public key that belongs to a secret key, if the key is one.
pub uninterp spec fn public_key_of(secret_key: Seq<u8>) -> Option<Seq<u8>>;

/// `CipherSuiteProvider::verify` of `mls_rs_crypto_rustcrypto`, for the
/// suite `CURVE25519_AES128`: whether the secret key that corresponds to
/// the public key made the signature over the message. The answer depends
/// on the three byte strings alone.
#[verifier::external_body]
pub(crate) fn verify_signature(public_key: &[u8], signature: &[u8], message: &[u8]) -> (ok: bool)
    ensures
        ok == signature_valid(public_key@, signature@, message@),
{
    let provider = mls_rs_crypto_rustcrypto::RustCryptoProvider::default();
    match mls_rs_core::crypto::CryptoProvider::cipher_suite_provider(
        &provider,
        mls_rs_core::crypto::CipherSuite::CURVE25519_AES128,
    ) {
        Some(suite) => mls_rs_core::crypto::CipherSuiteProvider::verify(
            &suite,
            &mls_rs_core::crypto::SignaturePublicKey::new_slice(public_key),
            signature,
            message,
        ).is_ok(),
        None => false,
    }
}

/// `CipherSuiteProvider::sign` of `mls_rs_crypto_rustcrypto`, for the suite
/// `CURVE25519_AES128`: the signature, or nothing where the bytes are no
/// secret key. Ed25519 signs deterministically, so the signature depends on
/// key and message alone; and it verifies under the public key that
/// corresponds to the secret key.
#[verifier::external_body]
pub(crate) fn sign_with(secret_key: &[u8], message: &[u8]) -> (r: Option<Vec<u8>>)
    ensures
        match r {
            Some(signature) => signature_of(secret_key@, message@) == Some(signature@) && (
            public_key_of(secret_key@) matches Some(public_key) ==> signature_valid(
                public_key,
                signature@,
                message@,
            )),
            None => signature_of(secret_key@, message@).is_none(),
        },
{
    let provider = mls_rs_crypto_rustcrypto::RustCryptoProvider::default();
    match mls_rs_core::crypto::CryptoProvider::cipher_suite_provider(
        &provider,
        mls_rs_core::crypto::CipherSuite::CURVE25519_AES128,
    ) {
        Some(suite) => mls_rs_core::crypto::CipherSuiteProvider::sign(
            &suite,
            &mls_rs_core::crypto::SignatureSecretKey::new_slice(secret_key),
            message,
        ).ok(),
        None => None,
    }
}

/// `CipherSuiteProvider::signature_key_generate` of
/// `mls_rs_crypto_rustcrypto`, for the suite `CURVE25519_AES128`: a fresh
/// secret key and the public key that corresponds to it, or nothing where
/// the system gave no randomness. Which keys come is chance.
#[verifier::external_body]
pub(crate) fn generate_signature_keys() -> (r: Option<(Vec<u8>, Vec<u8>)>)
    ensures
        r matches Some(keys) ==> public_key_of(keys.0@) == Some(keys.1@),
{
    let provider = mls_rs_crypto_rustcrypto::RustCryptoProvider::default();
    match mls_rs_core::crypto::CryptoProvider::cipher_suite_provider(
        &provider,
        mls_rs_core::crypto::CipherSuite::CURVE25519_AES128,
    ) {
        Some(suite) => match mls_rs_core::crypto::CipherSuiteProvider::signature_key_generate(
            &suite,
        ) {
            Ok((secret, public)) => Some((secret.as_bytes().to_vec(), public.as_bytes().to_vec())),
            Err(_) => None,
        },
        None => None,
    }
}

} // verus!
