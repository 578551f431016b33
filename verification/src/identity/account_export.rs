//! Exporting an account: the account's bytes under AES-256-GCM with a fresh
//! key, both handed out in base64.

use vstd::prelude::*;
use crate::identity::credentials::text_fits;
use crate::group::{base64_decode, base64_decoded, base64_encode, base64_len, base64_text};
use crate::wire::mls::VARINT_LIMIT;
use crate::wire::mls::{
    lemma_parse_text, parse_text, read_text, text_string, write_text, CodecError,
};
use crate::ratchet::crypto::{aead_error_text, aead_takes, random_nonce, TAG_SIZE};
use crate::support::text::join_text;

verus! {

/// An account in its wire form, ready for export.
#[derive(Debug, Clone)]
pub struct ExportedAccount {
    pub account: Vec<u8>,
}

/// An encrypted export: ciphertext and nonce, both in base64.
#[derive(Debug, Clone)]
pub struct EncryptedData {
    pub ciphertext: String,
    pub nonce: String,
}

/// What AES-256-GCM makes of a plaintext under a key and a nonce, without
/// associated data: the ciphertext followed by the 16-byte tag, or nothing
/// where the plaintext is too long for the cipher.
pub uninterp spec fn aes256_gcm_seal(key: Seq<u8>, nonce: Seq<u8>, plaintext: Seq<u8>) -> Option<
    Seq<u8>,
>;

/// What AES-256-GCM makes of a ciphertext with tag under a key and a nonce,
/// without associated data: the plaintext, or nothing where the tag does
/// not fit.
pub uninterp spec fn aes256_gcm_open(key: Seq<u8>, nonce: Seq<u8>, sealed: Seq<u8>) -> Option<
    Seq<u8>,
>;

/// `aes_gcm::Aes256Gcm::encrypt` under a fresh cipher for `key`: the
/// ciphertext with its tag of 16 bytes, or the error in words. The cipher
/// takes every plaintext of at most 2^36 bytes and refuses every longer
/// one. What was sealed opens again under the same key and nonce.
#[verifier::external_body]
fn aes256_gcm_encrypt(key: &[u8; 32], nonce: &[u8; 12], plaintext: &[u8]) -> (r: Result<
    Vec<u8>,
    String,
>)
    ensures
        (r is Ok) == aead_takes(plaintext@),
        match r {
            Ok(sealed) => aes256_gcm_seal(key@, nonce@, plaintext@) == Some(sealed@)
                && aes256_gcm_open(key@, nonce@, sealed@) == Some(plaintext@) && sealed@.len()
                == plaintext@.len() + TAG_SIZE,
            Err(e) => aes256_gcm_seal(key@, nonce@, plaintext@).is_none() && e@
                == aead_error_text(),
        },
{
    let cipher = <aes_gcm::Aes256Gcm as aes_gcm::KeyInit>::new(key.into());
    match aes_gcm::aead::Aead::encrypt(&cipher, nonce.into(), plaintext) {
        Ok(sealed) => Ok(sealed),
        Err(e) => Err(e.to_string()),
    }
}

/// `aes_gcm::Aes256Gcm::decrypt` under a fresh cipher for `key`: the
/// plaintext, or the error in words where the tag does not fit.
#[verifier::external_body]
fn aes256_gcm_decrypt(key: &[u8; 32], nonce: &[u8; 12], sealed: &[u8]) -> (r: Result<
    Vec<u8>,
    String,
>)
    ensures
        match r {
            Ok(plaintext) => aes256_gcm_open(key@, nonce@, sealed@) == Some(plaintext@),
            Err(e) => aes256_gcm_open(key@, nonce@, sealed@).is_none() && e@ == aead_error_text(),
        },
{
    let cipher = <aes_gcm::Aes256Gcm as aes_gcm::KeyInit>::new(key.into());
    match aes_gcm::aead::Aead::decrypt(&cipher, nonce.into(), sealed) {
        Ok(plaintext) => Ok(plaintext),
        Err(e) => Err(e.to_string()),
    }
}

/// `aes_gcm::Aes256Gcm::generate_key` on the operating system's random
/// number generator: 32 bytes. Nothing is promised of them.
#[verifier::external_body]
fn random_key() -> (key: [u8; 32]) {
    <aes_gcm::Aes256Gcm as aes_gcm::KeyInit>::generate_key(&mut aes_gcm::aead::OsRng).into()
}

impl EncryptedData {
    /// The wire form: the ciphertext, then the nonce, each as a text.
    pub open spec fn encoded(ciphertext: Seq<char>, nonce: Seq<char>) -> Seq<u8> {
        text_string(ciphertext) + text_string(nonce)
    }

    /// The parts as they are read off the wire.
    pub open spec fn decoded(data: Seq<u8>) -> Result<(Seq<char>, Seq<char>), CodecError> {
        match parse_text(data, 0) {
            Err(e) => Err(e),
            Ok((ciphertext, next)) => match parse_text(data, next) {
                Err(e) => Err(e),
                Ok((nonce, _)) => Ok((ciphertext, nonce)),
            },
        }
    }

    /// Writes the wire form.
    pub fn mls_encode_to_vec(&self) -> (r: Result<Vec<u8>, CodecError>)
        ensures
            match r {
                Ok(bytes) => text_fits(self.ciphertext@) && text_fits(self.nonce@) && bytes@
                    == EncryptedData::encoded(self.ciphertext@, self.nonce@),
                Err(e) => e == CodecError::VarIntOutOfRange && !(text_fits(self.ciphertext@)
                    && text_fits(self.nonce@)),
            },
    {
        let mut out: Vec<u8> = Vec::new();
        match write_text(&mut out, self.ciphertext.as_str()) {
            Ok(()) => {},
            Err(e) => {
                return Err(e);
            },
        }
        match write_text(&mut out, self.nonce.as_str()) {
            Ok(()) => {},
            Err(e) => {
                return Err(e);
            },
        }
        assert(out@ =~= EncryptedData::encoded(self.ciphertext@, self.nonce@));
        Ok(out)
    }

    /// Reads the wire form.
    pub fn mls_decode(data: &[u8]) -> (r: Result<EncryptedData, CodecError>)
        ensures
            match (r, EncryptedData::decoded(data@)) {
                (Ok(d), Ok(parts)) => d.ciphertext@ == parts.0 && d.nonce@ == parts.1,
                (Err(e), Err(se)) => e == se,
                _ => false,
            },
    {
        let (ciphertext, next) = match read_text(data, 0) {
            Ok(pair) => pair,
            Err(e) => {
                return Err(e);
            },
        };
        let (nonce, _end) = match read_text(data, next) {
            Ok(pair) => pair,
            Err(e) => {
                return Err(e);
            },
        };
        Ok(EncryptedData { ciphertext, nonce })
    }
}

/// Whether an account of so many bytes can be exported: its ciphertext in
/// base64 must be shorter than 2^30 characters.
pub open spec fn export_fits(bytes: nat) -> bool {
    base64_len(bytes + TAG_SIZE as nat) < VARINT_LIMIT
}

/// What an export under a given key and nonce is: the encrypted data in
/// base64, and the key in base64.
pub open spec fn spec_export(account: Seq<u8>, key: Seq<u8>, nonce: Seq<u8>) -> Result<
    (Seq<char>, Seq<char>),
    Seq<char>,
> {
    match aes256_gcm_seal(key, nonce, account) {
        None => Err("Encryption failed: "@ + aead_error_text()),
        Some(sealed) => {
            let ciphertext = base64_text(sealed);
            let nonce_text = base64_text(nonce);
            if !(text_fits(ciphertext) && text_fits(nonce_text)) {
                Err(CodecError::VarIntOutOfRange.spec_message())
            } else {
                Ok((base64_text(EncryptedData::encoded(ciphertext, nonce_text)), base64_text(key)))
            }
        },
    }
}

/// What opening an export gives, once key, nonce and ciphertext are at
/// hand: the account's bytes, or the cipher's refusal.
pub open spec fn spec_open(key: Seq<u8>, nonce: Seq<u8>, sealed: Seq<u8>) -> Result<
    Seq<u8>,
    Seq<char>,
> {
    match aes256_gcm_open(key, nonce, sealed) {
        Some(account) => Ok(account),
        None => Err("Decryption failed: "@ + aead_error_text()),
    }
}

/// What importing an export gives: every part must decode, the key must
/// have 32 bytes and the nonce twelve, and the tag must fit.
pub open spec fn spec_import(encrypted_data: Seq<char>, key_base64: Seq<char>) -> Result<
    Seq<u8>,
    Seq<char>,
> {
    match base64_decoded(key_base64) {
        Err(e) => Err("Failed to decode key: "@ + e),
        Ok(key) => match base64_decoded(encrypted_data) {
            Err(e) => Err("Failed to decode encrypted data: "@ + e),
            Ok(bytes) => match EncryptedData::decoded(bytes) {
                Err(e) => Err(e.spec_message()),
                Ok(parts) => match base64_decoded(parts.0) {
                    Err(e) => Err("Failed to decode ciphertext: "@ + e),
                    Ok(sealed) => match base64_decoded(parts.1) {
                        Err(e) => Err("Failed to decode nonce: "@ + e),
                        Ok(nonce) => {
                            if key.len() != 32 {
                                Err("Invalid key length"@)
                            } else if nonce.len() != 12 {
                                Err("Invalid nonce length"@)
                            } else {
                                spec_open(key, nonce, sealed)
                            }
                        },
                    },
                },
            },
        },
    }
}

/// Ciphertext and nonce that were written read back as themselves.
pub proof fn lemma_encrypted_data_round_trip(ciphertext: Seq<char>, nonce: Seq<char>)
    requires
        text_fits(ciphertext),
        text_fits(nonce),
    ensures
        EncryptedData::decoded(EncryptedData::encoded(ciphertext, nonce)) == Ok::<
            (Seq<char>, Seq<char>),
            CodecError,
        >((ciphertext, nonce)),
{
    let first = text_string(ciphertext);
    let second = text_string(nonce);
    let data = EncryptedData::encoded(ciphertext, nonce);
    let none = Seq::<u8>::empty();
    assert(none + first + second =~= data);
    assert(first + second + none =~= data);
    lemma_parse_text(none, ciphertext, second);
    lemma_parse_text(first, nonce, none);
    assert(parse_text(data, 0) == Ok::<(Seq<char>, int), CodecError>(
        (ciphertext, first.len() as int),
    ));
}

fn key_of(bytes: &Vec<u8>) -> (key: [u8; 32])
    requires
        bytes@.len() == 32,
    ensures
        key@ == bytes@,
{
    let mut key = [0u8; 32];
    let mut i: usize = 0;
    while i < 32
        invariant
            i <= 32,
            bytes@.len() == 32,
            forall|j: int| 0 <= j < i ==> key@[j] == bytes@[j],
        decreases 32 - i,
    {
        key[i] = bytes[i];
        i += 1;
    }
    assert(key@ =~= bytes@);
    key
}

fn nonce_of(bytes: &Vec<u8>) -> (nonce: [u8; 12])
    requires
        bytes@.len() == 12,
    ensures
        nonce@ == bytes@,
{
    let mut nonce = [0u8; 12];
    let mut i: usize = 0;
    while i < 12
        invariant
            i <= 12,
            bytes@.len() == 12,
            forall|j: int| 0 <= j < i ==> nonce@[j] == bytes@[j],
        decreases 12 - i,
    {
        nonce[i] = bytes[i];
        i += 1;
    }
    assert(nonce@ =~= bytes@);
    nonce
}

impl ExportedAccount {
    pub fn new(account: Vec<u8>) -> (e: ExportedAccount)
        ensures
            e.account == account,
    {
        ExportedAccount { account }
    }

    /// Encrypts the account under a given key and nonce; see
    /// [`spec_export`].
    pub fn encrypt_with(&self, key: &[u8; 32], nonce: &[u8; 12]) -> (r: Result<
        (String, String),
        String,
    >)
        ensures
            match (r, spec_export(self.account@, key@, nonce@)) {
                (Ok(out), Ok(expected)) => out.0@ == expected.0 && out.1@ == expected.1
                    && aes256_gcm_open(
                    key@,
                    nonce@,
                    aes256_gcm_seal(key@, nonce@, self.account@)->Some_0,
                ) == Some(self.account@),
                (Err(e), Err(se)) => e@ == se,
                _ => false,
            },
            r matches Ok(out) ==> spec_import(out.0@, out.1@) == Ok::<Seq<u8>, Seq<char>>(
                self.account@,
            ),
            r is Ok <==> export_fits(self.account@.len()),
    {
        let sealed = match aes256_gcm_encrypt(key, nonce, self.account.as_slice()) {
            Ok(s) => s,
            Err(e) => {
                return Err(join_text("Encryption failed: ", e.as_str()));
            },
        };
        let data = EncryptedData {
            ciphertext: base64_encode(sealed.as_slice()),
            nonce: base64_encode(nonce.as_slice()),
        };
        proof {
            vstd::utf8::is_ascii_chars_encode_utf8(data.ciphertext@);
            vstd::utf8::is_ascii_chars_encode_utf8(data.nonce@);
        }
        let bytes = match data.mls_encode_to_vec() {
            Ok(b) => b,
            Err(e) => {
                return Err(e.message());
            },
        };
        proof {
            lemma_encrypted_data_round_trip(data.ciphertext@, data.nonce@);
        }
        Ok((base64_encode(bytes.as_slice()), base64_encode(key.as_slice())))
    }

    /// Encrypts the account under a fresh random key and nonce. The outcome
    /// is the one of [`Self::encrypt_with`] for some key and nonce.
    pub fn encrypt(&self) -> (r: Result<(String, String), String>)
        ensures
            exists|key: Seq<u8>, nonce: Seq<u8>|
                key.len() == 32 && nonce.len() == 12 && match (
                    r,
                    #[trigger] spec_export(self.account@, key, nonce),
                ) {
                    (Ok(out), Ok(expected)) => out.0@ == expected.0 && out.1@ == expected.1,
                    (Err(e), Err(se)) => e@ == se,
                    _ => false,
                },
            r matches Ok(out) ==> spec_import(out.0@, out.1@) == Ok::<Seq<u8>, Seq<char>>(
                self.account@,
            ),
            r is Ok <==> export_fits(self.account@.len()),
    {
        let key = random_key();
        let nonce = random_nonce();
        let r = self.encrypt_with(&key, &nonce);
        assert(key@.len() == 32 && nonce@.len() == 12);
        r
    }

    /// Opens an export with key, nonce and ciphertext at hand.
    pub fn open(key: &[u8; 32], nonce: &[u8; 12], sealed: &[u8]) -> (r: Result<
        ExportedAccount,
        String,
    >)
        ensures
            match (r, spec_open(key@, nonce@, sealed@)) {
                (Ok(e), Ok(account)) => e.account@ == account,
                (Err(e), Err(se)) => e@ == se,
                _ => false,
            },
    {
        match aes256_gcm_decrypt(key, nonce, sealed) {
            Ok(account) => Ok(ExportedAccount { account }),
            Err(e) => Err(join_text("Decryption failed: ", e.as_str())),
        }
    }

    /// Imports an export from its two texts; see [`spec_import`].
    pub fn decrypt(encrypted_data: &str, key_base64: &str) -> (r: Result<ExportedAccount, String>)
        ensures
            match (r, spec_import(encrypted_data@, key_base64@)) {
                (Ok(e), Ok(account)) => e.account@ == account,
                (Err(e), Err(se)) => e@ == se,
                _ => false,
            },
    {
        let key_bytes = match base64_decode(key_base64) {
            Ok(b) => b,
            Err(e) => {
                return Err(join_text("Failed to decode key: ", e.as_str()));
            },
        };
        let encrypted_bytes = match base64_decode(encrypted_data) {
            Ok(b) => b,
            Err(e) => {
                return Err(join_text("Failed to decode encrypted data: ", e.as_str()));
            },
        };
        let data = match EncryptedData::mls_decode(encrypted_bytes.as_slice()) {
            Ok(d) => d,
            Err(e) => {
                return Err(e.message());
            },
        };
        let sealed = match base64_decode(data.ciphertext.as_str()) {
            Ok(b) => b,
            Err(e) => {
                return Err(join_text("Failed to decode ciphertext: ", e.as_str()));
            },
        };
        let nonce_bytes = match base64_decode(data.nonce.as_str()) {
            Ok(b) => b,
            Err(e) => {
                return Err(join_text("Failed to decode nonce: ", e.as_str()));
            },
        };
        if key_bytes.len() != 32 {
            return Err("Invalid key length".to_string());
        }
        if nonce_bytes.len() != 12 {
            return Err("Invalid nonce length".to_string());
        }
        ExportedAccount::open(&key_of(&key_bytes), &nonce_of(&nonce_bytes), sealed.as_slice())
    }
}

} // verus!
