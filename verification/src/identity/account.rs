//! The local account: who the user is, and the key that signs for them.

use vstd::prelude::*;
use crate::identity::credentials::{
    bytes_fit, parse_account_at, text_fits, AccountCredential, AccountCredentialView,
};
use crate::group::codec::{
    get_opt_blob, get_opt_text, opt_blob_bytes, opt_blob_fits, opt_text_bytes, opt_text_fits,
    parse_opt_blob, parse_opt_text, put_opt_blob, put_opt_text,
};
use crate::wire::mls::{
    be_u64, byte_string, parse_bytes, parse_text, parse_u64, read_bytes, read_text, read_u64,
    text_string, write_bytes, write_text, write_u64, CodecError,
};
use crate::wire::bytes::push_all;
use crate::support::text::join_text;
use crate::group::errors::{GroupError, GroupErrorView};
use crate::identity::signing::{
    generate_signature_keys, public_key_of, sign_with, signature_of, signature_valid,
    verify_signature,
};
use crate::support::text::{opt_bytes, opt_text};

verus! {

/// The account of the local user.
#[derive(Debug, Clone)]
pub struct Account {
    pub user_id: u64,
    pub username: String,
    pub public_address: String,
    pub server_address: String,
    pub server_public_key: Option<Vec<u8>>,
    pub avatar_url: Option<String>,
    /// The credential that others know the account by.
    pub credential: AccountCredential,
    /// The secret key that signs for the account.
    pub signer: Vec<u8>,
}

pub struct AccountView {
    pub user_id: u64,
    pub username: Seq<char>,
    pub public_address: Seq<char>,
    pub server_address: Seq<char>,
    pub server_public_key: Option<Seq<u8>>,
    pub avatar_url: Option<Seq<char>>,
    pub credential: AccountCredentialView,
    pub signer: Seq<u8>,
}

impl View for Account {
    type V = AccountView;

    open spec fn view(&self) -> AccountView {
        AccountView {
            user_id: self.user_id,
            username: self.username@,
            public_address: self.public_address@,
            server_address: self.server_address@,
            server_public_key: opt_bytes(self.server_public_key),
            avatar_url: opt_text(self.avatar_url),
            credential: self.credential@,
            signer: self.signer@,
        }
    }
}

impl AccountView {
    /// The key in the credential is the public key of the key that signs:
    /// the signing key pins the account's identity.
    pub open spec fn well_formed(self) -> bool {
        public_key_of(self.signer) == Some(self.credential.public_key)
    }
}

pub open spec fn keys_failed() -> GroupErrorView {
    GroupErrorView::MlsError("Error generating signature keys"@)
}

pub open spec fn signing_failed() -> GroupErrorView {
    GroupErrorView::CryptoError("Message signature failed"@)
}

pub open spec fn verification_failed() -> GroupErrorView {
    GroupErrorView::CryptoError("Message verification failed"@)
}

impl Account {
    /// An account with keys and credential that exist already.
    pub fn new_with_existing_keys(
        user_id: u64,
        username: String,
        public_address: String,
        server_address: String,
        server_public_key: Option<Vec<u8>>,
        avatar_url: Option<String>,
        credential: AccountCredential,
        signer: Vec<u8>,
    ) -> (a: Account)
        ensures
            a@ == (AccountView {
                user_id,
                username: username@,
                public_address: public_address@,
                server_address: server_address@,
                server_public_key: opt_bytes(server_public_key),
                avatar_url: opt_text(avatar_url),
                credential: credential@,
                signer: signer@,
            }),
    {
        Account {
            user_id,
            username,
            public_address,
            server_address,
            server_public_key,
            avatar_url,
            credential,
            signer,
        }
    }

    /// A fresh pair of signing keys: the secret key, and the public key
    /// that belongs to it.
    pub fn create_keys() -> (r: Result<(Vec<u8>, Vec<u8>), GroupError>)
        ensures
            match r {
                Ok(keys) => public_key_of(keys.0@) == Some(keys.1@),
                Err(e) => e@ == keys_failed(),
            },
    {
        match generate_signature_keys() {
            Some(keys) => Ok(keys),
            None => Err(GroupError::MlsError("Error generating signature keys".to_string())),
        }
    }

    /// Signs a message with the account's key. The signature of a
    /// well-formed account verifies under the public key in its credential.
    pub fn sign_message(&self, message: &[u8]) -> (r: Result<Vec<u8>, GroupError>)
        ensures
            match r {
                Ok(signature) => signature_of(self@.signer, message@) == Some(signature@) && (
                self@.well_formed() ==> signature_valid(
                    self@.credential.public_key,
                    signature@,
                    message@,
                )),
                Err(e) => signature_of(self@.signer, message@) is None && e@ == signing_failed(),
            },
    {
        match sign_with(self.signer.as_slice(), message) {
            Some(signature) => Ok(signature),
            None => Err(GroupError::CryptoError("Message signature failed".to_string())),
        }
    }

    /// Verifies a signature over a message under a public key.
    pub fn verify_with_public_key(&self, public_key: &[u8], message: &[u8], signature: &[u8]) -> (r:
        Result<(), GroupError>)
        ensures
            match r {
                Ok(()) => signature_valid(public_key@, signature@, message@),
                Err(e) => !signature_valid(public_key@, signature@, message@) && e@
                    == verification_failed(),
            },
    {
        if verify_signature(public_key, signature, message) {
            Ok(())
        } else {
            Err(GroupError::CryptoError("Message verification failed".to_string()))
        }
    }
}

impl AccountView {
    /// Whether the account can be written.
    pub open spec fn encodable(self) -> bool {
        &&& text_fits(self.username)
        &&& text_fits(self.public_address)
        &&& text_fits(self.server_address)
        &&& opt_blob_fits(self.server_public_key)
        &&& opt_text_fits(self.avatar_url)
        &&& self.credential.encodable()
        &&& bytes_fit(self.signer)
    }

    /// The account on the wire: its fields in order.
    pub open spec fn encoded(self) -> Seq<u8> {
        be_u64(self.user_id) + text_string(self.username) + text_string(self.public_address)
            + text_string(self.server_address) + opt_blob_bytes(self.server_public_key)
            + opt_text_bytes(self.avatar_url) + self.credential.encoded() + byte_string(
            self.signer,
        )
    }

    /// The account that bytes stand for, read from their start.
    pub open spec fn decoded(data: Seq<u8>) -> Result<AccountView, CodecError> {
        match parse_u64(data, 0) {
            Err(e) => Err(e),
            Ok((user_id, after1)) => match parse_text(data, after1) {
                Err(e) => Err(e),
                Ok((username, after2)) => match parse_text(data, after2) {
                    Err(e) => Err(e),
                    Ok((public_address, after3)) => match parse_text(data, after3) {
                        Err(e) => Err(e),
                        Ok((server_address, after4)) => match parse_opt_blob(data, after4) {
                            Err(e) => Err(e),
                            Ok((server_public_key, after5)) => match parse_opt_text(data, after5) {
                                Err(e) => Err(e),
                                Ok((avatar_url, after6)) => match parse_account_at(data, after6) {
                                    Err(e) => Err(e),
                                    Ok((credential, after7)) => match parse_bytes(data, after7) {
                                        Err(e) => Err(e),
                                        Ok((signer, _)) => Ok(
                                            AccountView {
                                                user_id,
                                                username,
                                                public_address,
                                                server_address,
                                                server_public_key,
                                                avatar_url,
                                                credential,
                                                signer,
                                            },
                                        ),
                                    },
                                },
                            },
                        },
                    },
                },
            },
        }
    }
}

pub open spec fn encode_failed(e: CodecError) -> GroupErrorView {
    GroupErrorView::EncodingError("Failed to encode account: "@ + e.spec_message())
}

pub open spec fn decode_failed(e: CodecError) -> GroupErrorView {
    GroupErrorView::EncodingError("Failed to decode account: "@ + e.spec_message())
}

impl Account {
    /// The account on the wire. It exists where every text and every byte
    /// string is shorter than 2^30 bytes.
    pub fn to_mls_bytes(&self) -> (r: Result<Vec<u8>, GroupError>)
        ensures
            match r {
                Ok(bytes) => self@.encodable() && bytes@ == self@.encoded(),
                Err(e) => !self@.encodable() && e@ == encode_failed(CodecError::VarIntOutOfRange),
            },
    {
        match self.encode() {
            Ok(bytes) => Ok(bytes),
            Err(e) => {
                let why = e.message();
                Err(GroupError::EncodingError(join_text("Failed to encode account: ", why.as_str())))
            },
        }
    }

    fn encode(&self) -> (r: Result<Vec<u8>, CodecError>)
        ensures
            match r {
                Ok(bytes) => self@.encodable() && bytes@ == self@.encoded(),
                Err(e) => !self@.encodable() && e == CodecError::VarIntOutOfRange,
            },
    {
        let mut out: Vec<u8> = Vec::new();
        write_u64(&mut out, self.user_id);
        let ghost acc = be_u64(self.user_id);
        assert(out@ =~= acc);
        match write_text(&mut out, self.username.as_str()) {
            Ok(()) => {},
            Err(e) => {
                return Err(e);
            },
        }
        let ghost acc = acc + text_string(self.username@);
        assert(out@ == acc);
        match write_text(&mut out, self.public_address.as_str()) {
            Ok(()) => {},
            Err(e) => {
                return Err(e);
            },
        }
        let ghost acc = acc + text_string(self.public_address@);
        assert(out@ == acc);
        match write_text(&mut out, self.server_address.as_str()) {
            Ok(()) => {},
            Err(e) => {
                return Err(e);
            },
        }
        let ghost acc = acc + text_string(self.server_address@);
        assert(out@ == acc);
        match put_opt_blob(&mut out, &self.server_public_key) {
            Ok(()) => {},
            Err(e) => {
                return Err(e);
            },
        }
        let ghost acc = acc + opt_blob_bytes(opt_bytes(self.server_public_key));
        assert(out@ == acc);
        match put_opt_text(&mut out, &self.avatar_url) {
            Ok(()) => {},
            Err(e) => {
                return Err(e);
            },
        }
        let ghost acc = acc + opt_text_bytes(opt_text(self.avatar_url));
        assert(out@ == acc);
        match self.credential.mls_encode_to_vec() {
            Ok(c) => {
                push_all(&mut out, c.as_slice());
            },
            Err(e) => {
                return Err(e);
            },
        }
        let ghost acc = acc + self.credential@.encoded();
        assert(out@ == acc);
        match write_bytes(&mut out, self.signer.as_slice()) {
            Ok(()) => {},
            Err(e) => {
                return Err(e);
            },
        }
        let ghost acc = acc + byte_string(self.signer@);
        assert(out@ == acc);
        assert(acc == self@.encoded());
        Ok(out)
    }

    fn decode(data: &[u8]) -> (r: Result<Account, CodecError>)
        ensures
            match (r, AccountView::decoded(data@)) {
                (Ok(a), Ok(v)) => a@ == v,
                (Err(e), Err(se)) => e == se,
                _ => false,
            },
    {
        let (user_id, after1) = match read_u64(data, 0) {
            Ok(pair) => pair,
            Err(e) => {
                return Err(e);
            },
        };
        let (username, after2) = match read_text(data, after1) {
            Ok(pair) => pair,
            Err(e) => {
                return Err(e);
            },
        };
        let (public_address, after3) = match read_text(data, after2) {
            Ok(pair) => pair,
            Err(e) => {
                return Err(e);
            },
        };
        let (server_address, after4) = match read_text(data, after3) {
            Ok(pair) => pair,
            Err(e) => {
                return Err(e);
            },
        };
        let (server_public_key, after5) = match get_opt_blob(data, after4) {
            Ok(pair) => pair,
            Err(e) => {
                return Err(e);
            },
        };
        let (avatar_url, after6) = match get_opt_text(data, after5) {
            Ok(pair) => pair,
            Err(e) => {
                return Err(e);
            },
        };
        let (credential, after7) = match AccountCredential::mls_decode_at(data, after6) {
            Ok(pair) => pair,
            Err(e) => {
                return Err(e);
            },
        };
        let (signer, _end) = match read_bytes(data, after7) {
            Ok(pair) => pair,
            Err(e) => {
                return Err(e);
            },
        };
        Ok(
            Account {
                user_id,
                username,
                public_address,
                server_address,
                server_public_key,
                avatar_url,
                credential,
                signer,
            },
        )
    }

    /// Reads an account from the start of `data`.
    pub fn from_mls_bytes(data: &[u8]) -> (r: Result<Account, GroupError>)
        ensures
            match (r, AccountView::decoded(data@)) {
                (Ok(a), Ok(v)) => a@ == v,
                (Err(e), Err(se)) => e@ == decode_failed(se),
                _ => false,
            },
    {
        match Account::decode(data) {
            Ok(a) => Ok(a),
            Err(e) => {
                let why = e.message();
                Err(GroupError::EncodingError(join_text("Failed to decode account: ", why.as_str())))
            },
        }
    }
}

} // verus!
