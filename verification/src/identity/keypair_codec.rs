//! The stored form of a device's identity: the credential, then the public
//! key, then the secret key, each key as a byte string.

use vstd::prelude::*;
use crate::group::codec::seq_assoc;
use crate::group::errors::{GroupError, GroupErrorView};
use crate::identity::credentials::{
    bytes_fit, lemma_account_at_round_trip, parse_account_at, AccountCredential,
    AccountCredentialView, AccountIdView, DeviceCredential, DeviceCredentialView, DeviceId,
    DeviceIdView,
};
use crate::identity::keypair::IdentityKeypair;
use crate::wire::mls::{
    byte_string, lemma_parse_bytes, parse_bytes, read_bytes, write_bytes, CodecError,
};

verus! {

/// A device credential has the wire form of an account credential: a
/// number, a text and two byte strings. This is the device credential that
/// stands where an account credential was read.
pub open spec fn as_device(c: AccountCredentialView) -> DeviceCredentialView {
    DeviceCredentialView {
        device_id: DeviceIdView {
            user_id: c.account_id.user_id,
            device_id: c.account_id.public_address,
        },
        user_public_key: c.public_key,
        signature: c.cert,
    }
}

/// Whether an identity is short enough for the wire.
pub open spec fn identity_fits(
    credential: DeviceCredentialView,
    public_key: Seq<u8>,
    signer: Seq<u8>,
) -> bool {
    credential.encodable() && bytes_fit(public_key) && bytes_fit(signer)
}

/// An identity on the wire.
pub open spec fn identity_bytes(
    credential: DeviceCredentialView,
    public_key: Seq<u8>,
    signer: Seq<u8>,
) -> Seq<u8> {
    credential.encoded() + byte_string(public_key) + byte_string(signer)
}

/// The identity that bytes stand for, read from their start: credential,
/// public key and secret key.
pub open spec fn parse_identity(data: Seq<u8>) -> Result<
    (DeviceCredentialView, Seq<u8>, Seq<u8>),
    CodecError,
> {
    match parse_account_at(data, 0) {
        Err(e) => Err(e),
        Ok((c, after1)) => match parse_bytes(data, after1) {
            Err(e) => Err(e),
            Ok((public_key, after2)) => match parse_bytes(data, after2) {
                Err(e) => Err(e),
                Ok((signer, _)) => Ok((as_device(c), public_key, signer)),
            },
        },
    }
}

impl IdentityKeypair {
    /// Writes the identity. It can be written where the device's name, the
    /// keys and the signature are each shorter than 2^30 bytes.
    pub fn mls_encode_to_vec(&self) -> (r: Result<Vec<u8>, CodecError>)
        ensures
            match r {
                Ok(bytes) => identity_fits(self.credential@, self.public_key@, self.signer@)
                    && bytes@ == identity_bytes(self.credential@, self.public_key@, self.signer@),
                Err(e) => e == CodecError::VarIntOutOfRange && !identity_fits(
                    self.credential@,
                    self.public_key@,
                    self.signer@,
                ),
            },
    {
        let mut out = match self.credential.mls_encode_to_vec() {
            Ok(bytes) => bytes,
            Err(e) => {
                return Err(e);
            },
        };
        match write_bytes(&mut out, self.public_key.as_slice()) {
            Ok(()) => {},
            Err(e) => {
                return Err(e);
            },
        }
        match write_bytes(&mut out, self.signer.as_slice()) {
            Ok(()) => {},
            Err(e) => {
                return Err(e);
            },
        }
        Ok(out)
    }

    /// Reads an identity from the start of `data`; see [`parse_identity`].
    pub fn mls_decode(data: &[u8]) -> (r: Result<IdentityKeypair, CodecError>)
        ensures
            match (r, parse_identity(data@)) {
                (Ok(identity), Ok(parts)) => identity.credential@ == parts.0
                    && identity.public_key@ == parts.1 && identity.signer@ == parts.2,
                (Err(e), Err(se)) => e == se,
                _ => false,
            },
    {
        let (c, after1) = match AccountCredential::mls_decode_at(data, 0) {
            Ok(pair) => pair,
            Err(e) => {
                return Err(e);
            },
        };
        let (public_key, after2) = match read_bytes(data, after1) {
            Ok(pair) => pair,
            Err(e) => {
                return Err(e);
            },
        };
        let (signer, _end) = match read_bytes(data, after2) {
            Ok(pair) => pair,
            Err(e) => {
                return Err(e);
            },
        };
        let credential = DeviceCredential {
            device_id: DeviceId {
                user_id: c.account_id.user_id,
                device_id: c.account_id.public_address,
            },
            user_public_key: c.public_key,
            signature: c.cert,
        };
        Ok(IdentityKeypair { credential, public_key, signer })
    }

    /// Reads a stored identity. Bytes that are none are refused with the
    /// decoder's words.
    pub fn from_bytes(bytes: &[u8]) -> (r: Result<IdentityKeypair, GroupError>)
        ensures
            match (r, parse_identity(bytes@)) {
                (Ok(identity), Ok(parts)) => identity.credential@ == parts.0
                    && identity.public_key@ == parts.1 && identity.signer@ == parts.2,
                (Err(e), Err(se)) => e@ == GroupErrorView::CodecError(se.spec_message()),
                _ => false,
            },
    {
        match IdentityKeypair::mls_decode(bytes) {
            Ok(identity) => Ok(identity),
            Err(e) => Err(GroupError::from_codec(e)),
        }
    }
}

/// An identity that was written reads back as itself, whatever follows it.
pub proof fn lemma_identity_round_trip(
    credential: DeviceCredentialView,
    public_key: Seq<u8>,
    signer: Seq<u8>,
    tail: Seq<u8>,
)
    requires
        identity_fits(credential, public_key, signer),
    ensures
        parse_identity(identity_bytes(credential, public_key, signer) + tail) == Ok::<
            (DeviceCredentialView, Seq<u8>, Seq<u8>),
            CodecError,
        >((credential, public_key, signer)),
{
    let c = AccountCredentialView {
        account_id: AccountIdView {
            user_id: credential.device_id.user_id,
            public_address: credential.device_id.device_id,
        },
        public_key: credential.user_public_key,
        cert: credential.signature,
    };
    assert(as_device(c) == credential);
    assert(c.encoded() == credential.encoded());
    let e0 = c.encoded();
    let e1 = byte_string(public_key);
    let e2 = byte_string(signer);
    let data = identity_bytes(credential, public_key, signer) + tail;
    let none = Seq::<u8>::empty();
    seq_assoc(e0 + e1, e2, tail);
    seq_assoc(e0, e1, e2 + tail);
    assert(data == e0 + (e1 + (e2 + tail)));
    assert(none + e0 + (e1 + (e2 + tail)) =~= data);
    lemma_account_at_round_trip(none, c, e1 + (e2 + tail));
    assert(parse_account_at(data, 0) == Ok::<(AccountCredentialView, int), CodecError>(
        (c, e0.len() as int),
    ));
    seq_assoc(e0, e1, e2 + tail);
    lemma_parse_bytes(e0, public_key, e2 + tail);
    assert(parse_bytes(data, e0.len() as int) == Ok::<(Seq<u8>, int), CodecError>(
        (public_key, (e0 + e1).len() as int),
    ));
    lemma_parse_bytes(e0 + e1, signer, tail);
}

} // verus!
