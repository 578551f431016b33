//! The identity of a device: its credential, vouched for by the account, and
//! the pair of keys that the device signs with.

use vstd::prelude::*;
use crate::identity::account::{signing_failed, Account, AccountView};
use crate::identity::credentials::{
    bytes_fit, device_credential_tbs, keyed_bytes, lemma_device_credential_round_trip,
    DeviceCredential, DeviceCredentialView, DeviceId, DeviceIdView,
};
use crate::group::errors::{GroupError, GroupErrorView};
use crate::identity::{
    key_in_roster, spec_validate_member, vouched, SigningIdentity, SigningIdentityView,
};
use crate::identity::credentials::{AccountCredentialView, CREDENTIAL_V1};
use crate::wire::mls::CodecError;
use crate::identity::signing::{generate_signature_keys, public_key_of, signature_of};
use crate::support::text::{copy_bytes, join_text};

verus! {

/// The identity of a device.
#[derive(Debug, Clone)]
pub struct IdentityKeypair {
    pub credential: DeviceCredential,
    /// The key that others verify the device's signatures with.
    pub public_key: Vec<u8>,
    /// The key that the device signs with.
    pub signer: Vec<u8>,
}

pub open spec fn key_generation_failed() -> GroupErrorView {
    GroupErrorView::CryptoError("Key generation failed:"@)
}

pub open spec fn tbs_failed(e: CodecError) -> GroupErrorView {
    GroupErrorView::EncodingError("Failed to encode member credential TBS: "@ + e.spec_message())
}

/// The credential that an account issues to a device with the given key:
/// the account signs its own number, its own public key and the device's
/// key. No credential is issued where a key is too long to be written or
/// the account's key does not sign.
pub open spec fn issued(account: AccountView, device_id: Seq<char>, public_key: Seq<u8>) -> Result<
    DeviceCredentialView,
    GroupErrorView,
> {
    let user_id = account.credential.account_id.user_id;
    let user_key = account.credential.public_key;
    if !(bytes_fit(user_key) && bytes_fit(public_key)) {
        Err(tbs_failed(CodecError::VarIntOutOfRange))
    } else {
        match signature_of(account.signer, keyed_bytes(user_id, user_key, public_key)) {
            None => Err(signing_failed()),
            Some(signature) => Ok(
                DeviceCredentialView {
                    device_id: DeviceIdView { user_id, device_id },
                    user_public_key: user_key,
                    signature,
                },
            ),
        }
    }
}

impl IdentityKeypair {
    /// The identity of a device with a given pair of keys; see [`issued`].
    /// The credential of a well-formed account vouches for the device's
    /// key.
    pub fn with_keys(device_id: &str, account: &Account, signer: Vec<u8>, public_key: Vec<u8>) -> (r:
        Result<IdentityKeypair, GroupError>)
        ensures
            match (r, issued(account@, device_id@, public_key@)) {
                (Ok(identity), Ok(credential)) => identity.credential@ == credential
                    && identity.public_key == public_key && identity.signer == signer && (
                account@.well_formed() ==> vouched(credential, public_key@)),
                (Err(e), Err(se)) => e@ == se,
                _ => false,
            },
    {
        let user_id = account.credential.account_id.user_id;
        let tbs = match device_credential_tbs(
            user_id,
            account.credential.public_key.as_slice(),
            public_key.as_slice(),
        ) {
            Ok(t) => t,
            Err(e) => {
                let why = e.message();
                return Err(
                    GroupError::EncodingError(
                        join_text("Failed to encode member credential TBS: ", why.as_str()),
                    ),
                );
            },
        };
        let signature = match account.sign_message(tbs.as_slice()) {
            Ok(s) => s,
            Err(e) => {
                return Err(e);
            },
        };
        let credential = DeviceCredential {
            device_id: DeviceId { user_id, device_id: device_id.to_string() },
            user_public_key: copy_bytes(account.credential.public_key.as_slice()),
            signature,
        };
        Ok(IdentityKeypair { credential, public_key, signer })
    }

    /// The identity of a device with a fresh pair of keys. The outcome is
    /// the one of [`Self::with_keys`] for some pair of keys, unless no keys
    /// could be made.
    pub fn new(device_id: &str, account: &Account) -> (r: Result<IdentityKeypair, GroupError>)
        ensures
            match r {
                Ok(identity) => public_key_of(identity.signer@) == Some(identity.public_key@)
                    && issued(account@, device_id@, identity.public_key@) == Ok::<
                    DeviceCredentialView,
                    GroupErrorView,
                >(identity.credential@) && (account@.well_formed() ==> vouched(
                    identity.credential@,
                    identity.public_key@,
                )),
                Err(e) => e@ == key_generation_failed() || exists|public_key: Seq<u8>|
                    #[trigger] issued(account@, device_id@, public_key) == Err::<
                        DeviceCredentialView,
                        GroupErrorView,
                    >(e@),
            },
    {
        let (signer, public_key) = match generate_signature_keys() {
            Some(keys) => keys,
            None => {
                return Err(GroupError::CryptoError("Key generation failed:".to_string()));
            },
        };
        let ghost key = public_key@;
        let r = IdentityKeypair::with_keys(device_id, account, signer, public_key);
        proof {
            if r is Err {
                assert(issued(account@, device_id@, key) is Err);
            }
        }
        r
    }
}

/// Why a credential that cannot be written is no identity.
pub open spec fn conversion_failed(e: CodecError) -> GroupErrorView {
    GroupErrorView::CredentialError(
        "Credential conversion failed: "@ + GroupErrorView::CodecError(e.spec_message()).message(),
    )
}

/// The identity that a device with this credential and key presents to the
/// group: the credential in its wire form, under the type of device
/// credentials, and the key.
pub open spec fn presented(credential: DeviceCredentialView, public_key: Seq<u8>) -> SigningIdentityView {
    SigningIdentityView {
        credential_type: CREDENTIAL_V1,
        credential_data: credential.encoded(),
        signature_key: public_key,
    }
}

impl IdentityKeypair {
    /// The identity that the device presents to the group; see
    /// [`presented`]. There is none where the credential is too long to be
    /// written.
    pub fn signing_identity(&self) -> (r: Result<SigningIdentity, GroupError>)
        ensures
            match r {
                Ok(identity) => self.credential@.encodable() && identity@ == presented(
                    self.credential@,
                    self.public_key@,
                ),
                Err(e) => !self.credential@.encodable() && e@ == conversion_failed(
                    CodecError::VarIntOutOfRange,
                ),
            },
    {
        match self.credential.mls_encode_to_vec() {
            Ok(data) => Ok(
                SigningIdentity {
                    credential_type: DeviceCredential::credential_type(),
                    credential_data: data,
                    signature_key: copy_bytes(self.public_key.as_slice()),
                },
            ),
            Err(e) => {
                let why = GroupError::from_codec(e).to_string();
                Err(
                    GroupError::CredentialError(
                        join_text("Credential conversion failed: ", why.as_str()),
                    ),
                )
            },
        }
    }
}

/// A device is accepted as a member where its credential vouches for its
/// key and its account is in the roster.
pub proof fn lemma_vouched_device_is_member(
    credential: DeviceCredentialView,
    public_key: Seq<u8>,
    roster: Seq<AccountCredentialView>,
    checked: bool,
)
    requires
        credential.encodable(),
        vouched(credential, public_key),
        key_in_roster(roster, credential.user_public_key),
    ensures
        spec_validate_member(presented(credential, public_key), checked, Some(roster)) is Ok,
{
    lemma_device_credential_round_trip(credential, Seq::empty());
    assert(credential.encoded() + Seq::<u8>::empty() =~= credential.encoded());
}

/// A device is refused where its account is not in the roster, whatever its
/// credential says.
pub proof fn lemma_stranger_is_no_member(
    credential: DeviceCredentialView,
    public_key: Seq<u8>,
    roster: Seq<AccountCredentialView>,
)
    requires
        credential.encodable(),
        !key_in_roster(roster, credential.user_public_key),
    ensures
        spec_validate_member(presented(credential, public_key), true, Some(roster)) is Err,
{
    lemma_device_credential_round_trip(credential, Seq::empty());
    assert(credential.encoded() + Seq::<u8>::empty() =~= credential.encoded());
}

/// A credential that vouches for a device's key still does after it went
/// over the wire: it decodes to itself.
pub proof fn lemma_credential_vouches_after_the_wire(
    credential: DeviceCredentialView,
    public_key: Seq<u8>,
    tail: Seq<u8>,
)
    requires
        credential.encodable(),
        vouched(credential, public_key),
    ensures
        DeviceCredentialView::decoded(credential.encoded() + tail) matches Ok(back) && back
            == credential && vouched(back, public_key),
{
    lemma_device_credential_round_trip(credential, tail);
}

} // verus!
