//! The identity provider: which devices may be members of a group. A device
//! may, if its credential was signed by its owner's account and the owner
//! is in the group's roster.

pub mod account;
pub mod account_export;
pub mod account_laws;
pub mod credentials;
pub mod keypair;
pub mod keypair_codec;
pub mod registration;
pub mod signature_bytes;
pub mod signing;
pub mod transfer;

use vstd::prelude::*;
use crate::identity::credentials::{
    device_credential_tbs, keyed_bytes, AccountCredential, AccountCredentialView,
    DeviceCredential, DeviceCredentialView, bytes_fit, CREDENTIAL_V1};
use crate::group::errors::{GroupError, GroupErrorView};
use crate::group::rules::{malformed, opt_roster_view, roster_view};
use crate::identity::signing::{signature_valid, verify_signature};

verus! {

/// Validates member credentials against the roster of the group.
#[derive(Debug, Clone, Copy)]
pub struct CustomIdentityProvider;

/// The identity that a leaf of the group presents: the type and the bytes
/// of its credential, and the key that the leaf signs with.
#[derive(Debug, Clone)]
pub struct SigningIdentity {
    pub credential_type: u16,
    pub credential_data: Vec<u8>,
    pub signature_key: Vec<u8>,
}

pub struct SigningIdentityView {
    pub credential_type: u16,
    pub credential_data: Seq<u8>,
    pub signature_key: Seq<u8>,
}

impl View for SigningIdentity {
    type V = SigningIdentityView;

    open spec fn view(&self) -> SigningIdentityView {
        SigningIdentityView {
            credential_type: self.credential_type,
            credential_data: self.credential_data@,
            signature_key: self.signature_key@,
        }
    }
}

/// Whether an account with this public key is in the roster.
pub open spec fn key_in_roster(roster: Seq<AccountCredentialView>, public_key: Seq<u8>) -> bool {
    exists|i: int| 0 <= i < roster.len() && roster[i].public_key == public_key
}

pub open spec fn verify_error() -> GroupErrorView {
    GroupErrorView::CryptoError("Verify error"@)
}

/// Whether the account's signature in a device credential vouches for the
/// device's key.
pub open spec fn vouched(device: DeviceCredentialView, signature_key: Seq<u8>) -> bool {
    bytes_fit(device.user_public_key) && bytes_fit(signature_key) && signature_valid(
        device.user_public_key,
        device.signature,
        keyed_bytes(device.device_id.user_id, device.user_public_key, signature_key),
    )
}

/// The verdict on a member. Where no new extensions come with the member,
/// nothing is checked. Else the group must carry a roster; the credential
/// must be a device credential that decodes; the account's signature in it
/// must hold for the device's key; and the account must be in the roster.
pub open spec fn spec_validate_member(
    identity: SigningIdentityView,
    checked: bool,
    roster: Option<Seq<AccountCredentialView>>,
) -> Result<(), GroupErrorView> {
    if !checked {
        Ok(())
    } else if roster is None {
        Err(GroupErrorView::RosterNotFound)
    } else if identity.credential_type != CREDENTIAL_V1 {
        Err(GroupErrorView::CredentialMissmatch)
    } else {
        match DeviceCredentialView::decoded(identity.credential_data) {
            Err(e) => Err(malformed(e)),
            Ok(device) => {
                if !(bytes_fit(device.user_public_key) && bytes_fit(identity.signature_key)) {
                    Err(malformed(crate::wire::mls::CodecError::VarIntOutOfRange))
                } else if !vouched(device, identity.signature_key) {
                    Err(verify_error())
                } else if !key_in_roster(roster->Some_0, device.user_public_key) {
                    Err(GroupErrorView::UserIsNotInRoster)
                } else {
                    Ok(())
                }
            },
        }
    }
}

/// The stable identity of a member: the wire form of its device id.
pub open spec fn spec_identity(identity: SigningIdentityView) -> Result<Seq<u8>, GroupErrorView> {
    if identity.credential_type != CREDENTIAL_V1 {
        Err(GroupErrorView::CredentialMissmatch)
    } else {
        match DeviceCredentialView::decoded(identity.credential_data) {
            Err(e) => Err(malformed(e)),
            Ok(device) => {
                if !device.device_id.encodable() {
                    Err(malformed(crate::wire::mls::CodecError::VarIntOutOfRange))
                } else {
                    Ok(device.device_id.encoded())
                }
            },
        }
    }
}

/// Whether some account of the roster has this public key.
fn roster_has_key(roster: &Vec<AccountCredential>, public_key: &[u8]) -> (found: bool)
    ensures
        found == key_in_roster(roster_view(roster@), public_key@),
{
    let mut i: usize = 0;
    while i < roster.len()
        invariant
            i <= roster.len(),
            forall|j: int| 0 <= j < i ==> roster_view(roster@)[j].public_key != public_key@,
        decreases roster.len() - i,
    {
        if same_key(roster[i].public_key.as_slice(), public_key) {
            assert(roster_view(roster@)[i as int].public_key == public_key@);
            return true;
        }
        i += 1;
    }
    false
}

fn same_key(a: &[u8], b: &[u8]) -> (r: bool)
    ensures
        r == (a@ == b@),
{
    if a.len() != b.len() {
        return false;
    }
    let mut i: usize = 0;
    while i < a.len()
        invariant
            i <= a.len(),
            a@.len() == b@.len(),
            forall|j: int| 0 <= j < i ==> a@[j] == b@[j],
        decreases a.len() - i,
    {
        if a[i] != b[i] {
            return false;
        }
        i += 1;
    }
    assert(a@ =~= b@);
    true
}

impl CustomIdentityProvider {
    /// Judges whether a device may be a member; see
    /// [`spec_validate_member`]. `roster` is the roster among the
    /// extensions that come with the member, and `checked` says whether any
    /// extensions came.
    pub fn validate_member(
        &self,
        signing_identity: &SigningIdentity,
        checked: bool,
        roster: &Option<Vec<AccountCredential>>,
    ) -> (r: Result<(), GroupError>)
        ensures
            match (r, spec_validate_member(signing_identity@, checked, opt_roster_view(*roster))) {
                (Ok(()), Ok(())) => true,
                (Err(e), Err(se)) => e@ == se,
                _ => false,
            },
    {
        if !checked {
            return Ok(());
        }
        let roster = match roster {
            Some(r) => r,
            None => {
                return Err(GroupError::RosterNotFound);
            },
        };
        if signing_identity.credential_type != CREDENTIAL_V1 {
            return Err(GroupError::CredentialMissmatch);
        }
        let member = match DeviceCredential::mls_decode(signing_identity.credential_data.as_slice()) {
            Ok(m) => m,
            Err(e) => {
                return Err(GroupError::from_codec(e));
            },
        };
        let tbs = match device_credential_tbs(
            member.device_id.user_id,
            member.user_public_key.as_slice(),
            signing_identity.signature_key.as_slice(),
        ) {
            Ok(t) => t,
            Err(e) => {
                return Err(GroupError::from_codec(e));
            },
        };
        if !verify_signature(
            member.user_public_key.as_slice(),
            member.signature.as_slice(),
            tbs.as_slice(),
        ) {
            return Err(GroupError::CryptoError("Verify error".to_string()));
        }
        if !roster_has_key(roster, member.user_public_key.as_slice()) {
            return Err(GroupError::UserIsNotInRoster);
        }
        Ok(())
    }

    /// The stable identity of a member, by which the group finds it again
    /// and notices duplicates: the wire form of its device id.
    pub fn identity(&self, signing_identity: &SigningIdentity) -> (r: Result<Vec<u8>, GroupError>)
        ensures
            match (r, spec_identity(signing_identity@)) {
                (Ok(b), Ok(sb)) => b@ == sb,
                (Err(e), Err(se)) => e@ == se,
                _ => false,
            },
    {
        if signing_identity.credential_type != CREDENTIAL_V1 {
            return Err(GroupError::CredentialMissmatch);
        }
        let member = match DeviceCredential::mls_decode(signing_identity.credential_data.as_slice()) {
            Ok(m) => m,
            Err(e) => {
                return Err(GroupError::from_codec(e));
            },
        };
        match member.device_id.mls_encode_to_vec() {
            Ok(b) => Ok(b),
            Err(e) => Err(GroupError::from_codec(e)),
        }
    }

    /// The credential types that members may present: device credentials
    /// and nothing else.
    pub fn supported_types(&self) -> (types: Vec<u16>)
        ensures
            types@ == seq![CREDENTIAL_V1],
    {
        let mut types: Vec<u16> = Vec::new();
        types.push(CREDENTIAL_V1);
        assert(types@ =~= seq![CREDENTIAL_V1]);
        types
    }

    /// Whether a member may replace its identity by another: always.
    pub fn valid_successor(&self, _predecessor: &SigningIdentity, _successor: &SigningIdentity) -> (r:
        Result<bool, GroupError>)
        ensures
            r matches Ok(ok) && ok,
    {
        Ok(true)
    }

    /// Whether an identity may send to the group from outside: always.
    pub fn validate_external_sender(&self, _identity: &SigningIdentity) -> (r: Result<(), GroupError>)
        ensures
            r is Ok,
    {
        Ok(())
    }
}

} // verus!
