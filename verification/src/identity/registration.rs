//! What a registration yields: the account that the server's answer and
//! the fresh keys make.

use vstd::prelude::*;
use crate::identity::account::{Account, AccountView};
use crate::identity::credentials::{
    AccountCredential, AccountCredentialView, AccountId, AccountIdView,
};
use crate::identity::signing::public_key_of;
use crate::support::text::opt_text;

verus! {

/// The server's answer to a registration.
#[derive(Debug)]
pub struct Registration {
    pub user_id: u64,
    pub username: String,
    pub public_address: String,
    /// The certificate that the server issued for the account's key.
    pub certificate: Vec<u8>,
    pub server_public_key: Vec<u8>,
}

/// The account of a registered user: what the server answered, where the
/// server is, and the keys that were made for the registration. The
/// credential names the user by number and address, and carries the
/// public key and the server's certificate.
pub open spec fn registered(
    answer: Registration,
    server_address: Seq<char>,
    avatar_url: Option<Seq<char>>,
    signer: Seq<u8>,
    public_key: Seq<u8>,
) -> AccountView {
    AccountView {
        user_id: answer.user_id,
        username: answer.username@,
        public_address: answer.public_address@,
        server_address,
        server_public_key: Some(answer.server_public_key@),
        avatar_url,
        credential: AccountCredentialView {
            account_id: AccountIdView {
                user_id: answer.user_id,
                public_address: answer.public_address@,
            },
            public_key,
            cert: answer.certificate@,
        },
        signer,
    }
}

/// The account of a registered user; see [`registered`]. Where the two
/// keys are a pair, the account's key pins its identity.
pub fn registered_account(
    answer: Registration,
    server_address: String,
    avatar_url: Option<String>,
    signer: Vec<u8>,
    public_key: Vec<u8>,
) -> (a: Account)
    ensures
        a@ == registered(answer, server_address@, opt_text(avatar_url), signer@, public_key@),
        public_key_of(signer@) == Some(public_key@) ==> a@.well_formed(),
{
    let credential = AccountCredential {
        account_id: AccountId {
            user_id: answer.user_id,
            public_address: answer.public_address.as_str().to_string(),
        },
        public_key,
        cert: answer.certificate,
    };
    Account::new_with_existing_keys(
        answer.user_id,
        answer.username,
        answer.public_address,
        server_address,
        Some(answer.server_public_key),
        avatar_url,
        credential,
        signer,
    )
}

} // verus!
