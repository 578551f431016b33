//! Moving an account to another installation: the account's wire form,
//! encrypted for the way, and read again on arrival.

use vstd::prelude::*;
use crate::identity::account::{decode_failed, encode_failed, Account, AccountView};
use crate::identity::account_export::{export_fits, spec_export, spec_import, ExportedAccount};
use crate::identity::account_laws::lemma_account_round_trip;
use crate::wire::mls::CodecError;

verus! {

/// What importing an export gives: the export must open (see
/// [`spec_import`]), and what it holds must be an account.
pub open spec fn imported(encrypted_data: Seq<char>, key_base64: Seq<char>) -> Result<
    AccountView,
    Seq<char>,
> {
    match spec_import(encrypted_data, key_base64) {
        Err(e) => Err(e),
        Ok(bytes) => match AccountView::decoded(bytes) {
            Ok(account) => Ok(account),
            Err(e) => Err(decode_failed(e).message()),
        },
    }
}

/// Exports an account under a fresh key: the encrypted account and the key,
/// both as text. What was exported is imported as the same account. An
/// account that is too long for the wire or for the export is refused, and
/// no other; the outcome is the one of [`spec_export`] for some key and
/// nonce.
pub fn export_account(account: &Account) -> (r: Result<(String, String), String>)
    ensures
        match r {
            Ok(out) => account@.encodable() && imported(out.0@, out.1@) == Ok::<
                AccountView,
                Seq<char>,
            >(account@),
            Err(e) => if !account@.encodable() {
                e@ == encode_failed(CodecError::VarIntOutOfRange).message()
            } else {
                exists|key: Seq<u8>, nonce: Seq<u8>|
                    key.len() == 32 && nonce.len() == 12 && #[trigger] spec_export(
                        account@.encoded(),
                        key,
                        nonce,
                    ) == Err::<(Seq<char>, Seq<char>), Seq<char>>(e@)
            },
        },
        r is Ok <==> account@.encodable() && export_fits(account@.encoded().len()),
{
    let bytes = match account.to_mls_bytes() {
        Ok(b) => b,
        Err(e) => {
            return Err(e.to_string());
        },
    };
    let exported = ExportedAccount::new(bytes);
    proof {
        lemma_account_round_trip(account@, Seq::empty());
        assert(account@.encoded() + Seq::<u8>::empty() =~= account@.encoded());
    }
    exported.encrypt()
}

/// Imports an account from an export and its key; see [`imported`].
pub fn import_account(encrypted_data: &str, key_base64: &str) -> (r: Result<Account, String>)
    ensures
        match (r, imported(encrypted_data@, key_base64@)) {
            (Ok(account), Ok(expected)) => account@ == expected,
            (Err(e), Err(se)) => e@ == se,
            _ => false,
        },
{
    let exported = match ExportedAccount::decrypt(encrypted_data, key_base64) {
        Ok(e) => e,
        Err(e) => {
            return Err(e);
        },
    };
    match Account::from_mls_bytes(exported.account.as_slice()) {
        Ok(account) => Ok(account),
        Err(e) => Err(e.to_string()),
    }
}

} // verus!
