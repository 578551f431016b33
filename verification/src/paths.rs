//! Where the state of the program is kept: the names of its files below
//! the data directory.

use vstd::prelude::*;
use crate::support::text::{decimal_text, join_text, u64_to_text};

verus! {

/// The directory of all state, below the data directory.
pub const STATE_DIR: &'static str = ".anongram";

/// The directory of the MLS state, below the data directory.
pub const GROUP_STATE_DIR: &'static str = ".anongram/group";

/// The file of the accounts.
pub const ACCOUNTS_FILE: &'static str = "accounts.db";

pub open spec fn named(prefix: Seq<char>, number: u64, suffix: Seq<char>) -> Seq<char> {
    prefix + decimal_text(number as nat) + suffix
}

fn name_of(prefix: &str, number: u64, suffix: &str) -> (s: String)
    ensures
        s@ == named(prefix@, number, suffix@),
{
    let n = u64_to_text(number);
    let head = join_text(prefix, n.as_str());
    join_text(head.as_str(), suffix)
}

/// The file of an account's groups and messages.
pub fn group_db_file(user_id: u64) -> (s: String)
    ensures
        s@ == named("group_"@, user_id, ".db"@),
{
    name_of("group_", user_id, ".db")
}

/// The file of a device's MLS state, in the directory of the MLS state.
pub fn mls_state_file(user_id: u64, device_id: &str) -> (s: String)
    ensures
        s@ == named("group_"@, user_id, "_"@) + device_id@ + ".db"@,
{
    let head = name_of("group_", user_id, "_");
    let with_device = join_text(head.as_str(), device_id);
    join_text(with_device.as_str(), ".db")
}

/// The file of an account's voice identity.
pub fn voice_file(user_id: u64) -> (s: String)
    ensures
        s@ == named("voice_"@, user_id, ".json"@),
{
    name_of("voice_", user_id, ".json")
}

/// The file of an account's contacts.
pub fn contacts_file(user_id: u64) -> (s: String)
    ensures
        s@ == named("contacts_"@, user_id, ".db"@),
{
    name_of("contacts_", user_id, ".db")
}

} // verus!
