//! Where the servers are.

use vstd::prelude::*;

verus! {

/// The address of the account server.
pub fn get_avaliable_servers() -> (s: String)
    ensures
        s@ == "http://192.168.103.102:50051"@,
{
    "http://192.168.103.102:50051".to_string()
}

/// The address of the group delivery service.
pub fn get_group_servers() -> (s: String)
    ensures
        s@ == "http://192.168.103.102:50053"@,
{
    "http://192.168.103.102:50053".to_string()
}

/// The host of the voice server.
pub fn get_avaliable_voice_servers() -> (s: String)
    ensures
        s@ == "192.168.103.102"@,
{
    "192.168.103.102".to_string()
}

} // verus!
