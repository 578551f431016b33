//! The decisions of the device controller: what a device sends to invite,
//! to remove, to leave and to write, and what it signs. The MLS group
//! itself and the connection to the delivery service are the caller's.

use vstd::prelude::*;
use crate::identity::account::{Account, AccountView};
use crate::identity::keypair::{issued, key_generation_failed, IdentityKeypair};
use crate::message::{UserGroupMessage, UserGroupMessageView};
use crate::identity::credentials::{
    AccountCredential, AccountCredentialView, DeviceCredential, DeviceCredentialView,
    CREDENTIAL_V1,
};
use crate::group::errors::{GroupError, GroupErrorView};
use crate::group::config::{GroupConfig, GroupConfigView};
use crate::group::membership::{keep_within, lemma_within, lemma_without_id, within, without_id};
use crate::group::rules::{malformed, roster_view, without_user};
use crate::support::clock::unix_now;
use crate::wire::mls::CodecError;
use crate::identity::signature_bytes::{
    init_stream_bytes, init_stream_tbs, package_views, register_bytes, register_tbs,
    upload_bytes, upload_tbs, InitGroupStreamTBS,
    RegisterGroupDeviceTBS, UploadKeyPackagesTBS,
};
use crate::support::text::join_text;
use crate::identity::signing::{public_key_of, signature_of, signature_valid};
use crate::support::random::random_in;
use crate::support::text::copy_bytes;

verus! {

/// A fresh id for an outbound message: a random number below `u64::MAX`.
pub fn generate_message_id() -> (id: u64)
    ensures
        id < u64::MAX,
{
    random_in(0, u64::MAX)
}

/// One leaf of the group's tree: its index, and the type and the bytes of
/// its credential.
#[derive(Debug, Clone)]
pub struct Leaf {
    pub index: u32,
    pub credential_type: u16,
    pub credential_data: Vec<u8>,
}

pub struct LeafView {
    pub index: u32,
    pub credential_type: u16,
    pub credential_data: Seq<u8>,
}

impl View for Leaf {
    type V = LeafView;

    open spec fn view(&self) -> LeafView {
        LeafView {
            index: self.index,
            credential_type: self.credential_type,
            credential_data: self.credential_data@,
        }
    }
}

pub open spec fn leaf_views(l: Seq<Leaf>) -> Seq<LeafView> {
    l.map_values(|x: Leaf| x@)
}

/// The users of a roster, in its order.
pub open spec fn roster_ids(roster: Seq<AccountCredentialView>) -> Seq<u64> {
    roster.map_values(|c: AccountCredentialView| c.account_id.user_id)
}

/// Lists the users of a roster.
pub fn group_members(roster: &Vec<AccountCredential>) -> (members: Vec<u64>)
    ensures
        members@ == roster_ids(roster_view(roster@)),
{
    let mut members: Vec<u64> = Vec::new();
    let mut i: usize = 0;
    while i < roster.len()
        invariant
            i <= roster.len(),
            members@ == roster_ids(roster_view(roster@)).subrange(0, i as int),
        decreases roster.len() - i,
    {
        members.push(roster[i].account_id.user_id);
        i += 1;
        assert(members@ =~= roster_ids(roster_view(roster@)).subrange(0, i as int));
    }
    assert(members@ =~= roster_ids(roster_view(roster@)));
    members
}

pub open spec fn is_banned_error() -> GroupErrorView {
    GroupErrorView::ConfigError("User is banned from this group"@)
}

pub open spec fn already_member() -> GroupErrorView {
    GroupErrorView::ConfigError("User is already a member of this group"@)
}

pub open spec fn no_devices() -> GroupErrorView {
    GroupErrorView::BackendError("No devices found (User dont have key packages)"@)
}

pub open spec fn may_not_send() -> GroupErrorView {
    GroupErrorView::ConfigError("User is not allowed to send messages"@)
}

/// Whether a user may be invited: not one who is banned, and not one who
/// is a member already.
pub fn check_invite(config: &GroupConfig, user_id: u64) -> (r: Result<(), GroupError>)
    ensures
        match r {
            Ok(()) => !config@.is_banned(user_id) && !config@.is_member(user_id),
            Err(e) => if config@.is_banned(user_id) {
                e@ == is_banned_error()
            } else {
                config@.is_member(user_id) && e@ == already_member()
            },
        },
{
    if config.is_banned(user_id) {
        return Err(GroupError::ConfigError("User is banned from this group".to_string()));
    }
    if config.is_member(user_id) {
        return Err(GroupError::ConfigError("User is already a member of this group".to_string()));
    }
    Ok(())
}

/// Whether a user may send a message to the group: with the permission
/// `send_messages`.
pub fn check_may_send(config: &GroupConfig, user_id: u64) -> (r: Result<(), GroupError>)
    ensures
        match r {
            Ok(()) => config@.has_permission(user_id, "send_messages"@),
            Err(e) => !config@.has_permission(user_id, "send_messages"@) && e@ == may_not_send(),
        },
{
    if !config.has_permission(user_id, "send_messages") {
        return Err(GroupError::ConfigError("User is not allowed to send messages".to_string()));
    }
    Ok(())
}

/// What the commit that invites a user carries: the user's credential for
/// the roster, the configuration with the user as member, and one key
/// package for each of the user's devices.
#[derive(Debug)]
pub struct InvitePlan {
    pub add_user: AccountCredential,
    pub new_config: GroupConfig,
    pub key_packages: Vec<Vec<u8>>,
}

/// What an invitation makes of the configuration, or why there is none:
/// nobody who is banned is invited, nobody who is a member already, and
/// nobody without devices.
pub open spec fn spec_invite(config: GroupConfigView, user_id: u64, devices: nat) -> Result<
    GroupConfigView,
    GroupErrorView,
> {
    if config.is_banned(user_id) {
        Err(is_banned_error())
    } else if config.is_member(user_id) {
        Err(already_member())
    } else if devices == 0 {
        Err(no_devices())
    } else {
        Ok(config.with_member(user_id))
    }
}

/// Plans the commit that invites a user; see [`spec_invite`]. The plan
/// carries the user's credential, the key packages as they were given, and
/// the configuration with the user as member.
pub fn invite_plan(config: &GroupConfig, user_credential: &AccountCredential, key_packages: Vec<Vec<u8>>) -> (r:
    Result<InvitePlan, GroupError>)
    ensures
        match (r, spec_invite(config@, user_credential@.account_id.user_id, key_packages@.len())) {
            (Ok(plan), Ok(c)) => plan.add_user@ == user_credential@ && plan.key_packages
                == key_packages && plan.new_config@.touched(c) && plan.new_config@.is_member(
                user_credential@.account_id.user_id,
            ) && (config@.well_formed() ==> plan.new_config@.well_formed()),
            (Err(e), Err(se)) => e@ == se,
            _ => false,
        },
{
    match check_invite(config, user_credential.account_id.user_id) {
        Ok(()) => {},
        Err(e) => {
            return Err(e);
        },
    }
    if key_packages.len() == 0 {
        return Err(
            GroupError::BackendError("No devices found (User dont have key packages)".to_string()),
        );
    }
    let mut new_config = config.duplicate();
    new_config.add_member(user_credential.account_id.user_id);
    Ok(InvitePlan { add_user: user_credential.duplicate(), new_config, key_packages })
}

/// What the commit that removes a user carries: the leaves to remove, the
/// user for the roster, and the configuration without the user.
#[derive(Debug)]
pub struct RemovePlan {
    pub device_indexes: Vec<u32>,
    pub remove_user: u64,
    pub new_config: GroupConfig,
}

/// Whether a leaf is to be removed with a user: a leaf with a device
/// credential of that user, but for the device that is spared, if one is.
/// A device credential that does not decode is an error.
pub open spec fn leaf_goes(leaf: LeafView, user_id: u64, spare: Option<Seq<char>>) -> Result<
    bool,
    GroupErrorView,
> {
    if leaf.credential_type != CREDENTIAL_V1 {
        Ok(false)
    } else {
        match DeviceCredentialView::decoded(leaf.credential_data) {
            Err(e) => Err(malformed(e)),
            Ok(c) => Ok(
                c.device_id.user_id == user_id && !(spare matches Some(d) && c.device_id.device_id
                    == d),
            ),
        }
    }
}

/// The indexes of the leaves that are removed with a user, in the order of
/// the tree.
pub open spec fn leaves_to_remove(leaves: Seq<LeafView>, user_id: u64, spare: Option<Seq<char>>) -> Result<
    Seq<u32>,
    GroupErrorView,
>
    decreases leaves.len(),
{
    if leaves.len() == 0 {
        Ok(Seq::empty())
    } else {
        match leaves_to_remove(leaves.drop_last(), user_id, spare) {
            Err(e) => Err(e),
            Ok(found) => match leaf_goes(leaves.last(), user_id, spare) {
                Err(e) => Err(e),
                Ok(goes) => if goes {
                    Ok(found.push(leaves.last().index))
                } else {
                    Ok(found)
                },
            },
        }
    }
}

proof fn lemma_leaves_fail(leaves: Seq<LeafView>, user_id: u64, spare: Option<Seq<char>>, i: int)
    requires
        0 <= i < leaves.len(),
        leaves_to_remove(leaves.subrange(0, i + 1), user_id, spare) is Err,
    ensures
        leaves_to_remove(leaves, user_id, spare) == leaves_to_remove(
            leaves.subrange(0, i + 1),
            user_id,
            spare,
        ),
    decreases leaves.len() - i,
{
    if i + 1 == leaves.len() {
        assert(leaves.subrange(0, i + 1) =~= leaves);
    } else {
        assert(leaves.subrange(0, i + 2).drop_last() =~= leaves.subrange(0, i + 1));
        lemma_leaves_fail(leaves, user_id, spare, i + 1);
    }
}

/// Finds the leaves that are removed with a user.
pub fn find_leaves(leaves: &Vec<Leaf>, user_id: u64, spare: Option<&str>) -> (r: Result<
    Vec<u32>,
    GroupError,
>)
    ensures
        match (
            r,
            leaves_to_remove(
                leaf_views(leaves@),
                user_id,
                match spare {
                    Some(t) => Some(t@),
                    None => None,
                },
            ),
        ) {
            (Ok(found), Ok(expected)) => found@ == expected,
            (Err(e), Err(se)) => e@ == se,
            _ => false,
        },
{
    let ghost lv = leaf_views(leaves@);
    let ghost sp: Option<Seq<char>> = match spare {
        Some(t) => Some(t@),
        None => None,
    };
    let mut found: Vec<u32> = Vec::new();
    let mut i: usize = 0;
    assert(lv.subrange(0, 0) =~= Seq::<LeafView>::empty());
    while i < leaves.len()
        invariant
            i <= leaves.len(),
            lv == leaf_views(leaves@),
            sp == match spare {
                Some(t) => Some(t@),
                None => None,
            },
            leaves_to_remove(lv.subrange(0, i as int), user_id, sp) == Ok::<
                Seq<u32>,
                GroupErrorView,
            >(found@),
        decreases leaves.len() - i,
    {
        proof {
            assert(lv.subrange(0, i + 1).drop_last() =~= lv.subrange(0, i as int));
            assert(lv.subrange(0, i + 1).last() == leaves@[i as int]@);
        }
        let leaf = &leaves[i];
        if leaf.credential_type == CREDENTIAL_V1 {
            let credential = match DeviceCredential::mls_decode(leaf.credential_data.as_slice()) {
                Ok(c) => c,
                Err(e) => {
                    proof {
                        lemma_leaves_fail(lv, user_id, sp, i as int);
                    }
                    return Err(GroupError::from_codec(e));
                },
            };
            if credential.device_id.user_id == user_id {
                let spared = match spare {
                    Some(d) => *credential.device_id.device_id.as_str() == *d,
                    None => false,
                };
                if !spared {
                    found.push(leaf.index);
                }
            }
        }
        i += 1;
    }
    assert(lv.subrange(0, lv.len() as int) =~= lv);
    Ok(found)
}

pub open spec fn must_stay_error() -> GroupErrorView {
    GroupErrorView::ConfigError("User cannot be removed from this group"@)
}

/// What a removal takes out of the tree and makes of the configuration, or
/// why there is none: the creator and the only admin cannot be removed,
/// and every device credential in the tree must decode.
pub open spec fn spec_removal(
    config: GroupConfigView,
    leaves: Seq<LeafView>,
    user_id: u64,
    spare: Option<Seq<char>>,
) -> Result<(Seq<u32>, GroupConfigView), GroupErrorView> {
    if config.must_stay(user_id) {
        Err(must_stay_error())
    } else {
        match leaves_to_remove(leaves, user_id, spare) {
            Err(e) => Err(e),
            Ok(indexes) => Ok((indexes, config.without_member(user_id))),
        }
    }
}

/// Plans a removal; see [`spec_removal`].
fn removal(config: &GroupConfig, leaves: &Vec<Leaf>, user_id: u64, spare: Option<&str>) -> (r: Result<
    RemovePlan,
    GroupError,
>)
    requires
        config@.is_member(user_id),
    ensures
        match (
            r,
            spec_removal(
                config@,
                leaf_views(leaves@),
                user_id,
                match spare {
                    Some(t) => Some(t@),
                    None => None,
                },
            ),
        ) {
            (Ok(plan), Ok(expected)) => plan.device_indexes@ == expected.0 && plan.remove_user
                == user_id && plan.new_config@.touched(expected.1) && !plan.new_config@.is_member(
                user_id,
            ) && !plan.new_config@.is_admin(user_id) && (config@.well_formed()
                ==> plan.new_config@.well_formed()),
            (Err(e), Err(se)) => e@ == se,
            _ => false,
        },
{
    if config.must_stay(user_id) {
        return Err(GroupError::ConfigError("User cannot be removed from this group".to_string()));
    }
    let mut new_config = config.duplicate();
    new_config.remove_member(user_id);
    match find_leaves(leaves, user_id, spare) {
        Ok(device_indexes) => Ok(RemovePlan { device_indexes, remove_user: user_id, new_config }),
        Err(e) => Err(e),
    }
}

/// Plans the commit that removes a user: every leaf of the user goes, the
/// user leaves the roster, and the configuration loses the user as member
/// and as admin. The creator and the only admin cannot be removed.
pub fn remove_plan(config: &GroupConfig, leaves: &Vec<Leaf>, user_id: u64) -> (r: Result<
    RemovePlan,
    GroupError,
>)
    requires
        config@.is_member(user_id),
    ensures
        match (r, spec_removal(config@, leaf_views(leaves@), user_id, None)) {
            (Ok(plan), Ok(expected)) => plan.device_indexes@ == expected.0 && plan.remove_user
                == user_id && plan.new_config@.touched(expected.1) && !plan.new_config@.is_member(
                user_id,
            ) && !plan.new_config@.is_admin(user_id) && (config@.well_formed()
                ==> plan.new_config@.well_formed()),
            (Err(e), Err(se)) => e@ == se,
            _ => false,
        },
{
    removal(config, leaves, user_id, None)
}

/// Plans the commit by which a user leaves: every other device of the user
/// goes, the user leaves the roster, and the configuration loses the user
/// as member and as admin. The device that sends the commit stays until
/// the commit is out. The creator and the only admin cannot leave.
pub fn leave_plan(config: &GroupConfig, leaves: &Vec<Leaf>, user_id: u64, device_id: &str) -> (r:
    Result<RemovePlan, GroupError>)
    requires
        config@.is_member(user_id),
    ensures
        match (r, spec_removal(config@, leaf_views(leaves@), user_id, Some(device_id@))) {
            (Ok(plan), Ok(expected)) => plan.device_indexes@ == expected.0 && plan.remove_user
                == user_id && plan.new_config@.touched(expected.1) && !plan.new_config@.is_member(
                user_id,
            ) && !plan.new_config@.is_admin(user_id) && (config@.well_formed()
                ==> plan.new_config@.well_formed()),
            (Err(e), Err(se)) => e@ == se,
            _ => false,
        },
{
    removal(config, leaves, user_id, Some(device_id))
}

/// A message to the members of a group, as it is handed to the delivery
/// service.
#[derive(Debug)]
pub struct GroupMessage {
    pub message_id: u64,
    pub group_id: Vec<u8>,
    pub members: Vec<u64>,
    pub message: Vec<u8>,
}

/// The users that a message to the group is addressed to: the users of the
/// roster who are members by the sender's configuration, in the roster's
/// order.
pub open spec fn recipients(config: GroupConfigView, roster: Seq<AccountCredentialView>) -> Seq<u64> {
    within(roster_ids(roster), config.members)
}

/// Finds the users that a message to the group is addressed to. Each of
/// them is a member.
pub fn message_recipients(config: &GroupConfig, roster: &Vec<AccountCredential>) -> (members: Vec<u64>)
    ensures
        members@ == recipients(config@, roster_view(roster@)),
        forall|i: int| 0 <= i < members@.len() ==> config@.is_member(members@[i]),
{
    let users = group_members(roster);
    let members = keep_within(&users, &config.members);
    proof {
        lemma_recipients_are_members(config@, roster_view(roster@));
        assert forall|i: int| 0 <= i < members@.len() implies config@.is_member(members@[i]) by {
            assert(members@[i] == recipients(config@, roster_view(roster@))[i]);
        }
    }
    members
}

/// Addresses bytes to the current members of a group, under a fresh
/// message id. Each user that the message goes to is a member by the
/// configuration.
pub fn outbound_message(
    group_id: &[u8],
    config: &GroupConfig,
    roster: &Vec<AccountCredential>,
    message: Vec<u8>,
) -> (m: GroupMessage)
    ensures
        m.message_id < u64::MAX,
        m.group_id@ == group_id@,
        m.members@ == recipients(config@, roster_view(roster@)),
        forall|i: int| 0 <= i < m.members@.len() ==> config@.is_member(m.members@[i]),
        m.message == message,
{
    GroupMessage {
        message_id: generate_message_id(),
        group_id: copy_bytes(group_id),
        members: message_recipients(config, roster),
        message,
    }
}

/// How many key packages a device uploads when it starts: three where the
/// local store holds fewer than three, none else.
pub fn uploads_at_start(pending: usize) -> (n: usize)
    ensures
        n == if pending < 3 {
            3int
        } else {
            0int
        },
{
    if pending < 3 {
        3
    } else {
        0
    }
}

/// Whether a device goes on uploading at start: as long as uploads are
/// left and none has failed.
pub fn upload_goes_on(planned: usize, done: usize, last_failed: bool) -> (go: bool)
    ensures
        go == (done < planned && !last_failed),
{
    done < planned && !last_failed
}

/// The request that registers a device.
#[derive(Debug)]
pub struct RegisterGroupDevice {
    pub user_id: u64,
    pub device_id: String,
    /// The key package of last resort.
    pub key_package: Option<Vec<u8>>,
    pub signature: Vec<u8>,
}

/// The request that uploads key packages.
#[derive(Debug)]
pub struct UploadKeyPackages {
    pub user_id: u64,
    pub device_id: String,
    pub key_packages: Vec<Vec<u8>>,
    pub signature: Vec<u8>,
}

/// The first message of the group stream.
#[derive(Debug)]
pub struct InitGroupStream {
    pub user_id: u64,
    pub device_id: String,
    /// Seconds since the Unix epoch.
    pub date: u64,
    pub signature: Vec<u8>,
    pub group_ids: Vec<Vec<u8>>,
}

pub open spec fn tbs_failed(e: CodecError) -> GroupErrorView {
    GroupErrorView::EncodingError("TBS encoding failed: "@ + e.spec_message())
}

pub open spec fn clock_failed() -> GroupErrorView {
    GroupErrorView::SystemTimeError("Failed to get current time:"@)
}

/// What signing the bytes of a request gives: the account's signature over
/// the bytes, or the error of the step that failed.
pub open spec fn signed(account: AccountView, tbs: Result<Seq<u8>, CodecError>) -> Result<
    Seq<u8>,
    GroupErrorView,
> {
    match tbs {
        Err(e) => Err(tbs_failed(e)),
        Ok(bytes) => match signature_of(account.signer, bytes) {
            Some(signature) => Ok(signature),
            None => Err(crate::identity::account::signing_failed()),
        },
    }
}

/// Signs the bytes of a request with the account's key. The signature of a
/// well-formed account verifies under the public key in the account's
/// credential.
pub fn sign_tbs(account: &Account, tbs: Result<Vec<u8>, CodecError>) -> (r: Result<
    Vec<u8>,
    GroupError,
>)
    ensures
        match (
            r,
            signed(
                account@,
                match tbs {
                    Ok(b) => Ok(b@),
                    Err(e) => Err(e),
                },
            ),
        ) {
            (Ok(signature), Ok(expected)) => signature@ == expected && (account@.well_formed()
                ==> signature_valid(account@.credential.public_key, signature@, tbs->Ok_0@)),
            (Err(e), Err(se)) => e@ == se,
            _ => false,
        },
{
    match tbs {
        Err(e) => {
            let why = e.message();
            Err(GroupError::EncodingError(join_text("TBS encoding failed: ", why.as_str())))
        },
        Ok(bytes) => account.sign_message(bytes.as_slice()),
    }
}

/// The request that registers a device of the account, signed over the
/// user's number and the device's name.
pub fn register_device_request(account: &Account, device_id: &str, key_package: Vec<u8>) -> (r:
    Result<RegisterGroupDevice, GroupError>)
    ensures
        match r {
            Ok(request) => {
                &&& request.user_id == account@.credential.account_id.user_id
                &&& request.device_id@ == device_id@
                &&& request.key_package == Some(key_package)
                &&& signature_of(account@.signer, register_tbs(request.user_id, device_id@))
                    == Some(request.signature@)
                &&& account@.well_formed() ==> signature_valid(
                    account@.credential.public_key,
                    request.signature@,
                    register_tbs(request.user_id, request.device_id@),
                )
            },
            Err(e) => signed(
                account@,
                register_bytes(account@.credential.account_id.user_id, device_id@),
            ) == Err::<Seq<u8>, GroupErrorView>(e@),
        },
{
    let user_id = account.credential.account_id.user_id;
    let tbs = RegisterGroupDeviceTBS { user_id, device_id: device_id.to_string() };
    match sign_tbs(account, tbs.mls_encode_to_vec()) {
        Ok(signature) => Ok(
            RegisterGroupDevice {
                user_id,
                device_id: device_id.to_string(),
                key_package: Some(key_package),
                signature,
            },
        ),
        Err(e) => Err(e),
    }
}

/// The request that uploads key packages of a device, signed over the
/// user's number, the device's name and the packages.
pub fn upload_key_packages_request(account: &Account, device_id: &str, key_packages: Vec<Vec<u8>>) -> (r:
    Result<UploadKeyPackages, GroupError>)
    ensures
        match r {
            Ok(request) => {
                &&& request.user_id == account@.credential.account_id.user_id
                &&& request.device_id@ == device_id@
                &&& package_views(request.key_packages@) == package_views(key_packages@)
                &&& signature_of(
                    account@.signer,
                    upload_tbs(request.user_id, device_id@, package_views(key_packages@)),
                ) == Some(request.signature@)
                &&& account@.well_formed() ==> signature_valid(
                    account@.credential.public_key,
                    request.signature@,
                    upload_tbs(
                        request.user_id,
                        request.device_id@,
                        package_views(request.key_packages@),
                    ),
                )
            },
            Err(e) => signed(
                account@,
                upload_bytes(
                    account@.credential.account_id.user_id,
                    device_id@,
                    package_views(key_packages@),
                ),
            ) == Err::<Seq<u8>, GroupErrorView>(e@),
        },
{
    let user_id = account.credential.account_id.user_id;
    let tbs = UploadKeyPackagesTBS { user_id, device_id: device_id.to_string(), key_packages };
    match sign_tbs(account, tbs.mls_encode_to_vec()) {
        Ok(signature) => Ok(
            UploadKeyPackages {
                user_id,
                device_id: device_id.to_string(),
                key_packages: tbs.key_packages,
                signature,
            },
        ),
        Err(e) => Err(e),
    }
}

/// The first message of the group stream at a given date, signed over the
/// user's number, the device's name and the date.
pub fn init_stream_request_at(account: &Account, device_id: &str, date: u64, group_ids: Vec<Vec<u8>>) -> (r:
    Result<InitGroupStream, GroupError>)
    ensures
        match r {
            Ok(request) => {
                &&& request.user_id == account@.credential.account_id.user_id
                &&& request.device_id@ == device_id@
                &&& request.date == date
                &&& request.group_ids == group_ids
                &&& signature_of(
                    account@.signer,
                    init_stream_tbs(request.user_id, device_id@, date),
                ) == Some(request.signature@)
                &&& account@.well_formed() ==> signature_valid(
                    account@.credential.public_key,
                    request.signature@,
                    init_stream_tbs(request.user_id, request.device_id@, request.date),
                )
            },
            Err(e) => signed(
                account@,
                init_stream_bytes(account@.credential.account_id.user_id, device_id@, date),
            ) == Err::<Seq<u8>, GroupErrorView>(e@),
        },
{
    let user_id = account.credential.account_id.user_id;
    let tbs = InitGroupStreamTBS { user_id, device_id: device_id.to_string(), date };
    match sign_tbs(account, tbs.mls_encode_to_vec()) {
        Ok(signature) => Ok(
            InitGroupStream {
                user_id,
                device_id: device_id.to_string(),
                date,
                signature,
                group_ids,
            },
        ),
        Err(e) => Err(e),
    }
}

/// The first message of the group stream, dated now. Where the clock
/// cannot be read the request is not made; else the outcome is the one of
/// [`init_stream_request_at`] for some date.
pub fn init_stream_request(account: &Account, device_id: &str, group_ids: Vec<Vec<u8>>) -> (r:
    Result<InitGroupStream, GroupError>)
    ensures
        match r {
            Ok(request) => {
                &&& request.user_id == account@.credential.account_id.user_id
                &&& request.device_id@ == device_id@
                &&& request.group_ids == group_ids
                &&& signature_of(
                    account@.signer,
                    init_stream_tbs(request.user_id, device_id@, request.date),
                ) == Some(request.signature@)
                &&& account@.well_formed() ==> signature_valid(
                    account@.credential.public_key,
                    request.signature@,
                    init_stream_tbs(request.user_id, request.device_id@, request.date),
                )
            },
            Err(e) => e@ == clock_failed() || exists|date: u64|
                signed(
                    account@,
                    #[trigger] init_stream_bytes(
                        account@.credential.account_id.user_id,
                        device_id@,
                        date,
                    ),
                ) == Err::<Seq<u8>, GroupErrorView>(e@),
        },
{
    match unix_now() {
        Some(date) => init_stream_request_at(account, device_id, date, group_ids),
        None => Err(GroupError::SystemTimeError("Failed to get current time:".to_string())),
    }
}

/// Whether every user of the roster is a member by the configuration.
pub open spec fn roster_within_members(
    roster: Seq<AccountCredentialView>,
    config: GroupConfigView,
) -> bool {
    forall|i: int| 0 <= i < roster.len() ==> config.is_member(#[trigger] roster[i].account_id.user_id)
}

/// Whether a set of users is the one of a roster.
pub open spec fn users_of(roster: Seq<AccountCredentialView>) -> Set<u64> {
    roster_ids(roster).to_set()
}

/// A message goes to members only: every user that a message is addressed
/// to is a member by the sender's configuration, and a user of the roster.
pub proof fn lemma_recipients_are_members(
    config: GroupConfigView,
    roster: Seq<AccountCredentialView>,
)
    ensures
        forall|i: int|
            0 <= i < recipients(config, roster).len() ==> config.is_member(
                #[trigger] recipients(config, roster)[i],
            ) && roster_ids(roster).contains(recipients(config, roster)[i]),
{
    lemma_within(roster_ids(roster), config.members);
    assert forall|i: int| 0 <= i < recipients(config, roster).len() implies config.is_member(
        #[trigger] recipients(config, roster)[i],
    ) && roster_ids(roster).contains(recipients(config, roster)[i]) by {
        assert(recipients(config, roster).contains(recipients(config, roster)[i]));
    }
}

/// Nobody is left out where every user of the roster is a member: the
/// message then goes to the users of the roster.
pub proof fn lemma_targets_are_members(
    roster: Seq<AccountCredentialView>,
    config: GroupConfigView,
)
    requires
        roster_within_members(roster, config),
    ensures
        recipients(config, roster) == roster_ids(roster),
{
    lemma_all_within(roster_ids(roster), config.members, roster);
}

proof fn lemma_all_within(
    ids: Seq<u64>,
    members: Seq<u64>,
    roster: Seq<AccountCredentialView>,
)
    requires
        ids.len() <= roster.len(),
        forall|i: int| 0 <= i < ids.len() ==> ids[i] == (#[trigger] roster[i]).account_id.user_id,
        forall|i: int| 0 <= i < ids.len() ==> members.contains((#[trigger] roster[i]).account_id.user_id),
    ensures
        within(ids, members) == ids,
    decreases ids.len(),
{
    if ids.len() > 0 {
        lemma_all_within(ids.drop_last(), members, roster);
        assert(ids.last() == roster[ids.len() - 1].account_id.user_id);
        assert(within(ids, members) =~= ids);
    }
}

/// An invitation keeps the roster within the members: the roster with the
/// new user is within the members of the configuration with the new
/// member.
pub proof fn lemma_invite_keeps_within(
    roster: Seq<AccountCredentialView>,
    config: GroupConfigView,
    after: GroupConfigView,
    user: AccountCredentialView,
)
    requires
        roster_within_members(roster, config),
        after.members == config.members.push(user.account_id.user_id),
    ensures
        roster_within_members(roster.push(user), after),
{
    let n = config.members.len() as int;
    assert(after.members[n] == user.account_id.user_id);
    assert forall|i: int| 0 <= i < roster.push(user).len() implies after.is_member(
        #[trigger] roster.push(user)[i].account_id.user_id,
    ) by {
        if i < roster.len() {
            let u = roster[i].account_id.user_id;
            assert(config.is_member(u));
            let w = choose|w: int| 0 <= w < config.members.len() && config.members[w] == u;
            assert(after.members[w] == u);
        }
    }
}

/// Removing a user from the roster removes exactly that user: no entry of
/// the user is left, and every other entry stays, in order.
pub proof fn lemma_without_user(roster: Seq<AccountCredentialView>, user_id: u64)
    ensures
        forall|i: int|
            0 <= i < without_user(roster, user_id).len() ==> (#[trigger] without_user(
                roster,
                user_id,
            )[i]).account_id.user_id != user_id,
        forall|i: int|
            0 <= i < without_user(roster, user_id).len() ==> roster.contains(
                #[trigger] without_user(roster, user_id)[i],
            ),
        forall|i: int|
            0 <= i < roster.len() && (#[trigger] roster[i]).account_id.user_id != user_id
                ==> without_user(roster, user_id).contains(roster[i]),
    decreases roster.len(),
{
    if roster.len() > 0 {
        let rest = roster.drop_last();
        lemma_without_user(rest, user_id);
        let out = without_user(roster, user_id);
        let inner = without_user(rest, user_id);
        assert forall|i: int| 0 <= i < out.len() implies roster.contains(#[trigger] out[i]) by {
            if i < inner.len() {
                assert(rest.contains(inner[i]));
                let w = choose|w: int| 0 <= w < rest.len() && rest[w] == inner[i];
                assert(roster[w] == out[i]);
            } else {
                assert(roster[roster.len() - 1] == out[i]);
            }
        }
        assert forall|i: int|
            0 <= i < roster.len() && (#[trigger] roster[i]).account_id.user_id
                != user_id implies out.contains(roster[i]) by {
            if i < rest.len() {
                assert(rest[i] == roster[i]);
                assert(inner.contains(rest[i]));
                let w = choose|w: int| 0 <= w < inner.len() && inner[w] == rest[i];
                assert(out[w] == roster[i]);
            } else {
                assert(out[out.len() - 1] == roster[i]);
            }
        }
    }
}

/// A removal keeps the roster within the members, whoever is removed from
/// the members, as long as it is the user that left the roster.
pub proof fn lemma_remove_keeps_within(
    roster: Seq<AccountCredentialView>,
    config: GroupConfigView,
    after: GroupConfigView,
    user_id: u64,
)
    requires
        roster_within_members(roster, config),
        after.members == without_id(config.members, user_id),
    ensures
        roster_within_members(without_user(roster, user_id), after),
{
    lemma_without_user(roster, user_id);
    lemma_without_id(config.members, user_id);
    let out = without_user(roster, user_id);
    assert forall|i: int| 0 <= i < out.len() implies after.is_member(
        #[trigger] out[i].account_id.user_id,
    ) by {
        let u = out[i].account_id.user_id;
        assert(roster.contains(out[i]));
        let j = choose|j: int| 0 <= j < roster.len() && roster[j] == out[i];
        assert(config.is_member(roster[j].account_id.user_id));
        assert(config.members.contains(u));
        assert(without_id(config.members, user_id).contains(u));
    }
}

/// The users of the roster after a user was added: those before, and the
/// new one.
pub proof fn lemma_users_after_add(roster: Seq<AccountCredentialView>, user: AccountCredentialView)
    ensures
        users_of(roster.push(user)) == users_of(roster).insert(user.account_id.user_id),
{
    let before = roster_ids(roster);
    let after = roster_ids(roster.push(user));
    assert(after =~= before.push(user.account_id.user_id));
    assert forall|u: u64| after.to_set().contains(u) <==> before.to_set().insert(
        user.account_id.user_id,
    ).contains(u) by {
        if before.contains(u) {
            let w = choose|w: int| 0 <= w < before.len() && before[w] == u;
            assert(after[w] == u);
        }
        if u == user.account_id.user_id {
            assert(after[before.len() as int] == u);
        }
    }
    assert(after.to_set() =~= before.to_set().insert(user.account_id.user_id));
}

/// The users of the roster after a user was removed: those before, without
/// that one. So a roster that lists exactly the accounts that own a leaf of
/// the group still does once every leaf of a user is gone and the user has
/// left the roster.
pub proof fn lemma_users_after_remove(roster: Seq<AccountCredentialView>, user_id: u64)
    ensures
        users_of(without_user(roster, user_id)) == users_of(roster).remove(user_id),
{
    lemma_without_user(roster, user_id);
    let out = without_user(roster, user_id);
    let before = roster_ids(roster);
    let after = roster_ids(out);
    assert forall|u: u64| after.to_set().contains(u) <==> before.to_set().remove(
        user_id,
    ).contains(u) by {
        if after.contains(u) {
            let w = choose|w: int| 0 <= w < after.len() && after[w] == u;
            assert(out[w].account_id.user_id == u);
            assert(roster.contains(out[w]));
            let j = choose|j: int| 0 <= j < roster.len() && roster[j] == out[w];
            assert(before[j] == u);
        }
        if before.contains(u) && u != user_id {
            let j = choose|j: int| 0 <= j < before.len() && before[j] == u;
            assert(roster[j].account_id.user_id == u);
            assert(out.contains(roster[j]));
            let w = choose|w: int| 0 <= w < out.len() && out[w] == roster[j];
            assert(after[w] == u);
        }
    }
    assert(after.to_set() =~= before.to_set().remove(user_id));
}

/// The roster of a group that an account creates: the account alone.
pub fn initial_roster(account: &Account) -> (roster: Vec<AccountCredential>)
    ensures
        roster_view(roster@) == seq![account@.credential],
{
    let mut roster: Vec<AccountCredential> = Vec::new();
    roster.push(account.credential.duplicate());
    assert(roster_view(roster@) =~= seq![account@.credential]);
    roster
}

/// The devices without one: those that the creator of a group adds besides
/// the device that creates it.
pub open spec fn without_device(devices: Seq<Seq<char>>, own: Seq<char>) -> Seq<Seq<char>>
    decreases devices.len(),
{
    if devices.len() == 0 {
        Seq::empty()
    } else if devices.last() == own {
        without_device(devices.drop_last(), own)
    } else {
        without_device(devices.drop_last(), own).push(devices.last())
    }
}

pub open spec fn text_views(v: Seq<String>) -> Seq<Seq<char>> {
    v.map_values(|s: String| s@)
}

/// The other devices of a user: all but the own.
pub fn other_devices(devices: &Vec<String>, own: &str) -> (others: Vec<String>)
    ensures
        text_views(others@) == without_device(text_views(devices@), own@),
{
    let ghost dv = text_views(devices@);
    let mut others: Vec<String> = Vec::new();
    let mut i: usize = 0;
    assert(dv.subrange(0, 0) =~= Seq::<Seq<char>>::empty());
    assert(text_views(others@) =~= Seq::<Seq<char>>::empty());
    while i < devices.len()
        invariant
            i <= devices.len(),
            dv == text_views(devices@),
            text_views(others@) == without_device(dv.subrange(0, i as int), own@),
        decreases devices.len() - i,
    {
        proof {
            assert(dv.subrange(0, i + 1).drop_last() =~= dv.subrange(0, i as int));
            assert(dv.subrange(0, i + 1).last() == devices@[i as int]@);
        }
        if !(*devices[i].as_str() == *own) {
            let ghost before = text_views(others@);
            others.push(devices[i].clone());
            assert(text_views(others@) =~= before.push(devices@[i as int]@));
        }
        i += 1;
    }
    assert(dv.subrange(0, dv.len() as int) =~= dv);
    others
}

/// A welcome message to one user, as it is handed to the delivery service.
#[derive(Debug)]
pub struct SendWelcomeMessage {
    pub message_id: u64,
    pub user_id: u64,
    pub welcome_message: Vec<u8>,
}

/// A change of the groups whose messages the device wants to get.
#[derive(Debug)]
pub struct UpdateGroupSubscriptions {
    pub add: Vec<Vec<u8>>,
    pub remove: Vec<Vec<u8>>,
}

/// What a device sends on the stream.
#[derive(Debug)]
pub enum StreamMessage {
    InitGroupStream(InitGroupStream),
    GroupMessage(GroupMessage),
    SendWelcomeMessage(SendWelcomeMessage),
    AckDelivery(crate::group::handler::AckDelivery),
    UpdateGroupSubscriptions(UpdateGroupSubscriptions),
}

/// Addresses a welcome message to the user who was invited, under a fresh
/// message id.
pub fn welcome_message(user_id: u64, welcome: Vec<u8>) -> (m: SendWelcomeMessage)
    ensures
        m.message_id < u64::MAX,
        m.user_id == user_id,
        m.welcome_message == welcome,
{
    SendWelcomeMessage { message_id: generate_message_id(), user_id, welcome_message: welcome }
}

/// Asks for the messages of one more group.
pub fn subscribe(group_id: &[u8]) -> (m: UpdateGroupSubscriptions)
    ensures
        m.add@.len() == 1,
        m.add@[0]@ == group_id@,
        m.remove@.len() == 0,
{
    let mut add: Vec<Vec<u8>> = Vec::new();
    add.push(copy_bytes(group_id));
    UpdateGroupSubscriptions { add, remove: Vec::new() }
}

/// Asks for no more messages of a group.
pub fn unsubscribe(group_id: &[u8]) -> (m: UpdateGroupSubscriptions)
    ensures
        m.add@.len() == 0,
        m.remove@.len() == 1,
        m.remove@[0]@ == group_id@,
{
    let mut remove: Vec<Vec<u8>> = Vec::new();
    remove.push(copy_bytes(group_id));
    UpdateGroupSubscriptions { add: Vec::new(), remove }
}

/// A device of an account: what it is called, whom it belongs to, and the
/// identity that it presents to groups.
#[derive(Debug, Clone)]
pub struct Device {
    pub identity: IdentityKeypair,
    pub device_id: String,
    pub account: Account,
}

/// What a device hands to the MLS layer and to the delivery service to send
/// a message: the payload to encrypt, and the users to address the
/// ciphertext to.
#[derive(Debug)]
pub struct OutboundPayload {
    pub payload: Vec<u8>,
    pub members: Vec<u64>,
}

impl Device {
    /// A device of the account with a fresh identity.
    pub fn new(device_id: &str, account: Account) -> (r: Result<Device, GroupError>)
        ensures
            match r {
                Ok(device) => {
                    &&& device.device_id@ == device_id@
                    &&& device.account@ == account@
                    &&& public_key_of(device.identity.signer@) == Some(device.identity.public_key@)
                    &&& issued(account@, device_id@, device.identity.public_key@) == Ok::<
                        DeviceCredentialView,
                        GroupErrorView,
                    >(device.identity.credential@)
                    &&& device.identity.credential@.device_id.device_id == device_id@
                    &&& device.identity.credential@.device_id.user_id
                        == account@.credential.account_id.user_id
                    &&& account@.well_formed() ==> crate::identity::vouched(
                        device.identity.credential@,
                        device.identity.public_key@,
                    )
                },
                Err(e) => e@ == key_generation_failed() || exists|public_key: Seq<u8>|
                    #[trigger] issued(account@, device_id@, public_key) == Err::<
                        DeviceCredentialView,
                        GroupErrorView,
                    >(e@),
            },
    {
        match IdentityKeypair::new(device_id, &account) {
            Ok(identity) => Ok(Device { identity, device_id: device_id.to_string(), account }),
            Err(e) => Err(e),
        }
    }

    /// The user that the device belongs to.
    pub fn user_id(&self) -> (id: u64)
        ensures
            id == self.account@.credential.account_id.user_id,
    {
        self.account.credential.account_id.user_id
    }

    /// A fresh id for an outbound message.
    pub fn generate_message_id() -> (id: u64)
        ensures
            id < u64::MAX,
    {
        generate_message_id()
    }

    /// The request that registers the device; see
    /// [`register_device_request`].
    pub fn register_device(&self, last_resort_key_package: Vec<u8>) -> (r: Result<
        RegisterGroupDevice,
        GroupError,
    >)
        ensures
            match r {
                Ok(request) => {
                    &&& request.user_id == self.account@.credential.account_id.user_id
                    &&& request.device_id@ == self.device_id@
                    &&& request.key_package == Some(last_resort_key_package)
                    &&& self.account@.well_formed() ==> signature_valid(
                        self.account@.credential.public_key,
                        request.signature@,
                        register_tbs(request.user_id, request.device_id@),
                    )
                },
                Err(e) => signed(
                    self.account@,
                    register_bytes(
                        self.account@.credential.account_id.user_id,
                        self.device_id@,
                    ),
                ) == Err::<Seq<u8>, GroupErrorView>(e@),
            },
    {
        register_device_request(&self.account, self.device_id.as_str(), last_resort_key_package)
    }

    /// The request that uploads key packages of the device; see
    /// [`upload_key_packages_request`].
    pub fn upload_key_packages(&self, key_packages: Vec<Vec<u8>>) -> (r: Result<
        UploadKeyPackages,
        GroupError,
    >)
        ensures
            match r {
                Ok(request) => {
                    &&& request.user_id == self.account@.credential.account_id.user_id
                    &&& request.device_id@ == self.device_id@
                    &&& package_views(request.key_packages@) == package_views(key_packages@)
                    &&& self.account@.well_formed() ==> signature_valid(
                        self.account@.credential.public_key,
                        request.signature@,
                        upload_tbs(
                            request.user_id,
                            request.device_id@,
                            package_views(request.key_packages@),
                        ),
                    )
                },
                Err(e) => signed(
                    self.account@,
                    upload_bytes(
                        self.account@.credential.account_id.user_id,
                        self.device_id@,
                        package_views(key_packages@),
                    ),
                ) == Err::<Seq<u8>, GroupErrorView>(e@),
            },
    {
        upload_key_packages_request(&self.account, self.device_id.as_str(), key_packages)
    }

    /// The first message of the group stream, dated now; see
    /// [`init_stream_request`].
    pub fn init_stream(&self, group_ids: Vec<Vec<u8>>) -> (r: Result<InitGroupStream, GroupError>)
        ensures
            match r {
                Ok(request) => {
                    &&& request.user_id == self.account@.credential.account_id.user_id
                    &&& request.device_id@ == self.device_id@
                    &&& request.group_ids == group_ids
                    &&& signature_of(
                        self.account@.signer,
                        init_stream_tbs(request.user_id, self.device_id@, request.date),
                    ) == Some(request.signature@)
                    &&& self.account@.well_formed() ==> signature_valid(
                        self.account@.credential.public_key,
                        request.signature@,
                        init_stream_tbs(request.user_id, request.device_id@, request.date),
                    )
                },
                Err(e) => e@ == clock_failed() || exists|date: u64|
                    signed(
                        self.account@,
                        #[trigger] init_stream_bytes(
                            self.account@.credential.account_id.user_id,
                            self.device_id@,
                            date,
                        ),
                    ) == Err::<Seq<u8>, GroupErrorView>(e@),
            },
    {
        init_stream_request(&self.account, self.device_id.as_str(), group_ids)
    }

    /// What a new group starts with: its configuration, and a roster that
    /// holds the creator's account alone.
    pub fn create_group(&self, group_config: GroupConfig) -> (r: (GroupConfig, Vec<AccountCredential>))
        ensures
            r.0 == group_config,
            roster_view(r.1@) == seq![self.account@.credential],
    {
        (group_config, initial_roster(&self.account))
    }

    /// Plans the invitation of a user; see [`invite_plan`]. Nobody who is
    /// banned or a member already is invited, and nobody without devices.
    pub fn invite(&self, config: &GroupConfig, user_credential: &AccountCredential, key_packages: Vec<Vec<u8>>) -> (r:
        Result<InvitePlan, GroupError>)
        ensures
            match (
                r,
                spec_invite(config@, user_credential@.account_id.user_id, key_packages@.len()),
            ) {
                (Ok(plan), Ok(c)) => plan.add_user@ == user_credential@ && plan.key_packages
                    == key_packages && plan.new_config@.touched(c) && plan.new_config@.is_member(
                    user_credential@.account_id.user_id,
                ) && (config@.well_formed() ==> plan.new_config@.well_formed()),
                (Err(e), Err(se)) => e@ == se,
                _ => false,
            },
    {
        invite_plan(config, user_credential, key_packages)
    }

    /// Plans the removal of a user; see [`remove_plan`].
    pub fn remove_user(&self, config: &GroupConfig, leaves: &Vec<Leaf>, user_id: u64) -> (r: Result<
        RemovePlan,
        GroupError,
    >)
        requires
            config@.is_member(user_id),
        ensures
            match (r, spec_removal(config@, leaf_views(leaves@), user_id, None)) {
                (Ok(plan), Ok(expected)) => plan.device_indexes@ == expected.0
                    && plan.remove_user == user_id && plan.new_config@.touched(expected.1)
                    && !plan.new_config@.is_member(user_id) && !plan.new_config@.is_admin(user_id)
                    && (config@.well_formed() ==> plan.new_config@.well_formed()),
                (Err(e), Err(se)) => e@ == se,
                _ => false,
            },
    {
        remove_plan(config, leaves, user_id)
    }

    /// Plans the leaving of the device's own user; see [`leave_plan`].
    pub fn leave_group(&self, config: &GroupConfig, leaves: &Vec<Leaf>) -> (r: Result<
        RemovePlan,
        GroupError,
    >)
        requires
            config@.is_member(self.account@.credential.account_id.user_id),
        ensures
            match (
                r,
                spec_removal(
                    config@,
                    leaf_views(leaves@),
                    self.account@.credential.account_id.user_id,
                    Some(self.device_id@),
                ),
            ) {
                (Ok(plan), Ok(expected)) => {
                    let user_id = self.account@.credential.account_id.user_id;
                    plan.device_indexes@ == expected.0 && plan.remove_user == user_id
                        && plan.new_config@.touched(expected.1) && !plan.new_config@.is_member(
                        user_id,
                    ) && !plan.new_config@.is_admin(user_id) && (config@.well_formed()
                        ==> plan.new_config@.well_formed())
                },
                (Err(e), Err(se)) => e@ == se,
                _ => false,
            },
    {
        leave_plan(config, leaves, self.user_id(), self.device_id.as_str())
    }

    /// The users of the group: those of its roster.
    pub fn extract_group_members(&self, roster: &Vec<AccountCredential>) -> (members: Vec<u64>)
        ensures
            members@ == roster_ids(roster_view(roster@)),
    {
        group_members(roster)
    }

    /// Prepares a message for the group: the device's user must be allowed
    /// to send; the payload is the message's wire form, and it goes to the
    /// users of the roster who are members by the configuration.
    pub fn send_message(&self, config: &GroupConfig, roster: &Vec<AccountCredential>, message: &UserGroupMessage) -> (r:
        Result<OutboundPayload, GroupError>)
        ensures
            match r {
                Ok(out) => config@.has_permission(
                    self.account@.credential.account_id.user_id,
                    "send_messages"@,
                ) && out.payload@ == message@.to_bytes() && out.members@ == recipients(
                    config@,
                    roster_view(roster@),
                ) && forall|i: int|
                    0 <= i < out.members@.len() ==> config@.is_member(out.members@[i]),
                Err(e) => !config@.has_permission(
                    self.account@.credential.account_id.user_id,
                    "send_messages"@,
                ) && e@ == may_not_send(),
            },
    {
        match check_may_send(config, self.user_id()) {
            Ok(()) => {},
            Err(e) => {
                return Err(e);
            },
        }
        Ok(
            OutboundPayload {
                payload: message.to_bytes(),
                members: message_recipients(config, roster),
            },
        )
    }
}

} // verus!
