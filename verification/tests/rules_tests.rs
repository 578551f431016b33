use ship_lib::identity::credentials::{AccountCredential, AccountId, DeviceCredential, DeviceId};
use ship_lib::group::device::{find_leaves, group_members, Leaf};
use ship_lib::group::errors::GroupError;
use ship_lib::group::extensions::{policy_proposals, CustomProposal, UpdateGroupConfigProposal};
use ship_lib::group::config::{GroupConfig, Permissions};
use ship_lib::group::handler::{
    acknowledgement, check_application_message, process_received_message, stream_step,
    HandlerAction, ReceivedMessage, StreamItem, StreamStep,
};
use ship_lib::message::media::{save_plan, SavePlan};
use ship_lib::message::{GroupTextMessage, UserGroupMessage};
use ship_lib::wire::mls::CodecError;
use ship_lib::group::rules::{
    CommitSource, CustomMlsRules, PolicyDecision, PolicyOutcome, PolicyProposal,
};

const A: u64 = 1;
const B: u64 = 2;
const C: u64 = 3;

fn credential(user_id: u64) -> AccountCredential {
    AccountCredential {
        account_id: AccountId { user_id, public_address: format!("user{}", user_id) },
        public_key: vec![user_id as u8; 4],
        cert: vec![],
    }
}

fn device_bytes(user_id: u64) -> Vec<u8> {
    DeviceCredential {
        device_id: DeviceId { user_id, device_id: "d".to_string() },
        user_public_key: vec![user_id as u8; 4],
        signature: vec![0; 8],
    }
    .mls_encode_to_vec()
    .unwrap()
}

fn member(user_id: u64) -> CommitSource {
    CommitSource::ExistingMember {
        credential_type: 65002,
        credential_data: device_bytes(user_id),
        index: 5,
    }
}

fn group() -> (GroupConfig, Vec<AccountCredential>) {
    let mut config = GroupConfig::new(9, "g".to_string(), A);
    config.add_member(B);
    config.set_permissions(B, Permissions::member());
    (config, vec![credential(A), credential(B)])
}

fn filter(
    source: &CommitSource,
    config: Option<GroupConfig>,
    roster: Option<Vec<AccountCredential>>,
    proposals: Vec<PolicyProposal>,
) -> Result<PolicyDecision, GroupError> {
    CustomMlsRules.filter_proposals(source, &config, &roster, &proposals)
}

fn accepted(r: Result<PolicyDecision, GroupError>) -> PolicyOutcome {
    match r {
        Ok(PolicyDecision::Accepted(outcome)) => outcome,
        other => panic!("expected an accepted commit, got {:?}", other),
    }
}

fn is_config_error(r: &Result<PolicyDecision, GroupError>, text: &str) -> bool {
    matches!(r, Err(GroupError::ConfigError(m)) if m == text)
}

fn ids(roster: &[AccountCredential]) -> Vec<u64> {
    roster.iter().map(|c| c.account_id.user_id).collect()
}

#[test]
fn a_commit_without_custom_proposals_changes_nothing() {
    let (config, roster) = group();
    let outcome = accepted(filter(&member(B), Some(config), Some(roster), vec![PolicyProposal::Other]));
    assert_eq!(outcome.sender_user_id, B);
    assert_eq!(outcome.sender_index, 5);
    assert_eq!(ids(&outcome.roster), vec![A, B]);
    assert!(!outcome.roster_changed);
    assert!(!outcome.config_changed);
    assert!(!outcome.extensions_modified());
    assert!(outcome.config.is_some());
}

#[test]
fn add_user_needs_manage_members() {
    let (config, roster) = group();
    let denied = filter(
        &member(B),
        Some(config.duplicate()),
        Some(roster.clone()),
        vec![PolicyProposal::AddUser(Ok(credential(C)))],
    );
    assert!(is_config_error(&denied, "User is not allowed to manage members"));
    let outcome = accepted(filter(
        &member(A),
        Some(config),
        Some(roster),
        vec![PolicyProposal::AddUser(Ok(credential(C)))],
    ));
    assert_eq!(ids(&outcome.roster), vec![A, B, C]);
    assert!(outcome.roster_changed);
    assert!(outcome.extensions_modified());
}

#[test]
fn banned_users_and_full_groups_are_refused() {
    let (mut config, roster) = group();
    config.add_banned(C);
    let banned = filter(
        &member(A),
        Some(config.duplicate()),
        Some(roster.clone()),
        vec![PolicyProposal::AddUser(Ok(credential(C)))],
    );
    assert!(is_config_error(&banned, "User is banned from this group"));
    config.remove_banned(C);
    config.set_max_members(Some(2));
    let full = filter(
        &member(A),
        Some(config),
        Some(roster),
        vec![PolicyProposal::AddUser(Ok(credential(C)))],
    );
    assert!(is_config_error(&full, "Group is full"));
}

#[test]
fn add_user_in_a_group_without_configuration_does_nothing() {
    let (_, roster) = group();
    let outcome = accepted(filter(
        &member(B),
        None,
        Some(roster),
        vec![PolicyProposal::AddUser(Ok(credential(C)))],
    ));
    assert_eq!(ids(&outcome.roster), vec![A, B]);
    assert!(!outcome.roster_changed);
    assert!(outcome.config.is_none());
}

#[test]
fn removing_oneself_is_always_allowed() {
    let (config, roster) = group();
    let outcome = accepted(filter(
        &member(B),
        Some(config.duplicate()),
        Some(roster.clone()),
        vec![PolicyProposal::RemoveUser(Ok(B))],
    ));
    assert_eq!(ids(&outcome.roster), vec![A]);
    assert!(outcome.roster_changed);
    let denied = filter(
        &member(B),
        Some(config.duplicate()),
        Some(roster.clone()),
        vec![PolicyProposal::RemoveUser(Ok(A))],
    );
    assert!(is_config_error(&denied, "User is not allowed to manage members"));
    let by_admin =
        accepted(filter(&member(A), Some(config), Some(roster), vec![PolicyProposal::RemoveUser(Ok(B))]));
    assert_eq!(ids(&by_admin.roster), vec![A]);
}

#[test]
fn removal_drops_every_entry_of_the_user() {
    let (config, mut roster) = group();
    roster.push(credential(B));
    roster.push(credential(C));
    let outcome = accepted(filter(
        &member(A),
        Some(config),
        Some(roster),
        vec![PolicyProposal::RemoveUser(Ok(B))],
    ));
    assert_eq!(ids(&outcome.roster), vec![A, C]);
}

#[test]
fn adds_come_before_removes_whatever_their_order() {
    let (config, roster) = group();
    let outcome = accepted(filter(
        &member(A),
        Some(config),
        Some(roster),
        vec![PolicyProposal::RemoveUser(Ok(C)), PolicyProposal::AddUser(Ok(credential(C)))],
    ));
    assert_eq!(ids(&outcome.roster), vec![A, B]);
    assert!(outcome.roster_changed);
}

#[test]
fn config_updates_are_validated_against_the_running_configuration() {
    let (config, roster) = group();
    let mut renamed = config.duplicate();
    renamed.name = "h".to_string();
    let denied = filter(
        &member(B),
        Some(config.duplicate()),
        Some(roster.clone()),
        vec![PolicyProposal::UpdateGroupConfig(Ok(renamed.duplicate()))],
    );
    assert!(matches!(
        denied,
        Err(GroupError::ConfigValidationError(m)) if m == "Invalid config changes"
    ));
    // The admin renames, and a second proposal is judged against the first.
    let mut promoted = renamed.duplicate();
    promoted.add_admin(B);
    let outcome = accepted(filter(
        &member(A),
        Some(config),
        Some(roster),
        vec![
            PolicyProposal::UpdateGroupConfig(Ok(renamed)),
            PolicyProposal::UpdateGroupConfig(Ok(promoted)),
        ],
    ));
    assert!(outcome.config_changed);
    assert!(!outcome.roster_changed);
    let installed = outcome.config.unwrap();
    assert_eq!(installed.name, "h");
    assert_eq!(installed.admins, vec![A, B]);
}

#[test]
fn malformed_payloads_refuse_the_commit() {
    let (config, roster) = group();
    let r = filter(
        &member(A),
        Some(config.duplicate()),
        Some(roster.clone()),
        vec![PolicyProposal::AddUser(Err(CodecError::UnexpectedEOF))],
    );
    assert!(matches!(r, Err(GroupError::CodecError(m)) if m == "UnexpectedEOF"));
    let r = filter(
        &member(A),
        Some(config.duplicate()),
        Some(roster.clone()),
        vec![PolicyProposal::RemoveUser(Err(CodecError::Utf8))],
    );
    assert!(matches!(r, Err(GroupError::CodecError(m)) if m == "Expected UTF-8 string"));
    let r = filter(
        &member(A),
        Some(config),
        Some(roster),
        vec![PolicyProposal::UpdateGroupConfig(Err(CodecError::VarIntMinimumLengthEncoding))],
    );
    assert!(matches!(r, Err(GroupError::CodecError(_))));
}

#[test]
fn the_sender_must_present_a_device_credential() {
    let (config, roster) = group();
    let basic = CommitSource::ExistingMember {
        credential_type: 1,
        credential_data: vec![],
        index: 0,
    };
    assert!(matches!(
        filter(&basic, Some(config.duplicate()), Some(roster.clone()), vec![]),
        Err(GroupError::CredentialMissmatch)
    ));
    let broken = CommitSource::ExistingMember {
        credential_type: 65002,
        credential_data: vec![1, 2],
        index: 0,
    };
    assert!(matches!(
        filter(&broken, Some(config.duplicate()), Some(roster.clone()), vec![]),
        Err(GroupError::CodecError(_))
    ));
    assert!(matches!(
        filter(&member(A), Some(config), None, vec![]),
        Err(GroupError::RosterNotFound)
    ));
}

#[test]
fn commits_from_outside_pass_unchecked() {
    let (config, roster) = group();
    let outside = CommitSource::NewMember { credential_type: 65002 };
    let r = filter(
        &outside,
        Some(config.duplicate()),
        Some(roster.clone()),
        vec![PolicyProposal::AddUser(Err(CodecError::Utf8))],
    );
    assert!(matches!(r, Ok(PolicyDecision::PassThrough)));
    let wrong = CommitSource::NewMember { credential_type: 1 };
    assert!(matches!(
        filter(&wrong, Some(config), Some(roster), vec![]),
        Err(GroupError::CredentialMissmatch)
    ));
}

#[test]
fn policy_works_on_proposals_as_they_travel() {
    let (config, roster) = group();
    let mut renamed = config.duplicate();
    renamed.name = "h".to_string();
    let custom = vec![
        UpdateGroupConfigProposal { new_config: renamed }.to_custom_proposal().unwrap(),
        CustomProposal { proposal_type: 65002, data: B.to_be_bytes().to_vec() },
        CustomProposal { proposal_type: 77, data: vec![] },
    ];
    let outcome =
        accepted(filter(&member(A), Some(config), Some(roster), policy_proposals(&custom)));
    assert_eq!(ids(&outcome.roster), vec![A]);
    assert!(outcome.extensions_modified());
    assert_eq!(outcome.config.unwrap().name, "h");
}

#[test]
fn rules_options_are_fixed() {
    let encryption = CustomMlsRules.encryption_options();
    assert!(!encryption.encrypt_control_messages);
    assert!(!encryption.padding);
    let commit = CustomMlsRules.commit_options();
    assert!(!commit.path_required);
    assert!(commit.ratchet_tree_extension);
    assert!(commit.single_welcome_message);
    assert!(!commit.allow_external_commit);
    assert!(!commit.always_out_of_band_ratchet_tree);
}

fn text(sender: u64, body: &str) -> Vec<u8> {
    UserGroupMessage::TextMessage(GroupTextMessage {
        message_id: 1,
        group_id: "g".to_string(),
        sender_id: sender as i64,
        date: 5,
        text: body.to_string(),
        media: None,
        media_name: None,
        reply_message_id: None,
        expires: None,
        edit_date: None,
    })
    .to_bytes()
}

#[test]
fn permission_enforcement_on_inbound() {
    // The defaults forbid sending, and B has no entry of its own.
    let mut config = GroupConfig::new(9, "g".to_string(), A);
    config.default_permissions = Permissions::member().with_send_messages(false);
    config.members.push(B);
    let received = ReceivedMessage::ApplicationMessage {
        sender_credential: device_bytes(B),
        data: text(B, "x"),
    };
    let r = process_received_message(&received, &Some(config));
    assert!(matches!(
        r,
        Err(GroupError::ConfigError(m)) if m == "User is not allowed to send messages"
    ));
}

#[test]
fn two_user_invite_and_exchange() {
    // A creates the group and invites B: the policy accepts A's commit.
    let config = GroupConfig::new(9, "g".to_string(), A);
    let mut with_b = config.duplicate();
    with_b.add_member(B);
    let outcome = accepted(filter(
        &member(A),
        Some(config),
        Some(vec![credential(A)]),
        vec![
            PolicyProposal::AddUser(Ok(credential(B))),
            PolicyProposal::UpdateGroupConfig(Ok(with_b)),
        ],
    ));
    assert_eq!(ids(&outcome.roster), vec![A, B]);
    let group_config = outcome.config;
    assert_eq!(group_config.as_ref().unwrap().members, vec![A, B]);

    // A sends "hi"; B receives it, and stores what A stored.
    let sent = UserGroupMessage::from_bytes(&text(A, "hi")).unwrap();
    let received = ReceivedMessage::ApplicationMessage {
        sender_credential: device_bytes(A),
        data: text(A, "hi"),
    };
    let actions = process_received_message(&received, &group_config).unwrap();
    assert_eq!(actions.len(), 1);
    let stored = match &actions[0] {
        HandlerAction::StoreMessage(m) => m,
        _ => panic!("expected a message to store"),
    };
    assert_eq!(stored, &sent);
    match stored {
        UserGroupMessage::TextMessage(m) => {
            assert_eq!(m.text, "hi");
            assert_eq!(m.sender_id, A as i64);
        }
    }
    assert_eq!(save_plan(stored, &[9], false), save_plan(&sent, &[9], false));
    assert!(matches!(save_plan(stored, &[9], false), SavePlan::Insert { .. }));
}

#[test]
fn muted_senders_and_broken_messages_are_dropped() {
    let (mut config, _) = group();
    config.add_muted(B, ship_lib::group::config::DateTime { timestamp: 1 });
    let muted = check_application_message(&Some(config.duplicate()), &device_bytes(B), &text(B, "x"));
    assert!(matches!(muted, Err(GroupError::ConfigError(m)) if m == "User is muted"));
    let broken = check_application_message(&Some(config.duplicate()), &device_bytes(A), &[9]);
    assert!(matches!(
        broken,
        Err(GroupError::MessageDecodingError(m)) if m == "Unknown message type: 9"
    ));
    let no_config = check_application_message(&None, &device_bytes(A), &text(A, "x"));
    assert!(matches!(no_config, Err(GroupError::ConfigurationNotFound)));
    let bad_sender = check_application_message(&Some(config.duplicate()), &[1], &text(A, "x"));
    assert!(matches!(bad_sender, Err(GroupError::CodecError(_))));
    assert!(check_application_message(&Some(config), &device_bytes(A), &text(A, "x")).is_ok());
}

#[test]
fn commits_report_new_configurations_and_removal() {
    let (config, _) = group();
    let mut renamed = config.duplicate();
    renamed.name = "h".to_string();
    let new_epoch = ReceivedMessage::NewEpoch {
        applied_proposals: vec![
            PolicyProposal::Other,
            PolicyProposal::UpdateGroupConfig(Ok(renamed)),
            PolicyProposal::RemoveUser(Ok(B)),
        ],
    };
    let actions = process_received_message(&new_epoch, &Some(config.duplicate())).unwrap();
    assert_eq!(actions.len(), 1);
    assert!(matches!(&actions[0], HandlerAction::ConfigUpdated(c) if c.name == "h"));
    let removed = process_received_message(&ReceivedMessage::Removed, &Some(config.duplicate()));
    assert!(matches!(removed.unwrap()[..], [HandlerAction::LeaveGroup]));
    assert!(process_received_message(&ReceivedMessage::ReInit, &None).unwrap().is_empty());
    assert!(process_received_message(&ReceivedMessage::Other, &None).unwrap().is_empty());
    let broken = ReceivedMessage::NewEpoch {
        applied_proposals: vec![PolicyProposal::UpdateGroupConfig(Err(CodecError::Utf8))],
    };
    assert!(matches!(
        process_received_message(&broken, &Some(config)),
        Err(GroupError::CodecError(_))
    ));
}

#[test]
fn stream_items_ask_for_their_step() {
    let step = stream_step(StreamItem::GroupMessage {
        message_id: 4,
        group_id: vec![1],
        message: vec![2, 3],
    });
    assert!(matches!(
        step,
        StreamStep::ProcessGroupMessage { message_id: 4, ref group_id, ref message }
            if group_id == &vec![1] && message == &vec![2, 3]
    ));
    let step = stream_step(StreamItem::WelcomeMessage { welcome_message: vec![7] });
    assert!(matches!(step, StreamStep::JoinGroup { ref welcome_message } if welcome_message == &vec![7]));
    for item in [
        StreamItem::InitGroupStream { user_id: 1 },
        StreamItem::SendGroupMessage { message_id: 1, success: true },
        StreamItem::SendWelcomeMessage { message_id: 1, success: false },
        StreamItem::AckDelivery,
        StreamItem::UpdateGroupSubscriptions,
        StreamItem::Error { error: "e".to_string() },
        StreamItem::Empty,
        StreamItem::Failed,
    ] {
        assert!(matches!(stream_step(item), StreamStep::Continue));
    }
}

#[test]
fn handled_messages_are_acknowledged() {
    let ack = acknowledgement(true, 4, 1, "dev", &[9]).unwrap();
    assert_eq!(ack.message_id, 4);
    assert_eq!(ack.user_id, 1);
    assert_eq!(ack.device_id, "dev");
    assert_eq!(ack.group_id, vec![9]);
    assert!(acknowledgement(false, 4, 1, "dev", &[9]).is_none());
}

fn leaf(index: u32, user_id: u64, device: &str) -> Leaf {
    let credential = DeviceCredential {
        device_id: DeviceId { user_id, device_id: device.to_string() },
        user_public_key: vec![user_id as u8; 4],
        signature: vec![0; 8],
    };
    Leaf { index, credential_type: 65002, credential_data: credential.mls_encode_to_vec().unwrap() }
}

fn owners(leaves: &[Leaf]) -> Vec<u64> {
    let mut users: Vec<u64> = leaves
        .iter()
        .map(|l| DeviceCredential::mls_decode(&l.credential_data).unwrap().device_id.user_id)
        .collect();
    users.sort();
    users.dedup();
    users
}

#[test]
fn roster_lists_the_owners_of_the_leaves_through_invite_and_removal() {
    // A creates the group from two devices.
    let mut leaves = vec![leaf(0, A, "phone"), leaf(1, A, "desk")];
    let mut roster = vec![credential(A)];
    let mut config = GroupConfig::new(9, "g".to_string(), A);
    assert_eq!(group_members(&roster), owners(&leaves));

    // A invites B, who has two devices.
    let mut with_b = config.duplicate();
    with_b.add_member(B);
    let outcome = accepted(filter(
        &member(A),
        Some(config),
        Some(roster),
        vec![
            PolicyProposal::AddUser(Ok(credential(B))),
            PolicyProposal::UpdateGroupConfig(Ok(with_b)),
        ],
    ));
    leaves.push(leaf(2, B, "phone"));
    leaves.push(leaf(5, B, "tablet"));
    roster = outcome.roster;
    config = outcome.config.unwrap();
    assert_eq!(group_members(&roster), vec![A, B]);
    assert_eq!(group_members(&roster), owners(&leaves));

    // A removes B: the plan names B's leaves, and the roster follows.
    let gone = find_leaves(&leaves, B, None).unwrap();
    assert_eq!(gone, vec![2, 5]);
    let mut without_b = config.duplicate();
    without_b.remove_member(B);
    let outcome = accepted(filter(
        &member(A),
        Some(config),
        Some(roster),
        vec![PolicyProposal::RemoveUser(Ok(B)), PolicyProposal::UpdateGroupConfig(Ok(without_b))],
    ));
    leaves.retain(|l| !gone.contains(&l.index));
    roster = outcome.roster;
    assert_eq!(group_members(&roster), vec![A]);
    assert_eq!(group_members(&roster), owners(&leaves));
}
