use ship_lib::identity::account::Account;
use ship_lib::identity::account_export::{EncryptedData, ExportedAccount};
use ship_lib::group::commands::{
    plan_config_update, plan_member_permissions, ConfigUpdate, PermissionPatch,
};
use ship_lib::connection::{get_avaliable_servers, get_avaliable_voice_servers, get_group_servers};
use ship_lib::identity::credentials::{
    device_credential_tbs, AccountCredential, AccountId, DeviceCredential, DeviceId,
};
use ship_lib::group::device::{
    check_invite, check_may_send, find_leaves, generate_message_id, group_members,
    init_stream_request, init_stream_request_at, invite_plan, leave_plan, message_recipients,
    outbound_message,
    register_device_request, remove_plan, sign_tbs, upload_goes_on, upload_key_packages_request,
    uploads_at_start, Leaf,
};
use ship_lib::group::errors::GroupError;
use ship_lib::group::GroupId;
use ship_lib::group::config::{GroupConfig, JoinMode, Permissions, Visibility};
use ship_lib::identity::{CustomIdentityProvider, SigningIdentity};
use ship_lib::wire::mls::CodecError;
use ship_lib::identity::signature_bytes::{
    InitGroupStreamTBS, RegisterGroupDeviceTBS, UploadKeyPackagesTBS,
};

fn account(user_id: u64) -> Account {
    let (signer, public_key) = Account::create_keys().unwrap();
    Account::new_with_existing_keys(
        user_id,
        "name".to_string(),
        "address".to_string(),
        "server".to_string(),
        None,
        None,
        AccountCredential {
            account_id: AccountId { user_id, public_address: "address".to_string() },
            public_key,
            cert: vec![],
        },
        signer,
    )
}

fn device_of(owner: &Account, device: &str) -> (SigningIdentity, DeviceCredential) {
    let (_device_secret, device_public) = Account::create_keys().unwrap();
    let tbs = device_credential_tbs(owner.user_id, &owner.credential.public_key, &device_public)
        .unwrap();
    let credential = DeviceCredential {
        device_id: DeviceId { user_id: owner.user_id, device_id: device.to_string() },
        user_public_key: owner.credential.public_key.clone(),
        signature: owner.sign_message(&tbs).unwrap(),
    };
    let identity = SigningIdentity {
        credential_type: 65002,
        credential_data: credential.mls_encode_to_vec().unwrap(),
        signature_key: device_public,
    };
    (identity, credential)
}

fn leaf(index: u32, user_id: u64, device: &str) -> Leaf {
    Leaf {
        index,
        credential_type: 65002,
        credential_data: DeviceCredential {
            device_id: DeviceId { user_id, device_id: device.to_string() },
            user_public_key: vec![1],
            signature: vec![2],
        }
        .mls_encode_to_vec()
        .unwrap(),
    }
}

#[test]
fn signatures_verify_under_the_account_key() {
    let a = account(1);
    let signature = a.sign_message(b"message").unwrap();
    assert!(a.verify_with_public_key(&a.credential.public_key, b"message", &signature).is_ok());
    let wrong = a.verify_with_public_key(&a.credential.public_key, b"other", &signature);
    assert!(matches!(wrong, Err(GroupError::CryptoError(m)) if m == "Message verification failed"));
    let b = account(2);
    assert!(b.verify_with_public_key(&b.credential.public_key, b"message", &signature).is_err());
    // Signing is deterministic.
    assert_eq!(a.sign_message(b"message").unwrap(), signature);
    let mut broken = account(3);
    broken.signer = vec![1, 2, 3];
    assert!(matches!(
        broken.sign_message(b"m"),
        Err(GroupError::CryptoError(m)) if m == "Message signature failed"
    ));
}

#[test]
fn signed_requests_verify_against_the_account_credential() {
    let a = account(7);
    let register = register_device_request(&a, "phone", vec![1, 2]).unwrap();
    assert_eq!(register.user_id, 7);
    assert_eq!(register.device_id, "phone");
    assert_eq!(register.key_package, Some(vec![1, 2]));
    let tbs = RegisterGroupDeviceTBS { user_id: 7, device_id: "phone".to_string() }
        .mls_encode_to_vec()
        .unwrap();
    assert!(a.verify_with_public_key(&a.credential.public_key, &tbs, &register.signature).is_ok());

    let upload = upload_key_packages_request(&a, "phone", vec![vec![5; 40]]).unwrap();
    let tbs = UploadKeyPackagesTBS {
        user_id: 7,
        device_id: "phone".to_string(),
        key_packages: vec![vec![5; 40]],
    }
    .mls_encode_to_vec()
    .unwrap();
    assert_eq!(upload.key_packages, vec![vec![5; 40]]);
    assert!(a.verify_with_public_key(&a.credential.public_key, &tbs, &upload.signature).is_ok());

    let init = init_stream_request_at(&a, "phone", 1700000000, vec![vec![9]]).unwrap();
    let tbs = InitGroupStreamTBS { user_id: 7, device_id: "phone".to_string(), date: 1700000000 }
        .mls_encode_to_vec()
        .unwrap();
    assert_eq!(init.date, 1700000000);
    assert_eq!(init.group_ids, vec![vec![9]]);
    assert!(a.verify_with_public_key(&a.credential.public_key, &tbs, &init.signature).is_ok());

    let now = init_stream_request(&a, "phone", vec![]).unwrap();
    assert!(now.date > 1_600_000_000);
    let tbs = InitGroupStreamTBS { user_id: 7, device_id: "phone".to_string(), date: now.date }
        .mls_encode_to_vec()
        .unwrap();
    assert!(a.verify_with_public_key(&a.credential.public_key, &tbs, &now.signature).is_ok());
}

#[test]
fn signing_reports_the_step_that_failed() {
    let a = account(7);
    let r = sign_tbs(&a, Err(CodecError::VarIntOutOfRange));
    assert!(matches!(
        r,
        Err(GroupError::EncodingError(m)) if m == "TBS encoding failed: Integer out of range for VarInt"
    ));
}

#[test]
fn a_device_credential_still_verifies_after_the_wire() {
    let owner = account(1);
    let (identity, credential) = device_of(&owner, "phone");
    let back = DeviceCredential::mls_decode(&identity.credential_data).unwrap();
    assert_eq!(back.device_id.user_id, credential.device_id.user_id);
    assert_eq!(back.device_id.device_id, credential.device_id.device_id);
    assert_eq!(back.user_public_key, credential.user_public_key);
    assert_eq!(back.signature, credential.signature);
    let tbs =
        device_credential_tbs(back.device_id.user_id, &back.user_public_key, &identity.signature_key)
            .unwrap();
    assert!(owner.verify_with_public_key(&back.user_public_key, &tbs, &back.signature).is_ok());
}

#[test]
fn members_are_validated_against_the_roster() {
    let owner = account(1);
    let stranger = account(2);
    let (identity, _) = device_of(&owner, "phone");
    let provider = CustomIdentityProvider;
    let roster = Some(vec![owner.credential.duplicate()]);
    assert!(provider.validate_member(&identity, true, &roster).is_ok());
    // Nothing is checked where no extensions come with the member.
    assert!(provider.validate_member(&identity, false, &None).is_ok());
    assert!(matches!(
        provider.validate_member(&identity, true, &None),
        Err(GroupError::RosterNotFound)
    ));
    let others = Some(vec![stranger.credential.duplicate()]);
    assert!(matches!(
        provider.validate_member(&identity, true, &others),
        Err(GroupError::UserIsNotInRoster)
    ));
    let mut basic = identity.clone();
    basic.credential_type = 1;
    assert!(matches!(
        provider.validate_member(&basic, true, &roster),
        Err(GroupError::CredentialMissmatch)
    ));
    let mut broken = identity.clone();
    broken.credential_data = vec![1, 2, 3];
    assert!(matches!(
        provider.validate_member(&broken, true, &roster),
        Err(GroupError::CodecError(_))
    ));
    // Another device key than the one that was signed.
    let mut other_key = identity.clone();
    other_key.signature_key = stranger.credential.public_key.clone();
    assert!(matches!(
        provider.validate_member(&other_key, true, &roster),
        Err(GroupError::CryptoError(m)) if m == "Verify error"
    ));
}

#[test]
fn identity_is_the_device_id_on_the_wire() {
    let owner = account(1);
    let (identity, credential) = device_of(&owner, "phone");
    let provider = CustomIdentityProvider;
    assert_eq!(
        provider.identity(&identity).unwrap(),
        credential.device_id.mls_encode_to_vec().unwrap()
    );
    let mut basic = identity.clone();
    basic.credential_type = 1;
    assert!(matches!(provider.identity(&basic), Err(GroupError::CredentialMissmatch)));
    assert_eq!(provider.supported_types(), vec![65002]);
    assert_eq!(provider.valid_successor(&identity, &basic).unwrap(), true);
    assert!(provider.validate_external_sender(&identity).is_ok());
}

fn group() -> GroupConfig {
    let mut config = GroupConfig::new(9, "g".to_string(), 1);
    config.add_member(2);
    config.add_banned(66);
    config
}

#[test]
fn invitations_are_checked_and_planned() {
    let config = group();
    assert!(check_invite(&config, 3).is_ok());
    assert!(matches!(
        check_invite(&config, 66),
        Err(GroupError::ConfigError(m)) if m == "User is banned from this group"
    ));
    assert!(matches!(
        check_invite(&config, 2),
        Err(GroupError::ConfigError(m)) if m == "User is already a member of this group"
    ));
    let invited = account(3).credential;
    let plan = invite_plan(&config, &invited, vec![vec![1], vec![2]]).unwrap();
    assert_eq!(plan.add_user.account_id.user_id, 3);
    assert_eq!(plan.add_user.public_key, invited.public_key);
    assert_eq!(plan.key_packages, vec![vec![1], vec![2]]);
    assert_eq!(plan.new_config.members, vec![1, 2, 3]);
    assert_eq!(plan.new_config.get_member_permissions(3), Some(&Permissions::member()));
    assert!(matches!(
        invite_plan(&config, &invited, vec![]),
        Err(GroupError::BackendError(m)) if m == "No devices found (User dont have key packages)"
    ));
}

#[test]
fn removal_takes_every_device_of_the_user() {
    let config = group();
    let leaves = vec![
        leaf(0, 1, "a"),
        leaf(1, 2, "a"),
        Leaf { index: 2, credential_type: 1, credential_data: vec![] },
        leaf(3, 2, "b"),
        leaf(4, 1, "b"),
    ];
    let plan = remove_plan(&config, &leaves, 2).unwrap();
    assert_eq!(plan.device_indexes, vec![1, 3]);
    assert_eq!(plan.remove_user, 2);
    assert_eq!(plan.new_config.members, vec![1]);
    assert_eq!(plan.new_config.get_member_permissions(2), None);
    assert_eq!(find_leaves(&leaves, 7, None).unwrap(), Vec::<u32>::new());
    let mut broken = leaves.clone();
    broken.push(Leaf { index: 5, credential_type: 65002, credential_data: vec![1] });
    assert!(matches!(remove_plan(&config, &broken, 2), Err(GroupError::CodecError(_))));
}

#[test]
fn leaving_spares_the_device_that_sends_the_commit() {
    let config = group();
    let leaves = vec![leaf(0, 1, "a"), leaf(1, 2, "a"), leaf(3, 2, "b"), leaf(4, 2, "c")];
    let plan = leave_plan(&config, &leaves, 2, "b").unwrap();
    assert_eq!(plan.device_indexes, vec![1, 4]);
    assert_eq!(plan.remove_user, 2);
    assert_eq!(plan.new_config.members, vec![1]);
}

#[test]
fn messages_go_to_the_users_of_the_roster_who_are_members() {
    let config = group();
    let roster = vec![account(1).credential, account(2).credential, account(5).credential];
    assert_eq!(group_members(&roster), vec![1, 2, 5]);
    // User 5 stands in the roster, but the configuration does not list them.
    let message = outbound_message(&[9], &config, &roster, vec![1, 2, 3]);
    assert_eq!(message.group_id, vec![9]);
    assert_eq!(message.members, vec![1, 2]);
    assert_eq!(message.message, vec![1, 2, 3]);
    assert!(message.message_id < u64::MAX);
    for user in &message.members {
        assert!(config.is_member(*user));
    }
    assert_eq!(message_recipients(&config, &roster), vec![1, 2]);
    let mut with_five = config.duplicate();
    with_five.add_member(5);
    assert_eq!(message_recipients(&with_five, &roster), vec![1, 2, 5]);
    assert_eq!(message_recipients(&with_five, &vec![]), Vec::<u64>::new());
}

#[test]
fn nobody_who_must_stay_is_removed() {
    let config = group();
    let leaves = vec![leaf(0, 1, "a"), leaf(1, 2, "a")];
    // User 1 created the group.
    assert!(matches!(
        remove_plan(&config, &leaves, 1),
        Err(GroupError::ConfigError(m)) if m == "User cannot be removed from this group"
    ));
    assert!(matches!(
        leave_plan(&config, &leaves, 1, "a"),
        Err(GroupError::ConfigError(m)) if m == "User cannot be removed from this group"
    ));
    // User 2 becomes the only admin.
    let mut handed_over = config.duplicate();
    handed_over.add_admin(2);
    handed_over.remove_admin(1);
    assert_eq!(handed_over.admins, vec![2]);
    assert!(matches!(
        remove_plan(&handed_over, &leaves, 2),
        Err(GroupError::ConfigError(m)) if m == "User cannot be removed from this group"
    ));
}

#[test]
fn a_leaving_admin_leaves_the_admins() {
    let mut config = group();
    config.add_admin(2);
    assert_eq!(config.admins, vec![1, 2]);
    let leaves = vec![leaf(0, 1, "a"), leaf(1, 2, "a"), leaf(2, 2, "b")];
    let plan = leave_plan(&config, &leaves, 2, "b").unwrap();
    assert_eq!(plan.device_indexes, vec![1]);
    assert_eq!(plan.new_config.members, vec![1]);
    assert_eq!(plan.new_config.admins, vec![1]);
    assert_eq!(plan.new_config.get_member_permissions(2), None);
    let plan = remove_plan(&config, &leaves, 2).unwrap();
    assert_eq!(plan.new_config.admins, vec![1]);
}

#[test]
fn nobody_who_is_banned_or_a_member_is_invited() {
    let config = group();
    let banned = account(66).credential;
    assert!(matches!(
        invite_plan(&config, &banned, vec![vec![1]]),
        Err(GroupError::ConfigError(m)) if m == "User is banned from this group"
    ));
    let member = account(2).credential;
    assert!(matches!(
        invite_plan(&config, &member, vec![vec![1]]),
        Err(GroupError::ConfigError(m)) if m == "User is already a member of this group"
    ));
    assert!(matches!(
        invite_plan(&config, &banned, vec![]),
        Err(GroupError::ConfigError(m)) if m == "User is banned from this group"
    ));
}

#[test]
fn sending_needs_the_permission() {
    let mut config = group();
    assert!(check_may_send(&config, 2).is_ok());
    config.set_permissions(2, Permissions::reader());
    assert!(matches!(
        check_may_send(&config, 2),
        Err(GroupError::ConfigError(m)) if m == "User is not allowed to send messages"
    ));
}

#[test]
fn message_ids_are_random() {
    let ids: Vec<u64> = (0..8).map(|_| generate_message_id()).collect();
    assert!(ids.iter().all(|id| *id < u64::MAX));
    assert!(ids.iter().any(|id| *id != ids[0]));
}

#[test]
fn key_packages_are_topped_up_at_start() {
    assert_eq!(uploads_at_start(0), 3);
    assert_eq!(uploads_at_start(2), 3);
    assert_eq!(uploads_at_start(3), 0);
    assert!(upload_goes_on(3, 0, false));
    assert!(upload_goes_on(3, 2, false));
    assert!(!upload_goes_on(3, 3, false));
    assert!(!upload_goes_on(3, 1, true));
    assert!(!upload_goes_on(0, 0, false));
}

#[test]
fn group_ids_are_written_in_base64() {
    let id = GroupId::new(vec![1, 2, 3]);
    assert_eq!(id.to_string(), "AQID");
    assert_eq!(id.as_bytes(), &[1, 2, 3]);
    assert_eq!(id.to_vec(), vec![1, 2, 3]);
    assert_eq!(GroupId::from_string("AQID").unwrap(), id);
    assert_eq!(GroupId::from_string("").unwrap(), GroupId::new(vec![]));
    let error = GroupId::from_string("not base64!").err().unwrap();
    assert!(matches!(
        error,
        GroupError::StorageError(ref m) if m.starts_with("Failed to decode group id: ")
    ));
    let from_decoder = GroupId::from_decoded(Err("why".to_string())).err().unwrap();
    assert_eq!(from_decoder.to_string(), "Storage error: Failed to decode group id: why");
}

#[test]
fn errors_have_words() {
    assert_eq!(
        GroupError::GroupNotFound(GroupId::new(vec![1, 2, 255])).to_string(),
        "Group not found: GroupId([1, 2, 255])"
    );
    assert_eq!(GroupError::GroupNotFound(GroupId::new(vec![])).to_string(), "Group not found: GroupId([])");
    assert_eq!(GroupError::CryptoError("x".to_string()).to_string(), "Crypto error: x");
    assert_eq!(GroupError::ConfigError("x".to_string()).to_string(), "Config error: x");
    assert_eq!(GroupError::RosterNotFound.to_string(), "Roster not found");
    assert_eq!(GroupError::UserIsNotInRoster.to_string(), "User is not in roster");
    assert_eq!(GroupError::CredentialMissmatch.to_string(), "Credential type miss match");
    assert_eq!(GroupError::ConfigurationNotFound.to_string(), "Configuration not found");
    assert_eq!(
        GroupError::from_codec(CodecError::UnexpectedEOF).to_string(),
        "Codec error: UnexpectedEOF"
    );
}

#[test]
fn servers_have_their_addresses() {
    assert_eq!(get_avaliable_servers(), "http://192.168.103.102:50051");
    assert_eq!(get_group_servers(), "http://192.168.103.102:50053");
    assert_eq!(get_avaliable_voice_servers(), "192.168.103.102");
}

#[test]
fn an_exported_account_comes_back() {
    let exported = ExportedAccount::new(vec![1, 2, 3, 4, 5]);
    let (data, key) = exported.encrypt().unwrap();
    let back = ExportedAccount::decrypt(&data, &key).unwrap();
    assert_eq!(back.account, vec![1, 2, 3, 4, 5]);
    let (other_data, other_key) = exported.encrypt().unwrap();
    assert_ne!(other_key, key);
    assert_ne!(other_data, data);
    let wrong = ExportedAccount::decrypt(&data, &other_key).err();
    assert_eq!(wrong, Some("Decryption failed: aead::Error".to_string()));
}

#[test]
fn an_export_under_a_given_key_is_fixed() {
    let exported = ExportedAccount::new(b"account".to_vec());
    let key = [3u8; 32];
    let nonce = [4u8; 12];
    let (data, key_text) = exported.encrypt_with(&key, &nonce).unwrap();
    assert_eq!(key_text, "AwMDAwMDAwMDAwMDAwMDAwMDAwMDAwMDAwMDAwMDAwM=");
    assert_eq!(exported.encrypt_with(&key, &nonce).unwrap().0, data);
    let back = ExportedAccount::decrypt(&data, &key_text).unwrap();
    assert_eq!(back.account, b"account".to_vec());
    // The wire form inside: ciphertext and nonce as texts in base64.
    let bytes = GroupId::from_string(&data).unwrap().to_vec();
    let inner = EncryptedData::mls_decode(&bytes).unwrap();
    assert_eq!(inner.nonce, "BAQEBAQEBAQEBAQE");
    assert_eq!(inner.mls_encode_to_vec().unwrap(), bytes);
    let sealed = GroupId::from_string(&inner.ciphertext).unwrap().to_vec();
    assert_eq!(sealed.len(), 7 + 16);
    assert_eq!(ExportedAccount::open(&key, &nonce, &sealed).unwrap().account, b"account".to_vec());
}

#[test]
fn a_broken_export_is_refused_step_by_step() {
    let exported = ExportedAccount::new(vec![1]);
    let (data, key) = exported.encrypt().unwrap();
    let error = ExportedAccount::decrypt(&data, "!!").err().unwrap();
    assert!(error.starts_with("Failed to decode key: "));
    let error = ExportedAccount::decrypt("!!", &key).err().unwrap();
    assert!(error.starts_with("Failed to decode encrypted data: "));
    assert_eq!(ExportedAccount::decrypt("", &key).err(), Some("UnexpectedEOF".to_string()));
    assert_eq!(ExportedAccount::decrypt(&data, "AQID").err(), Some("Invalid key length".to_string()));
    let short_nonce = EncryptedData { ciphertext: "AQID".to_string(), nonce: "AQID".to_string() };
    let bytes = short_nonce.mls_encode_to_vec().unwrap();
    let text = GroupId::new(bytes).to_string();
    assert_eq!(ExportedAccount::decrypt(&text, &key).err(), Some("Invalid nonce length".to_string()));
    let bad_parts = EncryptedData { ciphertext: "!".to_string(), nonce: "AQID".to_string() };
    let text = GroupId::new(bad_parts.mls_encode_to_vec().unwrap()).to_string();
    assert!(ExportedAccount::decrypt(&text, &key)
        .err()
        .unwrap()
        .starts_with("Failed to decode ciphertext: "));
    let bad_nonce = EncryptedData { ciphertext: "AQID".to_string(), nonce: "!".to_string() };
    let text = GroupId::new(bad_nonce.mls_encode_to_vec().unwrap()).to_string();
    assert!(ExportedAccount::decrypt(&text, &key)
        .err()
        .unwrap()
        .starts_with("Failed to decode nonce: "));
}

fn no_update() -> ConfigUpdate {
    ConfigUpdate {
        group_name: None,
        visibility: None,
        join_mode: None,
        description: None,
        avatar: None,
        max_members: None,
        slow_mode_delay: None,
        allow_stickers: None,
        allow_gifs: None,
        allow_voice_messages: None,
        allow_video_messages: None,
        allow_links: None,
        allow_messages: None,
    }
}

#[test]
fn a_config_update_is_applied_and_validated() {
    let config = group();
    let update = ConfigUpdate {
        group_name: Some("h".to_string()),
        visibility: Some("public".to_string()),
        join_mode: Some("open".to_string()),
        description: Some("d".to_string()),
        avatar: Some(vec![1, 2]),
        max_members: Some(10),
        slow_mode_delay: Some(5),
        allow_stickers: Some(false),
        allow_gifs: Some(false),
        allow_voice_messages: Some(false),
        allow_video_messages: Some(false),
        allow_links: Some(false),
        allow_messages: Some(false),
    };
    let new_config = plan_config_update(&config, 1, update).unwrap();
    assert_eq!(new_config.name, "h");
    assert_eq!(new_config.visibility, Visibility::Public);
    assert_eq!(new_config.join_mode, JoinMode::Open);
    assert_eq!(new_config.description, Some("d".to_string()));
    assert_eq!(new_config.avatar, Some(vec![1, 2]));
    assert_eq!(new_config.max_members, Some(10));
    assert_eq!(new_config.slow_mode_delay, Some(5));
    assert!(!new_config.allow_stickers && !new_config.allow_links);
    assert!(!new_config.default_permissions.send_messages);
    assert_eq!(new_config.members, config.members);
    assert_eq!(new_config.created_at, config.created_at);

    let unknown_words = ConfigUpdate {
        visibility: Some("hidden".to_string()),
        join_mode: Some("whatever".to_string()),
        ..no_update()
    };
    let same = plan_config_update(&config, 1, unknown_words).unwrap();
    assert_eq!(same.visibility, config.visibility);
    assert_eq!(same.join_mode, config.join_mode);
}

#[test]
fn a_config_update_is_refused_with_the_reason() {
    let mut config = group();
    let rename = || ConfigUpdate { group_name: Some("h".to_string()), ..no_update() };
    assert_eq!(
        plan_config_update(&config, 2, rename()).err(),
        Some("You don't have permission to edit group configuration".to_string())
    );
    config.set_permissions(2, Permissions::reader().with_rename_group(true));
    assert!(plan_config_update(&config, 2, rename()).is_ok());
    let too_much = ConfigUpdate {
        group_name: Some("h".to_string()),
        visibility: Some("public".to_string()),
        max_members: Some(3),
        ..no_update()
    };
    assert_eq!(
        plan_config_update(&config, 2, too_much).err(),
        Some("Error validating group configuration: name, visibility, max_members".to_string())
    );
    let large = ConfigUpdate { avatar: Some(vec![0; 5 * 1024 * 1024 + 1]), ..no_update() };
    assert_eq!(
        plan_config_update(&config, 1, large).err(),
        Some("Avatar size must be less than 5MB".to_string())
    );
    let just_fits = ConfigUpdate { avatar: Some(vec![0; 5 * 1024 * 1024]), ..no_update() };
    assert!(plan_config_update(&config, 1, just_fits).is_ok());
}

#[test]
fn member_permissions_are_patched_or_set_by_role() {
    let config = group();
    let none = PermissionPatch {
        manage_members: None,
        send_messages: None,
        delete_messages: None,
        rename_group: None,
        manage_permissions: None,
        pin_messages: None,
        manage_admins: None,
    };
    let patch = PermissionPatch { pin_messages: Some(true), send_messages: Some(false), ..none };
    let patched = plan_member_permissions(&config, 1, 2, &patch, None).unwrap();
    assert_eq!(
        patched.get_member_permissions(2),
        Some(&Permissions::member().with_pin_messages(true).with_send_messages(false))
    );
    let by_role = plan_member_permissions(&config, 1, 2, &none, Some("moderator")).unwrap();
    assert_eq!(by_role.get_member_permissions(2), Some(&Permissions::moderator()));
    let promoted = plan_member_permissions(&config, 1, 2, &none, Some("admin")).unwrap();
    assert_eq!(promoted.admins, vec![1, 2]);
    assert_eq!(
        plan_member_permissions(&config, 2, 2, &patch, None).err(),
        Some("You don't have permission to edit user permissions".to_string())
    );
    assert_eq!(
        plan_member_permissions(&config, 1, 12345, &patch, None).err(),
        Some("User with ID 12345 is not a member of the group".to_string())
    );
}
