use mls_rs_codec::MlsEncode;

use ship_lib::group::config::{GroupConfig, Permissions};
use ship_lib::group::device::Device;
use ship_lib::group::handler::{GroupHandler, ReceivedMessage, StreamItem, StreamStep};
use ship_lib::message::{GroupTextMessage, UserGroupMessage};
use ship_lib::identity::account::Account;
use ship_lib::identity::credentials::{device_credential_tbs, AccountCredential, AccountId};
use ship_lib::group::device::{initial_roster, other_devices};
use ship_lib::group::errors::GroupError;
use ship_lib::identity::{CustomIdentityProvider, SigningIdentity};
use ship_lib::identity::keypair::IdentityKeypair;
use ship_lib::message::media::{inline_media, message_of_row, MessageRow};
use ship_lib::paths::{
    contacts_file, group_db_file, mls_state_file, voice_file, ACCOUNTS_FILE, GROUP_STATE_DIR,
    STATE_DIR,
};

fn account(user_id: u64) -> Account {
    let (signer, public_key) = Account::create_keys().unwrap();
    Account::new_with_existing_keys(
        user_id,
        "name".to_string(),
        "address".to_string(),
        "server".to_string(),
        Some(vec![4, 5]),
        None,
        AccountCredential {
            account_id: AccountId { user_id, public_address: "address".to_string() },
            public_key,
            cert: vec![7],
        },
        signer,
    )
}

#[test]
fn a_new_device_identity_is_vouched_for_by_the_account() {
    let owner = account(3);
    let identity = IdentityKeypair::new("phone", &owner).unwrap();
    assert_eq!(identity.credential.device_id.user_id, 3);
    assert_eq!(identity.credential.device_id.device_id, "phone");
    assert_eq!(identity.credential.user_public_key, owner.credential.public_key);
    assert_ne!(identity.public_key, owner.credential.public_key);
    let tbs = device_credential_tbs(3, &owner.credential.public_key, &identity.public_key).unwrap();
    assert!(owner
        .verify_with_public_key(&owner.credential.public_key, &tbs, &identity.credential.signature)
        .is_ok());
    // The device signs with its own key.
    let mut device = account(9);
    device.signer = identity.signer.clone();
    let signature = device.sign_message(b"m").unwrap();
    assert!(device.verify_with_public_key(&identity.public_key, b"m", &signature).is_ok());
    // And the group accepts it.
    let presented = SigningIdentity {
        credential_type: 65002,
        credential_data: identity.credential.mls_encode_to_vec().unwrap(),
        signature_key: identity.public_key.clone(),
    };
    let roster = Some(initial_roster(&owner));
    assert!(CustomIdentityProvider.validate_member(&presented, true, &roster).is_ok());
}

#[test]
fn a_device_identity_with_given_keys_is_fixed() {
    let owner = account(3);
    let (signer, public_key) = Account::create_keys().unwrap();
    let a = IdentityKeypair::with_keys("d", &owner, signer.clone(), public_key.clone()).unwrap();
    let b = IdentityKeypair::with_keys("d", &owner, signer.clone(), public_key.clone()).unwrap();
    assert_eq!(a.credential.signature, b.credential.signature);
    assert_eq!(a.signer, signer);
    assert_eq!(a.public_key, public_key);
    let mut broken = account(4);
    broken.signer = vec![1];
    assert!(matches!(
        IdentityKeypair::with_keys("d", &broken, signer, public_key),
        Err(GroupError::CryptoError(m)) if m == "Message signature failed"
    ));
}

#[test]
fn an_account_round_trips_and_matches_the_wire_format() {
    let a = account(11);
    let bytes = a.to_mls_bytes().unwrap();
    let mut expected = 11u64.mls_encode_to_vec().unwrap();
    expected.extend("name".to_string().mls_encode_to_vec().unwrap());
    expected.extend("address".to_string().mls_encode_to_vec().unwrap());
    expected.extend("server".to_string().mls_encode_to_vec().unwrap());
    expected.extend(Some(vec![4u8, 5]).mls_encode_to_vec().unwrap());
    expected.extend(None::<String>.mls_encode_to_vec().unwrap());
    expected.extend(a.credential.mls_encode_to_vec().unwrap());
    expected.extend(a.signer.mls_encode_to_vec().unwrap());
    assert_eq!(bytes, expected);
    let back = Account::from_mls_bytes(&bytes).unwrap();
    assert_eq!(back.user_id, 11);
    assert_eq!(back.username, "name");
    assert_eq!(back.public_address, "address");
    assert_eq!(back.server_address, "server");
    assert_eq!(back.server_public_key, Some(vec![4, 5]));
    assert_eq!(back.avatar_url, None);
    assert_eq!(back.credential.public_key, a.credential.public_key);
    assert_eq!(back.credential.cert, vec![7]);
    assert_eq!(back.signer, a.signer);
    assert!(matches!(
        Account::from_mls_bytes(&bytes[..20]),
        Err(GroupError::EncodingError(m)) if m == "Failed to decode account: UnexpectedEOF"
    ));
}

#[test]
fn state_files_have_their_names() {
    assert_eq!(STATE_DIR, ".anongram");
    assert_eq!(GROUP_STATE_DIR, ".anongram/group");
    assert_eq!(ACCOUNTS_FILE, "accounts.db");
    assert_eq!(group_db_file(42), "group_42.db");
    assert_eq!(mls_state_file(42, "phone"), "group_42_phone.db");
    assert_eq!(voice_file(0), "voice_0.json");
    assert_eq!(contacts_file(18446744073709551615), "contacts_18446744073709551615.db");
}

#[test]
fn small_images_are_handed_out_with_their_message() {
    let name = |n: &str| Some(n.to_string());
    assert!(inline_media(10, &name("cat.png")));
    assert!(inline_media(1048576, &name("CAT.JPG")));
    assert!(inline_media(0, &name("a.jpeg")));
    assert!(inline_media(0, &name("a.gif")));
    assert!(inline_media(0, &name("a.webp")));
    assert!(inline_media(0, &name("a.Svg")));
    assert!(!inline_media(1048577, &name("cat.png")));
    assert!(!inline_media(10, &name("cat.pdf")));
    assert!(!inline_media(10, &name("png")));
    assert!(!inline_media(10, &None));
}

#[test]
fn a_row_reads_as_a_message() {
    let row = MessageRow {
        message_id: 5,
        group_id: vec![1, 2, 3],
        sender_id: 6,
        content: "héllo".as_bytes().to_vec(),
        media_id: Some("id".to_string()),
        media_name: Some("a.png".to_string()),
        timestamp: 7,
        reply_message_id: Some(8),
        expires: None,
        edit_date: Some(9),
    };
    let message = message_of_row(&row, Some(vec![1]));
    assert_eq!(message.message_id, 5);
    assert_eq!(message.group_id, "AQID");
    assert_eq!(message.sender_id, 6);
    assert_eq!(message.date, 7);
    assert_eq!(message.text, "héllo");
    assert_eq!(message.media, Some(vec![1]));
    assert_eq!(message.media_name, Some("a.png".to_string()));
    assert_eq!(message.reply_message_id, Some(8));
    assert_eq!(message.expires, None);
    assert_eq!(message.edit_date, Some(9));
    let broken = MessageRow { content: vec![b'a', 0xff, b'b'], ..row };
    assert_eq!(message_of_row(&broken, None).text, "a\u{fffd}b");
}

#[test]
fn a_new_group_starts_with_its_creator_and_adds_the_other_devices() {
    let owner = account(3);
    let roster = initial_roster(&owner);
    assert_eq!(roster.len(), 1);
    assert_eq!(roster[0].account_id.user_id, 3);
    assert_eq!(roster[0].public_key, owner.credential.public_key);
    let devices = vec!["a".to_string(), "b".to_string(), "a".to_string(), "c".to_string()];
    assert_eq!(other_devices(&devices, "a"), vec!["b".to_string(), "c".to_string()]);
    assert_eq!(other_devices(&devices, "z"), devices);
    assert!(other_devices(&vec![], "a").is_empty());
}

#[test]
fn stream_messages_are_addressed() {
    let welcome = ship_lib::group::device::welcome_message(4, vec![1, 2]);
    assert_eq!(welcome.user_id, 4);
    assert_eq!(welcome.welcome_message, vec![1, 2]);
    assert!(welcome.message_id < u64::MAX);
    let more = ship_lib::group::device::subscribe(&[9]);
    assert_eq!(more.add, vec![vec![9]]);
    assert!(more.remove.is_empty());
    let fewer = ship_lib::group::device::unsubscribe(&[9]);
    assert!(fewer.add.is_empty());
    assert_eq!(fewer.remove, vec![vec![9]]);
}

#[test]
fn a_device_plans_what_it_sends() {
    let owner = account(3);
    let device = Device::new("phone", owner).unwrap();
    assert_eq!(device.user_id(), 3);
    assert_eq!(device.device_id, "phone");
    assert_eq!(device.identity.credential.device_id.device_id, "phone");
    assert!(Device::generate_message_id() < u64::MAX);

    let register = device.register_device(vec![1]).unwrap();
    assert_eq!(register.device_id, "phone");
    assert_eq!(register.user_id, 3);
    let upload = device.upload_key_packages(vec![vec![1], vec![2]]).unwrap();
    assert_eq!(upload.key_packages.len(), 2);
    let init = device.init_stream(vec![vec![7]]).unwrap();
    assert_eq!(init.group_ids, vec![vec![7]]);

    let config = GroupConfig::new(1, "g".to_string(), 3);
    let (start, roster) = device.create_group(config.duplicate());
    assert_eq!(start.name, "g");
    assert_eq!(device.extract_group_members(&roster), vec![3]);

    let invited = account(4).credential;
    let plan = device.invite(&config, &invited, vec![vec![1]]).unwrap();
    assert_eq!(plan.new_config.members, vec![3, 4]);
    assert!(matches!(
        device.invite(&plan.new_config, &invited, vec![vec![1]]),
        Err(GroupError::ConfigError(m)) if m == "User is already a member of this group"
    ));
    // The device's user created this group, and so cannot leave it.
    assert!(matches!(
        device.leave_group(&config, &vec![]),
        Err(GroupError::ConfigError(m)) if m == "User cannot be removed from this group"
    ));
    let mut joined = GroupConfig::new(2, "h".to_string(), 8);
    joined.add_member(3);
    let leave = device.leave_group(&joined, &vec![]).unwrap();
    assert!(leave.device_indexes.is_empty());
    assert_eq!(leave.remove_user, 3);
    assert_eq!(leave.new_config.members, vec![8]);
    let remove = device.remove_user(&plan.new_config, &vec![], 4).unwrap();
    assert_eq!(remove.new_config.members, vec![3]);

    let message = UserGroupMessage::TextMessage(GroupTextMessage {
        message_id: 1,
        group_id: "g".to_string(),
        sender_id: 3,
        date: 2,
        text: "hi".to_string(),
        media: None,
        media_name: None,
        reply_message_id: None,
        expires: None,
        edit_date: None,
    });
    let out = device.send_message(&config, &roster, &message).unwrap();
    assert_eq!(out.payload, message.to_bytes());
    assert_eq!(out.members, vec![3]);
    let mut silenced = config.duplicate();
    silenced.admins.clear();
    silenced.set_permissions(3, Permissions::reader());
    assert!(device.send_message(&silenced, &roster, &message).is_err());

    let handler = GroupHandler::new(3, "phone".to_string());
    let ack = handler.ack_delivery(true, 8, &[1]).unwrap();
    assert_eq!((ack.message_id, ack.user_id, ack.device_id.as_str()), (8, 3, "phone"));
    assert!(handler.ack_delivery(false, 8, &[1]).is_none());
    assert!(matches!(handler.process_stream_item(StreamItem::Empty), StreamStep::Continue));
    assert!(handler
        .process_received_message(&ReceivedMessage::Other, &None)
        .unwrap()
        .is_empty());
}

#[test]
fn a_device_presents_its_credential_and_its_key() {
    let owner = account(3);
    let identity = IdentityKeypair::new("phone", &owner).unwrap();
    let presented = identity.signing_identity().unwrap();
    assert_eq!(presented.credential_type, 65002);
    assert_eq!(presented.credential_data, identity.credential.mls_encode_to_vec().unwrap());
    assert_eq!(presented.signature_key, identity.public_key);
    let provider = CustomIdentityProvider;
    assert!(provider.validate_member(&presented, true, &Some(initial_roster(&owner))).is_ok());
    assert!(provider.validate_member(&presented, false, &None).is_ok());
    assert!(matches!(
        provider.validate_member(&presented, true, &Some(initial_roster(&account(4)))),
        Err(GroupError::UserIsNotInRoster)
    ));
    assert!(matches!(
        provider.validate_member(&presented, true, &None),
        Err(GroupError::RosterNotFound)
    ));
    let device_id = provider.identity(&presented).unwrap();
    assert_eq!(device_id, identity.credential.device_id.mls_encode_to_vec().unwrap());
}

#[test]
fn a_device_with_another_key_is_not_vouched_for() {
    let owner = account(3);
    let identity = IdentityKeypair::new("phone", &owner).unwrap();
    let mut presented = identity.signing_identity().unwrap();
    presented.signature_key = IdentityKeypair::new("tablet", &owner).unwrap().public_key;
    let verdict =
        CustomIdentityProvider.validate_member(&presented, true, &Some(initial_roster(&owner)));
    assert!(matches!(verdict, Err(GroupError::CryptoError(m)) if m == "Verify error"));
}

#[test]
fn a_stored_identity_reads_back() {
    let owner = account(3);
    let identity = IdentityKeypair::new("phone", &owner).unwrap();
    let bytes = identity.mls_encode_to_vec().unwrap();
    let mut expected = identity.credential.mls_encode_to_vec().unwrap();
    expected.extend_from_slice(&identity.public_key.mls_encode_to_vec().unwrap());
    expected.extend_from_slice(&identity.signer.mls_encode_to_vec().unwrap());
    assert_eq!(bytes, expected);
    let back = IdentityKeypair::from_bytes(&bytes).unwrap();
    assert_eq!(back.credential.device_id.user_id, 3);
    assert_eq!(back.credential.device_id.device_id, "phone");
    assert_eq!(back.credential.user_public_key, identity.credential.user_public_key);
    assert_eq!(back.credential.signature, identity.credential.signature);
    assert_eq!(back.public_key, identity.public_key);
    assert_eq!(back.signer, identity.signer);
    let mut longer = bytes.clone();
    longer.extend_from_slice(&[1, 2, 3]);
    assert_eq!(IdentityKeypair::mls_decode(&longer).unwrap().signer, identity.signer);
}

#[test]
fn a_cut_identity_is_refused() {
    let owner = account(3);
    let bytes = IdentityKeypair::new("phone", &owner).unwrap().mls_encode_to_vec().unwrap();
    for cut in [0, 7, 8, 20, bytes.len() - 1] {
        let error = IdentityKeypair::from_bytes(&bytes[..cut]).unwrap_err();
        assert!(matches!(error, GroupError::CodecError(_)), "cut at {}", cut);
    }
    let error = IdentityKeypair::from_bytes(&[]).unwrap_err();
    assert_eq!(error.to_string(), format!("Codec error: {}", mls_rs_codec::Error::UnexpectedEOF));
}

#[test]
fn a_registration_makes_the_account() {
    let (signer, public_key) = Account::create_keys().unwrap();
    let answer = ship_lib::identity::registration::Registration {
        user_id: 77,
        username: "ann".to_string(),
        public_address: "ann@home".to_string(),
        certificate: vec![9, 9],
        server_public_key: vec![1, 2, 3],
    };
    let account = ship_lib::identity::registration::registered_account(
        answer,
        "https://server".to_string(),
        Some("avatar".to_string()),
        signer.clone(),
        public_key.clone(),
    );
    assert_eq!(account.user_id, 77);
    assert_eq!(account.username, "ann");
    assert_eq!(account.public_address, "ann@home");
    assert_eq!(account.server_address, "https://server");
    assert_eq!(account.server_public_key, Some(vec![1, 2, 3]));
    assert_eq!(account.avatar_url, Some("avatar".to_string()));
    assert_eq!(account.credential.account_id.user_id, 77);
    assert_eq!(account.credential.account_id.public_address, "ann@home");
    assert_eq!(account.credential.public_key, public_key);
    assert_eq!(account.credential.cert, vec![9, 9]);
    assert_eq!(account.signer, signer);
    let signature = account.sign_message(b"hello").unwrap();
    assert!(account.verify_with_public_key(&account.credential.public_key, b"hello", &signature).is_ok());
}

#[test]
fn an_exported_account_is_imported_as_itself() {
    let owner = account(3);
    let (data, key) = ship_lib::identity::transfer::export_account(&owner).unwrap();
    let back = ship_lib::identity::transfer::import_account(&data, &key).unwrap();
    assert_eq!(back.user_id, owner.user_id);
    assert_eq!(back.username, owner.username);
    assert_eq!(back.public_address, owner.public_address);
    assert_eq!(back.server_address, owner.server_address);
    assert_eq!(back.server_public_key, owner.server_public_key);
    assert_eq!(back.avatar_url, owner.avatar_url);
    assert_eq!(back.credential.account_id.user_id, 3);
    assert_eq!(back.credential.public_key, owner.credential.public_key);
    assert_eq!(back.credential.cert, owner.credential.cert);
    assert_eq!(back.signer, owner.signer);
    assert_eq!(back.to_mls_bytes().unwrap(), owner.to_mls_bytes().unwrap());
    // Two exports of one account differ: key and nonce are fresh.
    let (again, other_key) = ship_lib::identity::transfer::export_account(&owner).unwrap();
    assert_ne!(again, data);
    assert_ne!(other_key, key);
}

#[test]
fn an_export_under_another_key_is_refused() {
    let owner = account(3);
    let (data, _key) = ship_lib::identity::transfer::export_account(&owner).unwrap();
    let (_other, other_key) = ship_lib::identity::transfer::export_account(&owner).unwrap();
    let error = ship_lib::identity::transfer::import_account(&data, &other_key).unwrap_err();
    assert_eq!(error, "Decryption failed: aead::Error");
    let error = ship_lib::identity::transfer::import_account("?", &other_key).unwrap_err();
    assert!(error.starts_with("Failed to decode encrypted data: "));
    let error = ship_lib::identity::transfer::import_account(&data, "AQID").unwrap_err();
    assert_eq!(error, "Invalid key length");
}

#[test]
fn an_export_that_holds_no_account_is_refused() {
    let exported = ship_lib::identity::account_export::ExportedAccount::new(vec![1, 2, 3]);
    let (data, key) = exported.encrypt().unwrap();
    let error = ship_lib::identity::transfer::import_account(&data, &key).unwrap_err();
    assert!(error.starts_with("Encoding error: Failed to decode account: "));
}

#[test]
fn an_export_is_as_long_as_base64_makes_it() {
    let exported = ship_lib::identity::account_export::ExportedAccount::new(vec![5u8; 10]);
    let (data, key) = exported.encrypt_with(&[1u8; 32], &[2u8; 12]).unwrap();
    // The key has 32 bytes: 11 groups of three, or part of three.
    assert_eq!(key.len(), 44);
    assert!(key.is_ascii());
    assert!(data.is_ascii());
    assert_eq!(data.len() % 4, 0);
    // Ciphertext: 10 bytes and the tag of 16, in base64 36 characters; the
    // nonce 16 characters; each behind one byte of length.
    assert_eq!(data.len(), 4 * ((1 + 36 + 1 + 16 + 2) / 3));
}
