use mls_rs_codec::{MlsDecode, MlsEncode};
use mls_rs_core::extension::{Extension, ExtensionList, ExtensionType};

use ship_lib::identity::account::Account;
use ship_lib::identity::credentials::{
    device_credential_tbs, AccountCredential, AccountId, DeviceCredential, DeviceCredentialTBS,
    DeviceId,
};
use ship_lib::group::extensions::{
    policy_proposal, AddUserProposal, CustomProposal, GroupConfigExtension, RemoveUserProposal,
    RosterExtension, UpdateGroupConfigProposal,
};
use ship_lib::group::config::{DateTime, GroupConfig, Permissions, Visibility};
use ship_lib::wire::mls::{
    read_bytes, read_text, read_u64, read_varint, write_bytes, write_text, write_u64, CodecError,
};
use ship_lib::group::rules::PolicyProposal;
use ship_lib::identity::signature_bytes::{
    InitGroupStreamTBS, RegisterGroupDeviceTBS, UploadKeyPackagesTBS,
};

fn create_test_user_credential(name: &str) -> AccountCredential {
    let (_signer, public_key) = Account::create_keys().expect("Failed to generate signature key");
    AccountCredential {
        account_id: AccountId { user_id: 1, public_address: name.to_string() },
        public_key,
        cert: vec![],
    }
}

fn outside_bytes(data: &[u8]) -> Vec<u8> {
    data.to_vec().mls_encode_to_vec().unwrap()
}

#[test]
fn integers_are_written_in_network_byte_order() {
    let mut out = Vec::new();
    write_u64(&mut out, 100000000000);
    assert_eq!(out, vec![0, 0, 0, 23, 72, 118, 232, 0]);
    assert_eq!(out, 100000000000u64.mls_encode_to_vec().unwrap());
    assert_eq!(read_u64(&out, 0), Ok((100000000000, 8)));
    assert_eq!(read_u64(&out[..7], 0), Err(CodecError::UnexpectedEOF));
}

#[test]
fn byte_strings_carry_a_variable_size_length() {
    for len in [0usize, 1, 63, 64, 65, 16383, 16384, 16385, 70000] {
        let data = vec![0xabu8; len];
        let mut out = Vec::new();
        write_bytes(&mut out, &data).unwrap();
        assert_eq!(out, outside_bytes(&data));
        let (back, next) = read_bytes(&out, 0).unwrap();
        assert_eq!(back, data);
        assert_eq!(next, out.len());
    }
    let mut out = Vec::new();
    write_bytes(&mut out, &[1, 2, 3]).unwrap();
    assert_eq!(out, vec![3, 1, 2, 3]);
    let mut out = Vec::new();
    write_bytes(&mut out, &[7u8; 64]).unwrap();
    assert_eq!(&out[..2], &[0x40, 64]);
    let mut out = Vec::new();
    write_bytes(&mut out, &[7u8; 16384]).unwrap();
    assert_eq!(&out[..4], &[0x80, 0, 0x40, 0]);
}

#[test]
fn texts_are_written_as_utf8() {
    let mut out = Vec::new();
    write_text(&mut out, "bar").unwrap();
    assert_eq!(out, vec![3, b'b', b'a', b'r']);
    assert_eq!(out, "bar".to_string().mls_encode_to_vec().unwrap());
    assert_eq!(read_text(&out, 0), Ok(("bar".to_string(), 4)));
    assert_eq!(read_text(&[1, 0xff], 0), Err(CodecError::Utf8));
}

#[test]
fn varint_errors_are_those_of_the_wire_format() {
    assert_eq!(read_varint(&[], 0), Err(CodecError::UnexpectedEOF));
    assert_eq!(read_varint(&[0xc0], 0), Err(CodecError::InvalidVarIntPrefix(3)));
    assert_eq!(read_varint(&[0x40], 0), Err(CodecError::UnexpectedEOF));
    assert_eq!(read_varint(&[0x40, 5], 0), Err(CodecError::VarIntMinimumLengthEncoding));
    assert_eq!(read_varint(&[0x80, 0, 0, 5], 0), Err(CodecError::VarIntMinimumLengthEncoding));
    assert_eq!(read_varint(&[0x80, 0, 0x40, 0], 0), Ok((16384, 4)));
    assert_eq!(read_varint(&[0x7f, 0xff], 0), Ok((16383, 2)));
    assert_eq!(read_varint(&[0x3f], 0), Ok((63, 1)));
    assert_eq!(read_bytes(&[5, 1, 2], 0), Err(CodecError::UnexpectedEOF));
    // The same inputs, read by the outside codec.
    assert!(Vec::<u8>::mls_decode(&mut &[0xc0u8][..]).is_err());
    assert!(Vec::<u8>::mls_decode(&mut &[0x40u8, 5][..]).is_err());
    assert!(Vec::<u8>::mls_decode(&mut &[5u8, 1, 2][..]).is_err());
}

#[test]
fn codec_errors_have_the_words_of_the_wire_format() {
    assert_eq!(CodecError::VarIntOutOfRange.message(), "Integer out of range for VarInt");
    assert_eq!(CodecError::InvalidVarIntPrefix(3).message(), "Invalid varint prefix 3");
    assert_eq!(
        CodecError::VarIntMinimumLengthEncoding.message(),
        "VarInt does not use the min-length encoding"
    );
    assert_eq!(CodecError::UnexpectedEOF.message(), "UnexpectedEOF");
    assert_eq!(CodecError::OptionOutOfRange(7).message(), "Option marker out of range: 7");
    assert_eq!(CodecError::UnsupportedEnumDiscriminant.message(), "Unsupported enum discriminant");
    assert_eq!(CodecError::Utf8.message(), "Expected UTF-8 string");
    assert_eq!(CodecError::WrongProposalType.message(), "mls codec error: 4");
}

#[test]
fn device_credential_round_trips_and_matches_the_wire_format() {
    let credential = DeviceCredential {
        device_id: DeviceId { user_id: 77, device_id: "phone".to_string() },
        user_public_key: vec![1, 2, 3, 4],
        signature: vec![9; 64],
    };
    let bytes = credential.mls_encode_to_vec().unwrap();
    let mut expected = 77u64.mls_encode_to_vec().unwrap();
    expected.extend("phone".to_string().mls_encode_to_vec().unwrap());
    expected.extend(outside_bytes(&[1, 2, 3, 4]));
    expected.extend(outside_bytes(&[9; 64]));
    assert_eq!(bytes, expected);
    let back = DeviceCredential::mls_decode(&bytes).unwrap();
    assert_eq!(back.device_id.user_id, 77);
    assert_eq!(back.device_id.device_id, "phone");
    assert_eq!(back.user_public_key, vec![1, 2, 3, 4]);
    assert_eq!(back.signature, vec![9; 64]);
    assert_eq!(DeviceCredential::credential_type(), 65002);
    let id_bytes = credential.device_id.mls_encode_to_vec().unwrap();
    assert_eq!(&id_bytes[..], &bytes[..id_bytes.len()]);
    assert_eq!(DeviceCredential::mls_decode(&bytes[..10]).err(), Some(CodecError::UnexpectedEOF));
}

#[test]
fn account_credential_round_trips() {
    let credential = AccountCredential {
        account_id: AccountId { user_id: 5, public_address: "addr".to_string() },
        public_key: vec![8; 32],
        cert: vec![1],
    };
    let bytes = credential.mls_encode_to_vec().unwrap();
    let back = AccountCredential::mls_decode(&bytes).unwrap();
    assert_eq!(back.account_id.user_id, 5);
    assert_eq!(back.account_id.public_address, "addr");
    assert_eq!(back.public_key, vec![8; 32]);
    assert_eq!(back.cert, vec![1]);
    let id_bytes = credential.account_id.mls_encode_to_vec().unwrap();
    assert_eq!(&id_bytes[..], &bytes[..id_bytes.len()]);
}

#[test]
fn signed_bytes_match_the_wire_format() {
    let register = RegisterGroupDeviceTBS { user_id: 3, device_id: "d".to_string() };
    let mut expected = 3u64.mls_encode_to_vec().unwrap();
    expected.extend("d".to_string().mls_encode_to_vec().unwrap());
    assert_eq!(register.mls_encode_to_vec().unwrap(), expected);

    let init = InitGroupStreamTBS { user_id: 3, device_id: "d".to_string(), date: 1700000000 };
    let mut with_date = expected.clone();
    with_date.extend(1700000000u64.mls_encode_to_vec().unwrap());
    assert_eq!(init.mls_encode_to_vec().unwrap(), with_date);

    let packages = vec![vec![1u8, 2], vec![], vec![3u8; 70]];
    let upload = UploadKeyPackagesTBS {
        user_id: 3,
        device_id: "d".to_string(),
        key_packages: packages.clone(),
    };
    let mut with_packages = expected.clone();
    with_packages.extend(packages.mls_encode_to_vec().unwrap());
    assert_eq!(upload.mls_encode_to_vec().unwrap(), with_packages);
}

fn rich_config() -> GroupConfig {
    let mut config = GroupConfig::new(1, "Test Group".to_string(), 123);
    config.add_member(1);
    config.add_member(2);
    config.add_admin(2);
    config.set_permissions(1, Permissions::moderator());
    config.add_banned(66);
    config.add_muted(2, DateTime { timestamp: 99 });
    config.add_muted(1, DateTime { timestamp: 98 });
    config.set_description("about".to_string());
    config.set_avatar(vec![1, 2, 3]);
    config.set_pinned_message_id(5);
    config.set_slow_mode_delay(6);
    config.set_max_members(Some(50));
    config.set_invite_link(Some("link".to_string()));
    config.set_visibility(Visibility::Hidden);
    config.set_allow_gifs(false);
    config
}

fn same_config(a: &GroupConfig, b: &GroupConfig) -> bool {
    let unchanged = a.validate_changes(b, a.creator_id).changes.is_empty();
    unchanged
        && a.id == b.id
        && a.created_at == b.created_at
        && a.updated_at == b.updated_at
        && a.creator_id == b.creator_id
        && a.default_permissions == b.default_permissions
        && a.banned == b.banned
        && a.muted == b.muted
}

#[test]
fn group_config_round_trips() {
    let config = rich_config();
    let bytes = config.mls_encode_to_vec().unwrap();
    let back = GroupConfig::mls_decode(&bytes).unwrap();
    assert!(same_config(&config, &back));
    let plain = GroupConfig::new(2, "p".to_string(), 9);
    let back = GroupConfig::mls_decode(&plain.mls_encode_to_vec().unwrap()).unwrap();
    assert!(same_config(&plain, &back));
}

#[test]
fn group_config_wire_form_starts_with_id_and_name() {
    let config = rich_config();
    let bytes = config.mls_encode_to_vec().unwrap();
    let mut expected = 1u64.mls_encode_to_vec().unwrap();
    expected.extend("Test Group".to_string().mls_encode_to_vec().unwrap());
    expected.extend(config.created_at.timestamp.mls_encode_to_vec().unwrap());
    expected.extend(config.updated_at.timestamp.mls_encode_to_vec().unwrap());
    expected.push(3);
    expected.push(2);
    expected.extend(Some("link".to_string()).mls_encode_to_vec().unwrap());
    expected.extend(Some(50u32).mls_encode_to_vec().unwrap());
    expected.extend(123u64.mls_encode_to_vec().unwrap());
    expected.extend(vec![123u64, 1, 2].mls_encode_to_vec().unwrap());
    expected.extend(vec![123u64, 2].mls_encode_to_vec().unwrap());
    assert_eq!(&bytes[..expected.len()], &expected[..]);
    // The table follows, with its entries in ascending order of the keys.
    let table = &bytes[expected.len()..];
    assert_eq!(table[0], 45);
    assert_eq!(&table[1..9], &1u64.to_be_bytes());
    assert_eq!(&table[9..16], &[1, 1, 1, 0, 0, 1, 0]);
    assert_eq!(&table[16..24], &2u64.to_be_bytes());
    assert_eq!(&table[31..39], &123u64.to_be_bytes());
}

#[test]
fn group_config_decode_errors() {
    let bytes = rich_config().mls_encode_to_vec().unwrap();
    assert_eq!(GroupConfig::mls_decode(&bytes[..5]).err(), Some(CodecError::UnexpectedEOF));
    assert_eq!(
        GroupConfig::mls_decode(&bytes[..bytes.len() - 1]).err(),
        Some(CodecError::UnexpectedEOF)
    );
    let mut bad_enum = bytes.clone();
    bad_enum[8 + 11 + 16] = 9;
    assert_eq!(
        GroupConfig::mls_decode(&bad_enum).err(),
        Some(CodecError::UnsupportedEnumDiscriminant)
    );
    let mut bad_marker = bytes.clone();
    bad_marker[8 + 11 + 16 + 2] = 2;
    assert_eq!(GroupConfig::mls_decode(&bad_marker).err(), Some(CodecError::OptionOutOfRange(2)));
}

#[test]
fn test_group_config_extension() {
    let mut config = GroupConfig::new(1, "Test Group".to_string(), 123);
    let member_id = 1_u64;
    config.add_member(member_id);
    let member_id_2 = 2_u64;
    config.add_member(member_id_2);
    let extension = GroupConfigExtension { config };
    let mut extensions = ExtensionList::new();
    extensions.set(Extension::new(
        ExtensionType::new(GroupConfigExtension::extension_type()),
        extension.mls_encode_to_vec().unwrap(),
    ));

    let retrieved: Option<GroupConfigExtension> = extensions
        .get(ExtensionType::new(65003))
        .and_then(|e| GroupConfigExtension::mls_decode(e.extension_data()).ok());
    assert!(retrieved.is_some());

    let retrieved_config = retrieved.unwrap().config;
    assert_eq!(retrieved_config.name, "Test Group");
    assert_eq!(retrieved_config.creator_id, 123);
    let member_config = retrieved_config.permissions.get(&member_id);
    println!("{:?}", retrieved_config);
    assert!(member_config.is_some());
}

fn through_extension_list(roster_ext: &RosterExtension) -> Option<RosterExtension> {
    let mut extensions = ExtensionList::new();
    extensions.set(Extension::new(
        ExtensionType::new(RosterExtension::extension_type()),
        roster_ext.mls_encode_to_vec().unwrap(),
    ));
    extensions
        .get(ExtensionType::new(65000))
        .and_then(|e| RosterExtension::mls_decode(e.extension_data()).ok())
}

#[test]
fn test_roster_extension_with_multiple_users() {
    let user1 = create_test_user_credential("Alice");
    let user2 = create_test_user_credential("Bob");
    let user3 = create_test_user_credential("Charlie");

    let roster_ext = RosterExtension { roster: vec![user1.clone(), user2.clone(), user3.clone()] };

    let retrieved = through_extension_list(&roster_ext);
    assert!(retrieved.is_some());

    let retrieved_roster = retrieved.unwrap();
    assert_eq!(retrieved_roster.roster.len(), 3);

    let user_names: Vec<&String> =
        retrieved_roster.roster.iter().map(|u| &u.account_id.public_address).collect();
    assert!(user_names.contains(&&"Alice".to_string()));
    assert!(user_names.contains(&&"Bob".to_string()));
    assert!(user_names.contains(&&"Charlie".to_string()));
}

#[test]
fn test_roster_extension_codec_roundtrip() {
    let user1 = create_test_user_credential("Test User");
    let original_roster = RosterExtension { roster: vec![user1] };

    let encoded = original_roster.mls_encode_to_vec().unwrap();
    let decoded = RosterExtension::mls_decode(encoded.as_slice()).unwrap();

    assert_eq!(decoded.roster.len(), 1);
    assert_eq!(decoded.roster[0].account_id.public_address, "Test User");
}

#[test]
fn test_roster_extension_in_group_context() {
    let admin_user = create_test_user_credential("Admin");
    let regular_user1 = create_test_user_credential("User1");
    let regular_user2 = create_test_user_credential("User2");

    let mut roster_ext = RosterExtension { roster: vec![admin_user] };
    roster_ext.roster.push(regular_user1);
    roster_ext.roster.push(regular_user2);

    let retrieved = through_extension_list(&roster_ext);
    assert!(retrieved.is_some());

    let retrieved_roster = retrieved.unwrap();
    assert_eq!(retrieved_roster.roster.len(), 3);

    let user_names: Vec<&String> =
        retrieved_roster.roster.iter().map(|u| &u.account_id.public_address).collect();
    assert!(user_names.contains(&&"Admin".to_string()));
    assert!(user_names.contains(&&"User1".to_string()));
    assert!(user_names.contains(&&"User2".to_string()));

    println!("Roster extension test completed: {:?}", retrieved_roster);
}

#[test]
fn test_roster_extension_public_key_encoding() {
    let user1 = create_test_user_credential("KeyTest");
    let original_key = user1.public_key.clone();

    let roster_ext = RosterExtension { roster: vec![user1] };

    let encoded = roster_ext.mls_encode_to_vec().unwrap();
    let decoded = RosterExtension::mls_decode(encoded.as_slice()).unwrap();

    let original_key_bytes = original_key.mls_encode_to_vec().unwrap();
    let decoded_key_bytes = decoded.roster[0].public_key.mls_encode_to_vec().unwrap();
    assert_eq!(original_key_bytes, decoded_key_bytes);
}

#[test]
fn roster_wire_form_is_the_list_of_credentials() {
    let a = AccountCredential {
        account_id: AccountId { user_id: 1, public_address: "a".to_string() },
        public_key: vec![1],
        cert: vec![],
    };
    let b = AccountCredential {
        account_id: AccountId { user_id: 2, public_address: "b".to_string() },
        public_key: vec![2],
        cert: vec![3],
    };
    let mut body = a.mls_encode_to_vec().unwrap();
    body.extend(b.mls_encode_to_vec().unwrap());
    let roster = RosterExtension { roster: vec![a, b] };
    assert_eq!(roster.mls_encode_to_vec().unwrap(), outside_bytes(&body));
    let empty = RosterExtension { roster: vec![] };
    assert_eq!(empty.mls_encode_to_vec().unwrap(), vec![0]);
    assert_eq!(RosterExtension::mls_decode(&[0]).unwrap().roster.len(), 0);
    assert_eq!(
        RosterExtension::mls_decode(&[3, 0, 0, 0]).err(),
        Some(CodecError::UnexpectedEOF)
    );
}

#[test]
fn proposals_travel_as_custom_proposals() {
    let remove = RemoveUserProposal { user_id: 9 };
    let custom = remove.to_custom_proposal();
    assert_eq!(custom.proposal_type, 65002);
    assert_eq!(custom.data, 9u64.to_be_bytes().to_vec());
    assert_eq!(RemoveUserProposal::from_custom_proposal(&custom), Ok(remove));
    assert_eq!(RemoveUserProposal::proposal_type(), 65002);

    let add = AddUserProposal { new_user: create_test_user_credential("n") };
    let custom = add.to_custom_proposal().unwrap();
    assert_eq!(custom.proposal_type, 65001);
    assert_eq!(custom.data, add.new_user.mls_encode_to_vec().unwrap());
    let back = AddUserProposal::from_custom_proposal(&custom).unwrap();
    assert_eq!(back.new_user.public_key, add.new_user.public_key);
    assert_eq!(
        RemoveUserProposal::from_custom_proposal(&custom).err(),
        Some(CodecError::WrongProposalType)
    );

    let update = UpdateGroupConfigProposal { new_config: rich_config() };
    let custom = update.to_custom_proposal().unwrap();
    assert_eq!(custom.proposal_type, 65004);
    let back = UpdateGroupConfigProposal::from_custom_proposal(&custom).unwrap();
    assert!(same_config(&back.new_config, &update.new_config));
    assert!(AddUserProposal::from_custom_proposal(&custom).is_err());
}

#[test]
fn policy_reads_custom_proposals_by_type() {
    let remove = policy_proposal(&CustomProposal { proposal_type: 65002, data: vec![0; 8] });
    assert!(matches!(remove, PolicyProposal::RemoveUser(Ok(0))));
    let short = policy_proposal(&CustomProposal { proposal_type: 65002, data: vec![0; 3] });
    assert!(matches!(short, PolicyProposal::RemoveUser(Err(CodecError::UnexpectedEOF))));
    let add = policy_proposal(&CustomProposal { proposal_type: 65001, data: vec![] });
    assert!(matches!(add, PolicyProposal::AddUser(Err(CodecError::UnexpectedEOF))));
    let update = policy_proposal(&CustomProposal { proposal_type: 65004, data: vec![] });
    assert!(matches!(update, PolicyProposal::UpdateGroupConfig(Err(_))));
    let other = policy_proposal(&CustomProposal { proposal_type: 1, data: vec![1] });
    assert!(matches!(other, PolicyProposal::Other));
}

#[test]
fn device_credential_tbs_is_the_number_and_the_two_keys() {
    let user_key = vec![1u8, 2, 3];
    let device_key = vec![9u8; 70];
    let tbs = DeviceCredentialTBS { user_id: 0x0102, user_public_key: &user_key, public_key: &device_key };
    let bytes = tbs.mls_encode_to_vec().unwrap();
    let mut expected = vec![0, 0, 0, 0, 0, 0, 1, 2];
    expected.extend_from_slice(&outside_bytes(&user_key));
    expected.extend_from_slice(&outside_bytes(&device_key));
    assert_eq!(bytes, expected);
    assert_eq!(bytes[8..12], [3, 1, 2, 3]);
    assert_eq!(bytes[12..14], [0x40, 70]);
    assert_eq!(device_credential_tbs(0x0102, &user_key, &device_key).unwrap(), bytes);
}
