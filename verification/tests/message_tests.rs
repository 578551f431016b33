use ship_lib::message::{GroupTextMessage, UserGroupMessage};
use ship_lib::message::builder::{MediaFile, MessageBuilder};

fn sample() -> GroupTextMessage {
    GroupTextMessage {
        message_id: 1,
        group_id: "AQID".to_string(),
        sender_id: 2,
        date: 3,
        text: "hi".to_string(),
        media: Some(vec![9, 8, 7]),
        media_name: Some("a.png".to_string()),
        reply_message_id: Some(5),
        expires: Some(6),
        edit_date: Some(7),
    }
}

fn plain() -> GroupTextMessage {
    GroupTextMessage {
        message_id: -4,
        group_id: "g".to_string(),
        sender_id: 2,
        date: 3,
        text: "héllo".to_string(),
        media: None,
        media_name: None,
        reply_message_id: None,
        expires: None,
        edit_date: None,
    }
}

#[test]
fn text_message_round_trips() {
    let message = sample();
    let back = GroupTextMessage::from_bytes(&message.to_bytes()).unwrap();
    assert_eq!(back, message);
}

#[test]
fn sentinels_preserve_none() {
    let message = plain();
    let bytes = message.to_bytes();
    let back = GroupTextMessage::from_bytes(&bytes).unwrap();
    assert_eq!(back, message);
    assert_eq!(back.reply_message_id, None);
    assert_eq!(back.expires, None);
    assert_eq!(back.edit_date, None);
    assert_eq!(back.media, None);
    assert_eq!(back.media_name, None);
    // The three optional numbers are written as -1.
    assert_eq!(&bytes[56..64], &(-1i64).to_le_bytes());
    assert_eq!(&bytes[64..72], &(-1i64).to_le_bytes());
    assert_eq!(&bytes[72..80], &(-1i64).to_le_bytes());
}

#[test]
fn wire_layout_is_bit_exact() {
    let bytes = sample().to_bytes();
    let mut expected = Vec::new();
    expected.extend_from_slice(&1i64.to_le_bytes());
    expected.extend_from_slice(&2i64.to_le_bytes());
    expected.extend_from_slice(&3i64.to_le_bytes());
    expected.extend_from_slice(&4u64.to_le_bytes());
    expected.extend_from_slice(&2u64.to_le_bytes());
    expected.extend_from_slice(&3u64.to_le_bytes());
    expected.extend_from_slice(&5u64.to_le_bytes());
    expected.extend_from_slice(&5i64.to_le_bytes());
    expected.extend_from_slice(&6i64.to_le_bytes());
    expected.extend_from_slice(&7i64.to_le_bytes());
    expected.extend_from_slice(b"AQID");
    expected.extend_from_slice(b"hi");
    expected.extend_from_slice(&[9, 8, 7]);
    expected.extend_from_slice(b"a.png");
    assert_eq!(bytes, expected);
    assert_eq!(bytes.len(), 80 + 4 + 2 + 3 + 5);
}

#[test]
fn negative_numbers_are_written_in_twos_complement() {
    let mut message = plain();
    message.message_id = i64::MIN;
    message.sender_id = -1;
    let bytes = message.to_bytes();
    assert_eq!(&bytes[0..8], &i64::MIN.to_le_bytes());
    assert_eq!(&bytes[8..16], &(-1i64).to_le_bytes());
    let back = GroupTextMessage::from_bytes(&bytes).unwrap();
    assert_eq!(back.message_id, i64::MIN);
    assert_eq!(back.sender_id, -1);
}

#[test]
fn what_the_wire_cannot_carry_comes_back_absent() {
    let mut message = plain();
    message.reply_message_id = Some(-1);
    message.expires = Some(-1);
    message.edit_date = Some(-1);
    message.media = Some(vec![]);
    message.media_name = Some(String::new());
    let back = GroupTextMessage::from_bytes(&message.to_bytes()).unwrap();
    assert_eq!(back.reply_message_id, None);
    assert_eq!(back.expires, None);
    assert_eq!(back.edit_date, None);
    assert_eq!(back.media, None);
    assert_eq!(back.media_name, None);
}

#[test]
fn only_minus_one_stands_for_an_absent_number() {
    let mut message = plain();
    message.reply_message_id = Some(-5);
    message.expires = Some(i64::MIN);
    message.edit_date = Some(-2);
    let bytes = message.to_bytes();
    assert_eq!(&bytes[56..64], &(-5i64).to_le_bytes());
    let back = GroupTextMessage::from_bytes(&bytes).unwrap();
    assert_eq!(back.reply_message_id, Some(-5));
    assert_eq!(back.expires, Some(i64::MIN));
    assert_eq!(back.edit_date, Some(-2));
    assert_eq!(back, message);
    message.reply_message_id = Some(0);
    message.expires = None;
    message.edit_date = Some(i64::MAX);
    assert_eq!(GroupTextMessage::from_bytes(&message.to_bytes()).unwrap(), message);
}

#[test]
fn trailing_bytes_are_ignored() {
    let message = sample();
    let mut bytes = message.to_bytes();
    bytes.extend_from_slice(&[1, 2, 3]);
    assert_eq!(GroupTextMessage::from_bytes(&bytes).unwrap(), message);
}

#[test]
fn short_data_is_refused_part_by_part() {
    let bytes = sample().to_bytes();
    assert_eq!(
        GroupTextMessage::from_bytes(&bytes[..79]).err(),
        Some("Data too short for header".to_string())
    );
    assert_eq!(
        GroupTextMessage::from_bytes(&[]).err(),
        Some("Data too short for header".to_string())
    );
    assert_eq!(
        GroupTextMessage::from_bytes(&bytes[..83]).err(),
        Some("Data too short for group_id".to_string())
    );
    assert_eq!(
        GroupTextMessage::from_bytes(&bytes[..85]).err(),
        Some("Data too short for text".to_string())
    );
    assert_eq!(
        GroupTextMessage::from_bytes(&bytes[..88]).err(),
        Some("Data too short for media".to_string())
    );
    assert_eq!(
        GroupTextMessage::from_bytes(&bytes[..93]).err(),
        Some("Data too short for media_name".to_string())
    );
    assert!(GroupTextMessage::from_bytes(&bytes[..94]).is_ok());
}

#[test]
fn huge_lengths_are_refused_without_overflow() {
    let mut bytes = plain().to_bytes();
    bytes[24..32].copy_from_slice(&u64::MAX.to_le_bytes());
    assert_eq!(
        GroupTextMessage::from_bytes(&bytes).err(),
        Some("Data too short for group_id".to_string())
    );
}

#[test]
fn invalid_utf8_is_refused_with_the_part_named() {
    let mut bytes = plain().to_bytes();
    bytes[80] = 0xff;
    let error = GroupTextMessage::from_bytes(&bytes).err().unwrap();
    let expected = format!(
        "Invalid UTF-8 in group_id: {}",
        String::from_utf8(vec![0xff]).err().unwrap()
    );
    assert_eq!(error, expected);

    let mut bytes = plain().to_bytes();
    bytes[81] = 0xff;
    let error = GroupTextMessage::from_bytes(&bytes).err().unwrap();
    assert!(error.starts_with("Invalid UTF-8 in text: "));

    let mut bytes = sample().to_bytes();
    let last = bytes.len() - 1;
    bytes[last] = 0xff;
    let error = GroupTextMessage::from_bytes(&bytes).err().unwrap();
    assert!(error.starts_with("Invalid UTF-8 in media name: "));
}

#[test]
fn user_message_carries_a_tag() {
    let message = UserGroupMessage::TextMessage(sample());
    let bytes = message.to_bytes();
    assert_eq!(bytes[0], 0);
    assert_eq!(&bytes[1..], &sample().to_bytes()[..]);
    assert_eq!(UserGroupMessage::from_bytes(&bytes).unwrap(), message);
}

#[test]
fn user_message_errors() {
    assert_eq!(UserGroupMessage::from_bytes(&[]).err(), Some("Empty data".to_string()));
    assert_eq!(
        UserGroupMessage::from_bytes(&[7, 1, 2]).err(),
        Some("Unknown message type: 7".to_string())
    );
    assert_eq!(
        UserGroupMessage::from_bytes(&[255]).err(),
        Some("Unknown message type: 255".to_string())
    );
    assert_eq!(
        UserGroupMessage::from_bytes(&[0, 1, 2]).err(),
        Some("Data too short for header".to_string())
    );
}

#[test]
fn builder_assembles_a_plain_message() {
    let message = MessageBuilder::new("g".to_string(), "hello".to_string())
        .assemble(11, None, 5, 1000, None, None)
        .unwrap();
    assert_eq!(message.message_id, 11);
    assert_eq!(message.group_id, "g");
    assert_eq!(message.sender_id, 5);
    assert_eq!(message.date, 1000);
    assert_eq!(message.text, "hello");
    assert_eq!(message.media, None);
    assert_eq!(message.media_name, None);
    assert_eq!(message.reply_message_id, None);
    assert_eq!(message.edit_date, None);
    assert_eq!(message.expires, None);
}

#[test]
fn builder_builds_edits_replies_and_files() {
    let builder = MessageBuilder::new("g".to_string(), "hello".to_string())
        .with_file("/tmp/cat.png".to_string())
        .reply_to("41".to_string())
        .edit_message("42".to_string())
        .expires_at(99);
    assert_eq!(builder.file_path(), Some(&"/tmp/cat.png".to_string()));
    let file = MediaFile { data: vec![1, 2, 3], name: "cat.png".to_string() };
    let message = builder.build(11, Some(file), 5).unwrap();
    assert_eq!(message.message_id, 42);
    assert_eq!(message.reply_message_id, Some(41));
    assert_eq!(message.expires, Some(99));
    assert_eq!(message.media, Some(vec![1, 2, 3]));
    assert_eq!(message.media_name, Some("cat.png".to_string()));
    assert_eq!(message.edit_date, Some(message.date));
    assert!(message.date > 1_600_000_000);
}

#[test]
fn builder_falls_back_to_the_fresh_id_for_a_bad_edit_id() {
    let message = MessageBuilder::new("g".to_string(), "t".to_string())
        .edit_message("not a number".to_string())
        .build(11, None, 5)
        .unwrap();
    assert_eq!(message.message_id, 11);
    assert!(message.edit_date.is_some());
}

#[test]
fn builder_refuses_a_bad_reply_id() {
    let error = MessageBuilder::new("g".to_string(), "t".to_string())
        .reply_to("x1".to_string())
        .build(11, None, 5)
        .err()
        .unwrap();
    let expected = format!("Invalid reply_message_id: {}", "x1".parse::<i64>().err().unwrap());
    assert_eq!(error, expected);
    let given = MessageBuilder::new("g".to_string(), "t".to_string())
        .assemble(11, None, 5, 7, None, Some(Err("why".to_string())))
        .err();
    assert_eq!(given, Some("Invalid reply_message_id: why".to_string()));
}

#[test]
fn builder_clamps_a_time_beyond_the_signed_range() {
    let message = MessageBuilder::new("g".to_string(), "t".to_string())
        .assemble(1, None, 2, u64::MAX, None, None)
        .unwrap();
    assert_eq!(message.date, i64::MAX);
}
