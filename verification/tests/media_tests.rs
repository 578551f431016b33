use ship_lib::message::media::{media_id, message_media_id, save_plan, to_hex, SavePlan};
use ship_lib::message::{GroupTextMessage, UserGroupMessage};
use ship_lib::metrics::GlobalMetrics;

fn message(id: i64, media: Option<Vec<u8>>, edit_date: Option<i64>) -> UserGroupMessage {
    UserGroupMessage::TextMessage(GroupTextMessage {
        message_id: id,
        group_id: "g".to_string(),
        sender_id: 2,
        date: 30,
        text: "hi".to_string(),
        media,
        media_name: Some("a.png".to_string()),
        reply_message_id: None,
        expires: Some(40),
        edit_date,
    })
}

#[test]
fn media_id_is_the_sha256_in_hex() {
    assert_eq!(
        media_id(b"abc"),
        "ba7816bf8f01cfea414140de5dae2223b00361a396177a9cb410ff61f20015ad"
    );
    assert_eq!(
        media_id(b""),
        "e3b0c44298fc1c149afbf4c8996fb92427ae41e4649b934ca495991b7852b855"
    );
}

#[test]
fn hex_is_lower_case_with_two_digits_a_byte() {
    assert_eq!(to_hex(&[]), "");
    assert_eq!(to_hex(&[0x00, 0x0f, 0xa0, 0xff, 0x1b]), "000fa0ff1b");
}

#[test]
fn new_media_is_inserted_with_the_message() {
    let plan = save_plan(&message(1, Some(vec![1, 2, 3]), None), &[7, 7], false);
    match plan {
        SavePlan::Insert { media, message } => {
            let media = media.unwrap();
            assert_eq!(media.media_id, media_id(&[1, 2, 3]));
            assert_eq!(media.media_data, vec![1, 2, 3]);
            assert_eq!(media.media_size, 3);
            assert_eq!(media.media_name, Some("a.png".to_string()));
            assert_eq!(media.message_id, 1);
            assert_eq!(media.group_id, vec![7, 7]);
            assert_eq!(media.created_at, 30);
            assert_eq!(message.media_id, Some(media.media_id.clone()));
            assert_eq!(message.message_id, 1);
            assert_eq!(message.group_id, vec![7, 7]);
            assert_eq!(message.sender_id, 2);
            assert_eq!(message.content, b"hi".to_vec());
            assert_eq!(message.timestamp, 30);
            assert_eq!(message.expires, Some(40));
            assert_eq!(message.edit_date, None);
        }
        _ => panic!("expected an insert"),
    }
}

#[test]
fn deduplicated_media() {
    // Two messages with the same media: the store holds none before the
    // first and the media after it.
    let first = save_plan(&message(1, Some(vec![5; 100]), None), &[7], false);
    let second = save_plan(&message(2, Some(vec![5; 100]), None), &[7], true);
    let (first_media, first_row) = match first {
        SavePlan::Insert { media, message } => (media, message),
        _ => panic!("expected an insert"),
    };
    let (second_media, second_row) = match second {
        SavePlan::Insert { media, message } => (media, message),
        _ => panic!("expected an insert"),
    };
    assert!(first_media.is_some());
    assert!(second_media.is_none());
    assert_eq!(first_row.media_id, second_row.media_id);
    assert_eq!(first_row.media_id, Some(media_id(&[5; 100])));
    assert_eq!(message_media_id(&message(2, Some(vec![5; 100]), None)), first_row.media_id);
}

#[test]
fn message_without_media_has_no_media_id() {
    let plan = save_plan(&message(1, None, None), &[7], false);
    match plan {
        SavePlan::Insert { media, message } => {
            assert!(media.is_none());
            assert_eq!(message.media_id, None);
        }
        _ => panic!("expected an insert"),
    }
    assert_eq!(message_media_id(&message(1, None, None)), None);
}

#[test]
fn edit_replaces_content_and_sets_edit_date() {
    let plan = save_plan(&message(9, Some(vec![1]), Some(77)), &[7], false);
    assert_eq!(
        plan,
        SavePlan::Edit { message_id: 9, group_id: vec![7], content: b"hi".to_vec(), edit_date: 77 }
    );
}

#[test]
fn metrics_count_and_wrap() {
    let mut metrics = GlobalMetrics::default();
    metrics.record_save(5);
    metrics.record_get_messages(7);
    metrics.record_find_media(11);
    metrics.record_get_media(13);
    assert_eq!(metrics.save_message_ns, 5);
    assert_eq!(metrics.get_messages_ns, 7);
    assert_eq!(metrics.find_media_ns, 11);
    assert_eq!(metrics.get_media_ns, 13);
    assert_eq!(metrics.call_counts, 2);
    metrics.save_message_ns = u64::MAX;
    metrics.record_save(2);
    assert_eq!(metrics.save_message_ns, 1);
}

#[test]
fn a_save_makes_the_caches_of_its_group_stale() {
    let group = vec![9u8, 8];
    let insert = save_plan(&message(1, Some(vec![1, 2, 3]), None), &group, false);
    let stale = ship_lib::message::caches::save_invalidates(&insert);
    assert_eq!(stale.group_messages, Some(group.clone()));
    assert_eq!(stale.last_message, Some(group.clone()));
    assert!(!stale.media_exists);
    assert!(!stale.media_data);
    let edit = save_plan(&message(1, None, Some(77)), &[7], false);
    assert!(matches!(edit, SavePlan::Edit { .. }));
    assert_eq!(
        ship_lib::message::caches::save_invalidates(&edit),
        ship_lib::message::caches::Stale {
            group_messages: Some(vec![7]),
            last_message: Some(vec![7]),
            media_exists: false,
            media_data: false,
        }
    );
    assert_eq!(
        ship_lib::message::caches::group_invalidates(&[7]),
        ship_lib::message::caches::save_invalidates(&edit)
    );
    let cleared = ship_lib::message::caches::clear_media_invalidates();
    assert_eq!(cleared.group_messages, None);
    assert_eq!(cleared.last_message, None);
    assert!(cleared.media_exists);
    assert!(cleared.media_data);
}
