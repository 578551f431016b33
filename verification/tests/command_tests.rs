use ship_lib::group::builder::GroupConfigBuilderError;
use ship_lib::group::commands::{
    generate_group_id, new_group_builder, plan_new_group, NewGroup, DISPLAY_KEY_LABEL,
    DISPLAY_KEY_LENGTH, GROUP_ID_END, GROUP_ID_MIN,
};
use ship_lib::group::config::{JoinMode, Permissions, Visibility};

fn request(name: &str) -> NewGroup {
    NewGroup {
        group_name: name.to_string(),
        visibility: None,
        join_mode: None,
        description: None,
        max_members: None,
        slow_mode_delay: None,
        allow_stickers: None,
        allow_gifs: None,
        allow_voice_messages: None,
        allow_video_messages: None,
        allow_links: None,
    }
}

#[test]
fn new_group_ids_have_twelve_digits() {
    assert_eq!(GROUP_ID_MIN, 100_000_000_000);
    assert_eq!(GROUP_ID_END, 1_000_000_000_000);
    let mut seen = Vec::new();
    for _ in 0..200 {
        let id = generate_group_id();
        assert!(id >= 100_000_000_000);
        assert!(id < 1_000_000_000_000);
        assert_eq!(id.to_string().len(), 12);
        seen.push(id);
    }
    seen.sort();
    seen.dedup();
    assert!(seen.len() > 1);
}

#[test]
fn new_group_with_nothing_asked_takes_the_usual_settings() {
    let config = plan_new_group(123_456_789_012, 7, request("g")).unwrap();
    assert_eq!(config.id, 123_456_789_012);
    assert_eq!(config.name, "g");
    assert_eq!(config.creator_id, 7);
    assert_eq!(config.members, vec![7]);
    assert_eq!(config.admins, vec![7]);
    assert_eq!(config.visibility, Visibility::Private);
    assert_eq!(config.join_mode, JoinMode::InviteOnly);
    assert_eq!(config.description, None);
    assert_eq!(config.max_members, None);
    assert_eq!(config.slow_mode_delay, None);
    assert!(config.allow_stickers);
    assert!(config.allow_gifs);
    assert!(config.allow_voice_messages);
    assert!(config.allow_video_messages);
    assert!(config.allow_links);
    assert_eq!(config.permissions.len(), 1);
    assert_eq!(config.permissions.get(&7), Some(&Permissions::admin()));
    assert_eq!(config.default_permissions, Permissions::member());
    assert_eq!(config.created_at, config.updated_at);
}

#[test]
fn new_group_takes_each_setting_that_is_asked_for() {
    let mut r = request("team");
    r.visibility = Some("public".to_string());
    r.join_mode = Some("request_to_join".to_string());
    r.description = Some("about".to_string());
    r.max_members = Some(50);
    r.slow_mode_delay = Some(30);
    r.allow_stickers = Some(false);
    r.allow_gifs = Some(true);
    r.allow_voice_messages = Some(false);
    r.allow_video_messages = Some(false);
    r.allow_links = Some(false);
    let config = plan_new_group(GROUP_ID_MIN, 9, r).unwrap();
    assert_eq!(config.visibility, Visibility::Public);
    assert_eq!(config.join_mode, JoinMode::RequestToJoin);
    assert_eq!(config.description, Some("about".to_string()));
    assert_eq!(config.max_members, Some(50));
    assert_eq!(config.slow_mode_delay, Some(30));
    assert!(!config.allow_stickers);
    assert!(config.allow_gifs);
    assert!(!config.allow_voice_messages);
    assert!(!config.allow_video_messages);
    assert!(!config.allow_links);
}

#[test]
fn new_group_words_name_their_settings() {
    let mut r = request("a");
    r.visibility = Some("private".to_string());
    r.join_mode = Some("open".to_string());
    let config = plan_new_group(1, 2, r).unwrap();
    assert_eq!(config.visibility, Visibility::Private);
    assert_eq!(config.join_mode, JoinMode::Open);

    let mut r = request("a");
    r.join_mode = Some("invite_only".to_string());
    assert_eq!(plan_new_group(1, 2, r).unwrap().join_mode, JoinMode::InviteOnly);
}

#[test]
fn new_group_ignores_words_that_name_nothing() {
    let mut r = request("a");
    r.visibility = Some("hidden".to_string());
    r.join_mode = Some("Open".to_string());
    let config = plan_new_group(1, 2, r).unwrap();
    assert_eq!(config.visibility, Visibility::Private);
    assert_eq!(config.join_mode, JoinMode::InviteOnly);

    let mut r = request("a");
    r.visibility = Some("".to_string());
    r.join_mode = Some("public".to_string());
    let config = plan_new_group(1, 2, r).unwrap();
    assert_eq!(config.visibility, Visibility::Private);
    assert_eq!(config.join_mode, JoinMode::InviteOnly);
}

#[test]
fn new_group_with_a_blank_name_is_refused() {
    assert_eq!(
        plan_new_group(1, 2, request("")).unwrap_err(),
        GroupConfigBuilderError::InvalidGroupName
    );
    assert_eq!(
        plan_new_group(1, 2, request(" \t\n ")).unwrap_err(),
        GroupConfigBuilderError::InvalidGroupName
    );
    let mut r = request("  ");
    r.max_members = Some(0);
    assert_eq!(plan_new_group(1, 2, r).unwrap_err(), GroupConfigBuilderError::InvalidGroupName);
}

#[test]
fn new_group_with_no_room_is_refused() {
    let mut r = request("g");
    r.max_members = Some(0);
    assert_eq!(plan_new_group(1, 2, r).unwrap_err(), GroupConfigBuilderError::InvalidMaxMembers);
    let mut r = request("g");
    r.max_members = Some(1);
    assert_eq!(plan_new_group(1, 2, r).unwrap().max_members, Some(1));
}

#[test]
fn new_group_builder_can_be_filled_further() {
    let mut r = request("g");
    r.max_members = Some(2);
    let built = new_group_builder(5, 1, r).add_member(2).add_member(3).build();
    assert_eq!(built.unwrap_err(), GroupConfigBuilderError::TooManyMembers);
    let mut r = request("g");
    r.max_members = Some(3);
    let config = new_group_builder(5, 1, r).add_member(2).add_member(3).build().unwrap();
    assert_eq!(config.members, vec![1, 2, 3]);
}

#[test]
fn display_key_is_exported_under_its_label() {
    assert_eq!(DISPLAY_KEY_LABEL, "Display Key");
    assert_eq!(DISPLAY_KEY_LENGTH, 32);
}
