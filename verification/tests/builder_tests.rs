use std::collections::BTreeMap;

use ship_lib::group::config::{DateTime, JoinMode, Permissions, Visibility};
use ship_lib::group::builder::{GroupConfigBuilder, GroupConfigBuilderError};

#[test]
fn builder_with_defaults_builds_a_private_group() {
    let config = GroupConfigBuilder::new(7, "name".to_string(), 1).build().unwrap();
    assert_eq!(config.id, 7);
    assert_eq!(config.name, "name");
    assert_eq!(config.creator_id, 1);
    assert_eq!(config.members, vec![1]);
    assert_eq!(config.admins, vec![1]);
    assert_eq!(config.visibility, Visibility::Private);
    assert_eq!(config.join_mode, JoinMode::InviteOnly);
    assert_eq!(config.default_permissions, Permissions::member());
    assert_eq!(config.permissions.get(&1), Some(&Permissions::admin()));
    assert_eq!(config.created_at, config.updated_at);
    assert!(config.allow_links);
}

#[test]
fn builder_applies_every_setting() {
    let mut muted = BTreeMap::new();
    muted.insert(5u64, DateTime { timestamp: 100 });
    let config = GroupConfigBuilder::new(7, "name".to_string(), 1)
        .with_visibility(Visibility::Public)
        .with_join_mode(JoinMode::Open)
        .with_description("about")
        .with_avatar(vec![1])
        .with_banner(vec![2])
        .with_max_members(10)
        .with_slow_mode_delay(3)
        .with_invite_link("link".to_string())
        .with_pinned_message(9)
        .allow_stickers(false)
        .allow_gifs(false)
        .allow_voice_messages(false)
        .allow_video_messages(false)
        .allow_links(false)
        .with_members(vec![2, 3])
        .add_member(4)
        .with_admins(vec![2])
        .add_admin(3)
        .with_user_permissions(4, Permissions::moderator())
        .with_default_permissions(Permissions::reader())
        .with_banned_users(vec![8])
        .ban_user(9)
        .with_muted_users(muted)
        .mute_user(6, DateTime { timestamp: 200 })
        .build()
        .unwrap();
    assert_eq!(config.visibility, Visibility::Public);
    assert_eq!(config.join_mode, JoinMode::Open);
    assert_eq!(config.description, Some("about".to_string()));
    assert_eq!(config.avatar, Some(vec![1]));
    assert_eq!(config.banner, Some(vec![2]));
    assert_eq!(config.max_members, Some(10));
    assert_eq!(config.slow_mode_delay, Some(3));
    assert_eq!(config.invite_link, Some("link".to_string()));
    assert_eq!(config.pinned_message_id, Some(9));
    assert!(!config.allow_stickers && !config.allow_gifs && !config.allow_links);
    assert!(!config.allow_voice_messages && !config.allow_video_messages);
    assert_eq!(config.members, vec![1, 2, 3, 4]);
    assert_eq!(config.admins, vec![1, 2, 3]);
    assert_eq!(config.default_permissions, Permissions::reader());
    assert_eq!(config.permissions.get(&1), Some(&Permissions::admin()));
    assert_eq!(config.permissions.get(&2), Some(&Permissions::admin()));
    assert_eq!(config.permissions.get(&3), Some(&Permissions::admin()));
    assert_eq!(config.permissions.get(&4), Some(&Permissions::moderator()));
    assert_eq!(config.permissions.len(), 4);
    assert_eq!(config.banned, vec![8, 9]);
    assert_eq!(config.muted.get(&5), Some(&DateTime { timestamp: 100 }));
    assert_eq!(config.muted.get(&6), Some(&DateTime { timestamp: 200 }));
    assert_eq!(config.muted.len(), 2);
}

#[test]
fn blank_name_is_refused() {
    let empty = GroupConfigBuilder::new(1, "".to_string(), 1).build();
    assert_eq!(empty.err(), Some(GroupConfigBuilderError::InvalidGroupName));
    let blank = GroupConfigBuilder::new(1, " \t\n ".to_string(), 1).build();
    assert_eq!(blank.err(), Some(GroupConfigBuilderError::InvalidGroupName));
    let fine = GroupConfigBuilder::new(1, " a ".to_string(), 1).build();
    assert!(fine.is_ok());
}

#[test]
fn member_limit_is_checked() {
    let zero = GroupConfigBuilder::new(1, "g".to_string(), 1).with_max_members(0).build();
    assert_eq!(zero.err(), Some(GroupConfigBuilderError::InvalidMaxMembers));
    let too_many = GroupConfigBuilder::new(1, "g".to_string(), 1)
        .with_max_members(2)
        .with_members(vec![2, 3])
        .build();
    assert_eq!(too_many.err(), Some(GroupConfigBuilderError::TooManyMembers));
    let just_enough = GroupConfigBuilder::new(1, "g".to_string(), 1)
        .with_max_members(3)
        .with_members(vec![2, 3])
        .build();
    assert!(just_enough.is_ok());
}

#[test]
fn blank_name_comes_before_member_limit() {
    let both = GroupConfigBuilder::new(1, " ".to_string(), 1).with_max_members(0).build();
    assert_eq!(both.err(), Some(GroupConfigBuilderError::InvalidGroupName));
    let given = GroupConfigBuilder::new(1, "g".to_string(), 1).build_with(true);
    assert_eq!(given.err(), Some(GroupConfigBuilderError::InvalidGroupName));
}

#[test]
fn presets_set_visibility_join_mode_and_defaults() {
    let public = GroupConfigBuilder::public_group(1, "g".to_string(), 1).build().unwrap();
    assert_eq!(public.visibility, Visibility::Public);
    assert_eq!(public.join_mode, JoinMode::Open);
    assert_eq!(public.default_permissions, Permissions::member());
    let private = GroupConfigBuilder::private_group(1, "g".to_string(), 1).build().unwrap();
    assert_eq!(private.visibility, Visibility::Private);
    assert_eq!(private.join_mode, JoinMode::InviteOnly);
    let hidden = GroupConfigBuilder::hidden_group(1, "g".to_string(), 1).build().unwrap();
    assert_eq!(hidden.visibility, Visibility::Hidden);
    assert_eq!(hidden.join_mode, JoinMode::InviteOnly);
    let read_only = GroupConfigBuilder::read_only_group(1, "g".to_string(), 1).build().unwrap();
    assert_eq!(read_only.visibility, Visibility::Public);
    assert_eq!(read_only.join_mode, JoinMode::RequestToJoin);
    assert_eq!(read_only.default_permissions, Permissions::reader());
    let restricted =
        GroupConfigBuilder::restricted_content_group(1, "g".to_string(), 1).build().unwrap();
    assert!(!restricted.allow_stickers && !restricted.allow_gifs && !restricted.allow_links);
    assert!(!restricted.allow_voice_messages && !restricted.allow_video_messages);
    assert_eq!(restricted.visibility, Visibility::Private);
}

#[test]
fn builder_errors_have_words() {
    assert_eq!(
        GroupConfigBuilderError::InvalidGroupName.to_string(),
        "Group name cannot be empty"
    );
    assert_eq!(
        GroupConfigBuilderError::InvalidMaxMembers.to_string(),
        "Maximum members must be greater than 0"
    );
    assert_eq!(
        GroupConfigBuilderError::TooManyMembers.to_string(),
        "Number of initial members exceeds maximum limit"
    );
}

fn kept_well_formed(config: &ship_lib::group::config::GroupConfig) -> bool {
    config.members.contains(&config.creator_id)
        && config.admins.iter().all(|a| config.members.contains(a))
        && config.banned.iter().all(|b| !config.members.contains(b))
        && !config.admins.is_empty()
}

#[test]
fn an_extra_admin_who_is_no_member_is_left_out() {
    let config = GroupConfigBuilder::new(1, "g".to_string(), 10)
        .with_members(vec![20, 30])
        .with_admins(vec![40, 30, 30, 10])
        .build()
        .unwrap();
    assert_eq!(config.members, vec![10, 20, 30]);
    assert_eq!(config.admins, vec![10, 30]);
    assert_eq!(config.permissions.get(&30), Some(&Permissions::admin()));
    assert_eq!(config.permissions.get(&40), None);
    assert_eq!(config.permissions.get(&20), Some(&Permissions::member()));
    assert!(kept_well_formed(&config));
}

#[test]
fn a_member_is_left_out_of_the_ban_list() {
    let config = GroupConfigBuilder::new(1, "g".to_string(), 10)
        .with_members(vec![20, 30])
        .with_banned_users(vec![30, 50, 10])
        .ban_user(60)
        .build()
        .unwrap();
    assert_eq!(config.members, vec![10, 20, 30]);
    assert_eq!(config.banned, vec![50, 60]);
    assert!(kept_well_formed(&config));
}

#[test]
fn a_name_of_white_space_is_blank() {
    let white: Vec<char> = vec![
        '\u{9}', '\u{a}', '\u{b}', '\u{c}', '\u{d}', ' ', '\u{85}', '\u{a0}', '\u{1680}',
        '\u{2000}', '\u{2001}', '\u{2002}', '\u{2003}', '\u{2004}', '\u{2005}', '\u{2006}',
        '\u{2007}', '\u{2008}', '\u{2009}', '\u{200a}', '\u{2028}', '\u{2029}', '\u{202f}',
        '\u{205f}', '\u{3000}',
    ];
    assert_eq!(white.len(), 25);
    for c in &white {
        let built = GroupConfigBuilder::new(1, c.to_string(), 10).build();
        assert_eq!(built.unwrap_err(), GroupConfigBuilderError::InvalidGroupName, "{:?}", c);
    }
    let all: String = white.iter().collect();
    assert_eq!(
        GroupConfigBuilder::new(1, all, 10).build().unwrap_err(),
        GroupConfigBuilderError::InvalidGroupName
    );
}

#[test]
fn a_name_with_anything_else_is_not_blank() {
    for c in [
        'g', '0', '\u{0}', '\u{8}', '\u{e}', '\u{1c}', '\u{1f}', '\u{84}', '\u{86}', '\u{9f}',
        '\u{a1}', '\u{167f}', '\u{1681}', '\u{180e}', '\u{1fff}', '\u{200b}', '\u{200c}',
        '\u{2027}', '\u{202a}', '\u{202e}', '\u{2030}', '\u{205e}', '\u{2060}', '\u{2fff}',
        '\u{3001}', '\u{feff}',
    ] {
        let built = GroupConfigBuilder::new(1, c.to_string(), 10).build();
        assert!(built.is_ok(), "{:?}", c);
        let padded = format!(" \t{}\u{3000}", c);
        assert!(GroupConfigBuilder::new(1, padded, 10).build().is_ok(), "{:?}", c);
    }
}
