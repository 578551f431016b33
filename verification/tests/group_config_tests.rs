use ship_lib::group::config::{
    ConfigValidationResult, DateTime, GroupConfig, JoinMode, Permissions, Visibility,
};

fn fields(result: &ConfigValidationResult) -> Vec<String> {
    result.changes.iter().map(|c| c.field.clone()).collect()
}

fn group_with_members() -> GroupConfig {
    let mut config = GroupConfig::new(1, "g".to_string(), 10);
    config.add_member(20);
    config.add_member(30);
    config
}

#[test]
fn new_group_has_creator_as_only_member_and_admin() {
    let config = GroupConfig::new(1, "Test Group".to_string(), 123);
    assert_eq!(config.id, 1);
    assert_eq!(config.name, "Test Group");
    assert_eq!(config.creator_id, 123);
    assert_eq!(config.members, vec![123]);
    assert_eq!(config.admins, vec![123]);
    assert_eq!(config.permissions.len(), 1);
    assert_eq!(config.permissions.get(&123), Some(&Permissions::admin()));
    assert_eq!(config.default_permissions, Permissions::member());
    assert_eq!(config.created_at, config.updated_at);
    assert_eq!(config.visibility, Visibility::Private);
    assert_eq!(config.join_mode, JoinMode::InviteOnly);
    assert!(config.banned.is_empty());
    assert!(config.muted.is_empty());
    assert!(config.allow_stickers && config.allow_gifs && config.allow_links);
    assert!(config.allow_voice_messages && config.allow_video_messages);
    assert_eq!(config.max_members, None);
}

#[test]
fn role_presets_have_their_bits() {
    let admin = Permissions::admin();
    assert!(admin.manage_members && admin.send_messages && admin.delete_messages);
    assert!(admin.rename_group && admin.manage_permissions && admin.pin_messages);
    assert!(admin.manage_admins);
    let moderator = Permissions::moderator();
    assert!(moderator.manage_members && moderator.send_messages && moderator.delete_messages);
    assert!(moderator.pin_messages);
    assert!(!moderator.rename_group && !moderator.manage_permissions && !moderator.manage_admins);
    let member = Permissions::member();
    assert!(member.send_messages);
    assert!(!member.manage_members && !member.delete_messages && !member.pin_messages);
    let reader = Permissions::reader();
    assert!(!reader.send_messages && !reader.manage_members);
    let default = Permissions::default();
    assert!(default.manage_members && default.send_messages);
    assert!(!default.delete_messages && !default.manage_admins);
}

#[test]
fn permission_names_select_fields() {
    let p = Permissions::reader().with_pin_messages(true).with_rename_group(true);
    assert!(p.has_permission("pin_messages"));
    assert!(p.has_permission("rename_group"));
    assert!(!p.has_permission("send_messages"));
    assert!(!p.has_permission("manage_members"));
    assert!(!p.has_permission("no_such_permission"));
    assert!(!Permissions::admin().has_permission(""));
    let q = Permissions::reader()
        .with_manage_members(true)
        .with_send_messages(true)
        .with_delete_messages(true)
        .with_manage_permissions(true)
        .with_manage_admins(true);
    assert!(q.has_permission("manage_members"));
    assert!(q.has_permission("send_messages"));
    assert!(q.has_permission("delete_messages"));
    assert!(q.has_permission("manage_permissions"));
    assert!(q.has_permission("manage_admins"));
    assert!(!q.has_permission("pin_messages"));
}

#[test]
fn add_member_gives_default_permissions() {
    let config = group_with_members();
    assert_eq!(config.members, vec![10, 20, 30]);
    assert_eq!(config.get_member_permissions(20), Some(&Permissions::member()));
    assert!(config.is_member(20));
    assert!(!config.is_member(40));
    assert!(!config.is_admin(20));
    assert!(config.is_admin(10));
}

#[test]
fn remove_member_takes_every_entry_and_the_permissions() {
    let mut config = group_with_members();
    config.add_member(20);
    assert_eq!(config.members, vec![10, 20, 30, 20]);
    config.remove_member(20);
    assert_eq!(config.members, vec![10, 30]);
    assert!(!config.is_member(20));
    assert_eq!(config.get_member_permissions(20), None);
}

fn well_formed(config: &GroupConfig) -> bool {
    config.members.contains(&config.creator_id)
        && config.admins.iter().all(|a| config.members.contains(a))
        && config.banned.iter().all(|b| !config.members.contains(b))
        && !config.admins.is_empty()
}

#[test]
fn a_member_who_leaves_is_no_admin_any_more() {
    let mut config = group_with_members();
    config.add_admin(20);
    config.add_muted(20, DateTime { timestamp: 5 });
    config.remove_member(20);
    assert_eq!(config.members, vec![10, 30]);
    assert_eq!(config.admins, vec![10]);
    assert_eq!(config.get_member_permissions(20), None);
    assert!(config.is_muted(20));
    assert!(well_formed(&config));
}

#[test]
fn the_creator_and_the_only_admin_must_stay() {
    let mut config = group_with_members();
    assert!(config.must_stay(10));
    assert!(!config.must_stay(20));
    assert!(!config.must_stay(99));
    // The creator hands the group over to 20, who is then the only admin.
    config.add_admin(20);
    assert!(config.must_stay(10));
    assert!(!config.must_stay(20));
    config.remove_admin(10);
    assert_eq!(config.admins, vec![20]);
    assert!(config.must_stay(10));
    assert!(config.must_stay(20));
    assert!(!config.must_stay(30));
    // The only admin is not demoted.
    config.remove_admin(20);
    assert_eq!(config.admins, vec![20]);
    config.set_member_role(20, "member");
    assert_eq!(config.admins, vec![20]);
    assert!(well_formed(&config));
    // With a second admin, the first may go.
    config.add_admin(30);
    assert!(!config.must_stay(20));
    config.remove_member(20);
    assert_eq!(config.members, vec![10, 30]);
    assert_eq!(config.admins, vec![30]);
    assert!(well_formed(&config));
}

#[test]
fn changes_of_the_membership_mend_the_lists_they_touch() {
    // An admin who is no member, and a member who is banned.
    let mut config = group_with_members();
    config.admins.push(77);
    config.add_admin(20);
    assert_eq!(config.admins, vec![10, 20]);
    let mut config = group_with_members();
    config.admins.push(77);
    config.add_admin(78);
    assert_eq!(config.admins, vec![10]);
    let mut config = group_with_members();
    config.admins.push(77);
    config.banned.push(30);
    config.add_banned(99);
    assert_eq!(config.banned, vec![99]);
    assert_eq!(config.admins, vec![10]);
    assert_eq!(config.members, vec![10, 20, 30]);
    assert!(well_formed(&config));
    let mut config = group_with_members();
    config.admins.push(77);
    config.remove_member(20);
    assert_eq!(config.admins, vec![10]);
    assert!(well_formed(&config));
}

#[test]
fn only_a_member_becomes_admin_and_only_once() {
    let mut config = group_with_members();
    config.add_admin(40);
    assert_eq!(config.admins, vec![10]);
    assert_eq!(config.get_member_permissions(40), None);
    config.add_admin(20);
    config.add_admin(20);
    assert_eq!(config.admins, vec![10, 20]);
    config.set_permissions(20, Permissions::reader());
    config.add_admin(20);
    assert_eq!(config.admins, vec![10, 20]);
    assert_eq!(config.get_member_permissions(20), Some(&Permissions::admin()));
    config.set_member_role(40, "admin");
    assert_eq!(config.admins, vec![10, 20]);
    config.set_member_role(30, "admin");
    assert_eq!(config.admins, vec![10, 20, 30]);
    config.set_member_role(30, "admin");
    assert_eq!(config.admins, vec![10, 20, 30]);
    config.set_member_role(20, "reader");
    assert_eq!(config.admins, vec![10, 30]);
    assert!(well_formed(&config));
}

#[test]
fn the_last_admin_stays() {
    let mut config = group_with_members();
    config.remove_admin(10);
    assert_eq!(config.admins, vec![10]);
    config.add_admin(30);
    config.remove_admin(10);
    assert_eq!(config.admins, vec![30]);
    assert!(config.is_member(10));
    assert!(well_formed(&config));
}

#[test]
fn a_banned_user_is_no_member() {
    let mut config = group_with_members();
    config.add_admin(20);
    config.add_banned(20);
    assert!(config.is_banned(20));
    assert!(!config.is_member(20));
    assert!(!config.is_admin(20));
    assert_eq!(config.members, vec![10, 30]);
    assert_eq!(config.admins, vec![10]);
    assert_eq!(config.get_member_permissions(20), None);
    config.add_banned(20);
    assert_eq!(config.banned, vec![20]);
    config.add_banned(99);
    assert_eq!(config.banned, vec![20, 99]);
    // Who is banned does not come back as a member.
    config.add_member(20);
    assert_eq!(config.members, vec![10, 30]);
    assert_eq!(config.get_member_permissions(20), None);
    assert!(well_formed(&config));
    config.remove_banned(20);
    config.add_member(20);
    assert_eq!(config.members, vec![10, 30, 20]);
    assert!(well_formed(&config));
}

#[test]
fn admins_and_bans_and_mutes() {
    let mut config = group_with_members();
    config.add_admin(20);
    assert_eq!(config.admins, vec![10, 20]);
    assert_eq!(config.get_member_permissions(20), Some(&Permissions::admin()));
    config.remove_admin(20);
    assert_eq!(config.admins, vec![10]);
    assert_eq!(config.get_member_permissions(20), Some(&Permissions::admin()));
    config.add_banned(99);
    assert!(config.is_banned(99));
    config.remove_banned(99);
    assert!(!config.is_banned(99));
    config.add_muted(30, DateTime { timestamp: 5 });
    assert!(config.is_muted(30));
    assert_eq!(config.muted.get(&30), Some(&DateTime { timestamp: 5 }));
    config.remove_muted(30);
    assert!(!config.is_muted(30));
}

#[test]
fn admin_holds_every_permission() {
    let mut config = group_with_members();
    config.add_admin(20);
    config.set_permissions(20, Permissions::reader());
    for name in [
        "manage_members",
        "send_messages",
        "delete_messages",
        "rename_group",
        "manage_permissions",
        "pin_messages",
        "manage_admins",
        "anything",
    ] {
        assert!(config.has_permission(20, name));
    }
}

#[test]
fn has_permission_uses_own_entry_then_defaults() {
    let mut config = group_with_members();
    config.set_permissions(20, Permissions::reader().with_pin_messages(true));
    assert!(config.has_permission(20, "pin_messages"));
    assert!(!config.has_permission(20, "send_messages"));
    // A user without an entry falls through to the defaults.
    assert!(config.has_permission(77, "send_messages"));
    assert!(!config.has_permission(77, "manage_members"));
    config.default_permissions = Permissions::reader();
    assert!(!config.has_permission(77, "send_messages"));
}

#[test]
fn setters_set_their_field() {
    let mut config = GroupConfig::new(1, "g".to_string(), 10);
    config.set_name("h".to_string());
    config.set_description("about".to_string());
    config.set_avatar(vec![1, 2]);
    config.set_banner(vec![3]);
    config.set_pinned_message_id(7);
    config.set_slow_mode_delay(30);
    config.set_allow_stickers(false);
    config.set_allow_gifs(false);
    config.set_allow_voice_messages(false);
    config.set_allow_video_messages(false);
    config.set_allow_links(false);
    config.set_visibility(Visibility::Hidden);
    config.set_join_mode(JoinMode::Open);
    config.set_invite_link(Some("link".to_string()));
    config.set_max_members(Some(5));
    assert_eq!(config.name, "h");
    assert_eq!(config.description, Some("about".to_string()));
    assert_eq!(config.avatar, Some(vec![1, 2]));
    assert_eq!(config.banner, Some(vec![3]));
    assert_eq!(config.pinned_message_id, Some(7));
    assert_eq!(config.slow_mode_delay, Some(30));
    assert!(!config.allow_stickers && !config.allow_gifs && !config.allow_links);
    assert!(!config.allow_voice_messages && !config.allow_video_messages);
    assert_eq!(config.visibility, Visibility::Hidden);
    assert_eq!(config.join_mode, JoinMode::Open);
    assert_eq!(config.invite_link, Some("link".to_string()));
    assert_eq!(config.max_members, Some(5));
    assert_eq!(config.members, vec![10]);
}

#[test]
fn is_full_compares_members_with_limit() {
    let mut config = group_with_members();
    assert!(!config.is_full());
    config.set_max_members(Some(4));
    assert!(!config.is_full());
    config.set_max_members(Some(3));
    assert!(config.is_full());
    config.set_max_members(Some(2));
    assert!(config.is_full());
}

#[test]
fn regular_members_are_those_with_default_permissions() {
    let mut config = group_with_members();
    config.set_permissions(30, Permissions::moderator());
    let mut regular = config.get_regular_members();
    regular.sort();
    assert_eq!(regular, vec![20]);
}

#[test]
fn set_allow_messages_changes_the_defaults_only() {
    let mut config = group_with_members();
    config.set_allow_messages(false);
    assert!(!config.default_permissions.send_messages);
    assert_eq!(config.get_member_permissions(20), Some(&Permissions::member()));
    assert_eq!(config.get_member_permissions(10), Some(&Permissions::admin()));
    assert_eq!(config.permissions.len(), 3);
}

#[test]
fn set_member_role_updates_table_and_admins() {
    let mut config = group_with_members();
    config.set_member_role(20, "moderator");
    assert_eq!(config.get_member_permissions(20), Some(&Permissions::moderator()));
    assert!(!config.is_admin(20));
    config.set_member_role(20, "admin");
    assert_eq!(config.get_member_permissions(20), Some(&Permissions::admin()));
    assert_eq!(config.admins, vec![10, 20]);
    config.set_member_role(20, "reader");
    assert_eq!(config.get_member_permissions(20), Some(&Permissions::reader()));
    assert_eq!(config.admins, vec![10]);
    config.set_member_role(20, "no such role");
    assert_eq!(config.get_member_permissions(20), Some(&Permissions::member()));
    // A member without an entry gets one only by becoming admin.
    config.members.push(55);
    config.set_member_role(55, "moderator");
    assert_eq!(config.get_member_permissions(55), None);
    config.set_member_role(55, "admin");
    assert_eq!(config.get_member_permissions(55), Some(&Permissions::admin()));
    assert!(config.is_admin(55));
    // Who is no member does not become admin.
    config.set_member_role(56, "admin");
    assert_eq!(config.get_member_permissions(56), None);
    assert!(!config.is_admin(56));
}

#[test]
fn update_permissions_applies_the_function_to_an_entry() {
    let mut config = group_with_members();
    config.update_permissions(20, |p: Permissions| p.with_pin_messages(true));
    assert!(config.get_member_permissions(20).unwrap().pin_messages);
    config.update_permissions(77, |p: Permissions| p.with_pin_messages(true));
    assert_eq!(config.get_member_permissions(77), None);
}

#[test]
fn no_change_is_valid_and_empty() {
    let config = group_with_members();
    let same = config.duplicate();
    let result = config.validate_changes(&same, 20);
    assert!(result.valid);
    assert!(result.changes.is_empty());
}

#[test]
fn changes_are_reported_in_order_with_values() {
    let old = group_with_members();
    let mut new = old.duplicate();
    new.name = "h".to_string();
    new.visibility = Visibility::Public;
    new.join_mode = JoinMode::RequestToJoin;
    new.invite_link = Some("l".to_string());
    new.max_members = Some(12);
    new.members = vec![10, 20];
    new.admins = vec![10, 20];
    new.permissions.insert(40, Permissions::reader());
    new.description = Some("d".to_string());
    new.avatar = Some(vec![1]);
    new.banner = Some(vec![2]);
    new.pinned_message_id = Some(18446744073709551615);
    new.slow_mode_delay = Some(0);
    new.allow_stickers = false;
    new.allow_gifs = false;
    new.allow_voice_messages = false;
    new.allow_video_messages = false;
    new.allow_links = false;
    let result = old.validate_changes(&new, 10);
    assert!(result.valid);
    assert_eq!(
        fields(&result),
        vec![
            "name",
            "visibility",
            "join_mode",
            "invite_link",
            "max_members",
            "members",
            "admins",
            "permissions",
            "description",
            "avatar",
            "banner",
            "pinned_message_id",
            "slow_mode_delay",
            "allow_stickers",
            "allow_gifs",
            "allow_voice_messages",
            "allow_video_messages",
            "allow_links",
        ]
    );
    let values: Vec<(String, String)> = result
        .changes
        .iter()
        .map(|c| (c.old_value.clone(), c.new_value.clone()))
        .collect();
    let expected = [
        ("g", "h"),
        ("Private", "Public"),
        ("InviteOnly", "RequestToJoin"),
        ("", "l"),
        ("None", "12"),
        ("[10, 20, 30]", "[10, 20]"),
        ("[10]", "[10, 20]"),
        ("...", "..."),
        ("", "d"),
        ("...", "..."),
        ("...", "..."),
        ("None", "18446744073709551615"),
        ("None", "0"),
        ("true", "false"),
        ("true", "false"),
        ("true", "false"),
        ("true", "false"),
        ("true", "false"),
    ];
    assert_eq!(values.len(), expected.len());
    for (got, want) in values.iter().zip(expected.iter()) {
        assert_eq!(got.0, want.0);
        assert_eq!(got.1, want.1);
    }
}

#[test]
fn each_field_asks_for_its_permission() {
    let base = group_with_members();
    let cases: Vec<(&str, Box<dyn Fn(&mut GroupConfig)>)> = vec![
        ("rename_group", Box::new(|c| c.name = "x".to_string())),
        ("rename_group", Box::new(|c| c.description = Some("x".to_string()))),
        ("rename_group", Box::new(|c| c.avatar = Some(vec![1]))),
        ("rename_group", Box::new(|c| c.banner = Some(vec![1]))),
        ("manage_permissions", Box::new(|c| c.visibility = Visibility::Public)),
        ("manage_permissions", Box::new(|c| c.join_mode = JoinMode::Open)),
        ("manage_permissions", Box::new(|c| c.max_members = Some(9))),
        ("manage_permissions", Box::new(|c| c.slow_mode_delay = Some(9))),
        ("manage_permissions", Box::new(|c| c.allow_stickers = false)),
        ("manage_permissions", Box::new(|c| c.allow_gifs = false)),
        ("manage_permissions", Box::new(|c| c.allow_voice_messages = false)),
        ("manage_permissions", Box::new(|c| c.allow_video_messages = false)),
        ("manage_permissions", Box::new(|c| c.allow_links = false)),
        (
            "manage_permissions",
            Box::new(|c| {
                c.permissions.insert(30, Permissions::moderator());
            }),
        ),
        ("manage_members", Box::new(|c| c.invite_link = Some("x".to_string()))),
        ("manage_members", Box::new(|c| c.members.push(40))),
        ("manage_admins", Box::new(|c| c.admins.push(30))),
        ("pin_messages", Box::new(|c| c.pinned_message_id = Some(1))),
    ];
    let grant = |name: &str| match name {
        "rename_group" => Permissions::reader().with_rename_group(true),
        "manage_permissions" => Permissions::reader().with_manage_permissions(true),
        "manage_members" => Permissions::reader().with_manage_members(true),
        "manage_admins" => Permissions::reader().with_manage_admins(true),
        _ => Permissions::reader().with_pin_messages(true),
    };
    for (needed, change) in cases.iter() {
        let mut without = base.duplicate();
        without.set_permissions(20, Permissions::reader());
        let mut proposed = without.duplicate();
        change(&mut proposed);
        assert!(!without.validate_changes(&proposed, 20).valid);

        let mut with = base.duplicate();
        with.set_permissions(20, grant(needed));
        let mut proposed = with.duplicate();
        change(&mut proposed);
        let result = with.validate_changes(&proposed, 20);
        assert!(result.valid);
        assert_eq!(result.changes.len(), 1);
    }
}

#[test]
fn self_leave_is_permitted_without_manage_members() {
    let mut config = GroupConfig::new(1, "g".to_string(), 10);
    config.add_member(30);
    config.set_permissions(30, Permissions::member());
    assert!(!config.has_permission(30, "manage_members"));
    let mut without_self = config.duplicate();
    without_self.members.retain(|id| *id != 30);
    let result = config.validate_changes(&without_self, 30);
    assert!(result.valid);
    assert_eq!(fields(&result), vec!["members"]);
    // Removing somebody else is not permitted.
    let mut without_other = config.duplicate();
    without_other.members.retain(|id| *id != 10);
    assert!(!config.validate_changes(&without_other, 30).valid);
}

#[test]
fn validation_is_monotone_on_a_part_of_the_changes() {
    let mut old = group_with_members();
    old.set_permissions(20, Permissions::reader().with_rename_group(true).with_pin_messages(true));
    let mut all = old.duplicate();
    all.name = "h".to_string();
    all.description = Some("d".to_string());
    all.pinned_message_id = Some(4);
    assert!(old.validate_changes(&all, 20).valid);
    let mut part = old.duplicate();
    part.name = "h".to_string();
    assert!(old.validate_changes(&part, 20).valid);
    let mut other_part = old.duplicate();
    other_part.pinned_message_id = Some(4);
    other_part.description = Some("d".to_string());
    assert!(old.validate_changes(&other_part, 20).valid);
}

#[test]
fn diff_and_may_change_agree_with_validate_changes() {
    let old = group_with_members();
    let mut new = old.duplicate();
    new.name = "h".to_string();
    let result = old.validate_changes(&new, 20);
    assert_eq!(result.valid, old.may_change(&new, 20));
    assert_eq!(fields(&result), old.diff(&new).iter().map(|c| c.field.clone()).collect::<Vec<_>>());
    assert!(!result.valid);
}

#[test]
fn visibility_and_join_mode_have_codes_and_names() {
    assert_eq!(Visibility::Public.code(), 1);
    assert_eq!(Visibility::Private.code(), 2);
    assert_eq!(Visibility::Hidden.code(), 3);
    assert_eq!(JoinMode::Open.code(), 1);
    assert_eq!(JoinMode::InviteOnly.code(), 2);
    assert_eq!(JoinMode::RequestToJoin.code(), 3);
    assert_eq!(Visibility::Hidden.name(), "Hidden");
    assert_eq!(JoinMode::Open.name(), "Open");
}

#[test]
fn setting_the_time_of_the_last_update_changes_nothing_else() {
    let mut config = GroupConfig::new(1, "g".to_string(), 10);
    config.add_member(20);
    let before = config.duplicate();
    config.set_updated_at(DateTime { timestamp: 5 });
    assert_eq!(config.updated_at, DateTime { timestamp: 5 });
    assert_eq!(config.created_at, before.created_at);
    assert_eq!(config.members, before.members);
    assert_eq!(config.permissions, before.permissions);
    let result = before.validate_changes(&config, 20);
    assert!(result.valid);
    assert!(result.changes.is_empty());
    // A setter stamps the configuration with the clock's time.
    config.set_slow_mode_delay(3);
    assert!(config.updated_at.timestamp > 1_577_836_800);
}
