//! The decisions behind the commands of the interface: the configuration
//! that a request to create a group asks for; and what a request to change
//! a group's configuration, or a member's permissions, turns the
//! configuration into, and whether the user may ask for it.

use vstd::prelude::*;
use crate::support::clock::now_secs;
use crate::support::random::random_in;
use crate::group::builder::{is_blank, BuilderView, GroupConfigBuilder, GroupConfigBuilderError};
use crate::group::config::{
    change_views, role_admins, role_table, spec_changes, spec_valid, ConfigChange,
    ConfigChangeView, DateTime, GroupConfig, GroupConfigView, JoinMode, Permissions, Visibility,
};
use crate::support::maps::copy_table;
use crate::support::text::{
    copy_ids, copy_opt_bytes, copy_opt_text, decimal_text, join_text, opt_bytes, opt_text,
    u64_to_text,
};

verus! {

/// The largest avatar that is accepted, in bytes: 5 MiB.
pub const MAX_AVATAR_SIZE: usize = 5242880;

/// A request to change a group's configuration: for each setting, the new
/// value, or nothing to leave the setting as it is.
#[derive(Debug)]
pub struct ConfigUpdate {
    pub group_name: Option<String>,
    /// `public` or `private`; any other word changes nothing.
    pub visibility: Option<String>,
    /// `invite_only`, `request_to_join` or `open`; any other word changes
    /// nothing.
    pub join_mode: Option<String>,
    pub description: Option<String>,
    /// The content of the avatar's file.
    pub avatar: Option<Vec<u8>>,
    pub max_members: Option<u32>,
    pub slow_mode_delay: Option<u32>,
    pub allow_stickers: Option<bool>,
    pub allow_gifs: Option<bool>,
    pub allow_voice_messages: Option<bool>,
    pub allow_video_messages: Option<bool>,
    pub allow_links: Option<bool>,
    /// Whether members may send messages by default.
    pub allow_messages: Option<bool>,
}

pub struct ConfigUpdateView {
    pub group_name: Option<Seq<char>>,
    pub visibility: Option<Seq<char>>,
    pub join_mode: Option<Seq<char>>,
    pub description: Option<Seq<char>>,
    pub avatar: Option<Seq<u8>>,
    pub max_members: Option<u32>,
    pub slow_mode_delay: Option<u32>,
    pub allow_stickers: Option<bool>,
    pub allow_gifs: Option<bool>,
    pub allow_voice_messages: Option<bool>,
    pub allow_video_messages: Option<bool>,
    pub allow_links: Option<bool>,
    pub allow_messages: Option<bool>,
}

impl View for ConfigUpdate {
    type V = ConfigUpdateView;

    open spec fn view(&self) -> ConfigUpdateView {
        ConfigUpdateView {
            group_name: opt_text(self.group_name),
            visibility: opt_text(self.visibility),
            join_mode: opt_text(self.join_mode),
            description: opt_text(self.description),
            avatar: opt_bytes(self.avatar),
            max_members: self.max_members,
            slow_mode_delay: self.slow_mode_delay,
            allow_stickers: self.allow_stickers,
            allow_gifs: self.allow_gifs,
            allow_voice_messages: self.allow_voice_messages,
            allow_video_messages: self.allow_video_messages,
            allow_links: self.allow_links,
            allow_messages: self.allow_messages,
        }
    }
}

pub open spec fn flag_or(v: Option<bool>, current: bool) -> bool {
    match v {
        Some(b) => b,
        None => current,
    }
}

pub open spec fn requested_visibility(word: Option<Seq<char>>, current: Visibility) -> Visibility {
    match word {
        Some(w) => if w == "public"@ {
            Visibility::Public
        } else if w == "private"@ {
            Visibility::Private
        } else {
            current
        },
        None => current,
    }
}

pub open spec fn requested_join_mode(word: Option<Seq<char>>, current: JoinMode) -> JoinMode {
    match word {
        Some(w) => if w == "invite_only"@ {
            JoinMode::InviteOnly
        } else if w == "request_to_join"@ {
            JoinMode::RequestToJoin
        } else if w == "open"@ {
            JoinMode::Open
        } else {
            current
        },
        None => current,
    }
}

/// The configuration that a request asks for: the current one, with every
/// setting that the request names replaced.
pub open spec fn requested(c: GroupConfigView, u: ConfigUpdateView) -> GroupConfigView {
    GroupConfigView {
        name: match u.group_name {
            Some(n) => n,
            None => c.name,
        },
        visibility: requested_visibility(u.visibility, c.visibility),
        join_mode: requested_join_mode(u.join_mode, c.join_mode),
        description: match u.description {
            Some(d) => Some(d),
            None => c.description,
        },
        avatar: match u.avatar {
            Some(a) => Some(a),
            None => c.avatar,
        },
        max_members: match u.max_members {
            Some(m) => Some(m),
            None => c.max_members,
        },
        slow_mode_delay: match u.slow_mode_delay {
            Some(d) => Some(d),
            None => c.slow_mode_delay,
        },
        allow_stickers: flag_or(u.allow_stickers, c.allow_stickers),
        allow_gifs: flag_or(u.allow_gifs, c.allow_gifs),
        allow_voice_messages: flag_or(u.allow_voice_messages, c.allow_voice_messages),
        allow_video_messages: flag_or(u.allow_video_messages, c.allow_video_messages),
        allow_links: flag_or(u.allow_links, c.allow_links),
        default_permissions: match u.allow_messages {
            Some(allow) => Permissions { send_messages: allow, ..c.default_permissions },
            None => c.default_permissions,
        },
        ..c
    }
}

/// The names of the changed fields, separated by a comma and a space.
pub open spec fn joined_fields(changes: Seq<ConfigChangeView>) -> Seq<char>
    decreases changes.len(),
{
    if changes.len() == 0 {
        Seq::empty()
    } else if changes.len() == 1 {
        changes[0].field
    } else {
        joined_fields(changes.drop_last()) + ", "@ + changes.last().field
    }
}

/// Whether a user may ask for changes of the configuration at all: with
/// `rename_group` or `manage_permissions`.
pub open spec fn may_edit(c: GroupConfigView, user_id: u64) -> bool {
    c.has_permission(user_id, "rename_group"@) || c.has_permission(
        user_id,
        "manage_permissions"@,
    )
}

/// The verdict on a request to change the configuration: the configuration
/// asked for, or why it is refused. The user must be allowed to edit, the
/// avatar must not be larger than 5 MiB, and every change must be one that
/// the user may make.
pub open spec fn spec_config_update(c: GroupConfigView, user_id: u64, u: ConfigUpdateView) -> Result<
    GroupConfigView,
    Seq<char>,
> {
    if !may_edit(c, user_id) {
        Err("You don't have permission to edit group configuration"@)
    } else if u.avatar matches Some(a) && a.len() > MAX_AVATAR_SIZE {
        Err("Avatar size must be less than 5MB"@)
    } else if !spec_valid(c, requested(c, u), user_id) {
        Err(
            "Error validating group configuration: "@ + joined_fields(
                spec_changes(c, requested(c, u)),
            ),
        )
    } else {
        Ok(requested(c, u))
    }
}

fn join_fields(changes: &Vec<ConfigChange>) -> (s: String)
    ensures
        s@ == joined_fields(change_views(changes@)),
{
    let ghost cv = change_views(changes@);
    let mut s = String::new();
    let mut i: usize = 0;
    assert(cv.subrange(0, 0) =~= Seq::<ConfigChangeView>::empty());
    while i < changes.len()
        invariant
            i <= changes.len(),
            cv == change_views(changes@),
            s@ == joined_fields(cv.subrange(0, i as int)),
        decreases changes.len() - i,
    {
        proof {
            assert(cv.subrange(0, i + 1).drop_last() =~= cv.subrange(0, i as int));
            assert(cv.subrange(0, i + 1).last().field == changes@[i as int].field@);
            if i == 0 {
                assert(cv.subrange(0, 1)[0].field == changes@[0].field@);
            }
        }
        if i == 0 {
            s = changes[i].field.clone();
        } else {
            let head = join_text(s.as_str(), ", ");
            s = join_text(head.as_str(), changes[i].field.as_str());
        }
        i += 1;
    }
    assert(cv.subrange(0, cv.len() as int) =~= cv);
    s
}

fn visibility_of(word: &Option<String>, current: Visibility) -> (v: Visibility)
    ensures
        v == requested_visibility(opt_text(*word), current),
{
    match word {
        Some(w) => {
            if *w.as_str() == *"public" {
                Visibility::Public
            } else if *w.as_str() == *"private" {
                Visibility::Private
            } else {
                current
            }
        },
        None => current,
    }
}

fn join_mode_of(word: &Option<String>, current: JoinMode) -> (v: JoinMode)
    ensures
        v == requested_join_mode(opt_text(*word), current),
{
    match word {
        Some(w) => {
            if *w.as_str() == *"invite_only" {
                JoinMode::InviteOnly
            } else if *w.as_str() == *"request_to_join" {
                JoinMode::RequestToJoin
            } else if *w.as_str() == *"open" {
                JoinMode::Open
            } else {
                current
            }
        },
        None => current,
    }
}

fn flag_of(v: Option<bool>, current: bool) -> (r: bool)
    ensures
        r == flag_or(v, current),
{
    match v {
        Some(b) => b,
        None => current,
    }
}

fn text_or(v: Option<String>, current: &String) -> (r: String)
    ensures
        r@ == match v {
            Some(t) => t@,
            None => current@,
        },
{
    match v {
        Some(t) => t,
        None => current.clone(),
    }
}

fn opt_text_or(v: Option<String>, current: &Option<String>) -> (r: Option<String>)
    ensures
        opt_text(r) == match v {
            Some(t) => Some(t@),
            None => opt_text(*current),
        },
{
    match v {
        Some(t) => Some(t),
        None => copy_opt_text(current),
    }
}

fn opt_bytes_or(v: Option<Vec<u8>>, current: &Option<Vec<u8>>) -> (r: Option<Vec<u8>>)
    ensures
        opt_bytes(r) == match v {
            Some(b) => Some(b@),
            None => opt_bytes(*current),
        },
{
    match v {
        Some(b) => Some(b),
        None => copy_opt_bytes(current),
    }
}

fn number_or(v: Option<u32>, current: Option<u32>) -> (r: Option<u32>)
    ensures
        r == match v {
            Some(n) => Some(n),
            None => current,
        },
{
    match v {
        Some(n) => Some(n),
        None => current,
    }
}

/// The configuration that a request asks for, dated now.
fn apply_update(config: &GroupConfig, update: ConfigUpdate) -> (new_config: GroupConfig)
    ensures
        new_config@.touched(requested(config@, update@)),
{
    let ghost asked = requested(config@, update@);
    let visibility = visibility_of(&update.visibility, config.visibility);
    let join_mode = join_mode_of(&update.join_mode, config.join_mode);
    let default_permissions = match update.allow_messages {
        Some(allow) => config.default_permissions.with_send_messages(allow),
        None => config.default_permissions,
    };
    let new_config = GroupConfig {
        id: config.id,
        name: text_or(update.group_name, &config.name),
        created_at: config.created_at,
        updated_at: DateTime { timestamp: now_secs() },
        visibility,
        join_mode,
        invite_link: copy_opt_text(&config.invite_link),
        max_members: number_or(update.max_members, config.max_members),
        creator_id: config.creator_id,
        members: copy_ids(&config.members),
        admins: copy_ids(&config.admins),
        permissions: copy_table(&config.permissions),
        default_permissions,
        banned: copy_ids(&config.banned),
        muted: copy_table(&config.muted),
        description: opt_text_or(update.description, &config.description),
        avatar: opt_bytes_or(update.avatar, &config.avatar),
        banner: copy_opt_bytes(&config.banner),
        pinned_message_id: config.pinned_message_id,
        slow_mode_delay: number_or(update.slow_mode_delay, config.slow_mode_delay),
        allow_stickers: flag_of(update.allow_stickers, config.allow_stickers),
        allow_gifs: flag_of(update.allow_gifs, config.allow_gifs),
        allow_voice_messages: flag_of(update.allow_voice_messages, config.allow_voice_messages),
        allow_video_messages: flag_of(update.allow_video_messages, config.allow_video_messages),
        allow_links: flag_of(update.allow_links, config.allow_links),
    };
    new_config
}

/// Judges a request to change the configuration; see
/// [`spec_config_update`]. The configuration that is handed back is the one
/// to propose to the group.
pub fn plan_config_update(config: &GroupConfig, user_id: u64, update: ConfigUpdate) -> (r: Result<
    GroupConfig,
    String,
>)
    ensures
        match (r, spec_config_update(config@, user_id, update@)) {
            (Ok(new_config), Ok(expected)) => new_config@.touched(expected) && (
            config@.well_formed() ==> new_config@.well_formed()),
            (Err(e), Err(se)) => e@ == se,
            _ => false,
        },
{
    let can_edit = config.has_permission(user_id, "rename_group") || config.has_permission(
        user_id,
        "manage_permissions",
    );
    if !can_edit {
        return Err("You don't have permission to edit group configuration".to_string());
    }
    let too_large = match &update.avatar {
        Some(a) => a.len() > MAX_AVATAR_SIZE,
        None => false,
    };
    if too_large {
        return Err("Avatar size must be less than 5MB".to_string());
    }
    let ghost asked = requested(config@, update@);
    let new_config = apply_update(config, update);
    let validation = config.validate_changes(&new_config, user_id);
    proof {
        lemma_valid_ignores_time(config@, new_config@, asked, user_id);
    }
    if !validation.valid {
        let fields = join_fields(&validation.changes);
        return Err(join_text("Error validating group configuration: ", fields.as_str()));
    }
    Ok(new_config)
}

/// The time of the last update plays no part in validation.
pub proof fn lemma_valid_ignores_time(
    a: GroupConfigView,
    b: GroupConfigView,
    c: GroupConfigView,
    user_id: u64,
)
    requires
        b.touched(c),
    ensures
        spec_valid(a, b, user_id) == spec_valid(a, c, user_id),
        spec_changes(a, b) == spec_changes(a, c),
{
    lemma_changes_ignore_time(a, b, c, 18);
}

proof fn lemma_changes_ignore_time(a: GroupConfigView, b: GroupConfigView, c: GroupConfigView, n: nat)
    requires
        b.touched(c),
    ensures
        crate::group::config::changes_upto(a, b, n) == crate::group::config::changes_upto(a, c, n),
    decreases n,
{
    if n > 0 {
        lemma_changes_ignore_time(a, b, c, (n - 1) as nat);
        assert(crate::group::config::field_change(a, b, n - 1) == crate::group::config::field_change(
            a,
            c,
            n - 1,
        ));
    }
}

/// A request to change a member's permissions: for each permission, the
/// new value, or nothing to leave it as it is.
#[derive(Debug, Clone, Copy, PartialEq, Eq, Structural)]
pub struct PermissionPatch {
    pub manage_members: Option<bool>,
    pub send_messages: Option<bool>,
    pub delete_messages: Option<bool>,
    pub rename_group: Option<bool>,
    pub manage_permissions: Option<bool>,
    pub pin_messages: Option<bool>,
    pub manage_admins: Option<bool>,
}

/// The permissions after a patch.
pub open spec fn patched(p: Permissions, patch: PermissionPatch) -> Permissions {
    Permissions {
        manage_members: flag_or(patch.manage_members, p.manage_members),
        send_messages: flag_or(patch.send_messages, p.send_messages),
        delete_messages: flag_or(patch.delete_messages, p.delete_messages),
        rename_group: flag_or(patch.rename_group, p.rename_group),
        manage_permissions: flag_or(patch.manage_permissions, p.manage_permissions),
        pin_messages: flag_or(patch.pin_messages, p.pin_messages),
        manage_admins: flag_or(patch.manage_admins, p.manage_admins),
    }
}

pub open spec fn not_a_member(member_id: u64) -> Seq<char> {
    "User with ID "@ + decimal_text(member_id as nat) + " is not a member of the group"@
}

/// The verdict on a request to change a member's permissions: the
/// configuration to propose, or why the request is refused. The user must
/// hold `manage_permissions`, and the member must be one. With a role, the
/// member gets the role. Without, the member's entry in the permission
/// table, if there is one, is patched.
pub open spec fn spec_member_permissions(
    c: GroupConfigView,
    user_id: u64,
    member_id: u64,
    patch: PermissionPatch,
    role: Option<Seq<char>>,
) -> Result<GroupConfigView, Seq<char>> {
    if !c.has_permission(user_id, "manage_permissions"@) {
        Err("You don't have permission to edit user permissions"@)
    } else if !c.is_member(member_id) {
        Err(not_a_member(member_id))
    } else {
        match role {
            Some(r) => Ok(
                GroupConfigView {
                    permissions: role_table(c, member_id, r),
                    admins: role_admins(c, member_id, r),
                    ..c
                },
            ),
            None => Ok(
                if c.permissions.contains_key(member_id) {
                    GroupConfigView {
                        permissions: c.permissions.insert(
                            member_id,
                            patched(c.permissions[member_id], patch),
                        ),
                        ..c
                    }
                } else {
                    c
                },
            ),
        }
    }
}

fn patch_permissions(p: Permissions, patch: &PermissionPatch) -> (r: Permissions)
    ensures
        r == patched(p, *patch),
{
    Permissions {
        manage_members: flag_of(patch.manage_members, p.manage_members),
        send_messages: flag_of(patch.send_messages, p.send_messages),
        delete_messages: flag_of(patch.delete_messages, p.delete_messages),
        rename_group: flag_of(patch.rename_group, p.rename_group),
        manage_permissions: flag_of(patch.manage_permissions, p.manage_permissions),
        pin_messages: flag_of(patch.pin_messages, p.pin_messages),
        manage_admins: flag_of(patch.manage_admins, p.manage_admins),
    }
}

/// Judges a request to change a member's permissions; see
/// [`spec_member_permissions`].
pub fn plan_member_permissions(
    config: &GroupConfig,
    user_id: u64,
    member_id: u64,
    patch: &PermissionPatch,
    role: Option<&str>,
) -> (r: Result<GroupConfig, String>)
    ensures
        match (
            r,
            spec_member_permissions(
                config@,
                user_id,
                member_id,
                *patch,
                match role {
                    Some(t) => Some(t@),
                    None => None,
                },
            ),
        ) {
            (Ok(new_config), Ok(expected)) => new_config@.touched(expected) && (
            config@.well_formed() ==> new_config@.well_formed()),
            (Err(e), Err(se)) => e@ == se,
            _ => false,
        },
{
    if !config.has_permission(user_id, "manage_permissions") {
        return Err("You don't have permission to edit user permissions".to_string());
    }
    if !config.is_member(member_id) {
        let id = u64_to_text(member_id);
        let head = join_text("User with ID ", id.as_str());
        return Err(join_text(head.as_str(), " is not a member of the group"));
    }
    let mut new_config = config.duplicate();
    match role {
        Some(role_name) => {
            new_config.set_member_role(member_id, role_name);
        },
        None => {
            let current = match new_config.get_member_permissions(member_id) {
                Some(p) => Some(*p),
                None => None,
            };
            match current {
                Some(p) => {
                    new_config.set_permissions(member_id, patch_permissions(p, patch));
                },
                None => {},
            }
        },
    }
    Ok(new_config)
}

/// The label under which a group exports the key that the interface shows
/// for it.
pub const DISPLAY_KEY_LABEL: &'static str = "Display Key";

/// The length of that key, in bytes.
pub const DISPLAY_KEY_LENGTH: usize = 32;

/// The lowest id that a new group gets.
pub const GROUP_ID_MIN: u64 = 100_000_000_000;

/// The id above the highest that a new group gets.
pub const GROUP_ID_END: u64 = 1_000_000_000_000;

/// A fresh id for a new group: a random number of twelve digits.
pub fn generate_group_id() -> (id: u64)
    ensures
        GROUP_ID_MIN <= id < GROUP_ID_END,
{
    random_in(GROUP_ID_MIN, GROUP_ID_END)
}

/// A request to create a group: its name and, for each setting, the value
/// that is asked for, or nothing to take the usual one.
#[derive(Debug)]
pub struct NewGroup {
    pub group_name: String,
    /// `public` or `private`; any other word asks for nothing.
    pub visibility: Option<String>,
    /// `invite_only`, `request_to_join` or `open`; any other word asks for
    /// nothing.
    pub join_mode: Option<String>,
    pub description: Option<String>,
    pub max_members: Option<u32>,
    pub slow_mode_delay: Option<u32>,
    pub allow_stickers: Option<bool>,
    pub allow_gifs: Option<bool>,
    pub allow_voice_messages: Option<bool>,
    pub allow_video_messages: Option<bool>,
    pub allow_links: Option<bool>,
}

pub struct NewGroupView {
    pub group_name: Seq<char>,
    pub visibility: Option<Seq<char>>,
    pub join_mode: Option<Seq<char>>,
    pub description: Option<Seq<char>>,
    pub max_members: Option<u32>,
    pub slow_mode_delay: Option<u32>,
    pub allow_stickers: Option<bool>,
    pub allow_gifs: Option<bool>,
    pub allow_voice_messages: Option<bool>,
    pub allow_video_messages: Option<bool>,
    pub allow_links: Option<bool>,
}

impl View for NewGroup {
    type V = NewGroupView;

    open spec fn view(&self) -> NewGroupView {
        NewGroupView {
            group_name: self.group_name@,
            visibility: opt_text(self.visibility),
            join_mode: opt_text(self.join_mode),
            description: opt_text(self.description),
            max_members: self.max_members,
            slow_mode_delay: self.slow_mode_delay,
            allow_stickers: self.allow_stickers,
            allow_gifs: self.allow_gifs,
            allow_voice_messages: self.allow_voice_messages,
            allow_video_messages: self.allow_video_messages,
            allow_links: self.allow_links,
        }
    }
}

/// The visibility that a word names, if it names one. A new group cannot be
/// asked to be hidden.
pub open spec fn named_visibility(word: Option<Seq<char>>) -> Option<Visibility> {
    match word {
        Some(w) => if w == "public"@ {
            Some(Visibility::Public)
        } else if w == "private"@ {
            Some(Visibility::Private)
        } else {
            None
        },
        None => None,
    }
}

/// The way of joining that a word names, if it names one.
pub open spec fn named_join_mode(word: Option<Seq<char>>) -> Option<JoinMode> {
    match word {
        Some(w) => if w == "invite_only"@ {
            Some(JoinMode::InviteOnly)
        } else if w == "request_to_join"@ {
            Some(JoinMode::RequestToJoin)
        } else if w == "open"@ {
            Some(JoinMode::Open)
        } else {
            None
        },
        None => None,
    }
}

/// What the builder of a new group holds: the id, the name, the creator,
/// and each setting that the request names. The group starts with its
/// creator alone.
pub open spec fn collected(group_id: u64, creator_id: u64, request: NewGroupView) -> BuilderView {
    BuilderView {
        visibility: named_visibility(request.visibility),
        join_mode: named_join_mode(request.join_mode),
        description: request.description,
        max_members: request.max_members,
        slow_mode_delay: request.slow_mode_delay,
        allow_stickers: request.allow_stickers,
        allow_gifs: request.allow_gifs,
        allow_voice_messages: request.allow_voice_messages,
        allow_video_messages: request.allow_video_messages,
        allow_links: request.allow_links,
        ..BuilderView::initial(group_id, request.group_name, creator_id)
    }
}

/// Why a request to create a group is refused, if it is: the name is blank,
/// or the member limit is zero.
pub open spec fn new_group_error(request: NewGroupView) -> Option<GroupConfigBuilderError> {
    if is_blank(request.group_name) {
        Some(GroupConfigBuilderError::InvalidGroupName)
    } else if request.max_members == Some(0u32) {
        Some(GroupConfigBuilderError::InvalidMaxMembers)
    } else {
        None
    }
}

fn visibility_named(word: &Option<String>) -> (v: Option<Visibility>)
    ensures
        v == named_visibility(opt_text(*word)),
{
    match word {
        Some(w) => {
            if *w.as_str() == *"public" {
                Some(Visibility::Public)
            } else if *w.as_str() == *"private" {
                Some(Visibility::Private)
            } else {
                None
            }
        },
        None => None,
    }
}

fn join_mode_named(word: &Option<String>) -> (v: Option<JoinMode>)
    ensures
        v == named_join_mode(opt_text(*word)),
{
    match word {
        Some(w) => {
            if *w.as_str() == *"invite_only" {
                Some(JoinMode::InviteOnly)
            } else if *w.as_str() == *"request_to_join" {
                Some(JoinMode::RequestToJoin)
            } else if *w.as_str() == *"open" {
                Some(JoinMode::Open)
            } else {
                None
            }
        },
        None => None,
    }
}

/// The builder of a new group, filled from a request.
pub fn new_group_builder(group_id: u64, creator_id: u64, request: NewGroup) -> (b: GroupConfigBuilder)
    ensures
        b@ == collected(group_id, creator_id, request@),
{
    let visibility = visibility_named(&request.visibility);
    let join_mode = join_mode_named(&request.join_mode);
    let mut b = GroupConfigBuilder::new(group_id, request.group_name, creator_id);
    match visibility {
        Some(v) => {
            b = b.with_visibility(v);
        },
        None => {},
    }
    match join_mode {
        Some(v) => {
            b = b.with_join_mode(v);
        },
        None => {},
    }
    match request.description {
        Some(text) => {
            b = b.described(text);
        },
        None => {},
    }
    match request.max_members {
        Some(max) => {
            b = b.with_max_members(max);
        },
        None => {},
    }
    match request.slow_mode_delay {
        Some(delay) => {
            b = b.with_slow_mode_delay(delay);
        },
        None => {},
    }
    match request.allow_stickers {
        Some(allow) => {
            b = b.allow_stickers(allow);
        },
        None => {},
    }
    match request.allow_gifs {
        Some(allow) => {
            b = b.allow_gifs(allow);
        },
        None => {},
    }
    match request.allow_voice_messages {
        Some(allow) => {
            b = b.allow_voice_messages(allow);
        },
        None => {},
    }
    match request.allow_video_messages {
        Some(allow) => {
            b = b.allow_video_messages(allow);
        },
        None => {},
    }
    match request.allow_links {
        Some(allow) => {
            b = b.allow_links(allow);
        },
        None => {},
    }
    b
}

/// The configuration of a new group with the given id, as a request asks
/// for it. A blank name and a member limit of zero are refused; whatever
/// else is asked for is granted.
pub fn plan_new_group(group_id: u64, creator_id: u64, request: NewGroup) -> (r: Result<
    GroupConfig,
    GroupConfigBuilderError,
>)
    ensures
        match r {
            Ok(config) => new_group_error(request@) is None && config@ == collected(
                group_id,
                creator_id,
                request@,
            ).built(config@.created_at) && config@.well_formed() && config@.is_admin(
                creator_id,
            ),
            Err(e) => new_group_error(request@) == Some(e),
        },
{
    new_group_builder(group_id, creator_id, request).build()
}

} // verus!
