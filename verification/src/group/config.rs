//! Group configuration: who belongs to a group, what each member may do, and
//! which changes of the configuration a member may make.

use vstd::prelude::*;
use std::collections::HashMap;
use vstd::set_lib::lemma_len_subset;
use crate::support::clock::now_secs;
use crate::support::text::{
    contains_id, decimal_text, list_text, opt_bytes, opt_text, same_ids, same_opt_bytes,
    same_opt_text, u32_to_text, u64_list_to_text, u64_to_text, copy_ids, copy_opt_bytes,
    copy_opt_text,
};
use crate::support::maps::{copy_table, hash_keys};

use crate::group::membership::{
    all_are, all_outside, all_within, drop_id, enter_id, keep_outside, keep_within,
    lemma_with_admin, lemma_with_banned, lemma_with_member, lemma_without_admin,
    lemma_without_member, with_id, without_id,
};

verus! {

/// A point in time, in seconds since the Unix epoch.
#[derive(Debug, Clone, Copy, PartialEq, Eq, Structural)]
pub struct DateTime {
    pub timestamp: u64,
}

/// Who can see that the group exists.
#[derive(Debug, Clone, Copy, PartialEq, Eq, Structural)]
pub enum Visibility {
    Public,
    Private,
    Hidden,
}

/// How new members come in.
#[derive(Debug, Clone, Copy, PartialEq, Eq, Structural)]
pub enum JoinMode {
    Open,
    InviteOnly,
    RequestToJoin,
}

impl Visibility {
    /// The number that stands for the variant on the wire.
    pub fn code(&self) -> (c: u8)
        ensures
            c == self.spec_code(),
    {
        match self {
            Visibility::Public => 1,
            Visibility::Private => 2,
            Visibility::Hidden => 3,
        }
    }

    pub open spec fn spec_code(&self) -> u8 {
        match self {
            Visibility::Public => 1,
            Visibility::Private => 2,
            Visibility::Hidden => 3,
        }
    }

    pub open spec fn spec_name(&self) -> Seq<char> {
        match self {
            Visibility::Public => "Public"@,
            Visibility::Private => "Private"@,
            Visibility::Hidden => "Hidden"@,
        }
    }

    /// The variant's name.
    pub fn name(&self) -> (s: String)
        ensures
            s@ == self.spec_name(),
    {
        match self {
            Visibility::Public => "Public".to_string(),
            Visibility::Private => "Private".to_string(),
            Visibility::Hidden => "Hidden".to_string(),
        }
    }
}

impl JoinMode {
    /// The number that stands for the variant on the wire.
    pub fn code(&self) -> (c: u8)
        ensures
            c == self.spec_code(),
    {
        match self {
            JoinMode::Open => 1,
            JoinMode::InviteOnly => 2,
            JoinMode::RequestToJoin => 3,
        }
    }

    pub open spec fn spec_code(&self) -> u8 {
        match self {
            JoinMode::Open => 1,
            JoinMode::InviteOnly => 2,
            JoinMode::RequestToJoin => 3,
        }
    }

    pub open spec fn spec_name(&self) -> Seq<char> {
        match self {
            JoinMode::Open => "Open"@,
            JoinMode::InviteOnly => "InviteOnly"@,
            JoinMode::RequestToJoin => "RequestToJoin"@,
        }
    }

    /// The variant's name.
    pub fn name(&self) -> (s: String)
        ensures
            s@ == self.spec_name(),
    {
        match self {
            JoinMode::Open => "Open".to_string(),
            JoinMode::InviteOnly => "InviteOnly".to_string(),
            JoinMode::RequestToJoin => "RequestToJoin".to_string(),
        }
    }
}

/// What a member may do in a group.
#[derive(Debug, Clone, Copy, PartialEq, Eq, Structural)]
pub struct Permissions {
    pub manage_members: bool,
    pub send_messages: bool,
    pub delete_messages: bool,
    pub rename_group: bool,
    pub manage_permissions: bool,
    pub pin_messages: bool,
    pub manage_admins: bool,
}

impl Permissions {
    /// The permissions of the `admin` role: everything.
    pub open spec fn spec_admin() -> Permissions {
        Permissions {
            manage_members: true,
            send_messages: true,
            delete_messages: true,
            rename_group: true,
            manage_permissions: true,
            pin_messages: true,
            manage_admins: true,
        }
    }

    /// The permissions of the `moderator` role.
    pub open spec fn spec_moderator() -> Permissions {
        Permissions {
            manage_members: true,
            send_messages: true,
            delete_messages: true,
            rename_group: false,
            manage_permissions: false,
            pin_messages: true,
            manage_admins: false,
        }
    }

    /// The permissions of the `member` role: sending messages only.
    pub open spec fn spec_member() -> Permissions {
        Permissions {
            manage_members: false,
            send_messages: true,
            delete_messages: false,
            rename_group: false,
            manage_permissions: false,
            pin_messages: false,
            manage_admins: false,
        }
    }

    /// The permissions of the `reader` role: nothing.
    pub open spec fn spec_reader() -> Permissions {
        Permissions {
            manage_members: false,
            send_messages: false,
            delete_messages: false,
            rename_group: false,
            manage_permissions: false,
            pin_messages: false,
            manage_admins: false,
        }
    }

    /// The bit that a permission's name selects; an unknown name selects
    /// nothing.
    pub open spec fn spec_has_permission(&self, permission: Seq<char>) -> bool {
        if permission == "manage_members"@ {
            self.manage_members
        } else if permission == "send_messages"@ {
            self.send_messages
        } else if permission == "delete_messages"@ {
            self.delete_messages
        } else if permission == "rename_group"@ {
            self.rename_group
        } else if permission == "manage_permissions"@ {
            self.manage_permissions
        } else if permission == "pin_messages"@ {
            self.pin_messages
        } else if permission == "manage_admins"@ {
            self.manage_admins
        } else {
            false
        }
    }

    /// What a member gets where nothing else is said: managing members and
    /// sending messages.
    pub open spec fn spec_default() -> Permissions {
        Permissions {
            manage_members: true,
            send_messages: true,
            delete_messages: false,
            rename_group: false,
            manage_permissions: false,
            pin_messages: false,
            manage_admins: false,
        }
    }

    pub fn default() -> (p: Permissions)
        ensures
            p == Permissions::spec_default(),
    {
        Permissions {
            manage_members: true,
            send_messages: true,
            delete_messages: false,
            rename_group: false,
            manage_permissions: false,
            pin_messages: false,
            manage_admins: false,
        }
    }

    pub fn admin() -> (p: Permissions)
        ensures
            p == Permissions::spec_admin(),
    {
        Permissions {
            manage_members: true,
            send_messages: true,
            delete_messages: true,
            rename_group: true,
            manage_permissions: true,
            pin_messages: true,
            manage_admins: true,
        }
    }

    pub fn moderator() -> (p: Permissions)
        ensures
            p == Permissions::spec_moderator(),
    {
        Permissions {
            manage_members: true,
            send_messages: true,
            delete_messages: true,
            rename_group: false,
            manage_permissions: false,
            pin_messages: true,
            manage_admins: false,
        }
    }

    pub fn member() -> (p: Permissions)
        ensures
            p == Permissions::spec_member(),
    {
        Permissions {
            manage_members: false,
            send_messages: true,
            delete_messages: false,
            rename_group: false,
            manage_permissions: false,
            pin_messages: false,
            manage_admins: false,
        }
    }

    pub fn reader() -> (p: Permissions)
        ensures
            p == Permissions::spec_reader(),
    {
        Permissions {
            manage_members: false,
            send_messages: false,
            delete_messages: false,
            rename_group: false,
            manage_permissions: false,
            pin_messages: false,
            manage_admins: false,
        }
    }

    pub fn with_manage_members(self, value: bool) -> (p: Permissions)
        ensures
            p == (Permissions { manage_members: value, ..self }),
    {
        let mut p = self;
        p.manage_members = value;
        p
    }

    pub fn with_send_messages(self, value: bool) -> (p: Permissions)
        ensures
            p == (Permissions { send_messages: value, ..self }),
    {
        let mut p = self;
        p.send_messages = value;
        p
    }

    pub fn with_delete_messages(self, value: bool) -> (p: Permissions)
        ensures
            p == (Permissions { delete_messages: value, ..self }),
    {
        let mut p = self;
        p.delete_messages = value;
        p
    }

    pub fn with_rename_group(self, value: bool) -> (p: Permissions)
        ensures
            p == (Permissions { rename_group: value, ..self }),
    {
        let mut p = self;
        p.rename_group = value;
        p
    }

    pub fn with_manage_permissions(self, value: bool) -> (p: Permissions)
        ensures
            p == (Permissions { manage_permissions: value, ..self }),
    {
        let mut p = self;
        p.manage_permissions = value;
        p
    }

    pub fn with_pin_messages(self, value: bool) -> (p: Permissions)
        ensures
            p == (Permissions { pin_messages: value, ..self }),
    {
        let mut p = self;
        p.pin_messages = value;
        p
    }

    pub fn with_manage_admins(self, value: bool) -> (p: Permissions)
        ensures
            p == (Permissions { manage_admins: value, ..self }),
    {
        let mut p = self;
        p.manage_admins = value;
        p
    }

    /// Whether the named permission is granted. The names are those of the
    /// fields; any other name is granted to nobody.
    pub fn has_permission(&self, permission: &str) -> (granted: bool)
        ensures
            granted == self.spec_has_permission(permission@),
    {
        if *permission == *"manage_members" {
            self.manage_members
        } else if *permission == *"send_messages" {
            self.send_messages
        } else if *permission == *"delete_messages" {
            self.delete_messages
        } else if *permission == *"rename_group" {
            self.rename_group
        } else if *permission == *"manage_permissions" {
            self.manage_permissions
        } else if *permission == *"pin_messages" {
            self.pin_messages
        } else if *permission == *"manage_admins" {
            self.manage_admins
        } else {
            false
        }
    }
}

/// A group's configuration.
#[derive(Debug, Clone)]
pub struct GroupConfig {
    pub id: u64,
    pub name: String,
    pub created_at: DateTime,
    pub updated_at: DateTime,
    pub visibility: Visibility,
    pub join_mode: JoinMode,
    pub invite_link: Option<String>,
    pub max_members: Option<u32>,
    pub creator_id: u64,
    pub members: Vec<u64>,
    pub admins: Vec<u64>,
    /// Per-member permissions, by user id.
    pub permissions: HashMap<u64, Permissions>,
    pub default_permissions: Permissions,
    pub banned: Vec<u64>,
    /// Muted members, each with the time until which the mute holds.
    pub muted: HashMap<u64, DateTime>,
    pub description: Option<String>,
    pub avatar: Option<Vec<u8>>,
    pub banner: Option<Vec<u8>>,
    pub pinned_message_id: Option<u64>,
    /// Slow mode delay in seconds.
    pub slow_mode_delay: Option<u32>,
    pub allow_stickers: bool,
    pub allow_gifs: bool,
    pub allow_voice_messages: bool,
    pub allow_video_messages: bool,
    pub allow_links: bool,
}

/// The mathematical content of a [`GroupConfig`].
pub struct GroupConfigView {
    pub id: u64,
    pub name: Seq<char>,
    pub created_at: DateTime,
    pub updated_at: DateTime,
    pub visibility: Visibility,
    pub join_mode: JoinMode,
    pub invite_link: Option<Seq<char>>,
    pub max_members: Option<u32>,
    pub creator_id: u64,
    pub members: Seq<u64>,
    pub admins: Seq<u64>,
    pub permissions: Map<u64, Permissions>,
    pub default_permissions: Permissions,
    pub banned: Seq<u64>,
    pub muted: Map<u64, DateTime>,
    pub description: Option<Seq<char>>,
    pub avatar: Option<Seq<u8>>,
    pub banner: Option<Seq<u8>>,
    pub pinned_message_id: Option<u64>,
    pub slow_mode_delay: Option<u32>,
    pub allow_stickers: bool,
    pub allow_gifs: bool,
    pub allow_voice_messages: bool,
    pub allow_video_messages: bool,
    pub allow_links: bool,
}

impl View for GroupConfig {
    type V = GroupConfigView;

    open spec fn view(&self) -> GroupConfigView {
        GroupConfigView {
            id: self.id,
            name: self.name@,
            created_at: self.created_at,
            updated_at: self.updated_at,
            visibility: self.visibility,
            join_mode: self.join_mode,
            invite_link: opt_text(self.invite_link),
            max_members: self.max_members,
            creator_id: self.creator_id,
            members: self.members@,
            admins: self.admins@,
            permissions: self.permissions@,
            default_permissions: self.default_permissions,
            banned: self.banned@,
            muted: self.muted@,
            description: opt_text(self.description),
            avatar: opt_bytes(self.avatar),
            banner: opt_bytes(self.banner),
            pinned_message_id: self.pinned_message_id,
            slow_mode_delay: self.slow_mode_delay,
            allow_stickers: self.allow_stickers,
            allow_gifs: self.allow_gifs,
            allow_voice_messages: self.allow_voice_messages,
            allow_video_messages: self.allow_video_messages,
            allow_links: self.allow_links,
        }
    }
}

/// The index of the first occurrence of `x` in `s`; the length of `s` where
/// there is none.
pub open spec fn first_index(s: Seq<u64>, x: u64) -> int
    decreases s.len(),
{
    if s.len() == 0 {
        0
    } else if s[0] == x {
        0
    } else {
        1 + first_index(s.drop_first(), x)
    }
}

impl GroupConfigView {
    pub open spec fn is_admin(self, user_id: u64) -> bool {
        self.admins.contains(user_id)
    }

    pub open spec fn is_member(self, user_id: u64) -> bool {
        self.members.contains(user_id)
    }

    pub open spec fn is_banned(self, user_id: u64) -> bool {
        self.banned.contains(user_id)
    }

    pub open spec fn is_muted(self, user_id: u64) -> bool {
        self.muted.contains_key(user_id)
    }

    /// The permissions that count for a user who is no admin: the user's own
    /// entry where there is one, the group's defaults where there is none.
    pub open spec fn effective_permissions(self, user_id: u64) -> Permissions {
        if self.permissions.contains_key(user_id) {
            self.permissions[user_id]
        } else {
            self.default_permissions
        }
    }

    /// An admin may do everything; anyone else what the effective
    /// permissions grant.
    pub open spec fn has_permission(self, user_id: u64, permission: Seq<char>) -> bool {
        self.is_admin(user_id) || self.effective_permissions(user_id).spec_has_permission(
            permission,
        )
    }

    pub open spec fn is_full(self) -> bool {
        match self.max_members {
            Some(max) => self.members.len() >= max,
            None => false,
        }
    }

    /// The invariant of a configuration: the creator is a member, every
    /// admin is a member, no member is banned, and there is an admin.
    pub open spec fn well_formed(self) -> bool {
        &&& self.members.contains(self.creator_id)
        &&& forall|i: int| 0 <= i < self.admins.len() ==> self.members.contains(self.admins[i])
        &&& forall|i: int| 0 <= i < self.banned.len() ==> !self.members.contains(self.banned[i])
        &&& self.admins.len() > 0
    }

    /// The same configuration, whatever the time of the last update.
    pub open spec fn touched(self, other: GroupConfigView) -> bool {
        self == (GroupConfigView { updated_at: self.updated_at, ..other })
    }
}

/// One field that differs between two configurations, with both values as
/// text.
#[derive(Debug, Clone)]
pub struct ConfigChange {
    pub field: String,
    pub old_value: String,
    pub new_value: String,
}

pub struct ConfigChangeView {
    pub field: Seq<char>,
    pub old_value: Seq<char>,
    pub new_value: Seq<char>,
}

impl View for ConfigChange {
    type V = ConfigChangeView;

    open spec fn view(&self) -> ConfigChangeView {
        ConfigChangeView {
            field: self.field@,
            old_value: self.old_value@,
            new_value: self.new_value@,
        }
    }
}

/// What [`GroupConfig::validate_changes`] found: the fields that differ, and
/// whether the user may make all of these changes.
#[derive(Debug, Clone)]
pub struct ConfigValidationResult {
    pub changes: Vec<ConfigChange>,
    pub valid: bool,
}

pub open spec fn change_views(changes: Seq<ConfigChange>) -> Seq<ConfigChangeView> {
    changes.map_values(|c: ConfigChange| c@)
}

/// The text of an optional string: its characters, or nothing.
pub open spec fn text_or_empty(v: Option<Seq<char>>) -> Seq<char> {
    match v {
        Some(t) => t,
        None => Seq::empty(),
    }
}

/// The text of an optional number: its decimal form, or `None`.
pub open spec fn u32_or_none(v: Option<u32>) -> Seq<char> {
    match v {
        Some(n) => decimal_text(n as nat),
        None => "None"@,
    }
}

pub open spec fn u64_or_none(v: Option<u64>) -> Seq<char> {
    match v {
        Some(n) => decimal_text(n as nat),
        None => "None"@,
    }
}

pub open spec fn flag_text(v: bool) -> Seq<char> {
    if v {
        "true"@
    } else {
        "false"@
    }
}

/// The entry for one field: present exactly when the field differs.
pub open spec fn one_change(
    differs: bool,
    field: Seq<char>,
    old_value: Seq<char>,
    new_value: Seq<char>,
) -> Seq<ConfigChangeView> {
    if differs {
        seq![ConfigChangeView { field, old_value, new_value }]
    } else {
        Seq::empty()
    }
}

/// The entry of the field that is reported at place `i`, counted from zero.
/// Maps, avatars and banners are reported without their contents.
pub open spec fn field_change(a: GroupConfigView, b: GroupConfigView, i: int) -> Seq<
    ConfigChangeView,
> {
    if i == 0 {
        one_change(a.name != b.name, "name"@, a.name, b.name)
    } else if i == 1 {
        one_change(
            a.visibility != b.visibility,
            "visibility"@,
            a.visibility.spec_name(),
            b.visibility.spec_name(),
        )
    } else if i == 2 {
        one_change(
            a.join_mode != b.join_mode,
            "join_mode"@,
            a.join_mode.spec_name(),
            b.join_mode.spec_name(),
        )
    } else if i == 3 {
        one_change(
            a.invite_link != b.invite_link,
            "invite_link"@,
            text_or_empty(a.invite_link),
            text_or_empty(b.invite_link),
        )
    } else if i == 4 {
        one_change(
            a.max_members != b.max_members,
            "max_members"@,
            u32_or_none(a.max_members),
            u32_or_none(b.max_members),
        )
    } else if i == 5 {
        one_change(a.members != b.members, "members"@, list_text(a.members), list_text(b.members))
    } else if i == 6 {
        one_change(a.admins != b.admins, "admins"@, list_text(a.admins), list_text(b.admins))
    } else if i == 7 {
        one_change(a.permissions != b.permissions, "permissions"@, "..."@, "..."@)
    } else if i == 8 {
        one_change(
            a.description != b.description,
            "description"@,
            text_or_empty(a.description),
            text_or_empty(b.description),
        )
    } else if i == 9 {
        one_change(a.avatar != b.avatar, "avatar"@, "..."@, "..."@)
    } else if i == 10 {
        one_change(a.banner != b.banner, "banner"@, "..."@, "..."@)
    } else if i == 11 {
        one_change(
            a.pinned_message_id != b.pinned_message_id,
            "pinned_message_id"@,
            u64_or_none(a.pinned_message_id),
            u64_or_none(b.pinned_message_id),
        )
    } else if i == 12 {
        one_change(
            a.slow_mode_delay != b.slow_mode_delay,
            "slow_mode_delay"@,
            u32_or_none(a.slow_mode_delay),
            u32_or_none(b.slow_mode_delay),
        )
    } else if i == 13 {
        one_change(
            a.allow_stickers != b.allow_stickers,
            "allow_stickers"@,
            flag_text(a.allow_stickers),
            flag_text(b.allow_stickers),
        )
    } else if i == 14 {
        one_change(
            a.allow_gifs != b.allow_gifs,
            "allow_gifs"@,
            flag_text(a.allow_gifs),
            flag_text(b.allow_gifs),
        )
    } else if i == 15 {
        one_change(
            a.allow_voice_messages != b.allow_voice_messages,
            "allow_voice_messages"@,
            flag_text(a.allow_voice_messages),
            flag_text(b.allow_voice_messages),
        )
    } else if i == 16 {
        one_change(
            a.allow_video_messages != b.allow_video_messages,
            "allow_video_messages"@,
            flag_text(a.allow_video_messages),
            flag_text(b.allow_video_messages),
        )
    } else if i == 17 {
        one_change(
            a.allow_links != b.allow_links,
            "allow_links"@,
            flag_text(a.allow_links),
            flag_text(b.allow_links),
        )
    } else {
        Seq::empty()
    }
}

/// The entries of the first `n` fields, in reporting order.
pub open spec fn changes_upto(a: GroupConfigView, b: GroupConfigView, n: nat) -> Seq<
    ConfigChangeView,
>
    decreases n,
{
    if n == 0 {
        Seq::empty()
    } else {
        changes_upto(a, b, (n - 1) as nat) + field_change(a, b, n - 1)
    }
}

/// The differences between two configurations: one entry for each of the
/// eighteen compared fields that differs, in reporting order.
pub open spec fn spec_changes(a: GroupConfigView, b: GroupConfigView) -> Seq<ConfigChangeView> {
    changes_upto(a, b, 18)
}

/// Whether the user leaves the group by this change: a member before, none
/// after.
pub open spec fn removes_self(a: GroupConfigView, b: GroupConfigView, user_id: u64) -> bool {
    a.is_member(user_id) && !b.is_member(user_id)
}

/// Whether `user_id` may turn configuration `a` into `b`: every field that
/// differs asks for one permission, judged in `a`. Leaving the group oneself
/// asks for none.
pub open spec fn spec_valid(a: GroupConfigView, b: GroupConfigView, user_id: u64) -> bool {
    let rename = a.has_permission(user_id, "rename_group"@);
    let settings = a.has_permission(user_id, "manage_permissions"@);
    let people = a.has_permission(user_id, "manage_members"@);
    let admins = a.has_permission(user_id, "manage_admins"@);
    let pins = a.has_permission(user_id, "pin_messages"@);
    &&& a.name != b.name ==> rename
    &&& a.description != b.description ==> rename
    &&& a.avatar != b.avatar ==> rename
    &&& a.banner != b.banner ==> rename
    &&& a.visibility != b.visibility ==> settings
    &&& a.join_mode != b.join_mode ==> settings
    &&& a.max_members != b.max_members ==> settings
    &&& a.slow_mode_delay != b.slow_mode_delay ==> settings
    &&& a.allow_stickers != b.allow_stickers ==> settings
    &&& a.allow_gifs != b.allow_gifs ==> settings
    &&& a.allow_voice_messages != b.allow_voice_messages ==> settings
    &&& a.allow_video_messages != b.allow_video_messages ==> settings
    &&& a.allow_links != b.allow_links ==> settings
    &&& a.permissions != b.permissions ==> settings
    &&& a.invite_link != b.invite_link ==> people
    &&& a.members != b.members ==> removes_self(a, b, user_id) || people
    &&& a.admins != b.admins ==> admins
    &&& a.pinned_message_id != b.pinned_message_id ==> pins
}

/// Whether two permission tables differ.
pub fn permissions_differ(a: &HashMap<u64, Permissions>, b: &HashMap<u64, Permissions>) -> (r:
    bool)
    ensures
        r == (a@ != b@),
{
    if a.len() != b.len() {
        return true;
    }
    let keys = hash_keys(a);
    let mut i: usize = 0;
    while i < keys.len()
        invariant
            i <= keys.len(),
            keys@.to_set() == a@.dom(),
            forall|j: int|
                0 <= j < i ==> b@.contains_key(keys@[j]) && b@[keys@[j]] == a@[keys@[j]],
        decreases keys.len() - i,
    {
        let k = keys[i];
        assert(keys@.to_set().contains(k));
        let mine = a.get(&k);
        let theirs = b.get(&k);
        match (mine, theirs) {
            (Some(x), Some(y)) => {
                if !(*x == *y) {
                    return true;
                }
            },
            _ => {
                return true;
            },
        }
        i += 1;
    }
    proof {
        assert forall|k: u64| a@.dom().contains(k) implies b@.dom().contains(k) && a@[k] == b@[k] by {
            assert(keys@.to_set().contains(k));
            let j = choose|j: int| 0 <= j < keys@.len() && keys@[j] == k;
            assert(b@.contains_key(keys@[j]));
        }
        assert(a@.dom().subset_of(b@.dom()));
        lemma_len_subset(a@.dom(), b@.dom());
        vstd::set_lib::lemma_subset_equality(a@.dom(), b@.dom());
        assert(a@ =~= b@);
    }
    false
}

fn text_of_opt(v: &Option<String>) -> (s: String)
    ensures
        s@ == text_or_empty(opt_text(*v)),
{
    match v {
        Some(t) => t.clone(),
        None => String::new(),
    }
}

fn text_of_opt_u32(v: Option<u32>) -> (s: String)
    ensures
        s@ == u32_or_none(v),
{
    match v {
        Some(n) => u32_to_text(n),
        None => "None".to_string(),
    }
}

fn text_of_opt_u64(v: Option<u64>) -> (s: String)
    ensures
        s@ == u64_or_none(v),
{
    match v {
        Some(n) => u64_to_text(n),
        None => "None".to_string(),
    }
}

fn text_of_flag(v: bool) -> (s: String)
    ensures
        s@ == flag_text(v),
{
    if v {
        "true".to_string()
    } else {
        "false".to_string()
    }
}

fn record(changes: &mut Vec<ConfigChange>, differs: bool, field: &str, old_value: String, new_value: String)
    ensures
        change_views(final(changes)@) == change_views(old(changes)@) + one_change(
            differs,
            field@,
            old_value@,
            new_value@,
        ),
{
    if differs {
        let change = ConfigChange { field: field.to_string(), old_value, new_value };
        changes.push(change);
        assert(change_views(changes@) =~= change_views(old(changes)@) + seq![change@]);
    } else {
        assert(change_views(changes@) =~= change_views(old(changes)@) + Seq::empty());
    }
}

impl GroupConfig {
    /// A copy with the same content.
    pub fn duplicate(&self) -> (copy: GroupConfig)
        ensures
            copy@ == self@,
    {
        let copy = GroupConfig {
            id: self.id,
            name: self.name.clone(),
            created_at: self.created_at,
            updated_at: self.updated_at,
            visibility: self.visibility,
            join_mode: self.join_mode,
            invite_link: copy_opt_text(&self.invite_link),
            max_members: self.max_members,
            creator_id: self.creator_id,
            members: copy_ids(&self.members),
            admins: copy_ids(&self.admins),
            permissions: copy_table(&self.permissions),
            default_permissions: self.default_permissions,
            banned: copy_ids(&self.banned),
            muted: copy_table(&self.muted),
            description: copy_opt_text(&self.description),
            avatar: copy_opt_bytes(&self.avatar),
            banner: copy_opt_bytes(&self.banner),
            pinned_message_id: self.pinned_message_id,
            slow_mode_delay: self.slow_mode_delay,
            allow_stickers: self.allow_stickers,
            allow_gifs: self.allow_gifs,
            allow_voice_messages: self.allow_voice_messages,
            allow_video_messages: self.allow_video_messages,
            allow_links: self.allow_links,
        };
        copy
    }

    pub fn is_admin(&self, user_id: u64) -> (r: bool)
        ensures
            r == self@.is_admin(user_id),
    {
        contains_id(&self.admins, user_id)
    }

    pub fn is_member(&self, user_id: u64) -> (r: bool)
        ensures
            r == self@.is_member(user_id),
    {
        contains_id(&self.members, user_id)
    }

    pub fn is_banned(&self, user_id: u64) -> (r: bool)
        ensures
            r == self@.is_banned(user_id),
    {
        contains_id(&self.banned, user_id)
    }

    pub fn is_muted(&self, user_id: u64) -> (r: bool)
        ensures
            r == self@.is_muted(user_id),
    {
        self.muted.contains_key(&user_id)
    }

    /// The user's own entry in the permission table, if there is one.
    pub fn get_member_permissions(&self, user_id: u64) -> (r: Option<&Permissions>)
        ensures
            match r {
                Some(p) => self@.permissions.contains_key(user_id) && *p
                    == self@.permissions[user_id],
                None => !self@.permissions.contains_key(user_id),
            },
    {
        self.permissions.get(&user_id)
    }

    /// Whether the user holds the named permission: always for an admin;
    /// else by the user's own entry; else by the group's defaults.
    pub fn has_permission(&self, user_id: u64, permission: &str) -> (granted: bool)
        ensures
            granted == self@.has_permission(user_id, permission@),
    {
        if self.is_admin(user_id) {
            return true;
        }
        match self.get_member_permissions(user_id) {
            Some(perms) => perms.has_permission(permission),
            None => self.default_permissions.has_permission(permission),
        }
    }

    /// Whether the group has reached its member limit; a group without a
    /// limit is never full.
    pub fn is_full(&self) -> (r: bool)
        ensures
            r == self@.is_full(),
    {
        match self.max_members {
            Some(max) => self.members.len() >= max as usize,
            None => false,
        }
    }

    /// Compares this configuration with a proposed one and judges the
    /// proposal for `user_id`. The result lists every field that differs;
    /// it is valid when the user holds, in this configuration, the
    /// permission that each of these fields asks for.
    pub fn validate_changes(&self, new_config: &GroupConfig, user_id: u64) -> (result:
        ConfigValidationResult)
        ensures
            change_views(result.changes@) == spec_changes(self@, new_config@),
            result.valid == spec_valid(self@, new_config@, user_id),
    {
        let changes = self.diff(new_config);
        let valid = self.may_change(new_config, user_id);
        ConfigValidationResult { changes, valid }
    }

    /// The fields in which a proposed configuration differs from this one.
    pub fn diff(&self, new_config: &GroupConfig) -> (changes: Vec<ConfigChange>)
        ensures
            change_views(changes@) == spec_changes(self@, new_config@),
    {
        let mut changes: Vec<ConfigChange> = Vec::new();
        assert(change_views(changes@) =~= changes_upto(self@, new_config@, 0));
        self.diff_access(new_config, &mut changes);
        self.diff_people(new_config, &mut changes);
        self.diff_profile(new_config, &mut changes);
        self.diff_content(new_config, &mut changes);
        changes
    }

    /// Name, visibility, join mode, invite link and member limit.
    #[verifier::rlimit(40)]
    fn diff_access(&self, new_config: &GroupConfig, changes: &mut Vec<ConfigChange>)
        requires
            change_views(old(changes)@) == changes_upto(self@, new_config@, 0),
        ensures
            change_views(final(changes)@) == changes_upto(self@, new_config@, 5),
    {
        let ghost a = self@;
        let ghost b = new_config@;
        let name_differs = !(self.name == new_config.name);
        record(changes, name_differs, "name", self.name.clone(), new_config.name.clone());
        assert(change_views(changes@) == changes_upto(a, b, 1));

        let visibility_differs = !(self.visibility == new_config.visibility);
        record(changes, visibility_differs, "visibility", self.visibility.name(), new_config.visibility.name());
        assert(change_views(changes@) == changes_upto(a, b, 2));

        let join_mode_differs = !(self.join_mode == new_config.join_mode);
        record(changes, join_mode_differs, "join_mode", self.join_mode.name(), new_config.join_mode.name());
        assert(change_views(changes@) == changes_upto(a, b, 3));

        let invite_link_differs = !same_opt_text(&self.invite_link, &new_config.invite_link);
        record(changes, invite_link_differs, "invite_link", text_of_opt(&self.invite_link), text_of_opt(&new_config.invite_link));
        assert(change_views(changes@) == changes_upto(a, b, 4));

        let max_members_differs = !(self.max_members == new_config.max_members);
        record(changes, max_members_differs, "max_members", text_of_opt_u32(self.max_members), text_of_opt_u32(new_config.max_members));
        assert(change_views(changes@) == changes_upto(a, b, 5));
    }

    /// Members, admins and the permission table.
    #[verifier::rlimit(40)]
    fn diff_people(&self, new_config: &GroupConfig, changes: &mut Vec<ConfigChange>)
        requires
            change_views(old(changes)@) == changes_upto(self@, new_config@, 5),
        ensures
            change_views(final(changes)@) == changes_upto(self@, new_config@, 8),
    {
        let ghost a = self@;
        let ghost b = new_config@;
        let members_differ = !same_ids(&self.members, &new_config.members);
        record(changes, members_differ, "members", u64_list_to_text(&self.members), u64_list_to_text(&new_config.members));
        assert(change_views(changes@) == changes_upto(a, b, 6));

        let admins_differ = !same_ids(&self.admins, &new_config.admins);
        record(changes, admins_differ, "admins", u64_list_to_text(&self.admins), u64_list_to_text(&new_config.admins));
        assert(change_views(changes@) == changes_upto(a, b, 7));

        let table_differs = permissions_differ(&self.permissions, &new_config.permissions);
        record(changes, table_differs, "permissions", "...".to_string(), "...".to_string());
        assert(change_views(changes@) == changes_upto(a, b, 8));
    }

    /// Description, avatar, banner, pinned message and slow mode.
    #[verifier::rlimit(40)]
    fn diff_profile(&self, new_config: &GroupConfig, changes: &mut Vec<ConfigChange>)
        requires
            change_views(old(changes)@) == changes_upto(self@, new_config@, 8),
        ensures
            change_views(final(changes)@) == changes_upto(self@, new_config@, 13),
    {
        let ghost a = self@;
        let ghost b = new_config@;
        let description_differs = !same_opt_text(&self.description, &new_config.description);
        record(changes, description_differs, "description", text_of_opt(&self.description), text_of_opt(&new_config.description));
        assert(change_views(changes@) == changes_upto(a, b, 9));

        let avatar_differs = !same_opt_bytes(&self.avatar, &new_config.avatar);
        record(changes, avatar_differs, "avatar", "...".to_string(), "...".to_string());
        assert(change_views(changes@) == changes_upto(a, b, 10));

        let banner_differs = !same_opt_bytes(&self.banner, &new_config.banner);
        record(changes, banner_differs, "banner", "...".to_string(), "...".to_string());
        assert(change_views(changes@) == changes_upto(a, b, 11));

        let pinned_differs = !(self.pinned_message_id == new_config.pinned_message_id);
        record(changes, pinned_differs, "pinned_message_id", text_of_opt_u64(self.pinned_message_id), text_of_opt_u64(new_config.pinned_message_id));
        assert(change_views(changes@) == changes_upto(a, b, 12));

        let slow_mode_differs = !(self.slow_mode_delay == new_config.slow_mode_delay);
        record(changes, slow_mode_differs, "slow_mode_delay", text_of_opt_u32(self.slow_mode_delay), text_of_opt_u32(new_config.slow_mode_delay));
        assert(change_views(changes@) == changes_upto(a, b, 13));
    }

    /// The five content switches.
    #[verifier::rlimit(40)]
    fn diff_content(&self, new_config: &GroupConfig, changes: &mut Vec<ConfigChange>)
        requires
            change_views(old(changes)@) == changes_upto(self@, new_config@, 13),
        ensures
            change_views(final(changes)@) == changes_upto(self@, new_config@, 18),
    {
        let ghost a = self@;
        let ghost b = new_config@;
        let stickers_differ = self.allow_stickers != new_config.allow_stickers;
        record(changes, stickers_differ, "allow_stickers", text_of_flag(self.allow_stickers), text_of_flag(new_config.allow_stickers));
        assert(change_views(changes@) == changes_upto(a, b, 14));

        let gifs_differ = self.allow_gifs != new_config.allow_gifs;
        record(changes, gifs_differ, "allow_gifs", text_of_flag(self.allow_gifs), text_of_flag(new_config.allow_gifs));
        assert(change_views(changes@) == changes_upto(a, b, 15));

        let voice_differs = self.allow_voice_messages != new_config.allow_voice_messages;
        record(changes, voice_differs, "allow_voice_messages", text_of_flag(self.allow_voice_messages), text_of_flag(new_config.allow_voice_messages));
        assert(change_views(changes@) == changes_upto(a, b, 16));

        let video_differs = self.allow_video_messages != new_config.allow_video_messages;
        record(changes, video_differs, "allow_video_messages", text_of_flag(self.allow_video_messages), text_of_flag(new_config.allow_video_messages));
        assert(change_views(changes@) == changes_upto(a, b, 17));

        let links_differ = self.allow_links != new_config.allow_links;
        record(changes, links_differ, "allow_links", text_of_flag(self.allow_links), text_of_flag(new_config.allow_links));
        assert(change_views(changes@) == changes_upto(a, b, 18));
    }

    /// Whether `user_id` may turn this configuration into the proposed one.
    pub fn may_change(&self, new_config: &GroupConfig, user_id: u64) -> (valid: bool)
        ensures
            valid == spec_valid(self@, new_config@, user_id),
    {
        let rename = self.has_permission(user_id, "rename_group");
        let settings = self.has_permission(user_id, "manage_permissions");
        let people = self.has_permission(user_id, "manage_members");
        let admins = self.has_permission(user_id, "manage_admins");
        let pins = self.has_permission(user_id, "pin_messages");
        let leaving = self.is_member(user_id) && !new_config.is_member(user_id);

        let needs_rename = !(self.name == new_config.name) || !same_opt_text(
            &self.description,
            &new_config.description,
        ) || !same_opt_bytes(&self.avatar, &new_config.avatar) || !same_opt_bytes(
            &self.banner,
            &new_config.banner,
        );
        let needs_settings = !(self.visibility == new_config.visibility) || !(self.join_mode
            == new_config.join_mode) || !(self.max_members == new_config.max_members) || !(
        self.slow_mode_delay == new_config.slow_mode_delay) || self.allow_stickers
            != new_config.allow_stickers || self.allow_gifs != new_config.allow_gifs
            || self.allow_voice_messages != new_config.allow_voice_messages
            || self.allow_video_messages != new_config.allow_video_messages || self.allow_links
            != new_config.allow_links || permissions_differ(
            &self.permissions,
            &new_config.permissions,
        );
        let invite_link_differs = !same_opt_text(&self.invite_link, &new_config.invite_link);
        let members_differ = !same_ids(&self.members, &new_config.members);
        let admins_differ = !same_ids(&self.admins, &new_config.admins);
        let pinned_differs = !(self.pinned_message_id == new_config.pinned_message_id);
        (!needs_rename || rename) && (!needs_settings || settings) && (!invite_link_differs
            || people) && (!members_differ || leaving || people) && (!admins_differ || admins)
            && (!pinned_differs || pins)
    }
}

/// The place of the first occurrence of `x`, which must occur.
fn position_of(v: &Vec<u64>, x: u64) -> (i: usize)
    requires
        v@.contains(x),
    ensures
        i == first_index(v@, x),
        i < v@.len(),
        v@[i as int] == x,
{
    let mut i: usize = 0;
    assert(v@.skip(0) =~= v@);
    while v[i] != x
        invariant
            i < v.len(),
            exists|w: int| i <= w < v@.len() && v@[w] == x,
            first_index(v@, x) == i + first_index(v@.skip(i as int), x),
        decreases v.len() - i,
    {
        proof {
            let rest = v@.skip(i as int);
            assert(rest[0] != x);
            assert(rest.drop_first() =~= v@.skip(i + 1));
            let w = choose|w: int| i <= w < v@.len() && v@[w] == x;
            assert(i + 1 <= w);
        }
        i += 1;
    }
    assert(v@.skip(i as int)[0] == x);
    i
}

/// The first occurrence lies within the sequence exactly when there is one,
/// and nothing before it equals `x`.
pub proof fn lemma_first_index(s: Seq<u64>, x: u64)
    ensures
        0 <= first_index(s, x) <= s.len(),
        s.contains(x) <==> first_index(s, x) < s.len(),
        first_index(s, x) < s.len() ==> s[first_index(s, x)] == x,
        forall|j: int| 0 <= j < first_index(s, x) ==> s[j] != x,
    decreases s.len(),
{
    if s.len() == 0 {
    } else if s[0] == x {
    } else {
        let rest = s.drop_first();
        lemma_first_index(rest, x);
        if s.contains(x) {
            let w = choose|w: int| 0 <= w < s.len() && s[w] == x;
            assert(rest[w - 1] == x);
        }
        assert forall|j: int| 0 <= j < first_index(s, x) implies s[j] != x by {
            if j > 0 {
                assert(rest[j - 1] != x);
            }
        }
    }
}

/// The permissions that come with a role's name. A name that is none of
/// `admin`, `moderator`, `member`, `reader` counts as `member`.
pub open spec fn role_permissions(role: Seq<char>) -> Permissions {
    if role == "admin"@ {
        Permissions::spec_admin()
    } else if role == "moderator"@ {
        Permissions::spec_moderator()
    } else if role == "member"@ {
        Permissions::spec_member()
    } else if role == "reader"@ {
        Permissions::spec_reader()
    } else {
        Permissions::spec_member()
    }
}

/// The permission table after a role was set: an existing entry takes the
/// role's permissions; a member who becomes admin gets the admin entry.
pub open spec fn role_table(a: GroupConfigView, user_id: u64, role: Seq<char>) -> Map<
    u64,
    Permissions,
> {
    let updated = if a.permissions.contains_key(user_id) {
        a.permissions.insert(user_id, role_permissions(role))
    } else {
        a.permissions
    };
    if role == "admin"@ && a.is_member(user_id) && !a.is_admin(user_id) {
        updated.insert(user_id, Permissions::spec_admin())
    } else {
        updated
    }
}

/// The admin list after a role was set: the `admin` role enters a member,
/// once; any other role takes the user out, unless the user is the only
/// admin.
pub open spec fn role_admins(a: GroupConfigView, user_id: u64, role: Seq<char>) -> Seq<u64> {
    if role == "admin"@ {
        if a.is_member(user_id) {
            with_id(a.admins, user_id)
        } else {
            a.admins
        }
    } else {
        if a.only_admin(user_id) {
            a.admins
        } else {
            without_id(a.admins, user_id)
        }
    }
}

/// Setting a role keeps a configuration well-formed.
pub proof fn lemma_role_keeps_well_formed(a: GroupConfigView, user_id: u64, role: Seq<char>)
    requires
        a.well_formed(),
    ensures
        (GroupConfigView {
            permissions: role_table(a, user_id, role),
            admins: role_admins(a, user_id, role),
            ..a
        }).well_formed(),
{
    lemma_without_admin(a, user_id);
    let admins = role_admins(a, user_id, role);
    if role == "admin"@ && a.is_member(user_id) && !a.is_admin(user_id) {
        assert forall|i: int| 0 <= i < admins.len() implies a.members.contains(admins[i]) by {
            if i < a.admins.len() {
                assert(a.members.contains(a.admins[i]));
            }
        }
    } else {
        assert(admins == a.without_admin(user_id).admins || admins == a.admins);
        assert(a.without_admin(user_id).members == a.members);
    }
}

fn permissions_of_role(role: &str) -> (p: Permissions)
    ensures
        p == role_permissions(role@),
{
    if *role == *"admin" {
        Permissions::admin()
    } else if *role == *"moderator" {
        Permissions::moderator()
    } else if *role == *"member" {
        Permissions::member()
    } else if *role == *"reader" {
        Permissions::reader()
    } else {
        Permissions::member()
    }
}

impl GroupConfig {
    /// A private, invite-only group with the creator as its only member and
    /// admin, every kind of content allowed, and the `member` role as
    /// default. Both timestamps are the time of the call.
    pub fn new(group_id: u64, group_name: String, creator_id: u64) -> (config: GroupConfig)
        ensures
            config@.touched(
                GroupConfigView {
                    id: group_id,
                    name: group_name@,
                    created_at: config@.created_at,
                    updated_at: config@.created_at,
                    visibility: Visibility::Private,
                    join_mode: JoinMode::InviteOnly,
                    invite_link: None,
                    max_members: None,
                    creator_id,
                    members: seq![creator_id],
                    admins: seq![creator_id],
                    permissions: Map::<u64, Permissions>::empty().insert(
                        creator_id,
                        Permissions::spec_admin(),
                    ),
                    default_permissions: Permissions::spec_member(),
                    banned: Seq::empty(),
                    muted: Map::empty(),
                    description: None,
                    avatar: None,
                    banner: None,
                    pinned_message_id: None,
                    slow_mode_delay: None,
                    allow_stickers: true,
                    allow_gifs: true,
                    allow_voice_messages: true,
                    allow_video_messages: true,
                    allow_links: true,
                },
            ),
            config@.updated_at == config@.created_at,
            config@.well_formed(),
    {
        let mut permissions_map: HashMap<u64, Permissions> = HashMap::new();
        permissions_map.insert(creator_id, Permissions::admin());
        let now = DateTime { timestamp: now_secs() };
        let mut members: Vec<u64> = Vec::new();
        members.push(creator_id);
        let mut admins: Vec<u64> = Vec::new();
        admins.push(creator_id);
        let config = GroupConfig {
            id: group_id,
            name: group_name,
            created_at: now,
            updated_at: now,
            visibility: Visibility::Private,
            join_mode: JoinMode::InviteOnly,
            invite_link: None,
            max_members: None,
            creator_id,
            members,
            admins,
            permissions: permissions_map,
            default_permissions: Permissions::member(),
            banned: Vec::new(),
            muted: HashMap::new(),
            description: None,
            avatar: None,
            banner: None,
            pinned_message_id: None,
            slow_mode_delay: None,
            allow_stickers: true,
            allow_gifs: true,
            allow_voice_messages: true,
            allow_video_messages: true,
            allow_links: true,
        };
        proof {
            assert(config@.members =~= seq![creator_id]);
            assert(config@.admins =~= seq![creator_id]);
            assert(config@.banned =~= Seq::empty());
            assert(config@.muted =~= Map::empty());
            assert(config@.members[0] == creator_id);
        }
        config
    }

    /// Sets the time of the last update to what the clock says now.
    fn update_timestamp(&mut self)
        ensures
            final(self)@.touched(old(self)@),
    {
        self.set_updated_at(DateTime { timestamp: now_secs() });
    }

    /// Sets the time of the last update; nothing else changes.
    pub fn set_updated_at(&mut self, at: DateTime)
        ensures
            final(self)@ == (GroupConfigView { updated_at: at, ..old(self)@ }),
    {
        self.updated_at = at;
    }

    /// Whether the user cannot leave the group: the creator, and the only
    /// admin.
    pub fn must_stay(&self, user_id: u64) -> (r: bool)
        ensures
            r == self@.must_stay(user_id),
    {
        user_id == self.creator_id || all_are(&self.admins, user_id)
    }

    /// Appends a member and gives them the default permissions. Nobody who
    /// is banned becomes a member: for such a user nothing changes.
    pub fn add_member(&mut self, member_id: u64)
        ensures
            final(self)@.touched(old(self)@.with_member(member_id)),
            old(self)@.well_formed() ==> final(self)@.well_formed(),
            !old(self)@.is_banned(member_id) ==> final(self)@.is_member(member_id),
    {
        if !self.is_banned(member_id) {
            self.members.push(member_id);
            self.permissions.insert(member_id, self.default_permissions);
        }
        self.update_timestamp();
        proof {
            lemma_with_member(old(self)@, member_id);
        }
    }

    /// Takes a member out of the group: out of the member list, the admin
    /// list and the permission table. Only members are admins afterwards.
    /// The creator and the only admin cannot be taken out.
    pub fn remove_member(&mut self, member_id: u64)
        requires
            old(self)@.is_member(member_id),
            !old(self)@.must_stay(member_id),
        ensures
            final(self)@.touched(old(self)@.without_member(member_id)),
            !final(self)@.is_member(member_id),
            !final(self)@.is_admin(member_id),
            !final(self)@.permissions.contains_key(member_id),
            all_within(final(self)@.admins, final(self)@.members),
            old(self)@.is_member(old(self)@.creator_id) ==> final(self)@.is_member(
                final(self)@.creator_id,
            ),
            old(self)@.well_formed() ==> final(self)@.well_formed(),
    {
        self.members = drop_id(&self.members, member_id);
        let others = drop_id(&self.admins, member_id);
        self.admins = keep_within(&others, &self.members);
        self.permissions.remove(&member_id);
        assert(self@ == old(self)@.without_member(member_id));
        self.update_timestamp();
        proof {
            lemma_without_member(old(self)@, member_id);
        }
    }

    /// Makes a member an admin: the member is entered in the admin list,
    /// once, and gets the admin permissions. A user who is no member does
    /// not become admin. Only members are admins afterwards.
    pub fn add_admin(&mut self, admin_id: u64)
        ensures
            final(self)@.touched(old(self)@.with_admin(admin_id)),
            all_within(final(self)@.admins, final(self)@.members),
            final(self)@.members == old(self)@.members,
            old(self)@.is_member(admin_id) ==> final(self)@.is_admin(admin_id)
                && final(self)@.permissions[admin_id] == Permissions::spec_admin(),
            !old(self)@.is_member(admin_id) ==> !final(self)@.is_admin(admin_id),
            old(self)@.well_formed() ==> final(self)@.well_formed(),
    {
        if self.is_member(admin_id) {
            enter_id(&mut self.admins, admin_id);
            self.permissions.insert(admin_id, Permissions::admin());
        }
        self.admins = keep_within(&self.admins, &self.members);
        assert(self@ == old(self)@.with_admin(admin_id));
        self.update_timestamp();
        proof {
            lemma_with_admin(old(self)@, admin_id);
        }
    }

    /// Takes an admin out of the admin list. The permission table stays as
    /// it is. The only admin stays: for them nothing changes.
    pub fn remove_admin(&mut self, admin_id: u64)
        requires
            old(self)@.is_admin(admin_id),
        ensures
            final(self)@.touched(old(self)@.without_admin(admin_id)),
            final(self)@.admins.len() > 0,
            final(self)@.members == old(self)@.members,
            !old(self)@.only_admin(admin_id) ==> !final(self)@.is_admin(admin_id),
            old(self)@.well_formed() ==> final(self)@.well_formed(),
    {
        if !all_are(&self.admins, admin_id) {
            self.admins = drop_id(&self.admins, admin_id);
        }
        self.update_timestamp();
        proof {
            lemma_without_admin(old(self)@, admin_id);
        }
    }

    /// Bans a user: the user is entered in the ban list, once, and leaves
    /// the member list, the admin list and the permission table. Nobody is
    /// both banned and a member afterwards, and only members are admins.
    /// The creator and the only admin cannot be banned.
    pub fn add_banned(&mut self, banned_id: u64)
        requires
            !old(self)@.must_stay(banned_id),
        ensures
            final(self)@.touched(old(self)@.with_banned(banned_id)),
            final(self)@.is_banned(banned_id),
            !final(self)@.is_member(banned_id),
            !final(self)@.is_admin(banned_id),
            all_outside(final(self)@.banned, final(self)@.members),
            all_within(final(self)@.admins, final(self)@.members),
            old(self)@.well_formed() ==> final(self)@.well_formed(),
    {
        enter_id(&mut self.banned, banned_id);
        self.members = drop_id(&self.members, banned_id);
        let others = drop_id(&self.admins, banned_id);
        self.admins = keep_within(&others, &self.members);
        self.banned = keep_outside(&self.banned, &self.members);
        self.permissions.remove(&banned_id);
        assert(self@ == old(self)@.with_banned(banned_id));
        self.update_timestamp();
        proof {
            lemma_with_banned(old(self)@, banned_id);
        }
    }

    /// Takes a user's first entry out of the ban list.
    pub fn remove_banned(&mut self, banned_id: u64)
        requires
            old(self)@.is_banned(banned_id),
        ensures
            final(self)@.touched(
                GroupConfigView {
                    banned: old(self)@.banned.remove(first_index(old(self)@.banned, banned_id)),
                    ..old(self)@
                },
            ),
            old(self)@.well_formed() ==> final(self)@.well_formed(),
    {
        let at = position_of(&self.banned, banned_id);
        self.banned.remove(at);
        self.update_timestamp();
        proof {
            let a = old(self)@;
            let b = final(self)@;
            if a.well_formed() {
                assert forall|i: int| 0 <= i < b.banned.len() implies !b.members.contains(
                    b.banned[i],
                ) by {
                    if i < at {
                        assert(b.banned[i] == a.banned[i]);
                    } else {
                        assert(b.banned[i] == a.banned[i + 1]);
                    }
                }
            }
        }
    }

    pub fn add_muted(&mut self, muted_id: u64, muted_until: DateTime)
        ensures
            final(self)@.touched(
                GroupConfigView {
                    muted: old(self)@.muted.insert(muted_id, muted_until),
                    ..old(self)@
                },
            ),
    {
        self.muted.insert(muted_id, muted_until);
        self.update_timestamp();
    }

    pub fn remove_muted(&mut self, muted_id: u64)
        ensures
            final(self)@.touched(
                GroupConfigView { muted: old(self)@.muted.remove(muted_id), ..old(self)@ },
            ),
    {
        self.muted.remove(&muted_id);
        self.update_timestamp();
    }

    pub fn set_name(&mut self, group_name: String)
        ensures
            final(self)@.touched(GroupConfigView { name: group_name@, ..old(self)@ }),
    {
        self.name = group_name;
        self.update_timestamp();
    }

    pub fn set_description(&mut self, description: String)
        ensures
            final(self)@.touched(GroupConfigView { description: Some(description@), ..old(self)@ }),
    {
        self.description = Some(description);
        self.update_timestamp();
    }

    pub fn set_avatar(&mut self, avatar: Vec<u8>)
        ensures
            final(self)@.touched(GroupConfigView { avatar: Some(avatar@), ..old(self)@ }),
    {
        self.avatar = Some(avatar);
        self.update_timestamp();
    }

    pub fn set_banner(&mut self, banner: Vec<u8>)
        ensures
            final(self)@.touched(GroupConfigView { banner: Some(banner@), ..old(self)@ }),
    {
        self.banner = Some(banner);
        self.update_timestamp();
    }

    pub fn set_pinned_message_id(&mut self, pinned_message_id: u64)
        ensures
            final(self)@.touched(GroupConfigView { pinned_message_id: Some(pinned_message_id), ..old(self)@ }),
    {
        self.pinned_message_id = Some(pinned_message_id);
        self.update_timestamp();
    }

    pub fn set_slow_mode_delay(&mut self, slow_mode_delay: u32)
        ensures
            final(self)@.touched(GroupConfigView { slow_mode_delay: Some(slow_mode_delay), ..old(self)@ }),
    {
        self.slow_mode_delay = Some(slow_mode_delay);
        self.update_timestamp();
    }

    pub fn set_allow_stickers(&mut self, allow_stickers: bool)
        ensures
            final(self)@.touched(GroupConfigView { allow_stickers: allow_stickers, ..old(self)@ }),
    {
        self.allow_stickers = allow_stickers;
        self.update_timestamp();
    }

    pub fn set_allow_gifs(&mut self, allow_gifs: bool)
        ensures
            final(self)@.touched(GroupConfigView { allow_gifs: allow_gifs, ..old(self)@ }),
    {
        self.allow_gifs = allow_gifs;
        self.update_timestamp();
    }

    pub fn set_allow_voice_messages(&mut self, allow_voice_messages: bool)
        ensures
            final(self)@.touched(GroupConfigView { allow_voice_messages: allow_voice_messages, ..old(self)@ }),
    {
        self.allow_voice_messages = allow_voice_messages;
        self.update_timestamp();
    }

    pub fn set_allow_video_messages(&mut self, allow_video_messages: bool)
        ensures
            final(self)@.touched(GroupConfigView { allow_video_messages: allow_video_messages, ..old(self)@ }),
    {
        self.allow_video_messages = allow_video_messages;
        self.update_timestamp();
    }

    pub fn set_allow_links(&mut self, allow_links: bool)
        ensures
            final(self)@.touched(GroupConfigView { allow_links: allow_links, ..old(self)@ }),
    {
        self.allow_links = allow_links;
        self.update_timestamp();
    }

    pub fn set_visibility(&mut self, visibility: Visibility)
        ensures
            final(self)@.touched(GroupConfigView { visibility: visibility, ..old(self)@ }),
    {
        self.visibility = visibility;
        self.update_timestamp();
    }

    pub fn set_join_mode(&mut self, join_mode: JoinMode)
        ensures
            final(self)@.touched(GroupConfigView { join_mode: join_mode, ..old(self)@ }),
    {
        self.join_mode = join_mode;
        self.update_timestamp();
    }

    pub fn set_invite_link(&mut self, link: Option<String>)
        ensures
            final(self)@.touched(GroupConfigView { invite_link: opt_text(link), ..old(self)@ }),
    {
        self.invite_link = link;
        self.update_timestamp();
    }

    pub fn set_max_members(&mut self, max: Option<u32>)
        ensures
            final(self)@.touched(GroupConfigView { max_members: max, ..old(self)@ }),
    {
        self.max_members = max;
        self.update_timestamp();
    }

    /// Sets or replaces a user's entry in the permission table.
    pub fn set_permissions(&mut self, member_id: u64, permissions: Permissions)
        ensures
            final(self)@.touched(
                GroupConfigView {
                    permissions: old(self)@.permissions.insert(member_id, permissions),
                    ..old(self)@
                },
            ),
    {
        self.permissions.insert(member_id, permissions);
        self.update_timestamp();
    }

    /// The users whose entry in the permission table equals the group's
    /// defaults, each once, in no particular order.
    pub fn get_regular_members(&self) -> (regular: Vec<u64>)
        ensures
            regular@.no_duplicates(),
            forall|k: u64|
                regular@.contains(k) <==> (self@.permissions.contains_key(k)
                    && self@.permissions[k] == self@.default_permissions),
    {
        let keys = hash_keys(&self.permissions);
        let mut regular: Vec<u64> = Vec::new();
        let mut i: usize = 0;
        while i < keys.len()
            invariant
                i <= keys.len(),
                keys@.no_duplicates(),
                keys@.to_set() == self.permissions@.dom(),
                regular@.no_duplicates(),
                forall|w: int|
                    0 <= w < regular@.len() ==> self.permissions@.contains_key(#[trigger] regular@[w])
                        && self.permissions@[regular@[w]] == self.default_permissions
                        && keys@.subrange(0, i as int).contains(regular@[w]),
                forall|j: int|
                    0 <= j < i && self.permissions@[#[trigger] keys@[j]]
                        == self.default_permissions ==> regular@.contains(keys@[j]),
            decreases keys.len() - i,
        {
            let k = keys[i];
            assert(keys@.to_set().contains(k));
            let ghost before = regular@;
            match self.permissions.get(&k) {
                Some(p) => {
                    if *p == self.default_permissions {
                        proof {
                            if before.contains(k) {
                                let w = choose|w: int| 0 <= w < before.len() && before[w] == k;
                                let j = choose|j: int|
                                    0 <= j < keys@.subrange(0, i as int).len() && keys@.subrange(
                                        0,
                                        i as int,
                                    )[j] == before[w];
                                assert(keys@[j] == keys@[i as int]);
                            }
                        }
                        regular.push(k);
                        assert(regular@[before.len() as int] == k);
                    }
                },
                None => {},
            }
            proof {
                assert forall|w: int| 0 <= w < regular@.len() implies keys@.subrange(
                    0,
                    i + 1,
                ).contains(#[trigger] regular@[w]) by {
                    if w < before.len() {
                        let j = choose|j: int|
                            0 <= j < keys@.subrange(0, i as int).len() && keys@.subrange(
                                0,
                                i as int,
                            )[j] == before[w];
                        assert(keys@.subrange(0, i + 1)[j] == regular@[w]);
                    } else {
                        assert(keys@.subrange(0, i + 1)[i as int] == k);
                    }
                }
                assert forall|j: int|
                    0 <= j < i + 1 && self.permissions@[#[trigger] keys@[j]]
                        == self.default_permissions implies regular@.contains(keys@[j]) by {
                    if j < i {
                        let w = choose|w: int| 0 <= w < before.len() && before[w] == keys@[j];
                        assert(regular@[w] == keys@[j]);
                    } else {
                        assert(regular@[before.len() as int] == k);
                    }
                }
            }
            i += 1;
        }
        proof {
            assert forall|k: u64|
                regular@.contains(k) <==> (self@.permissions.contains_key(k)
                    && self@.permissions[k] == self@.default_permissions) by {
                if self@.permissions.contains_key(k) && self@.permissions[k]
                    == self@.default_permissions {
                    assert(keys@.to_set().contains(k));
                    let j = choose|j: int| 0 <= j < keys@.len() && keys@[j] == k;
                    assert(regular@.contains(keys@[j]));
                }
                if regular@.contains(k) {
                    let w = choose|w: int| 0 <= w < regular@.len() && regular@[w] == k;
                    assert(self.permissions@.contains_key(regular@[w]));
                }
            }
        }
        regular
    }

    /// Allows or forbids sending by default. Entries of the permission table
    /// are left as they are: only a user without an entry, or whose entry is
    /// replaced later, is affected.
    pub fn set_allow_messages(&mut self, allow_messages: bool)
        ensures
            final(self)@.touched(
                GroupConfigView {
                    default_permissions: Permissions {
                        send_messages: allow_messages,
                        ..old(self)@.default_permissions
                    },
                    ..old(self)@
                },
            ),
    {
        self.default_permissions = self.default_permissions.with_send_messages(allow_messages);
        let regular = self.get_regular_members();
        let mut i: usize = 0;
        while i < regular.len()
            invariant
                i <= regular.len(),
                self@ == (GroupConfigView {
                    default_permissions: Permissions {
                        send_messages: allow_messages,
                        ..old(self)@.default_permissions
                    },
                    ..old(self)@
                }),
                forall|k: u64|
                    regular@.contains(k) ==> (self@.permissions.contains_key(k)
                        && self@.permissions[k] == self@.default_permissions),
            decreases regular.len() - i,
        {
            let k = regular[i];
            assert(regular@.contains(k));
            let ghost table = self.permissions@;
            self.permissions.insert(k, self.default_permissions);
            assert(self.permissions@ =~= table);
            i += 1;
        }
        self.update_timestamp();
    }

    /// Applies `f` to a user's entry in the permission table; nothing but
    /// the time of the last update changes where the user has no entry.
    pub fn update_permissions<F: FnOnce(Permissions) -> Permissions>(&mut self, user_id: u64, f: F)
        requires
            old(self)@.permissions.contains_key(user_id) ==> f.requires(
                (old(self)@.permissions[user_id],),
            ),
        ensures
            old(self)@.permissions.contains_key(user_id) ==> final(self)@.permissions.contains_key(
                user_id,
            ) && f.ensures((old(self)@.permissions[user_id],), final(self)@.permissions[user_id])
                && final(self)@.touched(
                GroupConfigView {
                    permissions: old(self)@.permissions.insert(
                        user_id,
                        final(self)@.permissions[user_id],
                    ),
                    ..old(self)@
                },
            ),
            !old(self)@.permissions.contains_key(user_id) ==> final(self)@.touched(old(self)@),
    {
        let current = match self.permissions.get(&user_id) {
            Some(p) => Some(*p),
            None => None,
        };
        match current {
            Some(p) => {
                let q = f(p);
                self.permissions.insert(user_id, q);
            },
            None => {},
        }
        self.update_timestamp();
    }

    /// Gives a user a role. An existing entry in the permission table takes
    /// the role's permissions. The `admin` role also enters a member in the
    /// admin list, with the admin permissions; any other role takes the user
    /// out of the admin list, unless the user is the only admin.
    pub fn set_member_role(&mut self, user_id: u64, role: &str)
        ensures
            final(self)@.touched(
                GroupConfigView {
                    permissions: role_table(old(self)@, user_id, role@),
                    admins: role_admins(old(self)@, user_id, role@),
                    ..old(self)@
                },
            ),
            old(self)@.well_formed() ==> final(self)@.well_formed(),
    {
        let permissions = permissions_of_role(role);
        let becomes_admin = *role == *"admin" && self.is_member(user_id) && !self.is_admin(
            user_id,
        );
        let admins = self.admins_with_role(user_id, role);
        if self.permissions.contains_key(&user_id) {
            self.permissions.insert(user_id, permissions);
        }
        if becomes_admin {
            self.permissions.insert(user_id, Permissions::admin());
        }
        self.admins = admins;
        self.update_timestamp();
        proof {
            if old(self)@.well_formed() {
                lemma_role_keeps_well_formed(old(self)@, user_id, role@);
            }
        }
    }

    /// The admin list after a role was set; see [`role_admins`].
    fn admins_with_role(&self, user_id: u64, role: &str) -> (admins: Vec<u64>)
        ensures
            admins@ == role_admins(self@, user_id, role@),
    {
        if *role == *"admin" {
            let mut admins = copy_ids(&self.admins);
            if self.is_member(user_id) {
                enter_id(&mut admins, user_id);
            }
            admins
        } else if all_are(&self.admins, user_id) {
            copy_ids(&self.admins)
        } else {
            drop_id(&self.admins, user_id)
        }
    }
}

/// Whether `c` is `a` with some of the changes that lead from `a` to `b`:
/// each compared field of `c` is the one of `a` or the one of `b`.
pub open spec fn between(a: GroupConfigView, b: GroupConfigView, c: GroupConfigView) -> bool {
    &&& c.name == a.name || c.name == b.name
    &&& c.description == a.description || c.description == b.description
    &&& c.avatar == a.avatar || c.avatar == b.avatar
    &&& c.banner == a.banner || c.banner == b.banner
    &&& c.visibility == a.visibility || c.visibility == b.visibility
    &&& c.join_mode == a.join_mode || c.join_mode == b.join_mode
    &&& c.max_members == a.max_members || c.max_members == b.max_members
    &&& c.slow_mode_delay == a.slow_mode_delay || c.slow_mode_delay == b.slow_mode_delay
    &&& c.allow_stickers == a.allow_stickers || c.allow_stickers == b.allow_stickers
    &&& c.allow_gifs == a.allow_gifs || c.allow_gifs == b.allow_gifs
    &&& c.allow_voice_messages == a.allow_voice_messages || c.allow_voice_messages
        == b.allow_voice_messages
    &&& c.allow_video_messages == a.allow_video_messages || c.allow_video_messages
        == b.allow_video_messages
    &&& c.allow_links == a.allow_links || c.allow_links == b.allow_links
    &&& c.permissions == a.permissions || c.permissions == b.permissions
    &&& c.invite_link == a.invite_link || c.invite_link == b.invite_link
    &&& c.members == a.members || c.members == b.members
    &&& c.admins == a.admins || c.admins == b.admins
    &&& c.pinned_message_id == a.pinned_message_id || c.pinned_message_id == b.pinned_message_id
}

/// Validation is monotone: a user who may turn `a` into `b` may also make
/// any part of these changes, that is turn `a` into a configuration that
/// takes each field from `a` or from `b`.
pub proof fn lemma_validation_monotone(
    a: GroupConfigView,
    b: GroupConfigView,
    c: GroupConfigView,
    user_id: u64,
)
    requires
        spec_valid(a, b, user_id),
        between(a, b, c),
    ensures
        spec_valid(a, c, user_id),
{
}

/// Nothing changed is always valid, and reports nothing.
pub proof fn lemma_no_change_valid(a: GroupConfigView, user_id: u64)
    ensures
        spec_valid(a, a, user_id),
        spec_changes(a, a) == Seq::<ConfigChangeView>::empty(),
{
    assert(spec_changes(a, a) =~= Seq::<ConfigChangeView>::empty()) by {
        lemma_no_change_upto(a, 18);
    }
}

proof fn lemma_no_change_upto(a: GroupConfigView, n: nat)
    ensures
        changes_upto(a, a, n) =~= Seq::<ConfigChangeView>::empty(),
    decreases n,
{
    if n > 0 {
        lemma_no_change_upto(a, (n - 1) as nat);
        assert(field_change(a, a, n - 1) =~= Seq::<ConfigChangeView>::empty());
    }
}

/// An admin holds every permission, whatever the permission table says.
pub proof fn lemma_admin_may_everything(a: GroupConfigView, user_id: u64, permission: Seq<char>)
    requires
        a.is_admin(user_id),
    ensures
        a.has_permission(user_id, permission),
{
}

/// An admin may make any change.
pub proof fn lemma_admin_change_valid(a: GroupConfigView, b: GroupConfigView, user_id: u64)
    requires
        a.is_admin(user_id),
    ensures
        spec_valid(a, b, user_id),
{
}

/// Leaving oneself asks for no permission: a member may turn `a` into a
/// configuration that differs from it in the member list alone and no
/// longer lists them.
pub proof fn lemma_self_leave_valid(a: GroupConfigView, b: GroupConfigView, user_id: u64)
    requires
        removes_self(a, b, user_id),
        b == (GroupConfigView { members: b.members, updated_at: b.updated_at, ..a }),
    ensures
        spec_valid(a, b, user_id),
{
}

} // verus!
