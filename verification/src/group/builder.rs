//! A builder for group configurations.

use vstd::prelude::*;
use std::collections::BTreeMap;
use vstd::std_specs::convert::IntoSpec;
use crate::support::clock::now_secs;
use crate::group::config::{
    DateTime, GroupConfig, GroupConfigView, JoinMode, Permissions, Visibility,
};
use crate::support::ordered::btree_keys;
use crate::group::membership::{
    enter_all, entered, keep_outside, keep_within, lemma_entered, lemma_outside, lemma_within,
    outside, within,
};
use crate::support::text::{opt_bytes, opt_text};

verus! {

/// Collects the settings of a group before the group is made.
#[derive(Debug, Clone)]
pub struct GroupConfigBuilder {
    group_id: u64,
    group_name: String,
    creator_id: u64,
    visibility: Option<Visibility>,
    join_mode: Option<JoinMode>,
    description: Option<String>,
    avatar: Option<Vec<u8>>,
    banner: Option<Vec<u8>>,
    max_members: Option<u32>,
    slow_mode_delay: Option<u32>,
    invite_link: Option<String>,
    pinned_message_id: Option<u64>,
    allow_stickers: Option<bool>,
    allow_gifs: Option<bool>,
    allow_voice_messages: Option<bool>,
    allow_video_messages: Option<bool>,
    allow_links: Option<bool>,
    additional_members: Vec<u64>,
    additional_admins: Vec<u64>,
    custom_permissions: BTreeMap<u64, Permissions>,
    default_member_permissions: Option<Permissions>,
    banned_users: Vec<u64>,
    muted_users: BTreeMap<u64, DateTime>,
}

/// What a builder has collected.
pub struct BuilderView {
    pub group_id: u64,
    pub group_name: Seq<char>,
    pub creator_id: u64,
    pub visibility: Option<Visibility>,
    pub join_mode: Option<JoinMode>,
    pub description: Option<Seq<char>>,
    pub avatar: Option<Seq<u8>>,
    pub banner: Option<Seq<u8>>,
    pub max_members: Option<u32>,
    pub slow_mode_delay: Option<u32>,
    pub invite_link: Option<Seq<char>>,
    pub pinned_message_id: Option<u64>,
    pub allow_stickers: Option<bool>,
    pub allow_gifs: Option<bool>,
    pub allow_voice_messages: Option<bool>,
    pub allow_video_messages: Option<bool>,
    pub allow_links: Option<bool>,
    /// Members besides the creator.
    pub additional_members: Seq<u64>,
    /// Admins besides the creator.
    pub additional_admins: Seq<u64>,
    pub custom_permissions: Map<u64, Permissions>,
    pub default_member_permissions: Option<Permissions>,
    pub banned_users: Seq<u64>,
    pub muted_users: Map<u64, DateTime>,
}

impl View for GroupConfigBuilder {
    type V = BuilderView;

    closed spec fn view(&self) -> BuilderView {
        BuilderView {
            group_id: self.group_id,
            group_name: self.group_name@,
            creator_id: self.creator_id,
            visibility: self.visibility,
            join_mode: self.join_mode,
            description: opt_text(self.description),
            avatar: opt_bytes(self.avatar),
            banner: opt_bytes(self.banner),
            max_members: self.max_members,
            slow_mode_delay: self.slow_mode_delay,
            invite_link: opt_text(self.invite_link),
            pinned_message_id: self.pinned_message_id,
            allow_stickers: self.allow_stickers,
            allow_gifs: self.allow_gifs,
            allow_voice_messages: self.allow_voice_messages,
            allow_video_messages: self.allow_video_messages,
            allow_links: self.allow_links,
            additional_members: self.additional_members@,
            additional_admins: self.additional_admins@,
            custom_permissions: self.custom_permissions@,
            default_member_permissions: self.default_member_permissions,
            banned_users: self.banned_users@,
            muted_users: self.muted_users@,
        }
    }
}

/// Why a configuration could not be built.
#[derive(Debug, Clone, Copy, PartialEq, Eq, Structural)]
pub enum GroupConfigBuilderError {
    /// The group's name is empty or blank.
    InvalidGroupName,
    /// The member limit is zero.
    InvalidMaxMembers,
    /// The creator and the other members are more than the member limit.
    TooManyMembers,
}

impl GroupConfigBuilderError {
    pub open spec fn spec_message(self) -> Seq<char> {
        match self {
            GroupConfigBuilderError::InvalidGroupName => "Group name cannot be empty"@,
            GroupConfigBuilderError::InvalidMaxMembers => "Maximum members must be greater than 0"@,
            GroupConfigBuilderError::TooManyMembers => "Number of initial members exceeds maximum limit"@,
        }
    }

    /// The error in words.
    pub fn to_string(&self) -> (s: String)
        ensures
            s@ == self.spec_message(),
    {
        match self {
            GroupConfigBuilderError::InvalidGroupName => "Group name cannot be empty".to_string(),
            GroupConfigBuilderError::InvalidMaxMembers => "Maximum members must be greater than 0".to_string(),
            GroupConfigBuilderError::TooManyMembers => "Number of initial members exceeds maximum limit".to_string(),
        }
    }
}

/// Whether a character is white space: one of the code points with the
/// Unicode property `White_Space`.
pub open spec fn white_space(c: char) -> bool {
    ||| '\u{9}' <= c <= '\u{d}'
    ||| c == ' '
    ||| c == '\u{85}'
    ||| c == '\u{a0}'
    ||| c == '\u{1680}'
    ||| '\u{2000}' <= c <= '\u{200a}'
    ||| c == '\u{2028}'
    ||| c == '\u{2029}'
    ||| c == '\u{202f}'
    ||| c == '\u{205f}'
    ||| c == '\u{3000}'
}

/// Whether a text is blank: it holds nothing but white space, so that
/// nothing is left of it once white space is trimmed off both ends.
pub open spec fn is_blank(text: Seq<char>) -> bool {
    forall|i: int| 0 <= i < text.len() ==> white_space(#[trigger] text[i])
}

/// A text without the white space at its ends, as the standard library
/// trims it.
pub uninterp spec fn trimmed_text(text: Seq<char>) -> Seq<char>;

/// `str::trim`: the text without leading and trailing white space, which
/// is what Unicode gives the property `White_Space`. The result depends on
/// the text alone, and it is empty exactly where the text is blank.
#[verifier::external_body]
fn trimmed(text: &str) -> (t: &str)
    ensures
        t@ == trimmed_text(text@),
        (t@.len() == 0) == is_blank(text@),
{
    text.trim()
}

/// A permission table after each of `users` got the entry `p`, in order.
pub open spec fn table_with(
    table: Map<u64, Permissions>,
    users: Seq<u64>,
    p: Permissions,
) -> Map<u64, Permissions>
    decreases users.len(),
{
    if users.len() == 0 {
        table
    } else {
        table_with(table, users.drop_last(), p).insert(users.last(), p)
    }
}

pub open spec fn or_true(v: Option<bool>) -> bool {
    match v {
        Some(b) => b,
        None => true,
    }
}

impl BuilderView {
    /// What a builder holds when nothing but the required settings was
    /// given.
    pub open spec fn initial(group_id: u64, group_name: Seq<char>, creator_id: u64) -> BuilderView {
        BuilderView {
            group_id,
            group_name,
            creator_id,
            visibility: None,
            join_mode: None,
            description: None,
            avatar: None,
            banner: None,
            max_members: None,
            slow_mode_delay: None,
            invite_link: None,
            pinned_message_id: None,
            allow_stickers: None,
            allow_gifs: None,
            allow_voice_messages: None,
            allow_video_messages: None,
            allow_links: None,
            additional_members: Seq::empty(),
            additional_admins: Seq::empty(),
            custom_permissions: Map::empty(),
            default_member_permissions: None,
            banned_users: Seq::empty(),
            muted_users: Map::empty(),
        }
    }

    /// Why no configuration can be built, if none can: a blank name, a
    /// member limit of zero, or more members than the limit allows.
    pub open spec fn build_error(self, name_is_blank: bool) -> Option<GroupConfigBuilderError> {
        if name_is_blank {
            Some(GroupConfigBuilderError::InvalidGroupName)
        } else {
            match self.max_members {
                Some(max) => {
                    if max == 0 {
                        Some(GroupConfigBuilderError::InvalidMaxMembers)
                    } else if 1 + self.additional_members.len() > max {
                        Some(GroupConfigBuilderError::TooManyMembers)
                    } else {
                        None
                    }
                },
                None => None,
            }
        }
    }

    /// The default permissions of the group that is built.
    pub open spec fn default_permissions(self) -> Permissions {
        match self.default_member_permissions {
            Some(p) => p,
            None => Permissions::spec_member(),
        }
    }

    /// The members of the group that is built: the creator, then the
    /// others as they were given.
    pub open spec fn members(self) -> Seq<u64> {
        seq![self.creator_id] + self.additional_members
    }

    /// The admins of the group that is built: the creator, then each extra
    /// admin who is a member, once. An extra admin who is no member is left
    /// out.
    pub open spec fn admins(self) -> Seq<u64> {
        entered(seq![self.creator_id], within(self.additional_admins, self.members()))
    }

    /// The ban list of the group that is built: the users to ban who are
    /// no members. Who is a member is not banned.
    pub open spec fn banned(self) -> Seq<u64> {
        outside(self.banned_users, self.members())
    }

    /// The permission table of the group that is built: the creator is
    /// admin, every other member gets the default, every extra admin who is
    /// a member the admin permissions, and the custom entries come last.
    pub open spec fn permissions(self) -> Map<u64, Permissions> {
        table_with(
            table_with(
                Map::<u64, Permissions>::empty().insert(self.creator_id, Permissions::spec_admin()),
                self.additional_members,
                self.default_permissions(),
            ),
            within(self.additional_admins, self.members()),
            Permissions::spec_admin(),
        ).union_prefer_right(self.custom_permissions)
    }

    /// The configuration that is built at the time `now`.
    pub open spec fn built(self, now: DateTime) -> GroupConfigView {
        GroupConfigView {
            id: self.group_id,
            name: self.group_name,
            created_at: now,
            updated_at: now,
            visibility: match self.visibility {
                Some(v) => v,
                None => Visibility::Private,
            },
            join_mode: match self.join_mode {
                Some(v) => v,
                None => JoinMode::InviteOnly,
            },
            invite_link: self.invite_link,
            max_members: self.max_members,
            creator_id: self.creator_id,
            members: self.members(),
            admins: self.admins(),
            permissions: self.permissions(),
            default_permissions: self.default_permissions(),
            banned: self.banned(),
            muted: self.muted_users,
            description: self.description,
            avatar: self.avatar,
            banner: self.banner,
            pinned_message_id: self.pinned_message_id,
            slow_mode_delay: self.slow_mode_delay,
            allow_stickers: or_true(self.allow_stickers),
            allow_gifs: or_true(self.allow_gifs),
            allow_voice_messages: or_true(self.allow_voice_messages),
            allow_video_messages: or_true(self.allow_video_messages),
            allow_links: or_true(self.allow_links),
        }
    }
}

/// What is built is well-formed: the creator is a member, every admin is a
/// member, no member is banned, and the creator is an admin.
pub proof fn lemma_built_well_formed(b: BuilderView, now: DateTime)
    ensures
        b.built(now).well_formed(),
        b.built(now).is_admin(b.creator_id),
{
    let c = b.built(now);
    let members = b.members();
    assert(members[0] == b.creator_id);
    lemma_within(b.additional_admins, members);
    lemma_entered(seq![b.creator_id], within(b.additional_admins, members));
    lemma_outside(b.banned_users, members);
    assert(seq![b.creator_id][0] == b.creator_id);
    assert(c.admins[0] == b.creator_id);
    assert forall|i: int| 0 <= i < c.admins.len() implies c.members.contains(c.admins[i]) by {
        let a = c.admins[i];
        assert(c.admins.contains(a));
        if seq![b.creator_id].contains(a) {
            assert(a == b.creator_id);
        } else {
            assert(within(b.additional_admins, members).contains(a));
        }
    }
    assert forall|i: int| 0 <= i < c.banned.len() implies !c.members.contains(c.banned[i]) by {
        assert(c.banned.contains(c.banned[i]));
    }
}

impl GroupConfigBuilder {
    /// A builder for a group of the given id, name and creator.
    pub fn new(group_id: u64, group_name: String, creator_id: u64) -> (b: GroupConfigBuilder)
        ensures
            b@ == BuilderView::initial(group_id, group_name@, creator_id),
    {
        let b = GroupConfigBuilder {
            group_id,
            group_name,
            creator_id,
            visibility: None,
            join_mode: None,
            description: None,
            avatar: None,
            banner: None,
            max_members: None,
            slow_mode_delay: None,
            invite_link: None,
            pinned_message_id: None,
            allow_stickers: None,
            allow_gifs: None,
            allow_voice_messages: None,
            allow_video_messages: None,
            allow_links: None,
            additional_members: Vec::new(),
            additional_admins: Vec::new(),
            custom_permissions: BTreeMap::new(),
            default_member_permissions: None,
            banned_users: Vec::new(),
            muted_users: BTreeMap::new(),
        };
        assert(b@.additional_members =~= Seq::empty());
        assert(b@.additional_admins =~= Seq::empty());
        assert(b@.banned_users =~= Seq::empty());
        assert(b@.custom_permissions =~= Map::empty());
        assert(b@.muted_users =~= Map::empty());
        b
    }

    /// Sets who can see the group.
    pub fn with_visibility(self, visibility: Visibility) -> (b: GroupConfigBuilder)
        ensures
            b@ == (BuilderView { visibility: Some(visibility), ..self@ }),
    {
        let mut b = self;
        b.visibility = Some(visibility);
        b
    }

    /// Sets how new members come in.
    pub fn with_join_mode(self, join_mode: JoinMode) -> (b: GroupConfigBuilder)
        ensures
            b@ == (BuilderView { join_mode: Some(join_mode), ..self@ }),
    {
        let mut b = self;
        b.join_mode = Some(join_mode);
        b
    }

    /// Sets the description.
    pub fn with_description<S: Into<String>>(self, description: S) -> (b: GroupConfigBuilder)
        ensures
            b@.description is Some,
            b@ == (BuilderView { description: b@.description, ..self@ }),
            S::obeys_into_spec() ==> b@.description == Some(description.into_spec()@),
    {
        let mut b = self;
        let text: String = description.into();
        b.description = Some(text);
        b
    }

    /// Sets the description to a text.
    pub(crate) fn described(self, description: String) -> (b: GroupConfigBuilder)
        ensures
            b@ == (BuilderView { description: Some(description@), ..self@ }),
    {
        let mut b = self;
        b.description = Some(description);
        b
    }

    /// Sets the invite link.
    pub fn with_invite_link<S: Into<String>>(self, link: S) -> (b: GroupConfigBuilder)
        ensures
            b@.invite_link is Some,
            b@ == (BuilderView { invite_link: b@.invite_link, ..self@ }),
            S::obeys_into_spec() ==> b@.invite_link == Some(link.into_spec()@),
    {
        let mut b = self;
        let text: String = link.into();
        b.invite_link = Some(text);
        b
    }

    /// Sets the avatar.
    pub fn with_avatar(self, avatar: Vec<u8>) -> (b: GroupConfigBuilder)
        ensures
            b@ == (BuilderView { avatar: Some(avatar@), ..self@ }),
    {
        let mut b = self;
        b.avatar = Some(avatar);
        b
    }

    /// Sets the banner.
    pub fn with_banner(self, banner: Vec<u8>) -> (b: GroupConfigBuilder)
        ensures
            b@ == (BuilderView { banner: Some(banner@), ..self@ }),
    {
        let mut b = self;
        b.banner = Some(banner);
        b
    }

    /// Sets the member limit.
    pub fn with_max_members(self, max_members: u32) -> (b: GroupConfigBuilder)
        ensures
            b@ == (BuilderView { max_members: Some(max_members), ..self@ }),
    {
        let mut b = self;
        b.max_members = Some(max_members);
        b
    }

    /// Sets the slow mode delay, in seconds.
    pub fn with_slow_mode_delay(self, delay: u32) -> (b: GroupConfigBuilder)
        ensures
            b@ == (BuilderView { slow_mode_delay: Some(delay), ..self@ }),
    {
        let mut b = self;
        b.slow_mode_delay = Some(delay);
        b
    }

    /// Sets the pinned message.
    pub fn with_pinned_message(self, message_id: u64) -> (b: GroupConfigBuilder)
        ensures
            b@ == (BuilderView { pinned_message_id: Some(message_id), ..self@ }),
    {
        let mut b = self;
        b.pinned_message_id = Some(message_id);
        b
    }

    /// Says whether stickers are allowed.
    pub fn allow_stickers(self, allow: bool) -> (b: GroupConfigBuilder)
        ensures
            b@ == (BuilderView { allow_stickers: Some(allow), ..self@ }),
    {
        let mut b = self;
        b.allow_stickers = Some(allow);
        b
    }

    /// Says whether GIFs are allowed.
    pub fn allow_gifs(self, allow: bool) -> (b: GroupConfigBuilder)
        ensures
            b@ == (BuilderView { allow_gifs: Some(allow), ..self@ }),
    {
        let mut b = self;
        b.allow_gifs = Some(allow);
        b
    }

    /// Says whether voice messages are allowed.
    pub fn allow_voice_messages(self, allow: bool) -> (b: GroupConfigBuilder)
        ensures
            b@ == (BuilderView { allow_voice_messages: Some(allow), ..self@ }),
    {
        let mut b = self;
        b.allow_voice_messages = Some(allow);
        b
    }

    /// Says whether video messages are allowed.
    pub fn allow_video_messages(self, allow: bool) -> (b: GroupConfigBuilder)
        ensures
            b@ == (BuilderView { allow_video_messages: Some(allow), ..self@ }),
    {
        let mut b = self;
        b.allow_video_messages = Some(allow);
        b
    }

    /// Says whether links are allowed.
    pub fn allow_links(self, allow: bool) -> (b: GroupConfigBuilder)
        ensures
            b@ == (BuilderView { allow_links: Some(allow), ..self@ }),
    {
        let mut b = self;
        b.allow_links = Some(allow);
        b
    }

    /// Sets the members besides the creator.
    pub fn with_members(self, member_ids: Vec<u64>) -> (b: GroupConfigBuilder)
        ensures
            b@ == (BuilderView { additional_members: member_ids@, ..self@ }),
    {
        let mut b = self;
        b.additional_members = member_ids;
        b
    }

    /// Sets the admins besides the creator.
    pub fn with_admins(self, admin_ids: Vec<u64>) -> (b: GroupConfigBuilder)
        ensures
            b@ == (BuilderView { additional_admins: admin_ids@, ..self@ }),
    {
        let mut b = self;
        b.additional_admins = admin_ids;
        b
    }

    /// Sets the permissions that members get by default.
    pub fn with_default_permissions(self, permissions: Permissions) -> (b: GroupConfigBuilder)
        ensures
            b@ == (BuilderView { default_member_permissions: Some(permissions), ..self@ }),
    {
        let mut b = self;
        b.default_member_permissions = Some(permissions);
        b
    }

    /// Sets the banned users.
    pub fn with_banned_users(self, banned_ids: Vec<u64>) -> (b: GroupConfigBuilder)
        ensures
            b@ == (BuilderView { banned_users: banned_ids@, ..self@ }),
    {
        let mut b = self;
        b.banned_users = banned_ids;
        b
    }

    /// Sets the muted users, each with the time until which the mute holds.
    pub fn with_muted_users(self, muted: BTreeMap<u64, DateTime>) -> (b: GroupConfigBuilder)
        ensures
            b@ == (BuilderView { muted_users: muted@, ..self@ }),
    {
        let mut b = self;
        b.muted_users = muted;
        b
    }

    /// Adds one member.
    pub fn add_member(self, member_id: u64) -> (b: GroupConfigBuilder)
        ensures
            b@ == (BuilderView { additional_members: self@.additional_members.push(member_id), ..self@ }),
    {
        let mut b = self;
        b.additional_members.push(member_id);
        b
    }

    /// Adds one admin.
    pub fn add_admin(self, admin_id: u64) -> (b: GroupConfigBuilder)
        ensures
            b@ == (BuilderView { additional_admins: self@.additional_admins.push(admin_id), ..self@ }),
    {
        let mut b = self;
        b.additional_admins.push(admin_id);
        b
    }

    /// Bans one user.
    pub fn ban_user(self, user_id: u64) -> (b: GroupConfigBuilder)
        ensures
            b@ == (BuilderView { banned_users: self@.banned_users.push(user_id), ..self@ }),
    {
        let mut b = self;
        b.banned_users.push(user_id);
        b
    }

    /// Sets the permissions of one user.
    pub fn with_user_permissions(self, user_id: u64, permissions: Permissions) -> (b:
        GroupConfigBuilder)
        ensures
            b@ == (BuilderView {
                custom_permissions: self@.custom_permissions.insert(user_id, permissions),
                ..self@
            }),
    {
        let mut b = self;
        b.custom_permissions.insert(user_id, permissions);
        b
    }

    /// Mutes one user until the given time.
    pub fn mute_user(self, user_id: u64, until: DateTime) -> (b: GroupConfigBuilder)
        ensures
            b@ == (BuilderView { muted_users: self@.muted_users.insert(user_id, until), ..self@ }),
    {
        let mut b = self;
        b.muted_users.insert(user_id, until);
        b
    }
}

/// Ready-made builders for common kinds of groups.
impl GroupConfigBuilder {
    /// A group that everyone can see and join.
    pub fn public_group(group_id: u64, group_name: String, creator_id: u64) -> (b: GroupConfigBuilder)
        ensures
            b@ == (BuilderView {
                visibility: Some(Visibility::Public),
                join_mode: Some(JoinMode::Open),
                default_member_permissions: Some(Permissions::spec_member()),
                ..BuilderView::initial(group_id, group_name@, creator_id)
            }),
    {
        GroupConfigBuilder::new(group_id, group_name, creator_id).with_visibility(
            Visibility::Public,
        ).with_join_mode(JoinMode::Open).with_default_permissions(Permissions::member())
    }

    /// A group that is joined by invitation.
    pub fn private_group(group_id: u64, group_name: String, creator_id: u64) -> (b: GroupConfigBuilder)
        ensures
            b@ == (BuilderView {
                visibility: Some(Visibility::Private),
                join_mode: Some(JoinMode::InviteOnly),
                default_member_permissions: Some(Permissions::spec_member()),
                ..BuilderView::initial(group_id, group_name@, creator_id)
            }),
    {
        GroupConfigBuilder::new(group_id, group_name, creator_id).with_visibility(
            Visibility::Private,
        ).with_join_mode(JoinMode::InviteOnly).with_default_permissions(Permissions::member())
    }

    /// A group that nobody sees and that is joined by invitation.
    pub fn hidden_group(group_id: u64, group_name: String, creator_id: u64) -> (b: GroupConfigBuilder)
        ensures
            b@ == (BuilderView {
                visibility: Some(Visibility::Hidden),
                join_mode: Some(JoinMode::InviteOnly),
                default_member_permissions: Some(Permissions::spec_member()),
                ..BuilderView::initial(group_id, group_name@, creator_id)
            }),
    {
        GroupConfigBuilder::new(group_id, group_name, creator_id).with_visibility(
            Visibility::Hidden,
        ).with_join_mode(JoinMode::InviteOnly).with_default_permissions(Permissions::member())
    }

    /// A group that everyone can see, that is joined on request, and in which members read only.
    pub fn read_only_group(group_id: u64, group_name: String, creator_id: u64) -> (b: GroupConfigBuilder)
        ensures
            b@ == (BuilderView {
                visibility: Some(Visibility::Public),
                join_mode: Some(JoinMode::RequestToJoin),
                default_member_permissions: Some(Permissions::spec_reader()),
                ..BuilderView::initial(group_id, group_name@, creator_id)
            }),
    {
        GroupConfigBuilder::new(group_id, group_name, creator_id).with_visibility(
            Visibility::Public,
        ).with_join_mode(JoinMode::RequestToJoin).with_default_permissions(Permissions::reader())
    }

    /// A group without stickers, GIFs, voice messages, video messages and
    /// links.
    pub fn restricted_content_group(group_id: u64, group_name: String, creator_id: u64) -> (b:
        GroupConfigBuilder)
        ensures
            b@ == (BuilderView {
                allow_stickers: Some(false),
                allow_gifs: Some(false),
                allow_voice_messages: Some(false),
                allow_video_messages: Some(false),
                allow_links: Some(false),
                ..BuilderView::initial(group_id, group_name@, creator_id)
            }),
    {
        GroupConfigBuilder::new(group_id, group_name, creator_id).allow_stickers(
            false,
        ).allow_gifs(false).allow_voice_messages(false).allow_video_messages(false).allow_links(
            false,
        )
    }
}

/// The permission table with the given entry for each user of a list.
fn fill_table(table: &mut std::collections::HashMap<u64, Permissions>, users: &Vec<u64>, p: Permissions)
    ensures
        final(table)@ == table_with(old(table)@, users@, p),
{
    let mut i: usize = 0;
    assert(users@.subrange(0, 0) =~= Seq::<u64>::empty());
    while i < users.len()
        invariant
            i <= users.len(),
            table@ == table_with(old(table)@, users@.subrange(0, i as int), p),
        decreases users.len() - i,
    {
        proof {
            assert(users@.subrange(0, i + 1).drop_last() =~= users@.subrange(0, i as int));
        }
        table.insert(users[i], p);
        i += 1;
    }
    assert(users@.subrange(0, users@.len() as int) =~= users@);
}

/// The permission table with the entries of an ordered map laid over it.
fn overlay_table(
    table: &mut std::collections::HashMap<u64, Permissions>,
    custom: &BTreeMap<u64, Permissions>,
)
    ensures
        final(table)@ == old(table)@.union_prefer_right(custom@),
{
    let keys = btree_keys(custom);
    let mut i: usize = 0;
    while i < keys.len()
        invariant
            i <= keys.len(),
            keys@.to_set() == custom@.dom(),
            forall|k: u64|
                #![trigger table@.contains_key(k)]
                table@.contains_key(k) <==> (old(table)@.contains_key(k) || keys@.subrange(
                    0,
                    i as int,
                ).contains(k)),
            forall|k: u64|
                #![trigger table@[k]]
                table@.contains_key(k) ==> table@[k] == if keys@.subrange(0, i as int).contains(
                    k,
                ) {
                    custom@[k]
                } else {
                    old(table)@[k]
                },
        decreases keys.len() - i,
    {
        let k = keys[i];
        assert(keys@.to_set().contains(k));
        let ghost before = keys@.subrange(0, i as int);
        let ghost after = keys@.subrange(0, i + 1);
        proof {
            assert(after =~= before.push(k));
            assert forall|x: u64| after.contains(x) <==> (before.contains(x) || x == k) by {
                if before.contains(x) {
                    let w = choose|w: int| 0 <= w < before.len() && before[w] == x;
                    assert(after[w] == x);
                }
                if x == k {
                    assert(after[i as int] == k);
                }
            }
        }
        match custom.get(&k) {
            Some(p) => {
                table.insert(k, *p);
            },
            None => {},
        }
        i += 1;
    }
    proof {
        assert(keys@.subrange(0, keys@.len() as int) =~= keys@);
        assert forall|k: u64| keys@.contains(k) <==> custom@.contains_key(k) by {
            assert(keys@.to_set().contains(k) <==> custom@.dom().contains(k));
        }
        assert(table@ =~= old(table)@.union_prefer_right(custom@));
    }
}

/// A hash map with the entries of an ordered map.
fn mute_table(muted: &BTreeMap<u64, DateTime>) -> (table: std::collections::HashMap<u64, DateTime>)
    ensures
        table@ == muted@,
{
    let keys = btree_keys(muted);
    let mut table: std::collections::HashMap<u64, DateTime> = std::collections::HashMap::new();
    let mut i: usize = 0;
    while i < keys.len()
        invariant
            i <= keys.len(),
            keys@.to_set() == muted@.dom(),
            forall|k: u64|
                #![trigger table@.contains_key(k)]
                table@.contains_key(k) ==> muted@.contains_key(k) && table@[k] == muted@[k],
            forall|j: int| 0 <= j < i ==> table@.contains_key(keys@[j]),
        decreases keys.len() - i,
    {
        let k = keys[i];
        assert(keys@.to_set().contains(k));
        match muted.get(&k) {
            Some(until) => {
                table.insert(k, *until);
            },
            None => {},
        }
        i += 1;
    }
    proof {
        assert forall|k: u64| muted@.contains_key(k) implies table@.contains_key(k) by {
            assert(keys@.to_set().contains(k));
            let j = choose|j: int| 0 <= j < keys@.len() && keys@[j] == k;
            assert(table@.contains_key(keys@[j]));
        }
        assert(table@ =~= muted@);
    }
    table
}

/// A list that starts with `first` and goes on with `rest`.
fn headed(first: u64, rest: &Vec<u64>) -> (all: Vec<u64>)
    ensures
        all@ == seq![first] + rest@,
{
    let mut all: Vec<u64> = Vec::new();
    all.push(first);
    let mut i: usize = 0;
    while i < rest.len()
        invariant
            i <= rest.len(),
            all@ == seq![first] + rest@.subrange(0, i as int),
        decreases rest.len() - i,
    {
        all.push(rest[i]);
        i += 1;
        assert(all@ =~= seq![first] + rest@.subrange(0, i as int));
    }
    assert(rest@.subrange(0, rest@.len() as int) =~= rest@);
    all
}

impl GroupConfigBuilder {
    /// Builds the configuration, given whether the group's name is blank.
    /// See [`BuilderView::build_error`] for what is refused and
    /// [`BuilderView::built`] for what is built.
    pub fn build_with(self, name_is_blank: bool) -> (r: Result<GroupConfig, GroupConfigBuilderError>)
        ensures
            match r {
                Ok(config) => self@.build_error(name_is_blank) is None && config@ == self@.built(
                    config@.created_at,
                ) && config@.well_formed() && config@.is_admin(self@.creator_id),
                Err(e) => self@.build_error(name_is_blank) == Some(e),
            },
    {
        if name_is_blank {
            return Err(GroupConfigBuilderError::InvalidGroupName);
        }
        match self.max_members {
            Some(max) => {
                if max == 0 {
                    return Err(GroupConfigBuilderError::InvalidMaxMembers);
                }
                if self.additional_members.len() >= max as usize {
                    return Err(GroupConfigBuilderError::TooManyMembers);
                }
            },
            None => {},
        }
        let default_permissions = match self.default_member_permissions {
            Some(p) => p,
            None => Permissions::member(),
        };
        let mut permissions: std::collections::HashMap<u64, Permissions> =
            std::collections::HashMap::new();
        permissions.insert(self.creator_id, Permissions::admin());
        fill_table(&mut permissions, &self.additional_members, default_permissions);
        let now = DateTime { timestamp: now_secs() };
        let members = headed(self.creator_id, &self.additional_members);
        let extra_admins = keep_within(&self.additional_admins, &members);
        fill_table(&mut permissions, &extra_admins, Permissions::admin());
        overlay_table(&mut permissions, &self.custom_permissions);
        let mut first: Vec<u64> = Vec::new();
        first.push(self.creator_id);
        assert(first@ =~= seq![self.creator_id]);
        let admins = enter_all(first, &extra_admins);
        let banned = keep_outside(&self.banned_users, &members);
        let muted = mute_table(&self.muted_users);
        let ghost collected = self@;
        let config = GroupConfig {
            id: self.group_id,
            name: self.group_name,
            created_at: now,
            updated_at: now,
            visibility: match self.visibility {
                Some(v) => v,
                None => Visibility::Private,
            },
            join_mode: match self.join_mode {
                Some(v) => v,
                None => JoinMode::InviteOnly,
            },
            invite_link: self.invite_link,
            max_members: self.max_members,
            creator_id: self.creator_id,
            members,
            admins,
            permissions,
            default_permissions,
            banned,
            muted,
            description: self.description,
            avatar: self.avatar,
            banner: self.banner,
            pinned_message_id: self.pinned_message_id,
            slow_mode_delay: self.slow_mode_delay,
            allow_stickers: match self.allow_stickers {
                Some(b) => b,
                None => true,
            },
            allow_gifs: match self.allow_gifs {
                Some(b) => b,
                None => true,
            },
            allow_voice_messages: match self.allow_voice_messages {
                Some(b) => b,
                None => true,
            },
            allow_video_messages: match self.allow_video_messages {
                Some(b) => b,
                None => true,
            },
            allow_links: match self.allow_links {
                Some(b) => b,
                None => true,
            },
        };
        assert(config@ == collected.built(now));
        proof {
            lemma_built_well_formed(collected, now);
        }
        Ok(config)
    }

    /// Builds the configuration. A name that is empty or blank, a member
    /// limit of zero, and more members than the limit allows are refused.
    /// What is built is well-formed: an extra admin who is no member is
    /// left out of the admins, and a member is left out of the ban list.
    pub fn build(self) -> (r: Result<GroupConfig, GroupConfigBuilderError>)
        ensures
            match r {
                Ok(config) => self@.build_error(is_blank(self@.group_name)) is None && config@
                    == self@.built(config@.created_at) && config@.well_formed()
                    && config@.is_admin(self@.creator_id),
                Err(e) => self@.build_error(is_blank(self@.group_name)) == Some(e),
            },
    {
        let blank = trimmed(self.group_name.as_str()).is_empty();
        self.build_with(blank)
    }
}

} // verus!
