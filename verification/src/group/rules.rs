//! The policy that gates a commit's proposals: who may add or remove users,
//! who may change the group's configuration, and what the roster and the
//! configuration are once the commit is applied.

use vstd::prelude::*;
use crate::identity::credentials::{
    AccountCredential, AccountCredentialView, DeviceCredential, DeviceCredentialView,
    CREDENTIAL_V1};
use crate::group::errors::{GroupError, GroupErrorView};
use crate::group::config::{spec_valid, GroupConfig, GroupConfigView};
use crate::wire::mls::CodecError;


verus! {

/// Extension type of the roster.
pub const ROSTER_EXTENSION_V1: u16 = 65000;

/// Proposal type of "add a user to the roster".
pub const ADD_USER_PROPOSAL_V1: u16 = 65001;

/// Proposal type of "remove a user from the roster".
pub const REMOVE_USER_PROPOSAL_V1: u16 = 65002;

/// Extension type of the group configuration.
pub const GROUP_CONFIG_EXTENSION_V1: u16 = 65003;

/// Proposal type of "replace the group configuration".
pub const UPDATE_GROUP_CONFIG_PROPOSAL_V1: u16 = 65004;

/// Who sends a commit, as far as the policy needs to know.
#[derive(Debug, Clone)]
pub enum CommitSource {
    /// A member of the group: the type and the bytes of the credential of
    /// the leaf that signs, and the leaf's index.
    ExistingMember { credential_type: u16, credential_data: Vec<u8>, index: u32 },
    /// Someone who joins by this very commit: the type of their credential.
    NewMember { credential_type: u16 },
}

pub enum CommitSourceView {
    ExistingMember { credential_type: u16, credential_data: Seq<u8>, index: u32 },
    NewMember { credential_type: u16 },
}

impl View for CommitSource {
    type V = CommitSourceView;

    open spec fn view(&self) -> CommitSourceView {
        match self {
            CommitSource::ExistingMember {
                credential_type,
                credential_data,
                index,
            } => CommitSourceView::ExistingMember {
                credential_type: *credential_type,
                credential_data: credential_data@,
                index: *index,
            },
            CommitSource::NewMember { credential_type } => CommitSourceView::NewMember {
                credential_type: *credential_type,
            },
        }
    }
}

/// One custom proposal of a commit, with its payload as far as it could be
/// decoded.
#[derive(Debug)]
pub enum PolicyProposal {
    /// Add the user of this credential to the roster.
    AddUser(Result<AccountCredential, CodecError>),
    /// Remove the user of this number from the roster.
    RemoveUser(Result<u64, CodecError>),
    /// Replace the group configuration by this one.
    UpdateGroupConfig(Result<GroupConfig, CodecError>),
    /// A proposal of another type: the policy lets it pass.
    Other,
}

pub enum PolicyProposalView {
    AddUser(Result<AccountCredentialView, CodecError>),
    RemoveUser(Result<u64, CodecError>),
    UpdateGroupConfig(Result<GroupConfigView, CodecError>),
    Other,
}

impl View for PolicyProposal {
    type V = PolicyProposalView;

    open spec fn view(&self) -> PolicyProposalView {
        match self {
            PolicyProposal::AddUser(Ok(c)) => PolicyProposalView::AddUser(Ok(c@)),
            PolicyProposal::AddUser(Err(e)) => PolicyProposalView::AddUser(Err(*e)),
            PolicyProposal::RemoveUser(r) => PolicyProposalView::RemoveUser(*r),
            PolicyProposal::UpdateGroupConfig(Ok(c)) => PolicyProposalView::UpdateGroupConfig(
                Ok(c@),
            ),
            PolicyProposal::UpdateGroupConfig(Err(e)) => PolicyProposalView::UpdateGroupConfig(
                Err(*e),
            ),
            PolicyProposal::Other => PolicyProposalView::Other,
        }
    }
}

/// The views of a list of proposals.
pub open spec fn proposal_views(p: Seq<PolicyProposal>) -> Seq<PolicyProposalView> {
    p.map_values(|x: PolicyProposal| x@)
}

/// The views of a roster.
pub open spec fn roster_view(r: Seq<AccountCredential>) -> Seq<AccountCredentialView> {
    r.map_values(|c: AccountCredential| c@)
}

/// The view of an optional configuration.
pub open spec fn config_view(c: Option<GroupConfig>) -> Option<GroupConfigView> {
    match c {
        Some(c) => Some(c@),
        None => None,
    }
}

/// What a commit of a member leaves behind.
#[derive(Debug, Clone)]
pub struct PolicyOutcome {
    /// The user on whose behalf the commit was sent.
    pub sender_user_id: u64,
    /// The leaf that sent the commit.
    pub sender_index: u32,
    /// The roster once the commit is applied.
    pub roster: Vec<AccountCredential>,
    /// Whether a proposal touched the roster.
    pub roster_changed: bool,
    /// The configuration once the commit is applied, if the group has one.
    pub config: Option<GroupConfig>,
    /// Whether a proposal replaced the configuration.
    pub config_changed: bool,
}

pub struct PolicyOutcomeView {
    pub sender_user_id: u64,
    pub sender_index: u32,
    pub roster: Seq<AccountCredentialView>,
    pub roster_changed: bool,
    pub config: Option<GroupConfigView>,
    pub config_changed: bool,
}

impl View for PolicyOutcome {
    type V = PolicyOutcomeView;

    open spec fn view(&self) -> PolicyOutcomeView {
        PolicyOutcomeView {
            sender_user_id: self.sender_user_id,
            sender_index: self.sender_index,
            roster: roster_view(self.roster@),
            roster_changed: self.roster_changed,
            config: config_view(self.config),
            config_changed: self.config_changed,
        }
    }
}

impl PolicyOutcomeView {
    /// Whether the commit must carry the group's extensions anew: it must
    /// where a proposal changed the roster or the configuration.
    pub open spec fn extensions_modified(self) -> bool {
        self.roster_changed || self.config_changed
    }
}

impl PolicyOutcome {
    /// Whether the commit must carry the group's extensions anew.
    pub fn extensions_modified(&self) -> (r: bool)
        ensures
            r == self@.extensions_modified(),
    {
        self.roster_changed || self.config_changed
    }
}

/// The verdict on a commit's proposals.
#[derive(Debug, Clone)]
pub enum PolicyDecision {
    /// The commit comes from outside the group: its proposals pass as they
    /// are.
    PassThrough,
    /// The commit comes from a member and is allowed.
    Accepted(PolicyOutcome),
}

pub enum PolicyDecisionView {
    PassThrough,
    Accepted(PolicyOutcomeView),
}

impl View for PolicyDecision {
    type V = PolicyDecisionView;

    open spec fn view(&self) -> PolicyDecisionView {
        match self {
            PolicyDecision::PassThrough => PolicyDecisionView::PassThrough,
            PolicyDecision::Accepted(o) => PolicyDecisionView::Accepted(o@),
        }
    }
}

pub open spec fn not_allowed() -> GroupErrorView {
    GroupErrorView::ConfigError("User is not allowed to manage members"@)
}

pub open spec fn banned() -> GroupErrorView {
    GroupErrorView::ConfigError("User is banned from this group"@)
}

pub open spec fn full() -> GroupErrorView {
    GroupErrorView::ConfigError("Group is full"@)
}

pub open spec fn invalid_changes() -> GroupErrorView {
    GroupErrorView::ConfigValidationError("Invalid config changes"@)
}

pub open spec fn malformed(e: CodecError) -> GroupErrorView {
    GroupErrorView::CodecError(e.spec_message())
}

/// One step of the first pass: what an "add user" proposal does to the
/// roster. In a group without configuration such a proposal does nothing.
/// Else the sender must hold `manage_members`, the payload must decode, the
/// user must not be banned and the group must not be full; the user's
/// credential is then appended.
pub open spec fn add_step(
    sender: u64,
    config: Option<GroupConfigView>,
    state: (Seq<AccountCredentialView>, bool),
    p: PolicyProposalView,
) -> Result<(Seq<AccountCredentialView>, bool), GroupErrorView> {
    match (p, config) {
        (PolicyProposalView::AddUser(payload), Some(c)) => {
            if !c.has_permission(sender, "manage_members"@) {
                Err(not_allowed())
            } else {
                match payload {
                    Err(e) => Err(malformed(e)),
                    Ok(cred) => {
                        if c.is_banned(cred.account_id.user_id) {
                            Err(banned())
                        } else if c.is_full() {
                            Err(full())
                        } else {
                            Ok((state.0.push(cred), true))
                        }
                    },
                }
            }
        },
        _ => Ok(state),
    }
}

/// The roster without the entries of one user.
pub open spec fn without_user(roster: Seq<AccountCredentialView>, user_id: u64) -> Seq<
    AccountCredentialView,
>
    decreases roster.len(),
{
    if roster.len() == 0 {
        Seq::empty()
    } else if roster.last().account_id.user_id == user_id {
        without_user(roster.drop_last(), user_id)
    } else {
        without_user(roster.drop_last(), user_id).push(roster.last())
    }
}

/// One step of the second pass: what a "remove user" proposal does to the
/// roster. The payload must decode. Removing oneself is always allowed;
/// removing another asks for `manage_members` where the group has a
/// configuration. Every entry of the user then leaves the roster.
pub open spec fn remove_step(
    sender: u64,
    config: Option<GroupConfigView>,
    state: (Seq<AccountCredentialView>, bool),
    p: PolicyProposalView,
) -> Result<(Seq<AccountCredentialView>, bool), GroupErrorView> {
    match p {
        PolicyProposalView::RemoveUser(payload) => match payload {
            Err(e) => Err(malformed(e)),
            Ok(user_id) => {
                if user_id != sender && config.is_some() && !config.unwrap().has_permission(
                    sender,
                    "manage_members"@,
                ) {
                    Err(not_allowed())
                } else {
                    Ok((without_user(state.0, user_id), true))
                }
            },
        },
        _ => Ok(state),
    }
}

/// One step of the third pass: what an "update configuration" proposal does.
/// The payload must decode, and where there is a configuration already, the
/// sender must be allowed to turn it into the new one. The new one then
/// takes its place.
pub open spec fn update_step(
    sender: u64,
    state: (Option<GroupConfigView>, bool),
    p: PolicyProposalView,
) -> Result<(Option<GroupConfigView>, bool), GroupErrorView> {
    match p {
        PolicyProposalView::UpdateGroupConfig(payload) => match payload {
            Err(e) => Err(malformed(e)),
            Ok(new_config) => {
                if state.0.is_some() && !spec_valid(state.0.unwrap(), new_config, sender) {
                    Err(invalid_changes())
                } else {
                    Ok((Some(new_config), true))
                }
            },
        },
        _ => Ok(state),
    }
}

/// The first pass over the proposals, in their order.
pub open spec fn after_adds(
    sender: u64,
    config: Option<GroupConfigView>,
    roster: Seq<AccountCredentialView>,
    proposals: Seq<PolicyProposalView>,
) -> Result<(Seq<AccountCredentialView>, bool), GroupErrorView>
    decreases proposals.len(),
{
    if proposals.len() == 0 {
        Ok((roster, false))
    } else {
        match after_adds(sender, config, roster, proposals.drop_last()) {
            Err(e) => Err(e),
            Ok(state) => add_step(sender, config, state, proposals.last()),
        }
    }
}

/// The second pass over the proposals, in their order.
pub open spec fn after_removes(
    sender: u64,
    config: Option<GroupConfigView>,
    start: (Seq<AccountCredentialView>, bool),
    proposals: Seq<PolicyProposalView>,
) -> Result<(Seq<AccountCredentialView>, bool), GroupErrorView>
    decreases proposals.len(),
{
    if proposals.len() == 0 {
        Ok(start)
    } else {
        match after_removes(sender, config, start, proposals.drop_last()) {
            Err(e) => Err(e),
            Ok(state) => remove_step(sender, config, state, proposals.last()),
        }
    }
}

/// The third pass over the proposals, in their order.
pub open spec fn after_updates(
    sender: u64,
    config: Option<GroupConfigView>,
    proposals: Seq<PolicyProposalView>,
) -> Result<(Option<GroupConfigView>, bool), GroupErrorView>
    decreases proposals.len(),
{
    if proposals.len() == 0 {
        Ok((config, false))
    } else {
        match after_updates(sender, config, proposals.drop_last()) {
            Err(e) => Err(e),
            Ok(state) => update_step(sender, state, proposals.last()),
        }
    }
}

/// What the three passes leave behind for a member's commit: first every
/// "add user", then every "remove user", then every "update configuration";
/// the first proposal that is refused refuses the commit.
pub open spec fn member_outcome(
    sender: u64,
    index: u32,
    config: Option<GroupConfigView>,
    roster: Seq<AccountCredentialView>,
    proposals: Seq<PolicyProposalView>,
) -> Result<PolicyOutcomeView, GroupErrorView> {
    match after_adds(sender, config, roster, proposals) {
        Err(e) => Err(e),
        Ok(added) => match after_removes(sender, config, added, proposals) {
            Err(e) => Err(e),
            Ok(removed) => match after_updates(sender, config, proposals) {
                Err(e) => Err(e),
                Ok(updated) => Ok(
                    PolicyOutcomeView {
                        sender_user_id: sender,
                        sender_index: index,
                        roster: removed.0,
                        roster_changed: removed.1,
                        config: updated.0,
                        config_changed: updated.1,
                    },
                ),
            },
        },
    }
}

/// The user behind a member's credential: the credential must be a device
/// credential, and must decode.
pub open spec fn sender_of(credential_type: u16, credential_data: Seq<u8>) -> Result<
    u64,
    GroupErrorView,
> {
    if credential_type != CREDENTIAL_V1 {
        Err(GroupErrorView::CredentialMissmatch)
    } else {
        match DeviceCredentialView::decoded(credential_data) {
            Err(e) => Err(malformed(e)),
            Ok(c) => Ok(c.device_id.user_id),
        }
    }
}

/// The whole policy. A commit from outside the group passes unchecked if
/// its credential is a device credential. A member's commit needs a
/// decodable device credential and a roster in the group, and then goes
/// through the three passes.
pub open spec fn spec_filter(
    source: CommitSourceView,
    config: Option<GroupConfigView>,
    roster: Option<Seq<AccountCredentialView>>,
    proposals: Seq<PolicyProposalView>,
) -> Result<PolicyDecisionView, GroupErrorView> {
    match source {
        CommitSourceView::NewMember { credential_type } => {
            if credential_type != CREDENTIAL_V1 {
                Err(GroupErrorView::CredentialMissmatch)
            } else {
                Ok(PolicyDecisionView::PassThrough)
            }
        },
        CommitSourceView::ExistingMember { credential_type, credential_data, index } => {
            match sender_of(credential_type, credential_data) {
                Err(e) => Err(e),
                Ok(sender) => match roster {
                    None => Err(GroupErrorView::RosterNotFound),
                    Some(r) => match member_outcome(sender, index, config, r, proposals) {
                        Err(e) => Err(e),
                        Ok(o) => Ok(PolicyDecisionView::Accepted(o)),
                    },
                },
            }
        },
    }
}

/// The rules that this library lays on an MLS group.
#[derive(Debug, Clone, Copy)]
pub struct CustomMlsRules;

/// How application messages are encrypted.
#[derive(Debug, Clone, Copy, PartialEq, Eq, Structural)]
pub struct EncryptionOptions {
    /// Whether handshake messages are encrypted too.
    pub encrypt_control_messages: bool,
    /// Whether ciphertexts are padded.
    pub padding: bool,
}

/// How commits are built.
#[derive(Debug, Clone, Copy, PartialEq, Eq, Structural)]
pub struct CommitOptions {
    /// Whether the commit carries an update path even where none is needed.
    pub path_required: bool,
    /// Whether welcome messages carry the ratchet tree.
    pub ratchet_tree_extension: bool,
    /// Whether one welcome message serves all new members.
    pub single_welcome_message: bool,
    /// Whether external commits are allowed.
    pub allow_external_commit: bool,
    /// Whether the ratchet tree always travels out of band.
    pub always_out_of_band_ratchet_tree: bool,
}

proof fn lemma_prefix_step<T>(s: Seq<T>, i: int)
    requires
        0 <= i < s.len(),
    ensures
        s.subrange(0, i + 1).drop_last() == s.subrange(0, i),
        s.subrange(0, i + 1).last() == s[i],
        s.subrange(0, s.len() as int) == s,
{
    assert(s.subrange(0, i + 1).drop_last() =~= s.subrange(0, i));
    assert(s.subrange(0, s.len() as int) =~= s);
}

/// The roster without the entries of one user.
fn remove_user_entries(roster: &Vec<AccountCredential>, user_id: u64) -> (kept: Vec<
    AccountCredential,
>)
    ensures
        roster_view(kept@) == without_user(roster_view(roster@), user_id),
{
    let mut kept: Vec<AccountCredential> = Vec::new();
    let ghost all = roster_view(roster@);
    let mut i: usize = 0;
    assert(roster_view(kept@) =~= without_user(all.subrange(0, 0), user_id));
    while i < roster.len()
        invariant
            i <= roster.len(),
            all == roster_view(roster@),
            roster_view(kept@) == without_user(all.subrange(0, i as int), user_id),
        decreases roster.len() - i,
    {
        proof {
            lemma_prefix_step(all, i as int);
        }
        if roster[i].account_id.user_id != user_id {
            let ghost before = roster_view(kept@);
            kept.push(roster[i].duplicate());
            assert(roster_view(kept@) =~= before.push(all[i as int]));
        }
        i += 1;
    }
    proof {
        assert(all.subrange(0, all.len() as int) =~= all);
    }
    kept
}

fn deny(message: &str) -> (e: GroupError)
    ensures
        e@ == GroupErrorView::ConfigError(message@),
{
    GroupError::ConfigError(message.to_string())
}

/// The first pass: every "add user" proposal, in order.
fn run_adds(
    sender: u64,
    config: &Option<GroupConfig>,
    roster: &mut Vec<AccountCredential>,
    proposals: &Vec<PolicyProposal>,
) -> (r: Result<bool, GroupError>)
    ensures
        match (
            r,
            after_adds(
                sender,
                config_view(*config),
                roster_view(old(roster)@),
                proposal_views(proposals@),
            ),
        ) {
            (Ok(changed), Ok(state)) => roster_view(final(roster)@) == state.0 && changed
                == state.1,
            (Err(e), Err(se)) => e@ == se,
            _ => false,
        },
{
    let ghost cv = config_view(*config);
    let ghost r0 = roster_view(roster@);
    let ghost pv = proposal_views(proposals@);
    let mut changed = false;
    let mut i: usize = 0;
    while i < proposals.len()
        invariant
            i <= proposals.len(),
            cv == config_view(*config),
            pv == proposal_views(proposals@),
            r0 == roster_view(old(roster)@),
            after_adds(sender, cv, r0, pv.subrange(0, i as int)) == Ok::<
                (Seq<AccountCredentialView>, bool),
                GroupErrorView,
            >((roster_view(roster@), changed)),
        decreases proposals.len() - i,
    {
        let ghost state = (roster_view(roster@), changed);
        proof {
            lemma_prefix_step(pv, i as int);
            assert(pv[i as int] == proposals@[i as int]@);
            assert(after_adds(sender, cv, r0, pv.subrange(0, i + 1)) == add_step(
                sender,
                cv,
                state,
                pv[i as int],
            ));
        }
        match (&proposals[i], config) {
            (PolicyProposal::AddUser(payload), Some(c)) => {
                if !c.has_permission(sender, "manage_members") {
                    proof {
                        lemma_adds_fail(sender, cv, r0, pv, i as int);
                    }
                    return Err(deny("User is not allowed to manage members"));
                }
                match payload {
                    Err(e) => {
                        proof {
                            lemma_adds_fail(sender, cv, r0, pv, i as int);
                        }
                        return Err(GroupError::from_codec(*e));
                    },
                    Ok(cred) => {
                        if c.is_banned(cred.account_id.user_id) {
                            proof {
                                lemma_adds_fail(sender, cv, r0, pv, i as int);
                            }
                            return Err(deny("User is banned from this group"));
                        }
                        if c.is_full() {
                            proof {
                                lemma_adds_fail(sender, cv, r0, pv, i as int);
                            }
                            return Err(deny("Group is full"));
                        }
                        roster.push(cred.duplicate());
                        changed = true;
                        assert(roster_view(roster@) =~= state.0.push(cred@));
                    },
                }
            },
            _ => {},
        }
        i += 1;
    }
    proof {
        assert(pv.subrange(0, pv.len() as int) =~= pv);
    }
    Ok(changed)
}

/// A pass that fails at one proposal fails as a whole, with the same error.
proof fn lemma_adds_fail(
    sender: u64,
    config: Option<GroupConfigView>,
    roster: Seq<AccountCredentialView>,
    proposals: Seq<PolicyProposalView>,
    i: int,
)
    requires
        0 <= i < proposals.len(),
        after_adds(sender, config, roster, proposals.subrange(0, i + 1)) is Err,
    ensures
        after_adds(sender, config, roster, proposals) == after_adds(
            sender,
            config,
            roster,
            proposals.subrange(0, i + 1),
        ),
    decreases proposals.len() - i,
{
    if i + 1 == proposals.len() {
        assert(proposals.subrange(0, i + 1) =~= proposals);
    } else {
        lemma_prefix_step(proposals, i + 1);
        lemma_adds_fail(sender, config, roster, proposals, i + 1);
    }
}

proof fn lemma_removes_fail(
    sender: u64,
    config: Option<GroupConfigView>,
    start: (Seq<AccountCredentialView>, bool),
    proposals: Seq<PolicyProposalView>,
    i: int,
)
    requires
        0 <= i < proposals.len(),
        after_removes(sender, config, start, proposals.subrange(0, i + 1)) is Err,
    ensures
        after_removes(sender, config, start, proposals) == after_removes(
            sender,
            config,
            start,
            proposals.subrange(0, i + 1),
        ),
    decreases proposals.len() - i,
{
    if i + 1 == proposals.len() {
        assert(proposals.subrange(0, i + 1) =~= proposals);
    } else {
        lemma_prefix_step(proposals, i + 1);
        lemma_removes_fail(sender, config, start, proposals, i + 1);
    }
}

proof fn lemma_updates_fail(
    sender: u64,
    config: Option<GroupConfigView>,
    proposals: Seq<PolicyProposalView>,
    i: int,
)
    requires
        0 <= i < proposals.len(),
        after_updates(sender, config, proposals.subrange(0, i + 1)) is Err,
    ensures
        after_updates(sender, config, proposals) == after_updates(
            sender,
            config,
            proposals.subrange(0, i + 1),
        ),
    decreases proposals.len() - i,
{
    if i + 1 == proposals.len() {
        assert(proposals.subrange(0, i + 1) =~= proposals);
    } else {
        lemma_prefix_step(proposals, i + 1);
        lemma_updates_fail(sender, config, proposals, i + 1);
    }
}

/// The second pass: every "remove user" proposal, in order.
fn run_removes(
    sender: u64,
    config: &Option<GroupConfig>,
    roster: Vec<AccountCredential>,
    changed_before: bool,
    proposals: &Vec<PolicyProposal>,
) -> (r: Result<(Vec<AccountCredential>, bool), GroupError>)
    ensures
        match (
            r,
            after_removes(
                sender,
                config_view(*config),
                (roster_view(roster@), changed_before),
                proposal_views(proposals@),
            ),
        ) {
            (Ok(out), Ok(state)) => roster_view(out.0@) == state.0 && out.1 == state.1,
            (Err(e), Err(se)) => e@ == se,
            _ => false,
        },
{
    let ghost cv = config_view(*config);
    let ghost start = (roster_view(roster@), changed_before);
    let ghost pv = proposal_views(proposals@);
    let may_remove_others = match config {
        Some(c) => c.has_permission(sender, "manage_members"),
        None => true,
    };
    let mut current = roster;
    let mut changed = changed_before;
    let mut i: usize = 0;
    while i < proposals.len()
        invariant
            i <= proposals.len(),
            cv == config_view(*config),
            pv == proposal_views(proposals@),
            start == (roster_view(roster@), changed_before),
            may_remove_others == (cv.is_none() || cv.unwrap().has_permission(
                sender,
                "manage_members"@,
            )),
            after_removes(sender, cv, start, pv.subrange(0, i as int)) == Ok::<
                (Seq<AccountCredentialView>, bool),
                GroupErrorView,
            >((roster_view(current@), changed)),
        decreases proposals.len() - i,
    {
        let ghost state = (roster_view(current@), changed);
        proof {
            lemma_prefix_step(pv, i as int);
            assert(pv[i as int] == proposals@[i as int]@);
            assert(after_removes(sender, cv, start, pv.subrange(0, i + 1)) == remove_step(
                sender,
                cv,
                state,
                pv[i as int],
            ));
        }
        match &proposals[i] {
            PolicyProposal::RemoveUser(payload) => {
                match payload {
                    Err(e) => {
                        proof {
                            lemma_removes_fail(sender, cv, start, pv, i as int);
                        }
                        return Err(GroupError::from_codec(*e));
                    },
                    Ok(user_id) => {
                        if *user_id != sender && !may_remove_others {
                            proof {
                                lemma_removes_fail(sender, cv, start, pv, i as int);
                            }
                            return Err(deny("User is not allowed to manage members"));
                        }
                        current = remove_user_entries(&current, *user_id);
                        changed = true;
                    },
                }
            },
            _ => {},
        }
        i += 1;
    }
    proof {
        assert(pv.subrange(0, pv.len() as int) =~= pv);
    }
    Ok((current, changed))
}

/// The third pass: every "update configuration" proposal, in order.
fn run_updates(sender: u64, config: &Option<GroupConfig>, proposals: &Vec<PolicyProposal>) -> (r:
    Result<(Option<GroupConfig>, bool), GroupError>)
    ensures
        match (r, after_updates(sender, config_view(*config), proposal_views(proposals@))) {
            (Ok(out), Ok(state)) => config_view(out.0) == state.0 && out.1 == state.1,
            (Err(e), Err(se)) => e@ == se,
            _ => false,
        },
{
    let ghost cv = config_view(*config);
    let ghost pv = proposal_views(proposals@);
    let mut current: Option<GroupConfig> = match config {
        Some(c) => Some(c.duplicate()),
        None => None,
    };
    let mut changed = false;
    let mut i: usize = 0;
    while i < proposals.len()
        invariant
            i <= proposals.len(),
            pv == proposal_views(proposals@),
            cv == config_view(*config),
            after_updates(sender, cv, pv.subrange(0, i as int)) == Ok::<
                (Option<GroupConfigView>, bool),
                GroupErrorView,
            >((config_view(current), changed)),
        decreases proposals.len() - i,
    {
        let ghost state = (config_view(current), changed);
        proof {
            lemma_prefix_step(pv, i as int);
            assert(pv[i as int] == proposals@[i as int]@);
            assert(after_updates(sender, cv, pv.subrange(0, i + 1)) == update_step(
                sender,
                state,
                pv[i as int],
            ));
        }
        match &proposals[i] {
            PolicyProposal::UpdateGroupConfig(payload) => {
                match payload {
                    Err(e) => {
                        proof {
                            lemma_updates_fail(sender, cv, pv, i as int);
                        }
                        return Err(GroupError::from_codec(*e));
                    },
                    Ok(new_config) => {
                        let allowed = match &current {
                            Some(c) => c.may_change(new_config, sender),
                            None => true,
                        };
                        if !allowed {
                            proof {
                                lemma_updates_fail(sender, cv, pv, i as int);
                            }
                            return Err(
                                GroupError::ConfigValidationError(
                                    "Invalid config changes".to_string(),
                                ),
                            );
                        }
                        current = Some(new_config.duplicate());
                        changed = true;
                    },
                }
            },
            _ => {},
        }
        i += 1;
    }
    proof {
        assert(pv.subrange(0, pv.len() as int) =~= pv);
    }
    Ok((current, changed))
}

/// A copy of a roster.
fn copy_roster(roster: &Vec<AccountCredential>) -> (copy: Vec<AccountCredential>)
    ensures
        roster_view(copy@) == roster_view(roster@),
{
    let mut copy: Vec<AccountCredential> = Vec::new();
    let mut i: usize = 0;
    while i < roster.len()
        invariant
            i <= roster.len(),
            roster_view(copy@) == roster_view(roster@).subrange(0, i as int),
        decreases roster.len() - i,
    {
        let ghost before = roster_view(copy@);
        copy.push(roster[i].duplicate());
        assert(roster_view(copy@) =~= before.push(roster@[i as int]@));
        i += 1;
        assert(roster_view(copy@) =~= roster_view(roster@).subrange(0, i as int));
    }
    assert(roster_view(roster@).subrange(0, roster@.len() as int) =~= roster_view(roster@));
    copy
}

/// The view of an optional roster.
pub open spec fn opt_roster_view(r: Option<Vec<AccountCredential>>) -> Option<
    Seq<AccountCredentialView>,
> {
    match r {
        Some(v) => Some(roster_view(v@)),
        None => None,
    }
}

impl CustomMlsRules {
    /// Judges the custom proposals of a commit against the group's
    /// configuration and roster, and says what both are once the commit is
    /// applied. The proposals themselves are left as they are.
    pub fn filter_proposals(
        &self,
        source: &CommitSource,
        config: &Option<GroupConfig>,
        roster: &Option<Vec<AccountCredential>>,
        proposals: &Vec<PolicyProposal>,
    ) -> (r: Result<PolicyDecision, GroupError>)
        ensures
            match (
                r,
                spec_filter(
                    source@,
                    config_view(*config),
                    opt_roster_view(*roster),
                    proposal_views(proposals@),
                ),
            ) {
                (Ok(d), Ok(sd)) => d@ == sd,
                (Err(e), Err(se)) => e@ == se,
                _ => false,
            },
    {
        match source {
            CommitSource::NewMember { credential_type } => {
                if *credential_type != CREDENTIAL_V1 {
                    return Err(GroupError::CredentialMissmatch);
                }
                Ok(PolicyDecision::PassThrough)
            },
            CommitSource::ExistingMember { credential_type, credential_data, index } => {
                if *credential_type != CREDENTIAL_V1 {
                    return Err(GroupError::CredentialMissmatch);
                }
                let sender = match DeviceCredential::mls_decode(credential_data.as_slice()) {
                    Ok(c) => c.device_id.user_id,
                    Err(e) => {
                        return Err(GroupError::from_codec(e));
                    },
                };
                let mut current = match roster {
                    Some(r) => copy_roster(r),
                    None => {
                        return Err(GroupError::RosterNotFound);
                    },
                };
                let added = match run_adds(sender, config, &mut current, proposals) {
                    Ok(changed) => changed,
                    Err(e) => {
                        return Err(e);
                    },
                };
                let (kept, roster_changed) = match run_removes(
                    sender,
                    config,
                    current,
                    added,
                    proposals,
                ) {
                    Ok(out) => out,
                    Err(e) => {
                        return Err(e);
                    },
                };
                let (new_config, config_changed) = match run_updates(sender, config, proposals) {
                    Ok(out) => out,
                    Err(e) => {
                        return Err(e);
                    },
                };
                Ok(
                    PolicyDecision::Accepted(
                        PolicyOutcome {
                            sender_user_id: sender,
                            sender_index: *index,
                            roster: kept,
                            roster_changed,
                            config: new_config,
                            config_changed,
                        },
                    ),
                )
            },
        }
    }

    /// Commits are built with the defaults.
    pub fn commit_options(&self) -> (o: CommitOptions)
        ensures
            o == (CommitOptions {
                path_required: false,
                ratchet_tree_extension: true,
                single_welcome_message: true,
                allow_external_commit: false,
                always_out_of_band_ratchet_tree: false,
            }),
    {
        CommitOptions {
            path_required: false,
            ratchet_tree_extension: true,
            single_welcome_message: true,
            allow_external_commit: false,
            always_out_of_band_ratchet_tree: false,
        }
    }

    /// Application messages travel without padding, and handshake messages
    /// in the clear.
    pub fn encryption_options(&self) -> (o: EncryptionOptions)
        ensures
            o == (EncryptionOptions { encrypt_control_messages: false, padding: false }),
    {
        EncryptionOptions { encrypt_control_messages: false, padding: false }
    }
}

} // verus!
