//! The roster through a commit. The policy appends the account of each
//! "add user" proposal and drops the entries of each "remove user"
//! proposal. So the roster that a commit leaves lists the users before,
//! those that were added, and none that were removed; and it stays in step
//! with a tree that gains leaves of the added users and loses every leaf
//! of the removed.

use vstd::prelude::*;
use crate::group::config::GroupConfigView;
use crate::group::device::{lemma_users_after_add, lemma_users_after_remove, users_of, LeafView};
use crate::group::roster_laws::{in_step, owners};
use crate::group::rules::{
    after_adds, after_removes, member_outcome, PolicyProposalView,
};
use crate::identity::credentials::AccountCredentialView;

verus! {

/// Whether a proposal adds this user.
pub open spec fn adds_user(p: PolicyProposalView, user_id: u64) -> bool {
    p matches PolicyProposalView::AddUser(Ok(c)) && c.account_id.user_id == user_id
}

/// Whether a proposal removes this user.
pub open spec fn removes_user(p: PolicyProposalView, user_id: u64) -> bool {
    p matches PolicyProposalView::RemoveUser(Ok(u)) && u == user_id
}

/// The users that the "add user" proposals of a bundle name. In a group
/// without configuration such proposals do nothing, and name nobody.
pub open spec fn added_users(config: Option<GroupConfigView>, proposals: Seq<PolicyProposalView>) -> Set<
    u64,
> {
    Set::new(
        |u: u64|
            config is Some && exists|i: int|
                0 <= i < proposals.len() && adds_user(#[trigger] proposals[i], u),
    )
}

/// The users that the "remove user" proposals of a bundle name.
pub open spec fn removed_users(proposals: Seq<PolicyProposalView>) -> Set<u64> {
    Set::new(|u: u64| exists|i: int| 0 <= i < proposals.len() && removes_user(#[trigger] proposals[i], u))
}

/// The first pass leaves the users of the roster and those that were
/// added.
pub proof fn lemma_users_after_adds(
    sender: u64,
    config: Option<GroupConfigView>,
    roster: Seq<AccountCredentialView>,
    proposals: Seq<PolicyProposalView>,
)
    requires
        after_adds(sender, config, roster, proposals) is Ok,
    ensures
        users_of(after_adds(sender, config, roster, proposals)->Ok_0.0) == users_of(roster).union(
            added_users(config, proposals),
        ),
    decreases proposals.len(),
{
    let out = after_adds(sender, config, roster, proposals)->Ok_0.0;
    if proposals.len() == 0 {
        assert(users_of(out) =~= users_of(roster).union(added_users(config, proposals)));
    } else {
        let rest = proposals.drop_last();
        let last = proposals.last();
        lemma_users_after_adds(sender, config, roster, rest);
        let before = after_adds(sender, config, roster, rest)->Ok_0.0;
        assert forall|u: u64|
            #![trigger added_users(config, proposals).contains(u)]
            added_users(config, proposals).contains(u) <==> added_users(config, rest).contains(u)
                || (config is Some && adds_user(last, u)) by {
            if added_users(config, proposals).contains(u) {
                let i = choose|i: int| 0 <= i < proposals.len() && adds_user(#[trigger] proposals[i], u);
                if i < rest.len() {
                    assert(rest[i] == proposals[i]);
                }
            }
            if added_users(config, rest).contains(u) {
                let i = choose|i: int| 0 <= i < rest.len() && adds_user(#[trigger] rest[i], u);
                assert(proposals[i] == rest[i]);
            }
            if config is Some && adds_user(last, u) {
                assert(proposals[proposals.len() - 1] == last);
            }
        }
        if config is Some && last is AddUser {
            let cred = last->AddUser_0->Ok_0;
            lemma_users_after_add(before, cred);
            assert(out == before.push(cred));
            assert forall|u: u64| adds_user(last, u) <==> u == cred.account_id.user_id by {}
            assert forall|u: u64|
                users_of(out).contains(u) <==> users_of(roster).union(
                    added_users(config, proposals),
                ).contains(u) by {
                assert(users_of(out).contains(u) <==> users_of(before).contains(u) || u
                    == cred.account_id.user_id);
            }
            assert(users_of(out) =~= users_of(roster).union(added_users(config, proposals)));
        } else {
            assert(out == before);
            assert forall|u: u64| !(config is Some && adds_user(last, u)) by {}
            assert forall|u: u64|
                users_of(out).contains(u) <==> users_of(roster).union(
                    added_users(config, proposals),
                ).contains(u) by {
                assert(added_users(config, proposals).contains(u) <==> added_users(
                    config,
                    rest,
                ).contains(u));
            }
            assert(users_of(out) =~= users_of(roster).union(added_users(config, proposals)));
        }
    }
}

/// The second pass leaves the users that it found, without those that were
/// removed.
pub proof fn lemma_users_after_removes(
    sender: u64,
    config: Option<GroupConfigView>,
    start: (Seq<AccountCredentialView>, bool),
    proposals: Seq<PolicyProposalView>,
)
    requires
        after_removes(sender, config, start, proposals) is Ok,
    ensures
        users_of(after_removes(sender, config, start, proposals)->Ok_0.0) == users_of(
            start.0,
        ).difference(removed_users(proposals)),
    decreases proposals.len(),
{
    let out = after_removes(sender, config, start, proposals)->Ok_0.0;
    if proposals.len() == 0 {
        assert(users_of(out) =~= users_of(start.0).difference(removed_users(proposals)));
    } else {
        let rest = proposals.drop_last();
        let last = proposals.last();
        lemma_users_after_removes(sender, config, start, rest);
        let before = after_removes(sender, config, start, rest)->Ok_0.0;
        assert forall|u: u64|
            #![trigger removed_users(proposals).contains(u)]
            removed_users(proposals).contains(u) <==> removed_users(rest).contains(u)
                || removes_user(last, u) by {
            if removed_users(proposals).contains(u) {
                let i = choose|i: int|
                    0 <= i < proposals.len() && removes_user(#[trigger] proposals[i], u);
                if i < rest.len() {
                    assert(rest[i] == proposals[i]);
                }
            }
            if removed_users(rest).contains(u) {
                let i = choose|i: int| 0 <= i < rest.len() && removes_user(#[trigger] rest[i], u);
                assert(proposals[i] == rest[i]);
            }
            if removes_user(last, u) {
                assert(proposals[proposals.len() - 1] == last);
            }
        }
        if last is RemoveUser {
            let user_id = last->RemoveUser_0->Ok_0;
            lemma_users_after_remove(before, user_id);
            assert(out == crate::group::rules::without_user(before, user_id));
            assert forall|u: u64| removes_user(last, u) <==> u == user_id by {}
            assert forall|u: u64|
                users_of(out).contains(u) <==> users_of(start.0).difference(
                    removed_users(proposals),
                ).contains(u) by {
                assert(users_of(out).contains(u) <==> users_of(before).contains(u) && u != user_id);
                assert(removed_users(proposals).contains(u) <==> removed_users(rest).contains(u)
                    || u == user_id);
            }
            assert(users_of(out) =~= users_of(start.0).difference(removed_users(proposals)));
        } else {
            assert(out == before);
            assert forall|u: u64| !removes_user(last, u) by {}
            assert forall|u: u64|
                users_of(out).contains(u) <==> users_of(start.0).difference(
                    removed_users(proposals),
                ).contains(u) by {
                assert(removed_users(proposals).contains(u) <==> removed_users(rest).contains(u));
            }
            assert(users_of(out) =~= users_of(start.0).difference(removed_users(proposals)));
        }
    }
}

/// The roster that an accepted commit of a member leaves: the users
/// before and those that were added, without those that were removed.
pub proof fn lemma_users_after_commit(
    sender: u64,
    index: u32,
    config: Option<GroupConfigView>,
    roster: Seq<AccountCredentialView>,
    proposals: Seq<PolicyProposalView>,
)
    requires
        member_outcome(sender, index, config, roster, proposals) is Ok,
    ensures
        users_of(member_outcome(sender, index, config, roster, proposals)->Ok_0.roster)
            == users_of(roster).union(added_users(config, proposals)).difference(
            removed_users(proposals),
        ),
{
    lemma_users_after_adds(sender, config, roster, proposals);
    let added = after_adds(sender, config, roster, proposals)->Ok_0;
    lemma_users_after_removes(sender, config, added, proposals);
}

/// An accepted commit keeps roster and tree in step: where the roster
/// listed the owners of the leaves before, and the commit gives leaves to
/// the users that it adds and takes every leaf of the users that it
/// removes, the roster that the policy installs lists the owners of the
/// leaves again.
pub proof fn lemma_commit_keeps_in_step(
    sender: u64,
    index: u32,
    config: Option<GroupConfigView>,
    roster: Seq<AccountCredentialView>,
    proposals: Seq<PolicyProposalView>,
    leaves: Seq<LeafView>,
    after: Seq<LeafView>,
)
    requires
        in_step(roster, leaves),
        member_outcome(sender, index, config, roster, proposals) is Ok,
        owners(after) == owners(leaves).union(added_users(config, proposals)).difference(
            removed_users(proposals),
        ),
    ensures
        in_step(member_outcome(sender, index, config, roster, proposals)->Ok_0.roster, after),
{
    lemma_users_after_commit(sender, index, config, roster, proposals);
}

} // verus!
