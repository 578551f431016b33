//! The roster and the tree. The roster is meant to list exactly the
//! accounts that own a leaf of the group's tree. The tree belongs to the
//! MLS layer; here it is the sequence of its leaves, and the laws say that
//! the plans of this crate keep the two in step.

use vstd::prelude::*;
use crate::group::device::{
    leaves_to_remove, lemma_users_after_add, lemma_users_after_remove, roster_ids, users_of,
    LeafView,
};
use crate::group::rules::without_user;
use crate::identity::credentials::{AccountCredentialView, DeviceCredentialView, CREDENTIAL_V1};

verus! {

/// The user that owns a leaf: the one that its device credential names. A
/// leaf with another credential, or with one that does not decode, has no
/// owner.
pub open spec fn leaf_owner(leaf: LeafView) -> Option<u64> {
    if leaf.credential_type != CREDENTIAL_V1 {
        None
    } else {
        match DeviceCredentialView::decoded(leaf.credential_data) {
            Ok(c) => Some(c.device_id.user_id),
            Err(_) => None,
        }
    }
}

/// The users that own a leaf of the tree.
pub open spec fn owners(leaves: Seq<LeafView>) -> Set<u64> {
    Set::new(
        |u: u64| exists|i: int| 0 <= i < leaves.len() && #[trigger] leaf_owner(leaves[i]) == Some(u),
    )
}

/// Whether the roster lists exactly the users that own a leaf.
pub open spec fn in_step(roster: Seq<AccountCredentialView>, leaves: Seq<LeafView>) -> bool {
    users_of(roster) == owners(leaves)
}

/// Whether no two leaves have the same index.
pub open spec fn distinct_indexes(leaves: Seq<LeafView>) -> bool {
    forall|i: int, j: int|
        0 <= i < leaves.len() && 0 <= j < leaves.len() && i != j ==> (#[trigger] leaves[i]).index != (
        #[trigger] leaves[j]).index
}

/// The leaves that stay when the leaves with the given indexes are removed.
pub open spec fn without_leaves(leaves: Seq<LeafView>, gone: Seq<u32>) -> Seq<LeafView>
    decreases leaves.len(),
{
    if leaves.len() == 0 {
        Seq::empty()
    } else if gone.contains(leaves.last().index) {
        without_leaves(leaves.drop_last(), gone)
    } else {
        without_leaves(leaves.drop_last(), gone).push(leaves.last())
    }
}

/// The leaves that stay are those whose index is not among the removed.
pub proof fn lemma_without_leaves(leaves: Seq<LeafView>, gone: Seq<u32>)
    ensures
        forall|l: LeafView|
            #![trigger without_leaves(leaves, gone).contains(l)]
            #![trigger leaves.contains(l)]
            without_leaves(leaves, gone).contains(l) <==> leaves.contains(l) && !gone.contains(
                l.index,
            ),
    decreases leaves.len(),
{
    if leaves.len() > 0 {
        let rest = leaves.drop_last();
        let last = leaves.last();
        let inner = without_leaves(rest, gone);
        let out = without_leaves(leaves, gone);
        lemma_without_leaves(rest, gone);
        assert forall|l: LeafView| out.contains(l) <==> leaves.contains(l) && !gone.contains(
            l.index,
        ) by {
            if out.contains(l) {
                let w = choose|w: int| 0 <= w < out.len() && out[w] == l;
                if w < inner.len() {
                    assert(inner[w] == l);
                    assert(inner.contains(l));
                    let j = choose|j: int| 0 <= j < rest.len() && rest[j] == l;
                    assert(leaves[j] == l);
                } else {
                    assert(l == last);
                    assert(leaves[leaves.len() - 1] == l);
                }
            }
            if leaves.contains(l) && !gone.contains(l.index) {
                let j = choose|j: int| 0 <= j < leaves.len() && leaves[j] == l;
                if j < rest.len() {
                    assert(rest[j] == l);
                    assert(inner.contains(l));
                    let w = choose|w: int| 0 <= w < inner.len() && inner[w] == l;
                    assert(out[w] == l);
                } else {
                    assert(out[out.len() - 1] == l);
                }
            }
        }
    }
}

/// The plan of a removal names the leaves of the user, and no others: an
/// index is in the plan if and only if a leaf with that index is owned by
/// the user.
pub proof fn lemma_plan_names_the_users_leaves(leaves: Seq<LeafView>, user_id: u64, gone: Seq<u32>)
    requires
        leaves_to_remove(leaves, user_id, None) == Ok::<Seq<u32>, crate::group::errors::GroupErrorView>(
            gone,
        ),
    ensures
        forall|k: u32|
            gone.contains(k) <==> exists|i: int|
                0 <= i < leaves.len() && (#[trigger] leaves[i]).index == k && leaf_owner(leaves[i])
                    == Some(user_id),
    decreases leaves.len(),
{
    if leaves.len() > 0 {
        let rest = leaves.drop_last();
        let last = leaves.last();
        let found = leaves_to_remove(rest, user_id, None)->Ok_0;
        lemma_plan_names_the_users_leaves(rest, user_id, found);
        let goes = leaf_owner(last) == Some(user_id);
        assert forall|k: u32|
            gone.contains(k) <==> exists|i: int|
                0 <= i < leaves.len() && (#[trigger] leaves[i]).index == k && leaf_owner(leaves[i])
                    == Some(user_id) by {
            if gone.contains(k) {
                let w = choose|w: int| 0 <= w < gone.len() && gone[w] == k;
                if w < found.len() {
                    assert(found[w] == k);
                    assert(found.contains(k));
                    let i = choose|i: int|
                        0 <= i < rest.len() && (#[trigger] rest[i]).index == k && leaf_owner(rest[i])
                            == Some(user_id);
                    assert(leaves[i] == rest[i]);
                } else {
                    assert(goes);
                    assert(leaves[leaves.len() - 1] == last);
                }
            }
            if exists|i: int|
                0 <= i < leaves.len() && (#[trigger] leaves[i]).index == k && leaf_owner(leaves[i])
                    == Some(user_id) {
                let i = choose|i: int|
                    0 <= i < leaves.len() && (#[trigger] leaves[i]).index == k && leaf_owner(
                        leaves[i],
                    ) == Some(user_id);
                if i < rest.len() {
                    assert(rest[i] == leaves[i]);
                    assert(found.contains(k));
                    let w = choose|w: int| 0 <= w < found.len() && found[w] == k;
                    assert(gone[w] == k);
                } else {
                    assert(goes);
                    assert(gone[gone.len() - 1] == k);
                }
            }
        }
    }
}

/// A group that nobody is in yet: an empty roster and a tree without
/// leaves are in step.
pub proof fn lemma_in_step_at_first()
    ensures
        in_step(Seq::empty(), Seq::empty()),
{
    let roster = Seq::<AccountCredentialView>::empty();
    assert(roster_ids(roster) =~= Seq::<u64>::empty());
    assert(users_of(roster) =~= owners(Seq::empty()));
}

/// An invitation keeps roster and tree in step: once the user stands in the
/// roster and the user's devices, of which there is one at least, have
/// their leaves, the roster lists the owners of the leaves again. The same
/// holds of the creation of a group, whose creator is the first to come.
pub proof fn lemma_invitation_keeps_in_step(
    roster: Seq<AccountCredentialView>,
    leaves: Seq<LeafView>,
    user: AccountCredentialView,
    added: Seq<LeafView>,
)
    requires
        in_step(roster, leaves),
        added.len() > 0,
        forall|i: int| 0 <= i < added.len() ==> leaf_owner(#[trigger] added[i]) == Some(user.account_id.user_id),
    ensures
        in_step(roster.push(user), leaves + added),
{
    lemma_users_after_add(roster, user);
    let all = leaves + added;
    let u0 = user.account_id.user_id;
    assert forall|u: u64| owners(all).contains(u) <==> owners(leaves).insert(u0).contains(u) by {
        if owners(all).contains(u) {
            let i = choose|i: int| 0 <= i < all.len() && #[trigger] leaf_owner(all[i]) == Some(u);
            if i < leaves.len() {
                assert(leaves[i] == all[i]);
            } else {
                assert(added[i - leaves.len()] == all[i]);
            }
        }
        if owners(leaves).contains(u) {
            let i = choose|i: int| 0 <= i < leaves.len() && #[trigger] leaf_owner(leaves[i]) == Some(u);
            assert(all[i] == leaves[i]);
        }
        if u == u0 {
            assert(all[leaves.len() as int] == added[0]);
            assert(leaf_owner(all[leaves.len() as int]) == Some(u));
        }
    }
    assert(owners(all) =~= owners(leaves).insert(u0));
}

/// A removal keeps roster and tree in step: once the leaves that the plan
/// names are gone and the user has left the roster, the roster lists the
/// owners of the leaves again.
pub proof fn lemma_removal_keeps_in_step(
    roster: Seq<AccountCredentialView>,
    leaves: Seq<LeafView>,
    user_id: u64,
    gone: Seq<u32>,
)
    requires
        in_step(roster, leaves),
        distinct_indexes(leaves),
        leaves_to_remove(leaves, user_id, None) == Ok::<Seq<u32>, crate::group::errors::GroupErrorView>(
            gone,
        ),
    ensures
        in_step(without_user(roster, user_id), without_leaves(leaves, gone)),
{
    lemma_users_after_remove(roster, user_id);
    lemma_plan_names_the_users_leaves(leaves, user_id, gone);
    lemma_without_leaves(leaves, gone);
    let stay = without_leaves(leaves, gone);
    assert forall|u: u64| owners(stay).contains(u) <==> owners(leaves).remove(user_id).contains(u) by {
        if owners(stay).contains(u) {
            let w = choose|w: int| 0 <= w < stay.len() && #[trigger] leaf_owner(stay[w]) == Some(u);
            assert(stay.contains(stay[w]));
            assert(leaves.contains(stay[w]));
            let i = choose|i: int| 0 <= i < leaves.len() && leaves[i] == stay[w];
            assert(leaf_owner(leaves[i]) == Some(u));
            if u == user_id {
                assert(gone.contains(leaves[i].index));
            }
        }
        if owners(leaves).contains(u) && u != user_id {
            let i = choose|i: int| 0 <= i < leaves.len() && #[trigger] leaf_owner(leaves[i]) == Some(u);
            if gone.contains(leaves[i].index) {
                let j = choose|j: int|
                    0 <= j < leaves.len() && (#[trigger] leaves[j]).index == leaves[i].index
                        && leaf_owner(leaves[j]) == Some(user_id);
                assert(j == i);
            }
            assert(leaves.contains(leaves[i]));
            assert(stay.contains(leaves[i]));
            let w = choose|w: int| 0 <= w < stay.len() && stay[w] == leaves[i];
            assert(leaf_owner(stay[w]) == Some(u));
        }
    }
    assert(owners(stay) =~= owners(leaves).remove(user_id));
}

} // verus!
