//! What the interface shows of other users.

use vstd::prelude::*;

verus! {

/// A user's status as it is shown.
#[derive(Debug, Clone)]
pub struct DisplayUserStatus {
    pub status: String,
    pub user_id: i64,
    pub last_seen: i64,
    pub is_online: bool,
}

/// A user's profile as it is shown.
#[derive(Debug, Clone)]
pub struct DisplayUserInfo {
    pub user_id: i64,
    pub username: String,
    pub avatar: String,
    pub status: String,
    pub last_seen: i64,
    pub created_at: i64,
    pub trust_level: i32,
}

/// That a user is typing, as it is shown.
#[derive(Debug, Clone)]
pub struct DisplayUserTypingStatus {
    pub user_id: i64,
    pub chat_id: String,
    pub status: String,
}

/// A user's avatar.
#[derive(Debug, Clone)]
pub struct Avatar {
    pub avatar_url: String,
    pub avatar_hash: String,
    pub file_size: i32,
    pub mime_type: String,
    pub width: i32,
    pub height: i32,
}

/// A user's status as it is cached.
#[derive(Debug, Clone, Copy, PartialEq, Eq, Structural)]
pub struct UserStatus {
    pub user_id: i64,
    /// The number of the status on the wire.
    pub online_status: i32,
    /// When the user was last seen, in seconds since the Unix epoch.
    pub last_seen: Option<u64>,
}

/// The users whose status is followed, after some are added: each user that
/// the list lacks goes to its end, once.
pub open spec fn with_users(list: Seq<i64>, ids: Seq<i64>) -> Seq<i64>
    decreases ids.len(),
{
    if ids.len() == 0 {
        list
    } else if with_users(list, ids.drop_last()).contains(ids.last()) {
        with_users(list, ids.drop_last())
    } else {
        with_users(list, ids.drop_last()).push(ids.last())
    }
}

/// The users whose status is followed, after some are taken off the list:
/// those that stay, in their order.
pub open spec fn without_users(list: Seq<i64>, ids: Seq<i64>) -> Seq<i64>
    decreases list.len(),
{
    if list.len() == 0 {
        Seq::empty()
    } else if ids.contains(list.last()) {
        without_users(list.drop_last(), ids)
    } else {
        without_users(list.drop_last(), ids).push(list.last())
    }
}

/// Whether `user_id` is on the list.
pub fn is_followed(list: &Vec<i64>, user_id: i64) -> (found: bool)
    ensures
        found == list@.contains(user_id),
{
    let mut i: usize = 0;
    while i < list.len()
        invariant
            i <= list.len(),
            forall|j: int| 0 <= j < i ==> list@[j] != user_id,
        decreases list.len() - i,
    {
        if list[i] == user_id {
            return true;
        }
        i += 1;
    }
    false
}

/// Follows the status of some more users. A user that is followed already
/// is not added again.
pub fn subscribe_to_users(subscriptions: &mut Vec<i64>, user_ids: &Vec<i64>)
    ensures
        final(subscriptions)@ == with_users(old(subscriptions)@, user_ids@),
{
    let ghost start = subscriptions@;
    let mut i: usize = 0;
    assert(user_ids@.subrange(0, 0) =~= Seq::<i64>::empty());
    while i < user_ids.len()
        invariant
            i <= user_ids.len(),
            subscriptions@ == with_users(start, user_ids@.subrange(0, i as int)),
        decreases user_ids.len() - i,
    {
        proof {
            assert(user_ids@.subrange(0, i + 1).drop_last() =~= user_ids@.subrange(0, i as int));
            assert(user_ids@.subrange(0, i + 1).last() == user_ids@[i as int]);
        }
        if !is_followed(subscriptions, user_ids[i]) {
            subscriptions.push(user_ids[i]);
        }
        i += 1;
    }
    assert(user_ids@.subrange(0, user_ids@.len() as int) =~= user_ids@);
}

/// Stops following the status of some users.
pub fn unsubscribe_from_users(subscriptions: &mut Vec<i64>, user_ids: &Vec<i64>)
    ensures
        final(subscriptions)@ == without_users(old(subscriptions)@, user_ids@),
{
    let ghost start = subscriptions@;
    let mut kept: Vec<i64> = Vec::new();
    let mut i: usize = 0;
    assert(start.subrange(0, 0) =~= Seq::<i64>::empty());
    while i < subscriptions.len()
        invariant
            i <= subscriptions.len(),
            subscriptions@ == start,
            kept@ == without_users(start.subrange(0, i as int), user_ids@),
        decreases subscriptions.len() - i,
    {
        proof {
            assert(start.subrange(0, i + 1).drop_last() =~= start.subrange(0, i as int));
            assert(start.subrange(0, i + 1).last() == start[i as int]);
        }
        if !is_followed(user_ids, subscriptions[i]) {
            kept.push(subscriptions[i]);
        }
        i += 1;
    }
    assert(start.subrange(0, start.len() as int) =~= start);
    *subscriptions = kept;
}

/// After users are added, each of them is followed, whoever was followed
/// before still is, and nobody else is.
pub proof fn lemma_subscribed(list: Seq<i64>, ids: Seq<i64>)
    ensures
        forall|u: i64|
            with_users(list, ids).contains(u) <==> list.contains(u) || ids.contains(u),
        list.no_duplicates() ==> with_users(list, ids).no_duplicates(),
    decreases ids.len(),
{
    if ids.len() > 0 {
        let front = ids.drop_last();
        let before = with_users(list, front);
        lemma_subscribed(list, front);
        assert forall|u: i64| ids.contains(u) <==> front.contains(u) || u == ids.last() by {
            if ids.contains(u) {
                let j = choose|j: int| 0 <= j < ids.len() && ids[j] == u;
                if j < front.len() {
                    assert(front[j] == u);
                }
            }
            if front.contains(u) {
                let j = choose|j: int| 0 <= j < front.len() && front[j] == u;
                assert(ids[j] == u);
            }
            if u == ids.last() {
                assert(ids[ids.len() - 1] == u);
            }
        }
        if !before.contains(ids.last()) {
            let after = before.push(ids.last());
            assert forall|u: i64| after.contains(u) <==> before.contains(u) || u == ids.last() by {
                if after.contains(u) {
                    let j = choose|j: int| 0 <= j < after.len() && after[j] == u;
                    if j < before.len() {
                        assert(before[j] == u);
                    }
                }
                if before.contains(u) {
                    let j = choose|j: int| 0 <= j < before.len() && before[j] == u;
                    assert(after[j] == u);
                }
                if u == ids.last() {
                    assert(after[after.len() - 1] == u);
                }
            }
        }
    }
}

/// After users are taken off the list, none of them is followed, whoever
/// else was followed still is, and nobody is new.
pub proof fn lemma_unsubscribed(list: Seq<i64>, ids: Seq<i64>)
    ensures
        forall|u: i64|
            without_users(list, ids).contains(u) <==> list.contains(u) && !ids.contains(u),
        list.no_duplicates() ==> without_users(list, ids).no_duplicates(),
    decreases list.len(),
{
    if list.len() > 0 {
        let front = list.drop_last();
        let before = without_users(front, ids);
        lemma_unsubscribed(front, ids);
        assert forall|u: i64| list.contains(u) <==> front.contains(u) || u == list.last() by {
            if list.contains(u) {
                let j = choose|j: int| 0 <= j < list.len() && list[j] == u;
                if j < front.len() {
                    assert(front[j] == u);
                }
            }
            if front.contains(u) {
                let j = choose|j: int| 0 <= j < front.len() && front[j] == u;
                assert(list[j] == u);
            }
            if u == list.last() {
                assert(list[list.len() - 1] == u);
            }
        }
        if list.no_duplicates() {
            assert(front.no_duplicates());
            if front.contains(list.last()) {
                let j = choose|j: int| 0 <= j < front.len() && front[j] == list.last();
                assert(list[j] == list[list.len() - 1]);
            }
        }
        if !ids.contains(list.last()) {
            let after = before.push(list.last());
            assert forall|u: i64| after.contains(u) <==> before.contains(u) || u == list.last() by {
                if after.contains(u) {
                    let j = choose|j: int| 0 <= j < after.len() && after[j] == u;
                    if j < before.len() {
                        assert(before[j] == u);
                    }
                }
                if before.contains(u) {
                    let j = choose|j: int| 0 <= j < before.len() && before[j] == u;
                    assert(after[j] == u);
                }
                if u == list.last() {
                    assert(after[after.len() - 1] == u);
                }
            }
        }
    }
}

} // verus!
