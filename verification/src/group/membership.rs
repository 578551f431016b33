//! Who is in a group: what joining, leaving, promoting, demoting and
//! banning make of a configuration. Each keeps the configuration
//! well-formed: the creator stays a member, every admin is a member, no
//! member is banned, and there is an admin. So the creator and the only
//! admin cannot be removed or banned, the only admin cannot be demoted, and
//! nobody who is banned becomes a member.

use vstd::prelude::*;
use crate::group::config::{GroupConfigView, Permissions};
use crate::support::text::contains_id;

verus! {

/// `s` without every entry of `x`; the others keep their order.
pub open spec fn without_id(s: Seq<u64>, x: u64) -> Seq<u64>
    decreases s.len(),
{
    if s.len() == 0 {
        Seq::empty()
    } else if s.last() == x {
        without_id(s.drop_last(), x)
    } else {
        without_id(s.drop_last(), x).push(s.last())
    }
}

/// `s` with `x` at its end, unless `x` is in it already.
pub open spec fn with_id(s: Seq<u64>, x: u64) -> Seq<u64> {
    if s.contains(x) {
        s
    } else {
        s.push(x)
    }
}

/// What is left holds exactly the others, and a list that lacks `x` stays
/// as it is.
pub proof fn lemma_without_id(s: Seq<u64>, x: u64)
    ensures
        forall|y: u64|
            #![trigger without_id(s, x).contains(y)]
            #![trigger s.contains(y)]
            without_id(s, x).contains(y) <==> s.contains(y) && y != x,
        without_id(s, x).len() <= s.len(),
        !s.contains(x) ==> without_id(s, x) == s,
    decreases s.len(),
{
    if s.len() > 0 {
        let rest = s.drop_last();
        let inner = without_id(rest, x);
        let out = without_id(s, x);
        lemma_without_id(rest, x);
        assert forall|y: u64| out.contains(y) <==> s.contains(y) && y != x by {
            if out.contains(y) {
                let w = choose|w: int| 0 <= w < out.len() && out[w] == y;
                if w < inner.len() {
                    assert(inner[w] == y);
                    assert(inner.contains(y));
                    let j = choose|j: int| 0 <= j < rest.len() && rest[j] == y;
                    assert(s[j] == y);
                } else {
                    assert(s[s.len() - 1] == y);
                }
            }
            if s.contains(y) && y != x {
                let j = choose|j: int| 0 <= j < s.len() && s[j] == y;
                if j < rest.len() {
                    assert(rest[j] == y);
                    assert(inner.contains(y));
                    let w = choose|w: int| 0 <= w < inner.len() && inner[w] == y;
                    assert(out[w] == y);
                } else {
                    assert(out[out.len() - 1] == y);
                }
            }
        }
        if !s.contains(x) {
            assert(!rest.contains(x)) by {
                if rest.contains(x) {
                    let j = choose|j: int| 0 <= j < rest.len() && rest[j] == x;
                    assert(s[j] == x);
                }
            }
            assert(s[s.len() - 1] != x);
            assert(out =~= s);
        }
    }
}

/// The list without every entry of `x`.
pub fn drop_id(v: &Vec<u64>, x: u64) -> (r: Vec<u64>)
    ensures
        r@ == without_id(v@, x),
{
    let mut r: Vec<u64> = Vec::new();
    let mut i: usize = 0;
    assert(v@.subrange(0, 0) =~= Seq::<u64>::empty());
    while i < v.len()
        invariant
            i <= v.len(),
            r@ == without_id(v@.subrange(0, i as int), x),
        decreases v.len() - i,
    {
        proof {
            assert(v@.subrange(0, i + 1).drop_last() =~= v@.subrange(0, i as int));
            assert(v@.subrange(0, i + 1).last() == v@[i as int]);
        }
        if v[i] != x {
            r.push(v[i]);
        }
        i += 1;
    }
    assert(v@.subrange(0, v@.len() as int) =~= v@);
    r
}

/// Enters `x` at the end of the list, unless it is in it already.
pub fn enter_id(v: &mut Vec<u64>, x: u64)
    ensures
        final(v)@ == with_id(old(v)@, x),
{
    if !contains_id(v, x) {
        v.push(x);
    }
}

/// Whether every entry of a list that is not empty is `x`.
pub fn all_are(v: &Vec<u64>, x: u64) -> (r: bool)
    ensures
        r == (v@.len() > 0 && forall|i: int| 0 <= i < v@.len() ==> v@[i] == x),
{
    if v.len() == 0 {
        return false;
    }
    let mut i: usize = 0;
    while i < v.len()
        invariant
            i <= v.len(),
            forall|j: int| 0 <= j < i ==> v@[j] == x,
        decreases v.len() - i,
    {
        if v[i] != x {
            return false;
        }
        i += 1;
    }
    true
}

impl GroupConfigView {
    /// Whether the user is an admin, and the only one.
    pub open spec fn only_admin(self, user_id: u64) -> bool {
        self.admins.len() > 0 && forall|i: int| 0 <= i < self.admins.len() ==> self.admins[i] == user_id
    }

    /// Whether the user cannot leave the group: the creator, and the only
    /// admin.
    pub open spec fn must_stay(self, user_id: u64) -> bool {
        user_id == self.creator_id || self.only_admin(user_id)
    }

    /// The configuration with one more member, who gets the default
    /// permissions. Nobody who is banned becomes a member.
    pub open spec fn with_member(self, user_id: u64) -> GroupConfigView {
        if self.is_banned(user_id) {
            self
        } else {
            GroupConfigView {
                members: self.members.push(user_id),
                permissions: self.permissions.insert(user_id, self.default_permissions),
                ..self
            }
        }
    }

    /// The configuration without a member: the user leaves the members,
    /// the admins and the permission table. Only members are admins
    /// afterwards.
    pub open spec fn without_member(self, user_id: u64) -> GroupConfigView {
        let members = without_id(self.members, user_id);
        GroupConfigView {
            members,
            admins: within(without_id(self.admins, user_id), members),
            permissions: self.permissions.remove(user_id),
            ..self
        }
    }

    /// The configuration with one more admin, who gets the admin
    /// permissions. Only a member becomes admin, and is entered once; and
    /// only members are admins afterwards.
    pub open spec fn with_admin(self, user_id: u64) -> GroupConfigView {
        if self.is_member(user_id) {
            GroupConfigView {
                admins: within(with_id(self.admins, user_id), self.members),
                permissions: self.permissions.insert(user_id, Permissions::spec_admin()),
                ..self
            }
        } else {
            GroupConfigView { admins: within(self.admins, self.members), ..self }
        }
    }

    /// The configuration without an admin. The permission table stays as
    /// it is, and so does the only admin.
    pub open spec fn without_admin(self, user_id: u64) -> GroupConfigView {
        if self.only_admin(user_id) {
            self
        } else {
            GroupConfigView { admins: without_id(self.admins, user_id), ..self }
        }
    }

    /// The configuration with a user banned: the user is entered in the ban
    /// list, once, and leaves the members, the admins and the permission
    /// table. Nobody is both banned and a member afterwards, and only
    /// members are admins.
    pub open spec fn with_banned(self, user_id: u64) -> GroupConfigView {
        let members = without_id(self.members, user_id);
        GroupConfigView {
            banned: outside(with_id(self.banned, user_id), members),
            members,
            admins: within(without_id(self.admins, user_id), members),
            permissions: self.permissions.remove(user_id),
            ..self
        }
    }
}

/// Somebody else is admin where the user is not the only one.
pub proof fn lemma_another_admin(c: GroupConfigView, user_id: u64)
    requires
        c.admins.len() > 0,
        !c.only_admin(user_id),
    ensures
        without_id(c.admins, user_id).len() > 0,
        exists|other: u64| other != user_id && c.admins.contains(other),
{
    lemma_without_id(c.admins, user_id);
    let i = choose|i: int| 0 <= i < c.admins.len() && c.admins[i] != user_id;
    assert(c.admins.contains(c.admins[i]));
    assert(without_id(c.admins, user_id).contains(c.admins[i]));
}

/// Whether every entry of a list is in another.
pub open spec fn all_within(list: Seq<u64>, members: Seq<u64>) -> bool {
    forall|i: int| 0 <= i < list.len() ==> members.contains(#[trigger] list[i])
}

/// Whether no entry of a list is in another.
pub open spec fn all_outside(list: Seq<u64>, members: Seq<u64>) -> bool {
    forall|i: int| 0 <= i < list.len() ==> !members.contains(#[trigger] list[i])
}

/// What is kept of a list lies within the members.
pub proof fn lemma_within_is_within(list: Seq<u64>, members: Seq<u64>)
    ensures
        all_within(within(list, members), members),
{
    lemma_within(list, members);
    assert forall|i: int| 0 <= i < within(list, members).len() implies members.contains(
        #[trigger] within(list, members)[i],
    ) by {
        assert(within(list, members).contains(within(list, members)[i]));
    }
}

/// What is kept of a list lies outside the members.
pub proof fn lemma_outside_is_outside(list: Seq<u64>, members: Seq<u64>)
    ensures
        all_outside(outside(list, members), members),
{
    lemma_outside(list, members);
    assert forall|i: int| 0 <= i < outside(list, members).len() implies !members.contains(
        #[trigger] outside(list, members)[i],
    ) by {
        assert(outside(list, members).contains(outside(list, members)[i]));
    }
}

/// Joining keeps a configuration well-formed, and the user is a member
/// afterwards unless banned.
pub proof fn lemma_with_member(c: GroupConfigView, user_id: u64)
    ensures
        c.well_formed() ==> c.with_member(user_id).well_formed(),
        !c.is_banned(user_id) ==> c.with_member(user_id).is_member(user_id),
        c.with_member(user_id).admins == c.admins,
        c.with_member(user_id).banned == c.banned,
{
    let d = c.with_member(user_id);
    if !c.is_banned(user_id) {
        assert(d.members[c.members.len() as int] == user_id);
        assert forall|x: u64| c.members.contains(x) implies d.members.contains(x) by {
            let w = choose|w: int| 0 <= w < c.members.len() && c.members[w] == x;
            assert(d.members[w] == x);
        }
        if c.well_formed() {
            assert forall|i: int| 0 <= i < d.admins.len() implies d.members.contains(
                d.admins[i],
            ) by {
                assert(c.members.contains(c.admins[i]));
            }
            assert forall|i: int| 0 <= i < d.banned.len() implies !d.members.contains(
                d.banned[i],
            ) by {
                if d.members.contains(d.banned[i]) {
                    let w = choose|w: int| 0 <= w < d.members.len() && d.members[w] == d.banned[i];
                    if w < c.members.len() {
                        assert(c.members[w] == c.banned[i]);
                        assert(c.members.contains(c.banned[i]));
                    } else {
                        assert(c.banned.contains(user_id));
                    }
                }
            }
        }
    }
}

/// After a member has left, the user is neither member nor admin and has
/// no entry in the permission table; every admin is a member; everybody
/// else is a member if they were; and a well-formed configuration stays
/// well-formed unless the user had to stay.
pub proof fn lemma_without_member(c: GroupConfigView, user_id: u64)
    ensures
        !c.without_member(user_id).is_member(user_id),
        !c.without_member(user_id).is_admin(user_id),
        !c.without_member(user_id).permissions.contains_key(user_id),
        all_within(c.without_member(user_id).admins, c.without_member(user_id).members),
        forall|other: u64|
            other != user_id ==> (c.without_member(user_id).is_member(other) <==> c.is_member(
                other,
            )),
        c.well_formed() && !c.must_stay(user_id) ==> c.without_member(user_id).well_formed(),
{
    let d = c.without_member(user_id);
    let rest = without_id(c.admins, user_id);
    lemma_without_id(c.members, user_id);
    lemma_without_id(c.admins, user_id);
    lemma_within(rest, d.members);
    lemma_within_is_within(rest, d.members);
    if c.well_formed() && !c.must_stay(user_id) {
        lemma_another_admin(c, user_id);
        let other = choose|other: u64| other != user_id && c.admins.contains(other);
        let j = choose|j: int| 0 <= j < c.admins.len() && c.admins[j] == other;
        assert(c.members.contains(c.admins[j]));
        assert(rest.contains(other));
        assert(d.members.contains(other));
        assert(d.admins.contains(other));
        assert forall|i: int| 0 <= i < d.banned.len() implies !d.members.contains(d.banned[i]) by {
            assert(!c.members.contains(c.banned[i]));
        }
    }
}

/// After a promotion every admin is a member and the members are what
/// they were; a member is admin, with the admin permissions; and a
/// well-formed configuration stays well-formed.
pub proof fn lemma_with_admin(c: GroupConfigView, user_id: u64)
    ensures
        all_within(c.with_admin(user_id).admins, c.with_admin(user_id).members),
        c.with_admin(user_id).members == c.members,
        c.with_admin(user_id).banned == c.banned,
        c.is_member(user_id) ==> c.with_admin(user_id).is_admin(user_id) && c.with_admin(
            user_id,
        ).permissions[user_id] == Permissions::spec_admin(),
        !c.is_member(user_id) ==> !c.with_admin(user_id).is_admin(user_id),
        c.well_formed() ==> c.with_admin(user_id).well_formed(),
{
    let d = c.with_admin(user_id);
    let wanted = if c.is_member(user_id) {
        with_id(c.admins, user_id)
    } else {
        c.admins
    };
    lemma_within(wanted, c.members);
    lemma_within_is_within(wanted, c.members);
    if c.is_member(user_id) {
        if !c.admins.contains(user_id) {
            assert(wanted[c.admins.len() as int] == user_id);
        }
        assert(wanted.contains(user_id));
    }
    if c.well_formed() {
        assert(wanted[0] == c.admins[0]);
        assert(wanted.contains(c.admins[0]));
        assert(c.members.contains(c.admins[0]));
        assert(d.admins.contains(c.admins[0]));
    }
}

/// After a demotion an admin is left, and the members are what they
/// were; unless the user was the only admin, the user is no admin; the
/// others are admins if they were; and a well-formed configuration stays
/// well-formed.
pub proof fn lemma_without_admin(c: GroupConfigView, user_id: u64)
    ensures
        c.well_formed() ==> c.without_admin(user_id).well_formed(),
        c.admins.len() > 0 ==> c.without_admin(user_id).admins.len() > 0,
        !c.only_admin(user_id) ==> !c.without_admin(user_id).is_admin(user_id),
        forall|other: u64|
            other != user_id ==> (c.without_admin(user_id).is_admin(other) <==> c.is_admin(other)),
        c.without_admin(user_id).members == c.members,
{
    let d = c.without_admin(user_id);
    lemma_without_id(c.admins, user_id);
    if !c.only_admin(user_id) && c.admins.len() > 0 {
        lemma_another_admin(c, user_id);
        if c.well_formed() {
            assert forall|i: int| 0 <= i < d.admins.len() implies d.members.contains(
                d.admins[i],
            ) by {
                assert(d.admins.contains(d.admins[i]));
                assert(c.admins.contains(d.admins[i]));
                let j = choose|j: int| 0 <= j < c.admins.len() && c.admins[j] == d.admins[i];
                assert(c.members.contains(c.admins[j]));
            }
        }
    }
}

/// After a ban the user is banned, and neither member nor admin; nobody
/// is both banned and a member; every admin is a member; and a
/// well-formed configuration stays well-formed unless the user had to
/// stay.
pub proof fn lemma_with_banned(c: GroupConfigView, user_id: u64)
    ensures
        c.with_banned(user_id).is_banned(user_id),
        !c.with_banned(user_id).is_member(user_id),
        !c.with_banned(user_id).is_admin(user_id),
        all_outside(c.with_banned(user_id).banned, c.with_banned(user_id).members),
        all_within(c.with_banned(user_id).admins, c.with_banned(user_id).members),
        forall|other: u64|
            other != user_id ==> (c.with_banned(user_id).is_member(other) <==> c.is_member(other)),
        c.well_formed() && !c.must_stay(user_id) ==> c.with_banned(user_id).well_formed(),
{
    let d = c.with_banned(user_id);
    let rest = without_id(c.admins, user_id);
    let wanted = with_id(c.banned, user_id);
    lemma_without_id(c.members, user_id);
    lemma_without_id(c.admins, user_id);
    lemma_within(rest, d.members);
    lemma_within_is_within(rest, d.members);
    lemma_outside(wanted, d.members);
    lemma_outside_is_outside(wanted, d.members);
    if !c.banned.contains(user_id) {
        assert(wanted[c.banned.len() as int] == user_id);
    }
    assert(wanted.contains(user_id));
    if c.well_formed() && !c.must_stay(user_id) {
        lemma_another_admin(c, user_id);
        let other = choose|other: u64| other != user_id && c.admins.contains(other);
        let j = choose|j: int| 0 <= j < c.admins.len() && c.admins[j] == other;
        assert(c.members.contains(c.admins[j]));
        assert(rest.contains(other));
        assert(d.members.contains(other));
        assert(d.admins.contains(other));
    }
}

/// The entries of `list` that are in `members`, in their order.
pub open spec fn within(list: Seq<u64>, members: Seq<u64>) -> Seq<u64>
    decreases list.len(),
{
    if list.len() == 0 {
        Seq::empty()
    } else if members.contains(list.last()) {
        within(list.drop_last(), members).push(list.last())
    } else {
        within(list.drop_last(), members)
    }
}

/// The entries of `list` that are not in `members`, in their order.
pub open spec fn outside(list: Seq<u64>, members: Seq<u64>) -> Seq<u64>
    decreases list.len(),
{
    if list.len() == 0 {
        Seq::empty()
    } else if members.contains(list.last()) {
        outside(list.drop_last(), members)
    } else {
        outside(list.drop_last(), members).push(list.last())
    }
}

/// `start` with each of `wanted` entered behind it in turn, none twice.
pub open spec fn entered(start: Seq<u64>, wanted: Seq<u64>) -> Seq<u64>
    decreases wanted.len(),
{
    if wanted.len() == 0 {
        start
    } else {
        with_id(entered(start, wanted.drop_last()), wanted.last())
    }
}

/// What is kept is in `members`, and is all of the list that is.
pub proof fn lemma_within(list: Seq<u64>, members: Seq<u64>)
    ensures
        forall|y: u64|
            #![trigger within(list, members).contains(y)]
            within(list, members).contains(y) <==> list.contains(y) && members.contains(y),
    decreases list.len(),
{
    if list.len() > 0 {
        let rest = list.drop_last();
        let inner = within(rest, members);
        let out = within(list, members);
        lemma_within(rest, members);
        assert forall|y: u64| out.contains(y) <==> list.contains(y) && members.contains(y) by {
            if out.contains(y) {
                let w = choose|w: int| 0 <= w < out.len() && out[w] == y;
                if w < inner.len() {
                    assert(inner[w] == y);
                    assert(inner.contains(y));
                    let j = choose|j: int| 0 <= j < rest.len() && rest[j] == y;
                    assert(list[j] == y);
                } else {
                    assert(list[list.len() - 1] == y);
                }
            }
            if list.contains(y) && members.contains(y) {
                let j = choose|j: int| 0 <= j < list.len() && list[j] == y;
                if j < rest.len() {
                    assert(rest[j] == y);
                    assert(inner.contains(y));
                    let w = choose|w: int| 0 <= w < inner.len() && inner[w] == y;
                    assert(out[w] == y);
                } else {
                    assert(out[out.len() - 1] == y);
                }
            }
        }
    }
}

/// What is kept is not in `members`, and is all of the list that is not.
pub proof fn lemma_outside(list: Seq<u64>, members: Seq<u64>)
    ensures
        forall|y: u64|
            #![trigger outside(list, members).contains(y)]
            outside(list, members).contains(y) <==> list.contains(y) && !members.contains(y),
    decreases list.len(),
{
    if list.len() > 0 {
        let rest = list.drop_last();
        let inner = outside(rest, members);
        let out = outside(list, members);
        lemma_outside(rest, members);
        assert forall|y: u64| out.contains(y) <==> list.contains(y) && !members.contains(y) by {
            if out.contains(y) {
                let w = choose|w: int| 0 <= w < out.len() && out[w] == y;
                if w < inner.len() {
                    assert(inner[w] == y);
                    assert(inner.contains(y));
                    let j = choose|j: int| 0 <= j < rest.len() && rest[j] == y;
                    assert(list[j] == y);
                } else {
                    assert(list[list.len() - 1] == y);
                }
            }
            if list.contains(y) && !members.contains(y) {
                let j = choose|j: int| 0 <= j < list.len() && list[j] == y;
                if j < rest.len() {
                    assert(rest[j] == y);
                    assert(inner.contains(y));
                    let w = choose|w: int| 0 <= w < inner.len() && inner[w] == y;
                    assert(out[w] == y);
                } else {
                    assert(out[out.len() - 1] == y);
                }
            }
        }
    }
}

/// What was entered holds the start and the wanted, and nothing else; the
/// start stays at its head.
pub proof fn lemma_entered(start: Seq<u64>, wanted: Seq<u64>)
    ensures
        forall|y: u64|
            #![trigger entered(start, wanted).contains(y)]
            entered(start, wanted).contains(y) <==> start.contains(y) || wanted.contains(y),
        entered(start, wanted).len() >= start.len(),
        forall|i: int| 0 <= i < start.len() ==> entered(start, wanted)[i] == start[i],
    decreases wanted.len(),
{
    if wanted.len() > 0 {
        let rest = wanted.drop_last();
        let x = wanted.last();
        let inner = entered(start, rest);
        let out = entered(start, wanted);
        lemma_entered(start, rest);
        assert forall|y: u64| out.contains(y) <==> start.contains(y) || wanted.contains(y) by {
            if out.contains(y) {
                let w = choose|w: int| 0 <= w < out.len() && out[w] == y;
                if w < inner.len() {
                    assert(inner[w] == y);
                    assert(inner.contains(y));
                    if rest.contains(y) {
                        let j = choose|j: int| 0 <= j < rest.len() && rest[j] == y;
                        assert(wanted[j] == y);
                    }
                } else {
                    assert(wanted[wanted.len() - 1] == y);
                }
            }
            if start.contains(y) || wanted.contains(y) {
                if wanted.contains(y) && !start.contains(y) {
                    let j = choose|j: int| 0 <= j < wanted.len() && wanted[j] == y;
                    if j < rest.len() {
                        assert(rest[j] == y);
                    }
                }
                if y == x && !inner.contains(x) {
                    assert(out[out.len() - 1] == y);
                } else {
                    assert(inner.contains(y));
                    let w = choose|w: int| 0 <= w < inner.len() && inner[w] == y;
                    assert(out[w] == y);
                }
            }
        }
    }
}

/// The entries of `list` that are in `members`.
pub fn keep_within(list: &Vec<u64>, members: &Vec<u64>) -> (r: Vec<u64>)
    ensures
        r@ == within(list@, members@),
{
    let mut r: Vec<u64> = Vec::new();
    let mut i: usize = 0;
    assert(list@.subrange(0, 0) =~= Seq::<u64>::empty());
    while i < list.len()
        invariant
            i <= list.len(),
            r@ == within(list@.subrange(0, i as int), members@),
        decreases list.len() - i,
    {
        proof {
            assert(list@.subrange(0, i + 1).drop_last() =~= list@.subrange(0, i as int));
            assert(list@.subrange(0, i + 1).last() == list@[i as int]);
        }
        if contains_id(members, list[i]) {
            r.push(list[i]);
        }
        i += 1;
    }
    assert(list@.subrange(0, list@.len() as int) =~= list@);
    r
}

/// The entries of `list` that are not in `members`.
pub fn keep_outside(list: &Vec<u64>, members: &Vec<u64>) -> (r: Vec<u64>)
    ensures
        r@ == outside(list@, members@),
{
    let mut r: Vec<u64> = Vec::new();
    let mut i: usize = 0;
    assert(list@.subrange(0, 0) =~= Seq::<u64>::empty());
    while i < list.len()
        invariant
            i <= list.len(),
            r@ == outside(list@.subrange(0, i as int), members@),
        decreases list.len() - i,
    {
        proof {
            assert(list@.subrange(0, i + 1).drop_last() =~= list@.subrange(0, i as int));
            assert(list@.subrange(0, i + 1).last() == list@[i as int]);
        }
        if !contains_id(members, list[i]) {
            r.push(list[i]);
        }
        i += 1;
    }
    assert(list@.subrange(0, list@.len() as int) =~= list@);
    r
}

/// `start` with each of `wanted` entered behind it, none twice.
pub fn enter_all(start: Vec<u64>, wanted: &Vec<u64>) -> (r: Vec<u64>)
    ensures
        r@ == entered(start@, wanted@),
{
    let mut r = start;
    let mut i: usize = 0;
    assert(wanted@.subrange(0, 0) =~= Seq::<u64>::empty());
    while i < wanted.len()
        invariant
            i <= wanted.len(),
            r@ == entered(start@, wanted@.subrange(0, i as int)),
        decreases wanted.len() - i,
    {
        proof {
            assert(wanted@.subrange(0, i + 1).drop_last() =~= wanted@.subrange(0, i as int));
            assert(wanted@.subrange(0, i + 1).last() == wanted@[i as int]);
        }
        enter_id(&mut r, wanted[i]);
        i += 1;
    }
    assert(wanted@.subrange(0, wanted@.len() as int) =~= wanted@);
    r
}

} // verus!
