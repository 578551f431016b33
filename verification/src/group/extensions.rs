//! The group's own extensions and proposals, and their wire forms: the
//! roster and the configuration that travel in the group context, and the
//! proposals that change them.

use vstd::prelude::*;
use crate::identity::credentials::{
    lemma_account_at_round_trip, parse_account_at, AccountCredential, AccountCredentialView, bytes_fit};
use crate::group::config::{GroupConfig, GroupConfigView};
use crate::group::codec::{config_fits, is_encoding, parse_config};
use crate::wire::mls::{
    be_u64, byte_string, parse_bytes, parse_u64, read_bytes, read_u64, write_bytes, write_u64,
    CodecError};
use crate::group::rules::{
    proposal_views, roster_view, PolicyProposal, PolicyProposalView, ADD_USER_PROPOSAL_V1,
    GROUP_CONFIG_EXTENSION_V1, REMOVE_USER_PROPOSAL_V1, ROSTER_EXTENSION_V1,
    UPDATE_GROUP_CONFIG_PROPOSAL_V1};


verus! {

/// A proposal of a type that MLS does not know: its type and its payload.
#[derive(Debug, Clone)]
pub struct CustomProposal {
    pub proposal_type: u16,
    pub data: Vec<u8>,
}

/// The extension that carries the group's configuration.
#[derive(Debug, Clone)]
pub struct GroupConfigExtension {
    pub config: GroupConfig,
}

/// The extension that carries the roster: the accounts that are allowed in
/// the group, in the order in which they came.
#[derive(Debug, Clone)]
pub struct RosterExtension {
    pub roster: Vec<AccountCredential>,
}

/// The proposal to replace the group's configuration.
#[derive(Debug, Clone)]
pub struct UpdateGroupConfigProposal {
    pub new_config: GroupConfig,
}

/// The proposal to add a user to the roster.
#[derive(Debug, Clone)]
pub struct AddUserProposal {
    pub new_user: AccountCredential,
}

/// The proposal to remove a user from the roster.
#[derive(Debug, Clone, Copy, PartialEq, Eq, Structural)]
pub struct RemoveUserProposal {
    pub user_id: u64,
}

impl GroupConfigExtension {
    pub fn extension_type() -> (t: u16)
        ensures
            t == GROUP_CONFIG_EXTENSION_V1,
    {
        GROUP_CONFIG_EXTENSION_V1
    }

    /// The extension's data: the configuration on the wire.
    pub fn mls_encode_to_vec(&self) -> (r: Result<Vec<u8>, CodecError>)
        ensures
            match r {
                Ok(bytes) => config_fits(self.config@) && is_encoding(self.config@, bytes@),
                Err(e) => e == CodecError::VarIntOutOfRange && !config_fits(self.config@),
            },
    {
        self.config.mls_encode_to_vec()
    }

    /// Reads the extension from its data.
    pub fn mls_decode(data: &[u8]) -> (r: Result<GroupConfigExtension, CodecError>)
        ensures
            match (r, parse_config(data@)) {
                (Ok(x), Ok(v)) => x.config@ == v,
                (Err(e), Err(se)) => e == se,
                _ => false,
            },
    {
        match GroupConfig::mls_decode(data) {
            Ok(config) => Ok(GroupConfigExtension { config }),
            Err(e) => Err(e),
        }
    }
}

impl UpdateGroupConfigProposal {
    pub fn proposal_type() -> (t: u16)
        ensures
            t == UPDATE_GROUP_CONFIG_PROPOSAL_V1,
    {
        UPDATE_GROUP_CONFIG_PROPOSAL_V1
    }

    /// The proposal as it travels: its type, and the new configuration on
    /// the wire.
    pub fn to_custom_proposal(&self) -> (r: Result<CustomProposal, CodecError>)
        ensures
            match r {
                Ok(p) => p.proposal_type == UPDATE_GROUP_CONFIG_PROPOSAL_V1 && config_fits(
                    self.new_config@,
                ) && is_encoding(self.new_config@, p.data@),
                Err(e) => e == CodecError::VarIntOutOfRange && !config_fits(self.new_config@),
            },
    {
        match self.new_config.mls_encode_to_vec() {
            Ok(data) => Ok(CustomProposal { proposal_type: UPDATE_GROUP_CONFIG_PROPOSAL_V1, data }),
            Err(e) => Err(e),
        }
    }

    /// Reads the proposal from a custom proposal, which must be of its
    /// type.
    pub fn from_custom_proposal(proposal: &CustomProposal) -> (r: Result<
        UpdateGroupConfigProposal,
        CodecError,
    >)
        ensures
            match r {
                Ok(p) => proposal.proposal_type == UPDATE_GROUP_CONFIG_PROPOSAL_V1 && parse_config(
                    proposal.data@,
                ) == Ok::<GroupConfigView, CodecError>(p.new_config@),
                Err(e) => if proposal.proposal_type != UPDATE_GROUP_CONFIG_PROPOSAL_V1 {
                    e == CodecError::WrongProposalType
                } else {
                    parse_config(proposal.data@) == Err::<GroupConfigView, CodecError>(e)
                },
            },
    {
        if proposal.proposal_type != UPDATE_GROUP_CONFIG_PROPOSAL_V1 {
            return Err(CodecError::WrongProposalType);
        }
        match GroupConfig::mls_decode(proposal.data.as_slice()) {
            Ok(new_config) => Ok(UpdateGroupConfigProposal { new_config }),
            Err(e) => Err(e),
        }
    }
}

impl AddUserProposal {
    pub fn proposal_type() -> (t: u16)
        ensures
            t == ADD_USER_PROPOSAL_V1,
    {
        ADD_USER_PROPOSAL_V1
    }

    /// The proposal as it travels: its type, and the user's credential on
    /// the wire.
    pub fn to_custom_proposal(&self) -> (r: Result<CustomProposal, CodecError>)
        ensures
            match r {
                Ok(p) => p.proposal_type == ADD_USER_PROPOSAL_V1 && self.new_user@.encodable()
                    && p.data@ == self.new_user@.encoded(),
                Err(e) => e == CodecError::VarIntOutOfRange && !self.new_user@.encodable(),
            },
    {
        match self.new_user.mls_encode_to_vec() {
            Ok(data) => Ok(CustomProposal { proposal_type: ADD_USER_PROPOSAL_V1, data }),
            Err(e) => Err(e),
        }
    }

    /// Reads the proposal from a custom proposal, which must be of its
    /// type.
    pub fn from_custom_proposal(proposal: &CustomProposal) -> (r: Result<AddUserProposal, CodecError>)
        ensures
            match r {
                Ok(p) => proposal.proposal_type == ADD_USER_PROPOSAL_V1
                    && AccountCredentialView::decoded(proposal.data@) == Ok::<
                    AccountCredentialView,
                    CodecError,
                >(p.new_user@),
                Err(e) => if proposal.proposal_type != ADD_USER_PROPOSAL_V1 {
                    e == CodecError::WrongProposalType
                } else {
                    AccountCredentialView::decoded(proposal.data@) == Err::<
                        AccountCredentialView,
                        CodecError,
                    >(e)
                },
            },
    {
        if proposal.proposal_type != ADD_USER_PROPOSAL_V1 {
            return Err(CodecError::WrongProposalType);
        }
        match AccountCredential::mls_decode(proposal.data.as_slice()) {
            Ok(new_user) => Ok(AddUserProposal { new_user }),
            Err(e) => Err(e),
        }
    }
}

/// The user of a "remove user" payload: the number in its first eight
/// bytes.
pub open spec fn parse_removed_user(data: Seq<u8>) -> Result<u64, CodecError> {
    match parse_u64(data, 0) {
        Ok((user_id, _)) => Ok(user_id),
        Err(e) => Err(e),
    }
}

impl RemoveUserProposal {
    pub fn proposal_type() -> (t: u16)
        ensures
            t == REMOVE_USER_PROPOSAL_V1,
    {
        REMOVE_USER_PROPOSAL_V1
    }

    /// The proposal as it travels: its type, and the user's number.
    pub fn to_custom_proposal(&self) -> (p: CustomProposal)
        ensures
            p.proposal_type == REMOVE_USER_PROPOSAL_V1,
            p.data@ == be_u64(self.user_id),
    {
        let mut data: Vec<u8> = Vec::new();
        write_u64(&mut data, self.user_id);
        assert(data@ =~= be_u64(self.user_id));
        CustomProposal { proposal_type: REMOVE_USER_PROPOSAL_V1, data }
    }

    /// Reads the proposal from a custom proposal, which must be of its
    /// type.
    pub fn from_custom_proposal(proposal: &CustomProposal) -> (r: Result<
        RemoveUserProposal,
        CodecError,
    >)
        ensures
            match r {
                Ok(p) => proposal.proposal_type == REMOVE_USER_PROPOSAL_V1 && parse_removed_user(
                    proposal.data@,
                ) == Ok::<u64, CodecError>(p.user_id),
                Err(e) => if proposal.proposal_type != REMOVE_USER_PROPOSAL_V1 {
                    e == CodecError::WrongProposalType
                } else {
                    parse_removed_user(proposal.data@) == Err::<u64, CodecError>(e)
                },
            },
    {
        if proposal.proposal_type != REMOVE_USER_PROPOSAL_V1 {
            return Err(CodecError::WrongProposalType);
        }
        match read_u64(proposal.data.as_slice(), 0) {
            Ok((user_id, _next)) => Ok(RemoveUserProposal { user_id }),
            Err(e) => Err(e),
        }
    }
}

/// What the policy makes of a custom proposal: a proposal of one of the
/// group's three types with its payload as far as it decodes, or a proposal
/// of another type.
pub open spec fn policy_view(proposal_type: u16, data: Seq<u8>) -> PolicyProposalView {
    if proposal_type == ADD_USER_PROPOSAL_V1 {
        PolicyProposalView::AddUser(AccountCredentialView::decoded(data))
    } else if proposal_type == REMOVE_USER_PROPOSAL_V1 {
        PolicyProposalView::RemoveUser(parse_removed_user(data))
    } else if proposal_type == UPDATE_GROUP_CONFIG_PROPOSAL_V1 {
        PolicyProposalView::UpdateGroupConfig(parse_config(data))
    } else {
        PolicyProposalView::Other
    }
}

/// Reads a custom proposal for the policy.
pub fn policy_proposal(proposal: &CustomProposal) -> (p: PolicyProposal)
    ensures
        p@ == policy_view(proposal.proposal_type, proposal.data@),
{
    if proposal.proposal_type == ADD_USER_PROPOSAL_V1 {
        PolicyProposal::AddUser(AccountCredential::mls_decode(proposal.data.as_slice()))
    } else if proposal.proposal_type == REMOVE_USER_PROPOSAL_V1 {
        match read_u64(proposal.data.as_slice(), 0) {
            Ok((user_id, _next)) => PolicyProposal::RemoveUser(Ok(user_id)),
            Err(e) => PolicyProposal::RemoveUser(Err(e)),
        }
    } else if proposal.proposal_type == UPDATE_GROUP_CONFIG_PROPOSAL_V1 {
        PolicyProposal::UpdateGroupConfig(GroupConfig::mls_decode(proposal.data.as_slice()))
    } else {
        PolicyProposal::Other
    }
}

/// What the policy makes of a list of custom proposals.
pub open spec fn policy_views(proposals: Seq<CustomProposal>) -> Seq<PolicyProposalView> {
    proposals.map_values(|p: CustomProposal| policy_view(p.proposal_type, p.data@))
}

/// Reads the custom proposals of a commit for the policy.
pub fn policy_proposals(proposals: &Vec<CustomProposal>) -> (read: Vec<PolicyProposal>)
    ensures
        proposal_views(read@) == policy_views(proposals@),
{
    let mut read: Vec<PolicyProposal> = Vec::new();
    let mut i: usize = 0;
    while i < proposals.len()
        invariant
            i <= proposals.len(),
            proposal_views(read@) == policy_views(proposals@).subrange(0, i as int),
        decreases proposals.len() - i,
    {
        let ghost before = proposal_views(read@);
        let p = policy_proposal(&proposals[i]);
        read.push(p);
        assert(proposal_views(read@) =~= before.push(p@));
        i += 1;
        assert(proposal_views(read@) =~= policy_views(proposals@).subrange(0, i as int));
    }
    assert(policy_views(proposals@).subrange(0, proposals@.len() as int) =~= policy_views(
        proposals@,
    ));
    read
}

/// The credentials of a roster on the wire, one after the other.
pub open spec fn roster_body(roster: Seq<AccountCredentialView>) -> Seq<u8>
    decreases roster.len(),
{
    if roster.len() == 0 {
        Seq::empty()
    } else {
        roster_body(roster.drop_last()) + roster.last().encoded()
    }
}

/// Whether every credential of a roster can be written.
pub open spec fn roster_encodable(roster: Seq<AccountCredentialView>) -> bool {
    forall|i: int| 0 <= i < roster.len() ==> (#[trigger] roster[i]).encodable()
}

/// The credentials that the bytes from `at` stand for, read one after the
/// other until the bytes end. `fuel` bounds the number of credentials and
/// is at least the number of bytes left.
pub open spec fn roster_from(body: Seq<u8>, at: int, fuel: nat) -> Result<
    Seq<AccountCredentialView>,
    CodecError,
>
    decreases fuel,
{
    if at >= body.len() {
        Ok(Seq::empty())
    } else if fuel == 0 {
        Err(CodecError::UnexpectedEOF)
    } else {
        match parse_account_at(body, at) {
            Err(e) => Err(e),
            Ok((c, next)) => match roster_from(body, next, (fuel - 1) as nat) {
                Err(e) => Err(e),
                Ok(rest) => Ok(seq![c] + rest),
            },
        }
    }
}

/// The roster that an extension's data stands for: a byte string that holds
/// the credentials.
pub open spec fn parse_roster(data: Seq<u8>) -> Result<Seq<AccountCredentialView>, CodecError> {
    match parse_bytes(data, 0) {
        Err(e) => Err(e),
        Ok((body, _)) => roster_from(body, 0, body.len()),
    }
}

/// What was read, followed by what is still to read.
pub open spec fn read_so_far(
    done: Seq<AccountCredentialView>,
    rest: Result<Seq<AccountCredentialView>, CodecError>,
) -> Result<Seq<AccountCredentialView>, CodecError> {
    match rest {
        Ok(r) => Ok(done + r),
        Err(e) => Err(e),
    }
}

impl RosterExtension {
    pub fn extension_type() -> (t: u16)
        ensures
            t == ROSTER_EXTENSION_V1,
    {
        ROSTER_EXTENSION_V1
    }

    /// The extension's data: the credentials, one after the other, behind
    /// their length in bytes.
    pub fn mls_encode_to_vec(&self) -> (r: Result<Vec<u8>, CodecError>)
        ensures
            match r {
                Ok(bytes) => roster_encodable(roster_view(self.roster@)) && bytes@ == byte_string(
                    roster_body(roster_view(self.roster@)),
                ),
                Err(e) => e == CodecError::VarIntOutOfRange && !(roster_encodable(
                    roster_view(self.roster@),
                ) && bytes_fit(roster_body(roster_view(self.roster@)))),
            },
    {
        let ghost rv = roster_view(self.roster@);
        let mut body: Vec<u8> = Vec::new();
        let mut i: usize = 0;
        assert(rv.subrange(0, 0) =~= Seq::<AccountCredentialView>::empty());
        while i < self.roster.len()
            invariant
                i <= self.roster.len(),
                rv == roster_view(self.roster@),
                body@ == roster_body(rv.subrange(0, i as int)),
                roster_encodable(rv.subrange(0, i as int)),
            decreases self.roster.len() - i,
        {
            proof {
                assert(rv.subrange(0, i + 1).drop_last() =~= rv.subrange(0, i as int));
                assert(rv.subrange(0, i + 1).last() == self.roster@[i as int]@);
                assert(rv[i as int] == self.roster@[i as int]@);
            }
            match self.roster[i].mls_encode_to_vec() {
                Ok(one) => {
                    crate::wire::bytes::push_all(&mut body, one.as_slice());
                },
                Err(e) => {
                    return Err(e);
                },
            }
            proof {
                assert forall|j: int| 0 <= j < i + 1 implies (#[trigger] rv.subrange(
                    0,
                    i + 1,
                )[j]).encodable() by {
                    if j < i {
                        assert(rv.subrange(0, i as int)[j] == rv.subrange(0, i + 1)[j]);
                    }
                }
            }
            i += 1;
        }
        assert(rv.subrange(0, rv.len() as int) =~= rv);
        let mut out: Vec<u8> = Vec::new();
        match write_bytes(&mut out, body.as_slice()) {
            Ok(()) => {
                assert(out@ =~= byte_string(body@));
                Ok(out)
            },
            Err(e) => Err(e),
        }
    }

    /// Reads the extension from its data; see [`parse_roster`].
    pub fn mls_decode(data: &[u8]) -> (r: Result<RosterExtension, CodecError>)
        ensures
            match (r, parse_roster(data@)) {
                (Ok(x), Ok(v)) => roster_view(x.roster@) == v,
                (Err(e), Err(se)) => e == se,
                _ => false,
            },
    {
        let (body, _next) = match read_bytes(data, 0) {
            Ok(pair) => pair,
            Err(e) => {
                return Err(e);
            },
        };
        let mut roster: Vec<AccountCredential> = Vec::new();
        let mut at: usize = 0;
        let ghost mut fuel: nat = body@.len();
        let ghost whole = roster_from(body@, 0, body@.len());
        assert(roster_view(roster@) =~= Seq::<AccountCredentialView>::empty());
        assert(read_so_far(roster_view(roster@), roster_from(body@, 0, fuel)) == whole) by {
            match roster_from(body@, 0, fuel) {
                Ok(r) => {
                    assert(Seq::<AccountCredentialView>::empty() + r =~= r);
                },
                Err(_) => {},
            }
        }
        while at < body.len()
            invariant
                at <= body.len(),
                fuel >= body@.len() - at,
                parse_roster(data@) == whole,
                read_so_far(roster_view(roster@), roster_from(body@, at as int, fuel)) == whole,
            decreases body.len() - at,
        {
            let ghost done = roster_view(roster@);
            match AccountCredential::mls_decode_at(body.as_slice(), at) {
                Ok((c, next)) => {
                    roster.push(c);
                    proof {
                        assert(roster_view(roster@) =~= done.push(c@));
                        match roster_from(body@, next as int, (fuel - 1) as nat) {
                            Ok(rest) => {
                                assert(done + (seq![c@] + rest) =~= done.push(c@) + rest);
                            },
                            Err(_) => {},
                        }
                        fuel = (fuel - 1) as nat;
                    }
                    at = next;
                },
                Err(e) => {
                    assert(fuel > 0);
                    assert(roster_from(body@, at as int, fuel) == Err::<
                        Seq<AccountCredentialView>,
                        CodecError,
                    >(e));
                    return Err(e);
                },
            }
        }
        proof {
            assert(roster_view(roster@) + Seq::<AccountCredentialView>::empty() =~= roster_view(
                roster@,
            ));
        }
        Ok(RosterExtension { roster })
    }
}

/// The wire form of a roster starts with the one of its first credential.
pub proof fn lemma_roster_body_front(roster: Seq<AccountCredentialView>)
    requires
        roster.len() > 0,
    ensures
        roster_body(roster) == roster[0].encoded() + roster_body(roster.drop_first()),
    decreases roster.len(),
{
    if roster.len() == 1 {
        assert(roster.drop_last() =~= Seq::<AccountCredentialView>::empty());
        assert(roster.drop_first() =~= Seq::<AccountCredentialView>::empty());
        assert(roster_body(roster.drop_last()) =~= Seq::<u8>::empty());
        assert(roster.last() == roster[0]);
        assert(roster_body(roster) =~= roster[0].encoded());
        assert(roster[0].encoded() + roster_body(roster.drop_first()) =~= roster[0].encoded());
    } else {
        let init = roster.drop_last();
        lemma_roster_body_front(init);
        assert(init.drop_first() =~= roster.drop_first().drop_last());
        assert(roster.drop_first().last() == roster.last());
        assert(roster_body(roster) =~= roster[0].encoded() + roster_body(roster.drop_first()));
    }
}

/// Credentials that were written one after the other read back as the same
/// credentials.
pub proof fn lemma_roster_from(head: Seq<u8>, roster: Seq<AccountCredentialView>, fuel: nat)
    requires
        roster_encodable(roster),
        fuel >= roster.len(),
    ensures
        roster_body(roster).len() >= 8 * roster.len(),
        roster_from(head + roster_body(roster), head.len() as int, fuel) == Ok::<
            Seq<AccountCredentialView>,
            CodecError,
        >(roster),
    decreases roster.len(),
{
    let body = head + roster_body(roster);
    if roster.len() == 0 {
        assert(roster_body(roster) =~= Seq::<u8>::empty());
        assert(roster =~= Seq::<AccountCredentialView>::empty());
    } else {
        let first = roster[0];
        let rest = roster.drop_first();
        lemma_roster_body_front(roster);
        assert(first.encodable());
        assert forall|i: int| 0 <= i < rest.len() implies (#[trigger] rest[i]).encodable() by {
            assert(rest[i] == roster[i + 1]);
        }
        lemma_account_at_round_trip(head, first, roster_body(rest));
        lemma_roster_from(head + first.encoded(), rest, (fuel - 1) as nat);
        assert(body =~= head + first.encoded() + roster_body(rest));
        assert(seq![first] + rest =~= roster);
    }
}

/// A roster that was written as an extension reads back as itself.
pub proof fn lemma_roster_round_trip(roster: Seq<AccountCredentialView>, tail: Seq<u8>)
    requires
        roster_encodable(roster),
        bytes_fit(roster_body(roster)),
    ensures
        parse_roster(byte_string(roster_body(roster)) + tail) == Ok::<
            Seq<AccountCredentialView>,
            CodecError,
        >(roster),
{
    let body = roster_body(roster);
    crate::wire::mls::lemma_parse_bytes(Seq::empty(), body, tail);
    assert(Seq::<u8>::empty() + byte_string(body) + tail =~= byte_string(body) + tail);
    lemma_roster_from(Seq::empty(), roster, roster.len());
    lemma_roster_from(Seq::empty(), roster, body.len());
    assert(Seq::<u8>::empty() + body =~= body);
}

} // verus!
