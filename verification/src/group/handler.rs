//! What to do with what comes in: the decisions of the inbound loop. The
//! loop itself, which reads the stream and performs the actions, is the
//! caller's.

use vstd::prelude::*;
use crate::identity::credentials::{DeviceCredential, DeviceCredentialView};
use crate::group::errors::{GroupError, GroupErrorView};

use crate::group::config::{GroupConfig, GroupConfigView};
use crate::message::{parse_user_message, UserGroupMessage, UserGroupMessageView};
use crate::group::rules::{config_view, malformed, proposal_views, PolicyProposal, PolicyProposalView};
use crate::support::text::copy_bytes;

verus! {

/// One item of the inbound stream.
#[derive(Debug)]
pub enum StreamItem {
    /// A message of a group, to be processed and acknowledged.
    GroupMessage { message_id: u64, group_id: Vec<u8>, message: Vec<u8> },
    /// An invitation to a group.
    WelcomeMessage { welcome_message: Vec<u8> },
    /// The server confirms that the stream is set up.
    InitGroupStream { user_id: u64 },
    /// The server reports on a group message that was sent.
    SendGroupMessage { message_id: u64, success: bool },
    /// The server reports on a welcome message that was sent.
    SendWelcomeMessage { message_id: u64, success: bool },
    /// The server confirms an acknowledgement.
    AckDelivery,
    /// The server confirms a change of subscriptions.
    UpdateGroupSubscriptions,
    /// The server reports an error.
    Error { error: String },
    /// An item without content.
    Empty,
    /// The stream failed to deliver an item.
    Failed,
}

/// What the loop does with an item.
#[derive(Debug)]
pub enum StreamStep {
    /// Decode and process the group message, then see [`acknowledgement`].
    ProcessGroupMessage { message_id: u64, group_id: Vec<u8>, message: Vec<u8> },
    /// Decode the welcome message and join the group.
    JoinGroup { welcome_message: Vec<u8> },
    /// Nothing but a note in the log; the loop reads on.
    Continue,
}

pub enum StreamStepView {
    ProcessGroupMessage { message_id: u64, group_id: Seq<u8>, message: Seq<u8> },
    JoinGroup { welcome_message: Seq<u8> },
    Continue,
}

impl View for StreamStep {
    type V = StreamStepView;

    open spec fn view(&self) -> StreamStepView {
        match self {
            StreamStep::ProcessGroupMessage {
                message_id,
                group_id,
                message,
            } => StreamStepView::ProcessGroupMessage {
                message_id: *message_id,
                group_id: group_id@,
                message: message@,
            },
            StreamStep::JoinGroup { welcome_message } => StreamStepView::JoinGroup {
                welcome_message: welcome_message@,
            },
            StreamStep::Continue => StreamStepView::Continue,
        }
    }
}

/// The step that an item asks for: group messages are processed, welcome
/// messages joined; everything else, errors included, is passed over and
/// never ends the loop.
pub open spec fn spec_stream_step(item: StreamItem) -> StreamStepView {
    match item {
        StreamItem::GroupMessage {
            message_id,
            group_id,
            message,
        } => StreamStepView::ProcessGroupMessage {
            message_id,
            group_id: group_id@,
            message: message@,
        },
        StreamItem::WelcomeMessage { welcome_message } => StreamStepView::JoinGroup {
            welcome_message: welcome_message@,
        },
        _ => StreamStepView::Continue,
    }
}

/// Decides what to do with an item of the stream.
pub fn stream_step(item: StreamItem) -> (step: StreamStep)
    ensures
        step@ == spec_stream_step(item),
{
    match item {
        StreamItem::GroupMessage { message_id, group_id, message } => {
            StreamStep::ProcessGroupMessage { message_id, group_id, message }
        },
        StreamItem::WelcomeMessage { welcome_message } => StreamStep::JoinGroup {
            welcome_message,
        },
        _ => StreamStep::Continue,
    }
}

/// The acknowledgement of a delivery.
#[derive(Debug)]
pub struct AckDelivery {
    pub message_id: u64,
    pub user_id: u64,
    pub device_id: String,
    pub group_id: Vec<u8>,
}

/// The acknowledgement that is owed for a group message: one for a message
/// that was handled, none for a message that was not.
pub fn acknowledgement(
    handled: bool,
    message_id: u64,
    user_id: u64,
    device_id: &str,
    group_id: &[u8],
) -> (ack: Option<AckDelivery>)
    ensures
        ack is Some == handled,
        ack matches Some(a) ==> a.message_id == message_id && a.user_id == user_id
            && a.device_id@ == device_id@ && a.group_id@ == group_id@,
{
    if handled {
        Some(
            AckDelivery {
                message_id,
                user_id,
                device_id: device_id.to_string(),
                group_id: copy_bytes(group_id),
            },
        )
    } else {
        None
    }
}

/// What the MLS layer made of an incoming message, as far as the handler
/// needs to know.
#[derive(Debug)]
pub enum ReceivedMessage {
    /// An application message: the bytes of the custom credential of the
    /// leaf that sent it, and the decrypted payload.
    ApplicationMessage { sender_credential: Vec<u8>, data: Vec<u8> },
    /// A commit that started a new epoch, with the custom proposals that it
    /// applied.
    NewEpoch { applied_proposals: Vec<PolicyProposal> },
    /// A commit that removed this device from the group.
    Removed,
    /// A commit that re-initialises the group.
    ReInit,
    /// A proposal, a group info, a welcome or a key package.
    Other,
}

/// One thing that the handler asks to be done.
#[derive(Debug)]
pub enum HandlerAction {
    /// Store the message, then tell the interface about it.
    StoreMessage(UserGroupMessage),
    /// Tell the interface about the group's new configuration.
    ConfigUpdated(GroupConfig),
    /// Stop listening to the group and forget its state.
    LeaveGroup,
}

pub enum HandlerActionView {
    StoreMessage(UserGroupMessageView),
    ConfigUpdated(GroupConfigView),
    LeaveGroup,
}

impl View for HandlerAction {
    type V = HandlerActionView;

    open spec fn view(&self) -> HandlerActionView {
        match self {
            HandlerAction::StoreMessage(m) => HandlerActionView::StoreMessage(m@),
            HandlerAction::ConfigUpdated(c) => HandlerActionView::ConfigUpdated(c@),
            HandlerAction::LeaveGroup => HandlerActionView::LeaveGroup,
        }
    }
}

pub open spec fn action_views(a: Seq<HandlerAction>) -> Seq<HandlerActionView> {
    a.map_values(|x: HandlerAction| x@)
}

pub open spec fn may_not_send() -> GroupErrorView {
    GroupErrorView::ConfigError("User is not allowed to send messages"@)
}

pub open spec fn muted() -> GroupErrorView {
    GroupErrorView::ConfigError("User is muted"@)
}

/// The verdict on an application message: its payload must decode, the
/// group must have a configuration, the sender's credential must decode,
/// and the sender must hold `send_messages` and not be muted.
pub open spec fn judge_message(
    config: Option<GroupConfigView>,
    sender_credential: Seq<u8>,
    data: Seq<u8>,
) -> Result<UserGroupMessageView, GroupErrorView> {
    match parse_user_message(data) {
        Err(e) => Err(GroupErrorView::MessageDecodingError(e)),
        Ok(m) => match config {
            None => Err(GroupErrorView::ConfigurationNotFound),
            Some(c) => match DeviceCredentialView::decoded(sender_credential) {
                Err(e) => Err(malformed(e)),
                Ok(sender) => {
                    let user_id = sender.device_id.user_id;
                    if !c.has_permission(user_id, "send_messages"@) {
                        Err(may_not_send())
                    } else if c.is_muted(user_id) {
                        Err(muted())
                    } else {
                        Ok(m)
                    }
                },
            },
        },
    }
}

/// The configurations that the applied proposals installed, in order; a
/// proposal that does not decode is an error.
pub open spec fn installed_configs(proposals: Seq<PolicyProposalView>) -> Result<
    Seq<HandlerActionView>,
    GroupErrorView,
>
    decreases proposals.len(),
{
    if proposals.len() == 0 {
        Ok(Seq::empty())
    } else {
        match installed_configs(proposals.drop_last()) {
            Err(e) => Err(e),
            Ok(found) => match proposals.last() {
                PolicyProposalView::UpdateGroupConfig(Ok(c)) => Ok(
                    found.push(HandlerActionView::ConfigUpdated(c)),
                ),
                PolicyProposalView::UpdateGroupConfig(Err(e)) => Err(malformed(e)),
                _ => Ok(found),
            },
        }
    }
}

pub enum ReceivedMessageView {
    ApplicationMessage { sender_credential: Seq<u8>, data: Seq<u8> },
    NewEpoch { applied_proposals: Seq<PolicyProposalView> },
    Removed,
    ReInit,
    Other,
}

impl View for ReceivedMessage {
    type V = ReceivedMessageView;

    open spec fn view(&self) -> ReceivedMessageView {
        match self {
            ReceivedMessage::ApplicationMessage {
                sender_credential,
                data,
            } => ReceivedMessageView::ApplicationMessage {
                sender_credential: sender_credential@,
                data: data@,
            },
            ReceivedMessage::NewEpoch { applied_proposals } => ReceivedMessageView::NewEpoch {
                applied_proposals: proposal_views(applied_proposals@),
            },
            ReceivedMessage::Removed => ReceivedMessageView::Removed,
            ReceivedMessage::ReInit => ReceivedMessageView::ReInit,
            ReceivedMessage::Other => ReceivedMessageView::Other,
        }
    }
}

/// What is to be done about a received message. An application message
/// that passes [`judge_message`] is stored; one that does not is dropped
/// with the verdict as error. A new epoch reports every configuration that
/// it installed. Being removed means leaving the group. Nothing else asks
/// for anything.
pub open spec fn spec_process(
    received: ReceivedMessageView,
    config: Option<GroupConfigView>,
) -> Result<Seq<HandlerActionView>, GroupErrorView> {
    match received {
        ReceivedMessageView::ApplicationMessage { sender_credential, data } => match judge_message(
            config,
            sender_credential,
            data,
        ) {
            Ok(m) => Ok(seq![HandlerActionView::StoreMessage(m)]),
            Err(e) => Err(e),
        },
        ReceivedMessageView::NewEpoch { applied_proposals } => installed_configs(
            applied_proposals,
        ),
        ReceivedMessageView::Removed => Ok(seq![HandlerActionView::LeaveGroup]),
        _ => Ok(Seq::empty()),
    }
}

/// Judges an application message; see [`judge_message`].
pub fn check_application_message(
    config: &Option<GroupConfig>,
    sender_credential: &[u8],
    data: &[u8],
) -> (r: Result<UserGroupMessage, GroupError>)
    ensures
        match (r, judge_message(config_view(*config), sender_credential@, data@)) {
            (Ok(m), Ok(v)) => m@ == v,
            (Err(e), Err(se)) => e@ == se,
            _ => false,
        },
{
    let message = match UserGroupMessage::from_bytes(data) {
        Ok(m) => m,
        Err(e) => {
            return Err(GroupError::MessageDecodingError(e));
        },
    };
    let group_config = match config {
        Some(c) => c,
        None => {
            return Err(GroupError::ConfigurationNotFound);
        },
    };
    let sender = match DeviceCredential::mls_decode(sender_credential) {
        Ok(c) => c,
        Err(e) => {
            return Err(GroupError::from_codec(e));
        },
    };
    let user_id = sender.device_id.user_id;
    if !group_config.has_permission(user_id, "send_messages") {
        return Err(GroupError::ConfigError("User is not allowed to send messages".to_string()));
    }
    if group_config.is_muted(user_id) {
        return Err(GroupError::ConfigError("User is muted".to_string()));
    }
    Ok(message)
}

proof fn lemma_installed_fail(proposals: Seq<PolicyProposalView>, i: int)
    requires
        0 <= i < proposals.len(),
        installed_configs(proposals.subrange(0, i + 1)) is Err,
    ensures
        installed_configs(proposals) == installed_configs(proposals.subrange(0, i + 1)),
    decreases proposals.len() - i,
{
    if i + 1 == proposals.len() {
        assert(proposals.subrange(0, i + 1) =~= proposals);
    } else {
        assert(proposals.subrange(0, i + 2).drop_last() =~= proposals.subrange(0, i + 1));
        lemma_installed_fail(proposals, i + 1);
    }
}

/// The configurations that applied proposals installed.
fn collect_installed(proposals: &Vec<PolicyProposal>) -> (r: Result<Vec<HandlerAction>, GroupError>)
    ensures
        match (r, installed_configs(proposal_views(proposals@))) {
            (Ok(a), Ok(v)) => action_views(a@) == v,
            (Err(e), Err(se)) => e@ == se,
            _ => false,
        },
{
    let ghost pv = proposal_views(proposals@);
    let mut actions: Vec<HandlerAction> = Vec::new();
    let mut i: usize = 0;
    assert(pv.subrange(0, 0) =~= Seq::<PolicyProposalView>::empty());
    assert(action_views(actions@) =~= Seq::<HandlerActionView>::empty());
    while i < proposals.len()
        invariant
            i <= proposals.len(),
            pv == proposal_views(proposals@),
            installed_configs(pv.subrange(0, i as int)) == Ok::<
                Seq<HandlerActionView>,
                GroupErrorView,
            >(action_views(actions@)),
        decreases proposals.len() - i,
    {
        proof {
            assert(pv.subrange(0, i + 1).drop_last() =~= pv.subrange(0, i as int));
            assert(pv.subrange(0, i + 1).last() == proposals@[i as int]@);
        }
        match &proposals[i] {
            PolicyProposal::UpdateGroupConfig(Ok(c)) => {
                let ghost before = action_views(actions@);
                actions.push(HandlerAction::ConfigUpdated(c.duplicate()));
                assert(action_views(actions@) =~= before.push(HandlerActionView::ConfigUpdated(c@)));
            },
            PolicyProposal::UpdateGroupConfig(Err(e)) => {
                proof {
                    lemma_installed_fail(pv, i as int);
                }
                return Err(GroupError::from_codec(*e));
            },
            _ => {},
        }
        i += 1;
    }
    assert(pv.subrange(0, pv.len() as int) =~= pv);
    Ok(actions)
}

/// Decides what is to be done about a received message; see
/// [`spec_process`].
pub fn process_received_message(received: &ReceivedMessage, config: &Option<GroupConfig>) -> (r:
    Result<Vec<HandlerAction>, GroupError>)
    ensures
        match (r, spec_process(received@, config_view(*config))) {
            (Ok(a), Ok(v)) => action_views(a@) == v,
            (Err(e), Err(se)) => e@ == se,
            _ => false,
        },
{
    let mut actions: Vec<HandlerAction> = Vec::new();
    match received {
        ReceivedMessage::ApplicationMessage { sender_credential, data } => {
            match check_application_message(config, sender_credential.as_slice(), data.as_slice()) {
                Ok(m) => {
                    actions.push(HandlerAction::StoreMessage(m));
                    assert(action_views(actions@) =~= seq![HandlerActionView::StoreMessage(m@)]);
                    Ok(actions)
                },
                Err(e) => Err(e),
            }
        },
        ReceivedMessage::NewEpoch { applied_proposals } => collect_installed(applied_proposals),
        ReceivedMessage::Removed => {
            actions.push(HandlerAction::LeaveGroup);
            assert(action_views(actions@) =~= seq![HandlerActionView::LeaveGroup]);
            Ok(actions)
        },
        _ => {
            assert(action_views(actions@) =~= Seq::<HandlerActionView>::empty());
            Ok(actions)
        },
    }
}

/// A member who may not send is never stored: whatever the payload, the
/// verdict on a message of a sender without `send_messages` is an error.
pub proof fn lemma_no_permission_no_message(
    config: GroupConfigView,
    sender_credential: Seq<u8>,
    data: Seq<u8>,
)
    requires
        DeviceCredentialView::decoded(sender_credential) matches Ok(sender)
            && !config.has_permission(sender.device_id.user_id, "send_messages"@),
    ensures
        judge_message(Some(config), sender_credential, data) is Err,
        spec_process(
            ReceivedMessageView::ApplicationMessage { sender_credential, data },
            Some(config),
        ) is Err,
{
}

/// The handler of what comes in for one device.
#[derive(Debug, Clone)]
pub struct GroupHandler {
    pub user_id: u64,
    pub device_id: String,
}

impl GroupHandler {
    pub fn new(user_id: u64, device_id: String) -> (h: GroupHandler)
        ensures
            h.user_id == user_id,
            h.device_id == device_id,
    {
        GroupHandler { user_id, device_id }
    }

    /// Decides what is to be done about a received message; see
    /// [`spec_process`].
    pub fn process_received_message(&self, received: &ReceivedMessage, config: &Option<GroupConfig>) -> (r:
        Result<Vec<HandlerAction>, GroupError>)
        ensures
            match (r, spec_process(received@, config_view(*config))) {
                (Ok(a), Ok(v)) => action_views(a@) == v,
                (Err(e), Err(se)) => e@ == se,
                _ => false,
            },
    {
        process_received_message(received, config)
    }

    /// Decides what to do with an item of the stream; see
    /// [`spec_stream_step`].
    pub fn process_stream_item(&self, item: StreamItem) -> (step: StreamStep)
        ensures
            step@ == spec_stream_step(item),
    {
        stream_step(item)
    }

    /// The acknowledgement that the device owes for a group message, if it
    /// handled the message.
    pub fn ack_delivery(&self, handled: bool, message_id: u64, group_id: &[u8]) -> (ack: Option<
        AckDelivery,
    >)
        ensures
            ack is Some == handled,
            ack matches Some(a) ==> a.message_id == message_id && a.user_id == self.user_id
                && a.device_id@ == self.device_id@ && a.group_id@ == group_id@,
    {
        acknowledgement(handled, message_id, self.user_id, self.device_id.as_str(), group_id)
    }
}

} // verus!
