//! What a change of the store makes stale. The store keeps caches of a
//! group's messages, of a group's last message, of which media exist and
//! of media data. A message that is saved, edited or deleted makes the
//! group's cached messages and cached last message stale; clearing the
//! media makes both media caches stale.

use vstd::prelude::*;
use crate::message::media::{SavePlan, SavePlanView};
use crate::support::text::{copy_bytes, opt_bytes};

verus! {

/// The cached answers that are stale.
#[derive(Debug, Clone, PartialEq, Eq)]
pub struct Stale {
    /// The group whose cached messages are stale, if any.
    pub group_messages: Option<Vec<u8>>,
    /// The group whose cached last message is stale, if any.
    pub last_message: Option<Vec<u8>>,
    /// Whether every cached answer on which media exist is stale.
    pub media_exists: bool,
    /// Whether all cached media data is stale.
    pub media_data: bool,
}

pub struct StaleView {
    pub group_messages: Option<Seq<u8>>,
    pub last_message: Option<Seq<u8>>,
    pub media_exists: bool,
    pub media_data: bool,
}

impl View for Stale {
    type V = StaleView;

    open spec fn view(&self) -> StaleView {
        StaleView {
            group_messages: opt_bytes(self.group_messages),
            last_message: opt_bytes(self.last_message),
            media_exists: self.media_exists,
            media_data: self.media_data,
        }
    }
}

/// The group that a save writes to.
pub open spec fn saved_group(plan: SavePlanView) -> Seq<u8> {
    match plan {
        SavePlanView::Edit { group_id, .. } => group_id,
        SavePlanView::Insert { message, .. } => message.group_id,
    }
}

/// What a change of the messages of a group makes stale: the group's
/// cached messages and its cached last message, and nothing of the media.
pub open spec fn stale_group(group_id: Seq<u8>) -> StaleView {
    StaleView {
        group_messages: Some(group_id),
        last_message: Some(group_id),
        media_exists: false,
        media_data: false,
    }
}

/// What changing the messages of a group makes stale; see
/// [`stale_group`]. This holds of deleting and of editing a message.
pub fn group_invalidates(group_id: &[u8]) -> (stale: Stale)
    ensures
        stale@ == stale_group(group_id@),
{
    Stale {
        group_messages: Some(copy_bytes(group_id)),
        last_message: Some(copy_bytes(group_id)),
        media_exists: false,
        media_data: false,
    }
}

/// What a save makes stale: the cached messages and the cached last
/// message of the group that it writes to.
pub fn save_invalidates(plan: &SavePlan) -> (stale: Stale)
    ensures
        stale@ == stale_group(saved_group(plan@)),
{
    match plan {
        SavePlan::Edit { group_id, .. } => group_invalidates(group_id.as_slice()),
        SavePlan::Insert { message, .. } => group_invalidates(message.group_id.as_slice()),
    }
}

/// What clearing the media makes stale: both media caches, and nothing of
/// the messages.
pub fn clear_media_invalidates() -> (stale: Stale)
    ensures
        stale@ == (StaleView {
            group_messages: None,
            last_message: None,
            media_exists: true,
            media_data: true,
        }),
{
    Stale { group_messages: None, last_message: None, media_exists: true, media_data: true }
}

} // verus!
