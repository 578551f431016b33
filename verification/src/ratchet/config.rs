//! How a receiver is set up.

use vstd::prelude::*;
use crate::ratchet::constants::DEFAULT_MAX_EPOCHS;

verus! {

/// The settings of a receiver.
#[derive(Debug, Clone, Copy, PartialEq, Eq, Structural)]
pub struct RatchetConfig {
    /// How many epochs the receiver keeps before it lets the oldest go.
    pub max_previous_epochs: usize,
}

impl Default for RatchetConfig {
    fn default() -> (c: RatchetConfig)
        ensures
            c.max_previous_epochs == DEFAULT_MAX_EPOCHS,
    {
        RatchetConfig { max_previous_epochs: DEFAULT_MAX_EPOCHS }
    }
}

} // verus!
