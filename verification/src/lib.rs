//! Client-side core of a secure group messenger.
//!
//! - [`identity`]: accounts, the credentials of accounts and devices, and
//!   who may be a member of a group.
//! - [`group`]: a group's configuration and roster, the policy that gates
//!   commits, and the decisions of the device that takes part in a group.
//! - [`message`]: application messages, their binary form, and how they are
//!   stored.
//! - [`ratchet`] and [`voice`]: the key schedule of voice channels.
//! - [`wire`]: the encodings that the above are written in.

pub mod connection;
pub mod group;
pub mod identity;
pub mod message;
pub mod metrics;
pub mod paths;
pub mod ratchet;
pub mod status;
pub mod support;
pub mod voice;
pub mod wire;
