//! The sizes and limits of the voice ratchet.

use vstd::prelude::*;

verus! {

/// The size of every key of the ratchet, in bytes (AES-128).
pub const AES_KEY_SIZE: usize = 16;

/// The size of the nonce of a frame, in bytes.
pub const NONCE_SIZE: usize = 12;

/// How many generations a frame may lie ahead of the receiver's cursor.
pub const MAX_SKIP: usize = 1000;

/// How many epochs a receiver keeps unless told otherwise.
pub const DEFAULT_MAX_EPOCHS: usize = 5;

} // verus!
