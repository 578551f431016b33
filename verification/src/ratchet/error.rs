//! What can go wrong in the ratchet.

use vstd::prelude::*;

verus! {

/// Why a frame was not encrypted or decrypted.
#[derive(Debug)]
pub enum RatchetError {
    /// The cipher refused the plaintext, or the sender's chain is used up.
    EncryptError(String),
    /// The frame is not from the expected sender, its key is not available,
    /// or its tag does not fit.
    DecryptError(String),
    /// The bytes are too short to be a frame.
    InvalidFormat,
    /// The frame lies too far ahead of the receiver's cursor.
    TooManySkippedMessages,
    /// The receiver has neither keys nor a secret for the frame's epoch.
    EpochNotFound,
    /// A new participant came without a secret.
    MissingSharedSecret,
}

pub enum RatchetErrorView {
    EncryptError(Seq<char>),
    DecryptError(Seq<char>),
    InvalidFormat,
    TooManySkippedMessages,
    EpochNotFound,
    MissingSharedSecret,
}

impl View for RatchetError {
    type V = RatchetErrorView;

    open spec fn view(&self) -> RatchetErrorView {
        match self {
            RatchetError::EncryptError(m) => RatchetErrorView::EncryptError(m@),
            RatchetError::DecryptError(m) => RatchetErrorView::DecryptError(m@),
            RatchetError::InvalidFormat => RatchetErrorView::InvalidFormat,
            RatchetError::TooManySkippedMessages => RatchetErrorView::TooManySkippedMessages,
            RatchetError::EpochNotFound => RatchetErrorView::EpochNotFound,
            RatchetError::MissingSharedSecret => RatchetErrorView::MissingSharedSecret,
        }
    }
}

} // verus!
