//! The sending side of the ratchet: one chain for the current epoch.

use vstd::prelude::*;
use std::collections::HashMap;
use crate::ratchet::crypto::{aead_takes,
    aead_error_text, aes128_gcm_encrypt, aes128_gcm_open, aes128_gcm_seal, derive_step,
    message_key_at, random_nonce,
};
use crate::ratchet::epoch_keys::EpochKeys;
use crate::ratchet::error::{RatchetError, RatchetErrorView};
use crate::ratchet::frame::{Frame, FrameView};
use crate::support::text::{copy_bytes, join_text};

verus! {

/// The ratchet of a sender.
pub struct SenderRatchet {
    current_epoch: u32,
    current_keys: EpochKeys,
    public_key: Vec<u8>,
    user_id: u64,
}

/// What a sender's ratchet stands for.
pub struct SenderView {
    pub epoch: u32,
    /// The secret of the current epoch.
    pub secret: Seq<u8>,
    /// The generation of the next frame.
    pub generation: u32,
    pub public_key: Seq<u8>,
    pub user_id: u64,
}

/// The epoch number that travels in a frame: the lower 32 bits of the
/// group's epoch.
pub open spec fn frame_epoch(group_epoch: u64) -> u32 {
    (group_epoch % 0x1_0000_0000) as u32
}

/// The same, computed.
pub fn epoch_of(group_epoch: u64) -> (e: u32)
    ensures
        e == frame_epoch(group_epoch),
{
    (group_epoch % 0x1_0000_0000) as u32
}

pub open spec fn chain_used_up() -> RatchetErrorView {
    RatchetErrorView::EncryptError("Generation counter exhausted"@)
}

pub open spec fn cipher_refused() -> RatchetErrorView {
    RatchetErrorView::EncryptError("Failed to encrypt message: "@ + aead_error_text())
}

/// What encrypting a plaintext under a given nonce gives, and what the
/// ratchet is afterwards. The frame carries the generation that the ratchet
/// had before; the ratchet then moves on by one generation, whether or not
/// the cipher took the plaintext. A ratchet at the last generation refuses
/// and stays as it is.
pub open spec fn spec_encrypt(s: SenderView, plaintext: Seq<u8>, nonce: Seq<u8>) -> (
    Result<Seq<u8>, RatchetErrorView>,
    SenderView,
) {
    if s.generation == u32::MAX {
        (Err(chain_used_up()), s)
    } else {
        let next = SenderView { generation: (s.generation + 1) as u32, ..s };
        match aes128_gcm_seal(message_key_at(s.secret, s.generation as nat), nonce, plaintext) {
            Some(sealed) => (
                Ok(
                    (FrameView {
                        public_key: s.public_key,
                        sender_id: s.user_id,
                        epoch: s.epoch,
                        generation: s.generation,
                        nonce,
                        sealed,
                    }).to_bytes(),
                ),
                next,
            ),
            None => (Err(cipher_refused()), next),
        }
    }
}

/// Whether a result is the one that the specification gives.
pub open spec fn result_is(
    r: Result<Vec<u8>, RatchetError>,
    expected: Result<Seq<u8>, RatchetErrorView>,
) -> bool {
    match (r, expected) {
        (Ok(b), Ok(sb)) => b@ == sb,
        (Err(e), Err(se)) => e@ == se,
        _ => false,
    }
}

/// Whether what was sealed opens again to the plaintext.
pub open spec fn opens_again(s: SenderView, plaintext: Seq<u8>, nonce: Seq<u8>) -> bool {
    let key = message_key_at(s.secret, s.generation as nat);
    aes128_gcm_seal(key, nonce, plaintext) matches Some(sealed) && aes128_gcm_open(
        key,
        nonce,
        sealed,
    ) == Some(plaintext)
}

impl View for SenderRatchet {
    type V = SenderView;

    closed spec fn view(&self) -> SenderView {
        SenderView {
            epoch: self.current_epoch,
            secret: self.current_keys.seed@,
            generation: self.current_keys.generation,
            public_key: self.public_key@,
            user_id: self.user_id,
        }
    }
}

impl SenderRatchet {
    #[verifier::type_invariant]
    spec fn inv(self) -> bool {
        self.current_keys.wf() && self.public_key@.len() <= u32::MAX
    }

    /// A ratchet at generation zero of the given epoch.
    pub fn new(shared_secret: &[u8; 16], public_key: Vec<u8>, user_id: u64, group_epoch: u64) -> (r:
        SenderRatchet)
        requires
            public_key@.len() <= u32::MAX,
        ensures
            r@ == (SenderView {
                epoch: frame_epoch(group_epoch),
                secret: shared_secret@,
                generation: 0,
                public_key: public_key@,
                user_id,
            }),
    {
        SenderRatchet {
            current_epoch: epoch_of(group_epoch),
            current_keys: EpochKeys::fresh(shared_secret),
            public_key,
            user_id,
        }
    }

    /// Moves to a new epoch: its secret, and generation zero again.
    pub fn update_epoch(&mut self, new_secret: &[u8; 16], group_epoch: u64)
        ensures
            final(self)@ == (SenderView {
                epoch: frame_epoch(group_epoch),
                secret: new_secret@,
                generation: 0,
                ..old(self)@
            }),
    {
        proof {
            use_type_invariant(&*self);
        }
        self.current_epoch = epoch_of(group_epoch);
        self.current_keys = EpochKeys::fresh(new_secret);
    }

    /// Encrypts one payload under the given nonce and moves the chain on.
    pub fn encrypt_with_nonce(&mut self, plaintext: &[u8], nonce: &[u8; 12]) -> (r: Result<
        Vec<u8>,
        RatchetError,
    >)
        ensures
            result_is(r, spec_encrypt(old(self)@, plaintext@, nonce@).0),
            final(self)@ == spec_encrypt(old(self)@, plaintext@, nonce@).1,
            r is Ok ==> opens_again(old(self)@, plaintext@, nonce@),
            r is Ok <==> old(self)@.generation < u32::MAX && aead_takes(plaintext@),
    {
        proof {
            use_type_invariant(&*self);
        }
        if self.current_keys.generation == u32::MAX {
            return Err(RatchetError::EncryptError("Generation counter exhausted".to_string()));
        }
        let generation = self.current_keys.generation;
        let (next_chain, message_key) = derive_step(
            &self.current_keys.root_key,
            &self.current_keys.chain_key,
        );
        self.current_keys = EpochKeys {
            root_key: self.current_keys.root_key,
            chain_key: next_chain,
            generation: generation + 1,
            skipped_keys: HashMap::new(),
            seed: Ghost(self.current_keys.seed@),
        };
        match aes128_gcm_encrypt(&message_key, nonce, plaintext) {
            Ok(sealed) => {
                let frame = Frame {
                    public_key: copy_bytes(self.public_key.as_slice()),
                    sender_id: self.user_id,
                    epoch: self.current_epoch,
                    generation,
                    nonce: *nonce,
                    sealed,
                };
                Ok(frame.to_bytes())
            },
            Err(e) => Err(
                RatchetError::EncryptError(join_text("Failed to encrypt message: ", e.as_str())),
            ),
        }
    }

    /// Encrypts one payload under a fresh random nonce and moves the chain
    /// on. The outcome is the one of [`Self::encrypt_with_nonce`] for some
    /// nonce of twelve bytes. It succeeds unless the chain is used up or the
    /// payload is longer than the cipher takes.
    pub fn encrypt(&mut self, plaintext: &[u8]) -> (r: Result<Vec<u8>, RatchetError>)
        ensures
            exists|nonce: Seq<u8>|
                nonce.len() == 12 && #[trigger] result_is(
                    r,
                    spec_encrypt(old(self)@, plaintext@, nonce).0,
                ) && final(self)@ == spec_encrypt(old(self)@, plaintext@, nonce).1 && (r is Ok
                    ==> opens_again(old(self)@, plaintext@, nonce)),
            r is Ok <==> old(self)@.generation < u32::MAX && aead_takes(plaintext@),
    {
        let nonce = random_nonce();
        let r = self.encrypt_with_nonce(plaintext, &nonce);
        assert(nonce@.len() == 12);
        r
    }
}

} // verus!
