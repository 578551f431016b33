//! What holds between a sender and its receivers.

use vstd::prelude::*;
use crate::ratchet::constants::MAX_SKIP;
use crate::ratchet::epoch_keys::EpochView;
use crate::ratchet::error::RatchetErrorView;
use crate::ratchet::frame::{lemma_frame_round_trip, parse_frame, FrameView};
use crate::ratchet::receiver::{
    after_accept, key_available, key_gone, prepared, spec_decrypt, ReceiverView,
};
use crate::ratchet::sender::{opens_again, spec_encrypt, SenderView};

verus! {

/// Whether a receiver follows a sender: it expects the sender's key and id,
/// and has the sender's epoch installed from the sender's secret.
pub open spec fn follows(r: ReceiverView, s: SenderView) -> bool {
    &&& r.sender_public_key == s.public_key
    &&& r.sender_id == s.user_id
    &&& r.epochs.contains_key(s.epoch)
    &&& r.epochs[s.epoch].seed == s.secret
}

/// A frame that a sender encrypted decrypts to its plaintext at every
/// receiver that follows the sender and can still have the key of the
/// frame's generation: the generation is the next, or lies at most
/// `MAX_SKIP` ahead, or was passed over and not used yet.
pub proof fn lemma_encrypt_then_decrypt(
    s: SenderView,
    r: ReceiverView,
    plaintext: Seq<u8>,
    nonce: Seq<u8>,
)
    requires
        s.public_key.len() <= u32::MAX,
        nonce.len() == 12,
        spec_encrypt(s, plaintext, nonce).0 is Ok,
        opens_again(s, plaintext, nonce),
        follows(r, s),
        key_available(r.epochs[s.epoch], s.generation) is Ok,
    ensures
        spec_decrypt(r, spec_encrypt(s, plaintext, nonce).0->Ok_0).0 == Ok::<
            Seq<u8>,
            RatchetErrorView,
        >(plaintext),
        spec_decrypt(r, spec_encrypt(s, plaintext, nonce).0->Ok_0).1 == (ReceiverView {
            epochs: r.epochs.insert(s.epoch, after_accept(r.epochs[s.epoch], s.generation)),
            ..r
        }),
{
    let data = spec_encrypt(s, plaintext, nonce).0->Ok_0;
    let key = crate::ratchet::crypto::message_key_at(s.secret, s.generation as nat);
    let sealed = crate::ratchet::crypto::aes128_gcm_seal(key, nonce, plaintext)->Some_0;
    let f = FrameView {
        public_key: s.public_key,
        sender_id: s.user_id,
        epoch: s.epoch,
        generation: s.generation,
        nonce,
        sealed,
    };
    assert(data == f.to_bytes());
    lemma_frame_round_trip(f);
}

/// The frame of a decrypt that succeeded.
pub open spec fn accepted_frame(r: ReceiverView, data: Seq<u8>) -> FrameView {
    parse_frame(data)->Some_0
}

/// A frame that is accepted moves the cursor of its epoch to the greater of
/// the cursor and the generation behind the frame's.
pub proof fn lemma_accept_moves_cursor(r: ReceiverView, data: Seq<u8>)
    requires
        spec_decrypt(r, data).0 is Ok,
    ensures
        ({
            let f = accepted_frame(r, data);
            let cursor = prepared(r, f.epoch).epochs[f.epoch].generation;
            let after = spec_decrypt(r, data).1;
            &&& after.epochs.contains_key(f.epoch)
            &&& after.epochs[f.epoch].generation == if cursor > f.generation {
                cursor as int
            } else {
                f.generation + 1
            }
        }),
{
}

/// A frame is accepted once: after it was accepted, the same frame, and any
/// other frame of the same epoch and generation, is refused because its
/// key is gone.
pub proof fn lemma_accept_once(r: ReceiverView, data: Seq<u8>, again: Seq<u8>)
    requires
        r.consistent(),
        spec_decrypt(r, data).0 is Ok,
        parse_frame(again) is Some,
        parse_frame(again)->Some_0.public_key == r.sender_public_key,
        parse_frame(again)->Some_0.sender_id == r.sender_id,
        parse_frame(again)->Some_0.epoch == accepted_frame(r, data).epoch,
        parse_frame(again)->Some_0.generation == accepted_frame(r, data).generation,
    ensures
        spec_decrypt(spec_decrypt(r, data).1, again).0 == Err::<Seq<u8>, RatchetErrorView>(
            key_gone(),
        ),
        spec_decrypt(spec_decrypt(r, data).1, again).1 == spec_decrypt(r, data).1,
{
    let f = accepted_frame(r, data);
    let r1 = prepared(r, f.epoch);
    let e = r1.epochs[f.epoch];
    let after = spec_decrypt(r, data).1;
    assert(r1.epochs.contains_key(f.epoch));
    assert(e.consistent()) by {
        if r.epochs.contains_key(f.epoch) {
        } else {
            assert(e.skipped =~= Set::<u32>::empty());
        }
    }
    assert(after.epochs[f.epoch] == after_accept(e, f.generation));
    assert(!after.epochs[f.epoch].skipped.contains(f.generation));
}

/// A frame that lies more than `MAX_SKIP` generations ahead of the cursor
/// is refused, and changes nothing.
pub proof fn lemma_too_far_ahead(r: ReceiverView, data: Seq<u8>)
    requires
        parse_frame(data) is Some,
        parse_frame(data)->Some_0.public_key == r.sender_public_key,
        parse_frame(data)->Some_0.sender_id == r.sender_id,
        r.epochs.contains_key(parse_frame(data)->Some_0.epoch),
        parse_frame(data)->Some_0.generation - r.epochs[parse_frame(
            data,
        )->Some_0.epoch].generation > MAX_SKIP,
    ensures
        spec_decrypt(r, data).0 == Err::<Seq<u8>, RatchetErrorView>(
            RatchetErrorView::TooManySkippedMessages,
        ),
        spec_decrypt(r, data).1 == r,
{
}

/// A frame that is refused leaves the keys of every installed epoch as they
/// were: at most, the frame's epoch was installed from its secret.
pub proof fn lemma_refusal_keeps_state(r: ReceiverView, data: Seq<u8>)
    requires
        spec_decrypt(r, data).0 is Err,
    ensures
        spec_decrypt(r, data).1 == r || (parse_frame(data) is Some && spec_decrypt(r, data).1
            == prepared(r, parse_frame(data)->Some_0.epoch)),
{
}

/// Frames that arrive out of order are all accepted, and no key is left
/// over: a receiver at the cursor `g` that gets the frames of generation
/// `g + 1` and then `g` ends at cursor `g + 2` with the kept keys it had.
pub proof fn lemma_swap_leaves_nothing(e: EpochView, g: u32)
    requires
        e.generation == g,
        g < u32::MAX - 1,
        !e.skipped.contains(g),
    ensures
        key_available(e, (g + 1) as u32) is Ok,
        key_available(after_accept(e, (g + 1) as u32), g) is Ok,
        after_accept(after_accept(e, (g + 1) as u32), g) == (EpochView {
            generation: (g + 2) as u32,
            ..e
        }),
{
    let first = after_accept(e, (g + 1) as u32);
    assert(first.skipped.contains(g));
    let second = after_accept(first, g);
    assert(second.skipped =~= e.skipped);
}

} // verus!
