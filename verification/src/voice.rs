//! Voice frames: which part of a frame is encrypted. For VP8 the head of a
//! frame stays in the clear, so that the media pipeline can tell frames
//! apart; every other codec is encrypted whole.

use vstd::prelude::*;
use vstd::bytes::*;
use crate::wire::bytes::{get_u64_le, lemma_le_u64, push_all, push_u64_le, take_bytes};
use crate::ratchet::error::RatchetError;
use crate::ratchet::manager::{spec_route, GroupRatchetManager, ManagerView};

use crate::ratchet::sender::{opens_again, result_is, spec_encrypt};
use crate::support::text::copy_bytes;

use crate::ratchet::crypto::aead_takes;

verus! {

/// The name of a voice channel, as bytes.
#[derive(Debug, Clone, PartialEq, Eq, Hash)]
pub struct VoiceId(pub Vec<u8>);

impl View for VoiceId {
    type V = Seq<u8>;

    open spec fn view(&self) -> Seq<u8> {
        self.0@
    }
}

impl VoiceId {
    pub fn to_vec(&self) -> (v: Vec<u8>)
        ensures
            v@ == self@,
    {
        self.0.clone()
    }

    /// The id of the channel of a name: the name's bytes.
    pub fn from_string(s: &str) -> (id: VoiceId)
        ensures
            id@ == vstd::utf8::encode_utf8(s@),
    {
        VoiceId(copy_bytes(s.as_bytes()))
    }
}

/// The identity under which a user takes part in a voice channel: the
/// user's number in eight bytes, the lowest first.
pub open spec fn member_identity(user_id: u64) -> Seq<u8> {
    spec_u64_to_le_bytes(user_id)
}

/// The user behind an identity of a voice channel, where the identity is
/// one of a user.
pub open spec fn member_of(identity: Seq<u8>) -> Option<u64> {
    if identity.len() == 8 {
        Some(spec_u64_from_le_bytes(identity))
    } else {
        None
    }
}

/// The identity of a user, written out.
pub fn member_identity_bytes(user_id: u64) -> (identity: Vec<u8>)
    ensures
        identity@ == member_identity(user_id),
{
    let mut identity: Vec<u8> = Vec::new();
    push_u64_le(&mut identity, user_id);
    assert(identity@ =~= member_identity(user_id));
    identity
}

/// The user behind an identity, read.
pub fn member_id(identity: &[u8]) -> (r: Option<u64>)
    ensures
        r == member_of(identity@),
{
    if identity.len() == 8 {
        assert(identity@.subrange(0, 8) =~= identity@);
        Some(get_u64_le(identity, 0))
    } else {
        None
    }
}

/// The identity of a user is read as that user.
pub proof fn lemma_member_identity(user_id: u64)
    ensures
        member_of(member_identity(user_id)) == Some(user_id),
{
    lemma_le_u64(user_id);
}

/// The label under which a group exports the secrets of a voice channel.
pub const EXPORT_SECRET_LABEL: &'static str = "SHIP Voice Channel";

/// The length of an exported secret, in bytes.
pub const EXPORT_SECRET_LENGTH: usize = 16;

/// A request to remove a user from a voice channel.
#[derive(Debug, Clone)]
pub struct RemoveUserMessage {
    pub user_id: u64,
    pub voice_id: String,
    pub reason: String,
}

/// How many bytes at the head of a frame stay in the clear: for VP8, the
/// length of the head that the codec asks for, where the frame is longer
/// than that; nothing else.
pub open spec fn clear_prefix(len: nat, is_vp8: bool, head: nat) -> nat {
    if is_vp8 && 0 < head < len {
        head
    } else {
        0
    }
}

/// The same, computed.
pub fn clear_prefix_len(len: usize, is_vp8: bool, head: usize) -> (n: usize)
    ensures
        n == clear_prefix(len as nat, is_vp8, head as nat),
        n <= len,
{
    if is_vp8 && 0 < head && head < len {
        head
    } else {
        0
    }
}

/// A result behind a head that stays in the clear.
pub open spec fn behind_head<E>(head: Seq<u8>, r: Result<Seq<u8>, E>) -> Result<Seq<u8>, E> {
    match r {
        Ok(body) => Ok(head + body),
        Err(e) => Err(e),
    }
}

/// Encrypts a voice frame for the channel: the head stays as it is, the
/// rest goes through the sender's ratchet. The outcome is the one of the
/// ratchet for some nonce, behind the frame's head.
pub fn encrypt_voice(manager: &mut GroupRatchetManager, bytes: &[u8], is_vp8: bool, head: usize) -> (r:
    Result<Vec<u8>, RatchetError>)
    requires
        old(manager).well_formed(),
    ensures
        final(manager).well_formed(),
        ({
            let n = clear_prefix(bytes@.len(), is_vp8, head as nat) as int;
            let payload = bytes@.subrange(n, bytes@.len() as int);
            exists|nonce: Seq<u8>|
                {
                    &&& nonce.len() == 12
                    &&& #[trigger] result_is(
                        r,
                        behind_head(
                            bytes@.subrange(0, n),
                            spec_encrypt(old(manager)@.sender, payload, nonce).0,
                        ),
                    )
                    &&& final(manager)@ == (ManagerView {
                        sender: spec_encrypt(old(manager)@.sender, payload, nonce).1,
                        ..old(manager)@
                    })
                    &&& r is Ok ==> opens_again(old(manager)@.sender, payload, nonce)
                }
        }),
        r is Ok <==> old(manager)@.sender.generation < u32::MAX && aead_takes(
            bytes@.subrange(
                clear_prefix(bytes@.len(), is_vp8, head as nat) as int,
                bytes@.len() as int,
            ),
        ),
{
    let n = clear_prefix_len(bytes.len(), is_vp8, head);
    let payload = take_bytes(bytes, n, bytes.len());
    let ghost before = manager@;
    let sealed = manager.encrypt(payload.as_slice());
    let ghost nonce = choose|nonce: Seq<u8>|
        nonce.len() == 12 && #[trigger] result_is(
            sealed,
            spec_encrypt(before.sender, payload@, nonce).0,
        ) && manager@ == (ManagerView {
            sender: spec_encrypt(before.sender, payload@, nonce).1,
            ..before
        }) && (sealed is Ok ==> opens_again(before.sender, payload@, nonce));
    let r = match sealed {
        Ok(body) => {
            let mut out = take_bytes(bytes, 0, n);
            push_all(&mut out, body.as_slice());
            Ok(out)
        },
        Err(e) => Err(e),
    };
    assert(result_is(
        r,
        behind_head(bytes@.subrange(0, n as int), spec_encrypt(before.sender, payload@, nonce).0),
    ));
    r
}

/// Decrypts a voice frame of the channel: the head is taken as it is, the
/// rest goes to the receiver of the frame's sender.
pub fn decrypt_voice(manager: &mut GroupRatchetManager, bytes: &[u8], is_vp8: bool, head: usize) -> (r:
    Result<Vec<u8>, RatchetError>)
    requires
        old(manager).well_formed(),
    ensures
        final(manager).well_formed(),
        ({
            let n = clear_prefix(bytes@.len(), is_vp8, head as nat) as int;
            let payload = bytes@.subrange(n, bytes@.len() as int);
            let routed = spec_route(old(manager)@, payload);
            &&& final(manager)@ == (ManagerView { receivers: routed.1, ..old(manager)@ })
            &&& match (r, routed.0) {
                (Ok(out), Ok(plain)) => out@ == bytes@.subrange(0, n) + plain,
                (Err(e), Err(se)) => e@ == se,
                _ => false,
            }
        }),
{
    let n = clear_prefix_len(bytes.len(), is_vp8, head);
    let payload = take_bytes(bytes, n, bytes.len());
    match manager.decrypt(payload.as_slice()) {
        Ok(plain) => {
            let mut out = take_bytes(bytes, 0, n);
            push_all(&mut out, plain.as_slice());
            Ok(out)
        },
        Err(e) => Err(e),
    }
}

/// A request of the interface to join a session.
#[derive(Debug)]
pub struct JoinRequestJs {
    pub session_id: String,
    pub sdp: String,
}

/// The answer to a request to join.
#[derive(Debug)]
pub struct JoinResponseJs {
    pub success: bool,
    pub answer: String,
    pub error_message: String,
}

/// An offer of the interface.
#[derive(Debug)]
pub struct OfferRequestJs {
    pub session_id: String,
    pub endpoint_id: String,
    pub sdp: String,
}

/// The answer to an offer.
#[derive(Debug)]
pub struct OfferResponseJs {
    pub success: bool,
    pub sdp: String,
    pub error_message: String,
}

/// An answer of the interface.
#[derive(Debug)]
pub struct AnswerRequestJs {
    pub session_id: String,
    pub endpoint_id: String,
    pub sdp: String,
}

/// The reply to an answer.
#[derive(Debug)]
pub struct AnswerResponseJs {
    pub success: bool,
    pub error_message: String,
}

/// A request of the interface to leave a session.
#[derive(Debug)]
pub struct LeaveRequestJs {
    pub session_id: String,
    pub endpoint_id: String,
}

/// The answer to a request to leave.
#[derive(Debug)]
pub struct LeaveResponseJs {
    pub success: bool,
    pub error_message: String,
}

} // verus!
