//! The ratchets of one voice channel: one sender, and one receiver for
//! every other participant.

use vstd::prelude::*;
use vstd::bytes::{spec_u32_from_le_bytes, spec_u64_from_le_bytes};
use std::collections::HashMap;
use crate::wire::bytes::{get_u32_le, get_u64_le};
use crate::ratchet::config::RatchetConfig;
use crate::ratchet::constants::DEFAULT_MAX_EPOCHS;
use crate::ratchet::epoch_keys::EpochView;
use crate::ratchet::error::{RatchetError, RatchetErrorView};
use crate::ratchet::receiver::{decrypted_is, spec_decrypt, ReceiverRatchet, ReceiverView};
use crate::ratchet::sender::{
    epoch_of, frame_epoch, opens_again, result_is, spec_encrypt, SenderRatchet, SenderView,
};
use crate::support::text::{decimal_text, join_text, u64_to_text};

use crate::ratchet::crypto::aead_takes;

verus! {

/// The ratchets of a voice channel.
pub struct GroupRatchetManager {
    sender_ratchet: SenderRatchet,
    receiver_ratchets: HashMap<u64, ReceiverRatchet>,
    config: RatchetConfig,
    group_epoch: u64,
}

/// What a manager stands for.
pub struct ManagerView {
    pub sender: SenderView,
    /// The receivers, by the user they listen to.
    pub receivers: Map<u64, ReceiverView>,
    pub max_previous_epochs: usize,
    pub group_epoch: u64,
}

/// One participant of a channel as the group knows them: who they are, the
/// key they sign with, and the secret that the group exports for them in
/// the current epoch.
pub struct Participant {
    pub user_id: u64,
    pub public_key: Vec<u8>,
    pub secret: [u8; 16],
}

impl View for GroupRatchetManager {
    type V = ManagerView;

    closed spec fn view(&self) -> ManagerView {
        ManagerView {
            sender: self.sender_ratchet@,
            receivers: Map::new(
                |u: u64| self.receiver_ratchets@.contains_key(u),
                |u: u64| self.receiver_ratchets@[u]@,
            ),
            max_previous_epochs: self.config.max_previous_epochs,
            group_epoch: self.group_epoch,
        }
    }
}

/// A receiver as it is made for a new participant.
pub open spec fn new_receiver(
    user_id: u64,
    public_key: Seq<u8>,
    secret: Seq<u8>,
    max_previous_epochs: usize,
    group_epoch: u64,
) -> ReceiverView {
    ReceiverView {
        current_epoch: frame_epoch(group_epoch),
        epochs: Map::<u32, EpochView>::empty().insert(
            frame_epoch(group_epoch),
            EpochView::fresh(secret),
        ),
        secrets: Map::<u32, Seq<u8>>::empty().insert(frame_epoch(group_epoch), secret),
        sender_public_key: public_key,
        sender_id: user_id,
        max_previous_epochs,
    }
}

/// The receivers after a participant was added. One who is known keeps
/// their receiver, which learns the secret for the current epoch if one
/// came. One who is new gets a receiver, for which a secret must come.
pub open spec fn spec_add_participant(
    m: ManagerView,
    user_id: u64,
    public_key: Seq<u8>,
    secret: Option<Seq<u8>>,
) -> Result<Map<u64, ReceiverView>, RatchetErrorView> {
    if m.receivers.contains_key(user_id) {
        match secret {
            Some(s) => {
                let r = m.receivers[user_id];
                Ok(
                    m.receivers.insert(
                        user_id,
                        ReceiverView {
                            secrets: r.secrets.insert(frame_epoch(m.group_epoch), s),
                            ..r
                        },
                    ),
                )
            },
            None => Ok(m.receivers),
        }
    } else {
        match secret {
            Some(s) => Ok(
                m.receivers.insert(
                    user_id,
                    new_receiver(user_id, public_key, s, m.max_previous_epochs, m.group_epoch),
                ),
            ),
            None => Err(RatchetErrorView::MissingSharedSecret),
        }
    }
}

pub open spec fn no_receiver(user_id: u64) -> RatchetErrorView {
    RatchetErrorView::DecryptError(
        "Sender ratchet for user "@ + decimal_text(user_id as nat) + " not found"@,
    )
}

/// The user that a frame claims to come from, if the frame is long enough
/// to say: four bytes of key length, the key, and sixteen bytes of id, epoch
/// and generation.
pub open spec fn claimed_sender(data: Seq<u8>) -> Option<u64> {
    if data.len() < 4 {
        None
    } else {
        let key_len = spec_u32_from_le_bytes(data.subrange(0, 4)) as int;
        if data.len() < 4 + key_len + 16 {
            None
        } else {
            Some(spec_u64_from_le_bytes(data.subrange(4 + key_len, 4 + key_len + 8)))
        }
    }
}

/// What decrypting a frame gives, and what the receivers are afterwards: the
/// frame goes to the receiver of the user it claims to come from.
pub open spec fn spec_route(m: ManagerView, data: Seq<u8>) -> (
    Result<Seq<u8>, RatchetErrorView>,
    Map<u64, ReceiverView>,
) {
    match claimed_sender(data) {
        None => (Err(RatchetErrorView::InvalidFormat), m.receivers),
        Some(user_id) => {
            if !m.receivers.contains_key(user_id) {
                (Err(no_receiver(user_id)), m.receivers)
            } else {
                let out = spec_decrypt(m.receivers[user_id], data);
                (out.0, m.receivers.insert(user_id, out.1))
            }
        },
    }
}

impl GroupRatchetManager {
    /// The invariant of a manager: every receiver is well-formed.
    pub closed spec fn well_formed(&self) -> bool {
        forall|u: u64| #[trigger]
            self.receiver_ratchets@.contains_key(u) ==> self.receiver_ratchets@[u].well_formed()
    }

    /// A manager with a sender at generation zero and no receivers.
    pub fn new(
        shared_secret: [u8; 16],
        public_key: Vec<u8>,
        user_id: u64,
        config: Option<RatchetConfig>,
        group_epoch: u64,
    ) -> (m: GroupRatchetManager)
        requires
            public_key@.len() <= u32::MAX,
        ensures
            m.well_formed(),
            m@ == (ManagerView {
                sender: SenderView {
                    epoch: frame_epoch(group_epoch),
                    secret: shared_secret@,
                    generation: 0,
                    public_key: public_key@,
                    user_id,
                },
                receivers: Map::empty(),
                max_previous_epochs: match config {
                    Some(c) => c.max_previous_epochs,
                    None => DEFAULT_MAX_EPOCHS,
                },
                group_epoch,
            }),
    {
        let config = match config {
            Some(c) => c,
            None => RatchetConfig::default(),
        };
        let m = GroupRatchetManager {
            sender_ratchet: SenderRatchet::new(&shared_secret, public_key, user_id, group_epoch),
            receiver_ratchets: HashMap::new(),
            config,
            group_epoch,
        };
        assert(m@.receivers =~= Map::empty());
        m
    }

    /// Encrypts a payload for the channel; see [`SenderRatchet::encrypt`].
    pub fn encrypt(&mut self, plaintext: &[u8]) -> (r: Result<Vec<u8>, RatchetError>)
        requires
            old(self).well_formed(),
        ensures
            final(self).well_formed(),
            exists|nonce: Seq<u8>|
                nonce.len() == 12 && #[trigger] result_is(
                    r,
                    spec_encrypt(old(self)@.sender, plaintext@, nonce).0,
                ) && final(self)@ == (ManagerView {
                    sender: spec_encrypt(old(self)@.sender, plaintext@, nonce).1,
                    ..old(self)@
                }) && (r is Ok ==> opens_again(old(self)@.sender, plaintext@, nonce)),
            r is Ok <==> old(self)@.sender.generation < u32::MAX && aead_takes(plaintext@),
    {
        let ghost before = self@;
        let r = self.sender_ratchet.encrypt(plaintext);
        proof {
            let nonce = choose|nonce: Seq<u8>|
                nonce.len() == 12 && #[trigger] result_is(
                    r,
                    spec_encrypt(before.sender, plaintext@, nonce).0,
                ) && self.sender_ratchet@ == spec_encrypt(before.sender, plaintext@, nonce).1 && (r is Ok
                    ==> opens_again(before.sender, plaintext@, nonce));
            assert(self@.receivers =~= before.receivers);
            assert(result_is(r, spec_encrypt(before.sender, plaintext@, nonce).0));
        }
        r
    }

    /// Adds a participant, or tells a known one's receiver the secret of the
    /// current epoch; see [`spec_add_participant`].
    pub fn add_participant(
        &mut self,
        user_id: u64,
        public_key: Vec<u8>,
        initial_secret: Option<[u8; 16]>,
    ) -> (r: Result<(), RatchetError>)
        requires
            old(self).well_formed(),
        ensures
            final(self).well_formed(),
            match (
                r,
                spec_add_participant(
                    old(self)@,
                    user_id,
                    public_key@,
                    match initial_secret {
                        Some(s) => Some(s@),
                        None => None,
                    },
                ),
            ) {
                (Ok(()), Ok(receivers)) => final(self)@ == (ManagerView {
                    receivers,
                    ..old(self)@
                }),
                (Err(e), Err(se)) => e@ == se && final(self)@ == old(self)@,
                _ => false,
            },
    {
        let ghost before = self@;
        let ghost table = self.receiver_ratchets@;
        let epoch = epoch_of(self.group_epoch);
        if self.receiver_ratchets.contains_key(&user_id) {
            match initial_secret {
                Some(secret) => {
                    match self.receiver_ratchets.remove(&user_id) {
                        Some(mut receiver) => {
                            receiver.add_epoch_secret(epoch, secret);
                            self.receiver_ratchets.insert(user_id, receiver);
                            assert(self.receiver_ratchets@ =~= table.insert(user_id, receiver));
                            assert(self@.receivers =~= spec_add_participant(
                                before,
                                user_id,
                                public_key@,
                                Some(secret@),
                            )->Ok_0);
                        },
                        None => {},
                    }
                },
                None => {
                    assert(self@.receivers =~= before.receivers);
                },
            }
            Ok(())
        } else {
            let secret = match initial_secret {
                Some(s) => s,
                None => {
                    return Err(RatchetError::MissingSharedSecret);
                },
            };
            let mut receiver = ReceiverRatchet::new(
                &secret,
                public_key,
                user_id,
                Some(self.config),
                self.group_epoch,
            );
            let ghost made = receiver@;
            receiver.add_epoch_secret(epoch, secret);
            assert(receiver@.secrets =~= made.secrets);
            self.receiver_ratchets.insert(user_id, receiver);
            assert(self@.receivers =~= before.receivers.insert(user_id, made));
            Ok(())
        }
    }

    /// Notes the group's epoch.
    pub fn update_group_epoch(&mut self, group_epoch: u64)
        requires
            old(self).well_formed(),
        ensures
            final(self).well_formed(),
            final(self)@ == (ManagerView { group_epoch, ..old(self)@ }),
    {
        let ghost before = self@;
        self.group_epoch = group_epoch;
        assert(self@.receivers =~= before.receivers);
    }

    /// Moves the sender to a new epoch.
    pub fn update_sender_epoch(&mut self, new_secret: &[u8; 16], group_epoch: u64)
        requires
            old(self).well_formed(),
        ensures
            final(self).well_formed(),
            final(self)@ == (ManagerView {
                sender: SenderView {
                    epoch: frame_epoch(group_epoch),
                    secret: new_secret@,
                    generation: 0,
                    ..old(self)@.sender
                },
                ..old(self)@
            }),
    {
        let ghost before = self@;
        self.sender_ratchet.update_epoch(new_secret, group_epoch);
        assert(self@.receivers =~= before.receivers);
    }

    /// Decrypts a frame of the channel; see [`spec_route`].
    pub fn decrypt(&mut self, ciphertext: &[u8]) -> (r: Result<Vec<u8>, RatchetError>)
        requires
            old(self).well_formed(),
        ensures
            final(self).well_formed(),
            decrypted_is(r, spec_route(old(self)@, ciphertext@).0),
            final(self)@ == (ManagerView {
                receivers: spec_route(old(self)@, ciphertext@).1,
                ..old(self)@
            }),
    {
        let ghost before = self@;
        let ghost table = self.receiver_ratchets@;
        let total = ciphertext.len();
        if total < 4 {
            return Err(RatchetError::InvalidFormat);
        }
        let key_len = get_u32_le(ciphertext, 0);
        if ((total - 4) as u64) < key_len as u64 + 16 {
            return Err(RatchetError::InvalidFormat);
        }
        let sender_id = get_u64_le(ciphertext, 4 + key_len as usize);
        match self.receiver_ratchets.remove(&sender_id) {
            Some(mut receiver) => {
                let r = receiver.decrypt(ciphertext);
                self.receiver_ratchets.insert(sender_id, receiver);
                assert(self.receiver_ratchets@ =~= table.insert(sender_id, receiver));
                assert(self@.receivers =~= spec_route(before, ciphertext@).1);
                r
            },
            None => {
                let id = u64_to_text(sender_id);
                let a = join_text("Sender ratchet for user ", id.as_str());
                assert(self@.receivers =~= before.receivers);
                Err(RatchetError::DecryptError(join_text(a.as_str(), " not found")))
            },
        }
    }
}

pub struct ParticipantView {
    pub user_id: u64,
    pub public_key: Seq<u8>,
    pub secret: Seq<u8>,
}

impl View for Participant {
    type V = ParticipantView;

    open spec fn view(&self) -> ParticipantView {
        ParticipantView {
            user_id: self.user_id,
            public_key: self.public_key@,
            secret: self.secret@,
        }
    }
}

/// The views of a list of participants.
pub open spec fn participant_views(p: Seq<Participant>) -> Seq<ParticipantView> {
    p.map_values(|x: Participant| x@)
}

/// The receivers after every participant of a list was added, in order, each
/// with their secret.
pub open spec fn after_participants(m: ManagerView, members: Seq<ParticipantView>) -> Map<
    u64,
    ReceiverView,
>
    decreases members.len(),
{
    if members.len() == 0 {
        m.receivers
    } else {
        let before = ManagerView {
            receivers: after_participants(m, members.drop_last()),
            ..m
        };
        let last = members.last();
        spec_add_participant(before, last.user_id, last.public_key, Some(last.secret))->Ok_0
    }
}

pub open spec fn receiver_missing() -> RatchetErrorView {
    RatchetErrorView::DecryptError("Receiver ratchet not found"@)
}

impl GroupRatchetManager {
    /// Tells the receiver of a user the secret of an epoch. A user without
    /// receiver is an error.
    pub fn update_receiver_epoch_secret(&mut self, user_id: u64, epoch: u64, secret: [u8; 16]) -> (r:
        Result<(), RatchetError>)
        requires
            old(self).well_formed(),
        ensures
            final(self).well_formed(),
            match r {
                Ok(()) => old(self)@.receivers.contains_key(user_id) && final(self)@
                    == (ManagerView {
                    receivers: old(self)@.receivers.insert(
                        user_id,
                        ReceiverView {
                            secrets: old(self)@.receivers[user_id].secrets.insert(
                                frame_epoch(epoch),
                                secret@,
                            ),
                            ..old(self)@.receivers[user_id]
                        },
                    ),
                    ..old(self)@
                }),
                Err(e) => !old(self)@.receivers.contains_key(user_id) && e@ == receiver_missing()
                    && final(self)@ == old(self)@,
            },
    {
        let ghost before = self@;
        let ghost table = self.receiver_ratchets@;
        match self.receiver_ratchets.remove(&user_id) {
            Some(mut receiver) => {
                receiver.add_epoch_secret(epoch_of(epoch), secret);
                self.receiver_ratchets.insert(user_id, receiver);
                assert(self.receiver_ratchets@ =~= table.insert(user_id, receiver));
                assert(self@.receivers =~= before.receivers.insert(
                    user_id,
                    ReceiverView {
                        secrets: before.receivers[user_id].secrets.insert(
                            frame_epoch(epoch),
                            secret@,
                        ),
                        ..before.receivers[user_id]
                    },
                ));
                Ok(())
            },
            None => {
                assert(self@.receivers =~= before.receivers);
                Err(RatchetError::DecryptError("Receiver ratchet not found".to_string()))
            },
        }
    }

    /// Follows the group into a new epoch: the sender starts the epoch anew
    /// from its secret, and every member of the group gets a receiver, or
    /// their receiver the member's secret for the epoch. The secrets are
    /// those that the group exports for each member.
    pub fn update_voice_ratchet(
        &mut self,
        group_epoch: u64,
        sender_secret: &[u8; 16],
        members: &Vec<Participant>,
    ) -> (r: Result<(), RatchetError>)
        requires
            old(self).well_formed(),
        ensures
            r is Ok,
            final(self).well_formed(),
            final(self)@ == (ManagerView {
                group_epoch,
                sender: SenderView {
                    epoch: frame_epoch(group_epoch),
                    secret: sender_secret@,
                    generation: 0,
                    ..old(self)@.sender
                },
                receivers: after_participants(
                    ManagerView { group_epoch, ..old(self)@ },
                    participant_views(members@),
                ),
                ..old(self)@
            }),
    {
        self.update_group_epoch(group_epoch);
        self.update_sender_epoch(sender_secret, group_epoch);
        let ghost start = ManagerView { group_epoch, ..old(self)@ };
        let ghost base = self@;
        let ghost pv = participant_views(members@);
        let mut i: usize = 0;
        assert(pv.subrange(0, 0) =~= Seq::<ParticipantView>::empty());
        while i < members.len()
            invariant
                i <= members.len(),
                self.well_formed(),
                pv == participant_views(members@),
                start.receivers == old(self)@.receivers,
                start.group_epoch == group_epoch,
                start.max_previous_epochs == old(self)@.max_previous_epochs,
                base.group_epoch == group_epoch,
                base.max_previous_epochs == old(self)@.max_previous_epochs,
                self@ == (ManagerView {
                    receivers: after_participants(start, pv.subrange(0, i as int)),
                    ..base
                }),
            decreases members.len() - i,
        {
            proof {
                assert(pv.subrange(0, i + 1).drop_last() =~= pv.subrange(0, i as int));
                assert(pv.subrange(0, i + 1).last() == members@[i as int]@);
            }
            let member = &members[i];
            let key = crate::support::text::copy_bytes(member.public_key.as_slice());
            let _ = self.add_participant(member.user_id, key, Some(member.secret));
            i += 1;
        }
        assert(pv.subrange(0, pv.len() as int) =~= pv);
        Ok(())
    }
}

} // verus!
