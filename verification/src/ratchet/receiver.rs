//! The receiving side of the ratchet: the chains of one remote sender, one
//! per epoch, with the keys of frames that have not arrived yet.

use vstd::prelude::*;
use std::collections::HashMap;
use crate::support::maps::hash_keys;
use crate::ratchet::config::RatchetConfig;
use crate::ratchet::constants::MAX_SKIP;
use crate::ratchet::crypto::{
    aead_error_text, aes128_gcm_decrypt, aes128_gcm_open, chain_key_at, derive_step,
    message_key_at};
use crate::ratchet::epoch_keys::{EpochKeys, EpochView};
use crate::ratchet::error::{RatchetError, RatchetErrorView};
use crate::ratchet::frame::{parse_frame, Frame};
use crate::ratchet::sender::{epoch_of, frame_epoch};
use crate::support::text::{decimal_text, join_text, list_text_u8, u64_to_text, u8_list_to_text};

verus! {

/// The ratchet of a receiver, for the frames of one sender.
pub struct ReceiverRatchet {
    current_epoch: u32,
    epoch_keys: HashMap<u32, EpochKeys>,
    sender_public_key: Vec<u8>,
    sender_id: u64,
    config: RatchetConfig,
    epoch_secrets: HashMap<u32, [u8; 16]>,
}

/// What a receiver's ratchet stands for.
pub struct ReceiverView {
    /// The highest epoch installed so far.
    pub current_epoch: u32,
    /// The epochs whose keys are installed.
    pub epochs: Map<u32, EpochView>,
    /// The secrets known, by epoch; an epoch is installed from its secret
    /// when its first frame arrives.
    pub secrets: Map<u32, Seq<u8>>,
    pub sender_public_key: Seq<u8>,
    pub sender_id: u64,
    pub max_previous_epochs: usize,
}

impl ReceiverView {
    /// In every installed epoch, every kept key belongs to a generation
    /// behind the cursor.
    pub open spec fn consistent(self) -> bool {
        forall|e: u32| #[trigger] self.epochs.contains_key(e) ==> self.epochs[e].consistent()
    }
}

/// Whether `k` is the lowest epoch installed.
pub open spec fn is_min_epoch(m: Map<u32, EpochView>, k: u32) -> bool {
    m.contains_key(k) && forall|j: u32| m.contains_key(j) ==> k <= j
}

/// The lowest epoch installed.
pub open spec fn min_epoch(m: Map<u32, EpochView>) -> u32 {
    choose|k: u32| is_min_epoch(m, k)
}

/// Whether installing `epoch` lets the oldest epoch go: the receiver holds
/// as many epochs as it keeps, and the new one lies further ahead of the
/// oldest than that.
pub open spec fn prunes(r: ReceiverView, epoch: u32) -> bool {
    r.epochs.len() >= r.max_previous_epochs && r.epochs.len() > 0 && epoch > min_epoch(r.epochs)
        + r.max_previous_epochs
}

/// The receiver after it was told the secret of an epoch. For an epoch that
/// is installed only the secret is replaced. A new epoch is installed at
/// generation zero, after the oldest was let go where [`prunes`] says so,
/// and becomes the current one if it is the highest.
pub open spec fn install(r: ReceiverView, epoch: u32, secret: Seq<u8>) -> ReceiverView {
    if r.epochs.contains_key(epoch) {
        ReceiverView { secrets: r.secrets.insert(epoch, secret), ..r }
    } else {
        let secrets = r.secrets.insert(epoch, secret);
        let oldest = min_epoch(r.epochs);
        let kept = if prunes(r, epoch) {
            r.epochs.remove(oldest)
        } else {
            r.epochs
        };
        let kept_secrets = if prunes(r, epoch) {
            secrets.remove(oldest)
        } else {
            secrets
        };
        ReceiverView {
            current_epoch: if epoch > r.current_epoch {
                epoch
            } else {
                r.current_epoch
            },
            epochs: kept.insert(epoch, EpochView::fresh(secret)),
            secrets: kept_secrets,
            ..r
        }
    }
}

pub open spec fn key_gone() -> RatchetErrorView {
    RatchetErrorView::DecryptError("Message key not available"@)
}

pub open spec fn chain_ends() -> RatchetErrorView {
    RatchetErrorView::DecryptError("Generation counter exhausted"@)
}

pub open spec fn tag_mismatch() -> RatchetErrorView {
    RatchetErrorView::DecryptError("Failed to decrypt message: "@ + aead_error_text())
}

pub open spec fn wrong_key(expected: Seq<u8>, got: Seq<u8>) -> RatchetErrorView {
    RatchetErrorView::DecryptError(
        "Incorrect sender public key. Expected "@ + list_text_u8(expected) + ", got "@
            + list_text_u8(got),
    )
}

pub open spec fn wrong_sender(expected: u64, got: u64) -> RatchetErrorView {
    RatchetErrorView::DecryptError(
        "Incorrect sender ID. Expected "@ + decimal_text(expected as nat) + ", got "@
            + decimal_text(got as nat),
    )
}

/// Whether the key of a generation can be had. Behind the cursor, only a
/// key that was kept and not used yet. From the cursor on, any generation
/// that lies at most `MAX_SKIP` ahead, but for the very last one.
pub open spec fn key_available(e: EpochView, g: u32) -> Result<(), RatchetErrorView> {
    if g < e.generation {
        if e.skipped.contains(g) {
            Ok(())
        } else {
            Err(key_gone())
        }
    } else if g - e.generation > MAX_SKIP {
        Err(RatchetErrorView::TooManySkippedMessages)
    } else if g == u32::MAX {
        Err(chain_ends())
    } else {
        Ok(())
    }
}

/// An epoch after a frame of generation `g` was accepted. Behind the
/// cursor, the kept key is used up. From the cursor on, the cursor moves
/// behind `g`, and the keys of the generations passed over are kept.
pub open spec fn after_accept(e: EpochView, g: u32) -> EpochView {
    if g < e.generation {
        EpochView { skipped: e.skipped.remove(g), ..e }
    } else {
        EpochView {
            generation: (g + 1) as u32,
            skipped: e.skipped.union(Set::new(|k: u32| e.generation <= k < g)),
            ..e
        }
    }
}

/// The receiver as it judges a frame of `epoch`: with the epoch installed
/// from its secret if it was not yet.
pub open spec fn prepared(r: ReceiverView, epoch: u32) -> ReceiverView {
    if r.epochs.contains_key(epoch) {
        r
    } else {
        install(r, epoch, r.secrets[epoch])
    }
}

/// What decrypting a frame gives, and what the receiver is afterwards. The
/// frame must parse and come from the expected sender; its epoch must be
/// installed or have a secret; its key must be available; and its tag must
/// fit. Only then does the epoch's state change. An epoch that had to be
/// installed stays installed.
pub open spec fn spec_decrypt(r: ReceiverView, data: Seq<u8>) -> (
    Result<Seq<u8>, RatchetErrorView>,
    ReceiverView,
) {
    match parse_frame(data) {
        None => (Err(RatchetErrorView::InvalidFormat), r),
        Some(f) => {
            if f.public_key != r.sender_public_key {
                (Err(wrong_key(r.sender_public_key, f.public_key)), r)
            } else if f.sender_id != r.sender_id {
                (Err(wrong_sender(r.sender_id, f.sender_id)), r)
            } else if !r.epochs.contains_key(f.epoch) && !r.secrets.contains_key(f.epoch) {
                (Err(RatchetErrorView::EpochNotFound), r)
            } else {
                let r1 = prepared(r, f.epoch);
                let e = r1.epochs[f.epoch];
                match key_available(e, f.generation) {
                    Err(err) => (Err(err), r1),
                    Ok(()) => match aes128_gcm_open(
                        message_key_at(e.seed, f.generation as nat),
                        f.nonce,
                        f.sealed,
                    ) {
                        None => (Err(tag_mismatch()), r1),
                        Some(plaintext) => (
                            Ok(plaintext),
                            ReceiverView {
                                epochs: r1.epochs.insert(f.epoch, after_accept(e, f.generation)),
                                ..r1
                            },
                        ),
                    },
                }
            }
        },
    }
}

/// Whether two byte strings are equal.
fn same_bytes(a: &[u8], b: &[u8]) -> (r: bool)
    ensures
        r == (a@ == b@),
{
    if a.len() != b.len() {
        return false;
    }
    let mut i: usize = 0;
    while i < a.len()
        invariant
            i <= a.len(),
            a@.len() == b@.len(),
            forall|j: int| 0 <= j < i ==> a@[j] == b@[j],
        decreases a.len() - i,
    {
        if a[i] != b[i] {
            return false;
        }
        i += 1;
    }
    assert(a@ =~= b@);
    true
}

/// The keys from the cursor up to a generation ahead: the message keys of
/// the generations passed over, the message key of the target, and the
/// chain key behind it.
fn derive_ahead(keys: &EpochKeys, target: u32) -> (r: (Vec<[u8; 16]>, [u8; 16], [u8; 16]))
    requires
        keys.wf(),
        keys.generation <= target,
        target - keys.generation <= MAX_SKIP,
        target < u32::MAX,
    ensures
        r.0@.len() == target - keys.generation,
        forall|j: int|
            0 <= j < r.0@.len() ==> (#[trigger] r.0@[j])@ == message_key_at(
                keys.seed@,
                (keys.generation + j) as nat,
            ),
        r.1@ == message_key_at(keys.seed@, target as nat),
        r.2@ == chain_key_at(keys.seed@, (target + 1) as nat),
{
    let mut passed: Vec<[u8; 16]> = Vec::new();
    let mut chain: [u8; 16] = keys.chain_key;
    let mut g: u32 = keys.generation;
    while g < target
        invariant
            keys.wf(),
            keys.generation <= g <= target,
            chain@ == chain_key_at(keys.seed@, g as nat),
            passed@.len() == g - keys.generation,
            forall|j: int|
                0 <= j < passed@.len() ==> (#[trigger] passed@[j])@ == message_key_at(
                    keys.seed@,
                    (keys.generation + j) as nat,
                ),
        decreases target - g,
    {
        let (next_chain, message_key) = derive_step(&keys.root_key, &chain);
        passed.push(message_key);
        chain = next_chain;
        g += 1;
    }
    let (next_chain, message_key) = derive_step(&keys.root_key, &chain);
    (passed, message_key, next_chain)
}

/// The epoch's keys after a frame ahead of the cursor was accepted.
fn commit_ahead(keys: EpochKeys, target: u32, passed: Vec<[u8; 16]>, next_chain: [u8; 16]) -> (r:
    EpochKeys)
    requires
        keys.wf(),
        keys.generation <= target < u32::MAX,
        passed@.len() == target - keys.generation,
        forall|j: int|
            0 <= j < passed@.len() ==> (#[trigger] passed@[j])@ == message_key_at(
                keys.seed@,
                (keys.generation + j) as nat,
            ),
        next_chain@ == chain_key_at(keys.seed@, (target + 1) as nat),
    ensures
        r.wf(),
        r.view() == after_accept(keys.view(), target),
{
    let EpochKeys { root_key, chain_key: _, generation, skipped_keys, seed } = keys;
    let mut skipped = skipped_keys;
    let ghost seed_value = seed@;
    let ghost start = skipped@;
    let mut i: usize = 0;
    while i < passed.len()
        invariant
            i <= passed.len(),
            generation <= target < u32::MAX,
            passed@.len() == target - generation,
            forall|j: int|
                0 <= j < passed@.len() ==> (#[trigger] passed@[j])@ == message_key_at(
                    seed_value,
                    (generation + j) as nat,
                ),
            forall|g: u32| #[trigger]
                start.contains_key(g) ==> g < generation && start[g]@ == message_key_at(
                    seed_value,
                    g as nat,
                ),
            forall|g: u32| #[trigger]
                skipped@.contains_key(g) ==> g < target && skipped@[g]@ == message_key_at(
                    seed_value,
                    g as nat,
                ),
            skipped@.dom() =~= start.dom().union(Set::new(|k: u32| generation <= k < generation + i)),
        decreases passed.len() - i,
    {
        let g: u32 = generation + i as u32;
        skipped.insert(g, passed[i]);
        i += 1;
    }
    let r = EpochKeys {
        root_key,
        chain_key: next_chain,
        generation: target + 1,
        skipped_keys: skipped,
        seed: Ghost(seed_value),
    };
    assert(r.view().skipped =~= after_accept(keys.view(), target).skipped);
    r
}

/// The epoch's keys after a frame behind the cursor was accepted.
fn commit_behind(keys: EpochKeys, g: u32) -> (r: EpochKeys)
    requires
        keys.wf(),
        g < keys.generation,
    ensures
        r.wf(),
        r.view() == after_accept(keys.view(), g),
{
    let EpochKeys { root_key, chain_key, generation, skipped_keys, seed } = keys;
    let mut skipped = skipped_keys;
    skipped.remove(&g);
    let r = EpochKeys { root_key, chain_key, generation, skipped_keys: skipped, seed };
    assert(r.view().skipped =~= after_accept(keys.view(), g).skipped);
    r
}

impl View for ReceiverRatchet {
    type V = ReceiverView;

    closed spec fn view(&self) -> ReceiverView {
        ReceiverView {
            current_epoch: self.current_epoch,
            epochs: Map::new(
                |e: u32| self.epoch_keys@.contains_key(e),
                |e: u32| self.epoch_keys@[e].view(),
            ),
            secrets: Map::new(
                |e: u32| self.epoch_secrets@.contains_key(e),
                |e: u32| self.epoch_secrets@[e]@,
            ),
            sender_public_key: self.sender_public_key@,
            sender_id: self.sender_id,
            max_previous_epochs: self.config.max_previous_epochs,
        }
    }
}

/// The decrypt result that the specification gives.
pub open spec fn decrypted_is(
    r: Result<Vec<u8>, RatchetError>,
    expected: Result<Seq<u8>, RatchetErrorView>,
) -> bool {
    match (r, expected) {
        (Ok(b), Ok(sb)) => b@ == sb,
        (Err(e), Err(se)) => e@ == se,
        _ => false,
    }
}

impl ReceiverRatchet {
    /// The invariant of a receiver: the keys of every installed epoch are
    /// those that the key schedule derives from the epoch's secret. Every
    /// receiver that [`Self::new`] made has it, and every method keeps it.
    pub closed spec fn well_formed(&self) -> bool {
        forall|e: u32| #[trigger] self.epoch_keys@.contains_key(e) ==> self.epoch_keys@[e].wf()
    }

    /// A receiver with one epoch installed at generation zero, and that
    /// epoch's secret.
    pub fn new(
        shared_secret: &[u8; 16],
        sender_public_key: Vec<u8>,
        sender_id: u64,
        config: Option<RatchetConfig>,
        group_epoch: u64,
    ) -> (r: ReceiverRatchet)
        ensures
            r.well_formed(),
            r@ == (ReceiverView {
                current_epoch: frame_epoch(group_epoch),
                epochs: Map::<u32, EpochView>::empty().insert(
                    frame_epoch(group_epoch),
                    EpochView::fresh(shared_secret@),
                ),
                secrets: Map::<u32, Seq<u8>>::empty().insert(
                    frame_epoch(group_epoch),
                    shared_secret@,
                ),
                sender_public_key: sender_public_key@,
                sender_id,
                max_previous_epochs: match config {
                    Some(c) => c.max_previous_epochs,
                    None => crate::ratchet::constants::DEFAULT_MAX_EPOCHS,
                },
            }),
    {
        let epoch = epoch_of(group_epoch);
        let mut epoch_keys: HashMap<u32, EpochKeys> = HashMap::new();
        epoch_keys.insert(epoch, EpochKeys::fresh(shared_secret));
        let mut epoch_secrets: HashMap<u32, [u8; 16]> = HashMap::new();
        epoch_secrets.insert(epoch, *shared_secret);
        let config = match config {
            Some(c) => c,
            None => RatchetConfig::default(),
        };
        let r = ReceiverRatchet {
            current_epoch: epoch,
            epoch_keys,
            sender_public_key,
            sender_id,
            config,
            epoch_secrets,
        };
        assert(r@.epochs =~= Map::<u32, EpochView>::empty().insert(
            epoch,
            EpochView::fresh(shared_secret@),
        ));
        assert(r@.secrets =~= Map::<u32, Seq<u8>>::empty().insert(epoch, shared_secret@));
        r
    }

    /// The lowest epoch installed, if any is.
    fn lowest_epoch(&self) -> (r: Option<u32>)
        requires
            self.well_formed(),
        ensures
            match r {
                Some(k) => is_min_epoch(self@.epochs, k) && k == min_epoch(self@.epochs),
                None => self@.epochs.len() == 0,
            },
            self@.epochs.dom().finite(),
            self@.epochs.len() == self.epoch_keys@.len(),
    {
        assert(self@.epochs.dom() =~= self.epoch_keys@.dom());
        let keys = hash_keys(&self.epoch_keys);
        if keys.len() == 0 {
            return None;
        }
        let mut low: u32 = keys[0];
        let mut i: usize = 1;
        while i < keys.len()
            invariant
                1 <= i <= keys.len(),
                exists|w: int| 0 <= w < i && keys@[w] == low,
                forall|j: int| 0 <= j < i ==> low <= keys@[j],
            decreases keys.len() - i,
        {
            if keys[i] < low {
                low = keys[i];
            }
            i += 1;
        }
        proof {
            let w = choose|w: int| 0 <= w < keys@.len() && keys@[w] == low;
            assert(keys@.to_set().contains(keys@[w]));
            assert forall|j: u32| self@.epochs.contains_key(j) implies low <= j by {
                assert(keys@.to_set().contains(j));
                let x = choose|x: int| 0 <= x < keys@.len() && keys@[x] == j;
                assert(low <= keys@[x]);
            }
            assert(is_min_epoch(self@.epochs, low));
            let chosen = min_epoch(self@.epochs);
            assert(is_min_epoch(self@.epochs, chosen));
        }
        Some(low)
    }

    /// Tells the receiver the secret of an epoch; see [`install`]. It never
    /// fails.
    pub fn update_epoch(&mut self, epoch: u32, new_secret: &[u8; 16]) -> (r: Result<
        (),
        RatchetError,
    >)
        requires
            old(self).well_formed(),
        ensures
            r is Ok,
            final(self).well_formed(),
            final(self)@ == install(old(self)@, epoch, new_secret@),
    {
        let ghost before = self@;
        if self.epoch_keys.contains_key(&epoch) {
            self.epoch_secrets.insert(epoch, *new_secret);
            assert(self@.secrets =~= before.secrets.insert(epoch, new_secret@));
            assert(self@.epochs =~= before.epochs);
            return Ok(());
        }
        self.epoch_secrets.insert(epoch, *new_secret);
        let lowest = self.lowest_epoch();
        let limit = self.config.max_previous_epochs;
        let mut pruned = false;
        if self.epoch_keys.len() >= limit {
            match lowest {
                Some(oldest) => {
                    if epoch as u128 > oldest as u128 + limit as u128 {
                        self.epoch_keys.remove(&oldest);
                        self.epoch_secrets.remove(&oldest);
                        pruned = true;
                    }
                },
                None => {},
            }
        }
        assert(pruned == prunes(before, epoch)) by {
            assert(before.epochs.dom() =~= old(self).epoch_keys@.dom());
        }
        self.epoch_keys.insert(epoch, EpochKeys::fresh(new_secret));
        if epoch > self.current_epoch {
            self.current_epoch = epoch;
        }
        proof {
            let after = install(before, epoch, new_secret@);
            assert(self@.epochs =~= after.epochs);
            assert(self@.secrets =~= after.secrets);
        }
        Ok(())
    }

    /// Remembers the secret of an epoch without installing the epoch.
    pub fn add_epoch_secret(&mut self, epoch: u32, secret: [u8; 16])
        requires
            old(self).well_formed(),
        ensures
            final(self).well_formed(),
            final(self)@ == (ReceiverView {
                secrets: old(self)@.secrets.insert(epoch, secret@),
                ..old(self)@
            }),
    {
        let ghost before = self@;
        self.epoch_secrets.insert(epoch, secret);
        assert(self@.secrets =~= before.secrets.insert(epoch, secret@));
        assert(self@.epochs =~= before.epochs);
    }
}

impl ReceiverRatchet {
    /// The message key of a frame, with what accepting the frame would
    /// change: the keys passed over and the next chain key for a frame
    /// ahead of the cursor, nothing for a frame behind it. The receiver is
    /// not changed.
    fn key_for(&self, epoch: u32, generation: u32) -> (r: Result<
        ([u8; 16], Option<(Vec<[u8; 16]>, [u8; 16])>),
        RatchetError,
    >)
        requires
            self.well_formed(),
            self.epoch_keys@.contains_key(epoch),
        ensures
            match (r, key_available(self@.epochs[epoch], generation)) {
                (Ok(found), Ok(())) => {
                    let keys = self.epoch_keys@[epoch];
                    &&& found.0@ == message_key_at(keys.seed@, generation as nat)
                    &&& found.1 is None <==> generation < keys.generation
                    &&& found.1 matches Some(ahead) ==> {
                        &&& generation < u32::MAX
                        &&& ahead.0@.len() == generation - keys.generation
                        &&& forall|j: int|
                            0 <= j < ahead.0@.len() ==> (#[trigger] ahead.0@[j])@
                                == message_key_at(keys.seed@, (keys.generation + j) as nat)
                        &&& ahead.1@ == chain_key_at(keys.seed@, (generation + 1) as nat)
                    }
                },
                (Err(e), Err(se)) => e@ == se,
                _ => false,
            },
    {
        let keys = match self.epoch_keys.get(&epoch) {
            Some(k) => k,
            None => {
                return Err(RatchetError::EpochNotFound);
            },
        };
        if generation < keys.generation {
            return match keys.skipped_keys.get(&generation) {
                Some(key) => Ok((*key, None)),
                None => Err(RatchetError::DecryptError("Message key not available".to_string())),
            };
        }
        if generation - keys.generation > MAX_SKIP as u32 {
            return Err(RatchetError::TooManySkippedMessages);
        }
        if generation == u32::MAX {
            return Err(RatchetError::DecryptError("Generation counter exhausted".to_string()));
        }
        let (passed, message_key, next_chain) = derive_ahead(keys, generation);
        Ok((message_key, Some((passed, next_chain))))
    }

    /// Decrypts one frame of the sender; see [`spec_decrypt`].
    pub fn decrypt(&mut self, ciphertext: &[u8]) -> (r: Result<Vec<u8>, RatchetError>)
        requires
            old(self).well_formed(),
        ensures
            final(self).well_formed(),
            decrypted_is(r, spec_decrypt(old(self)@, ciphertext@).0),
            final(self)@ == spec_decrypt(old(self)@, ciphertext@).1,
    {
        let ghost before = self@;
        let frame = match Frame::from_bytes(ciphertext) {
            Some(f) => f,
            None => {
                return Err(RatchetError::InvalidFormat);
            },
        };
        if !same_bytes(frame.public_key.as_slice(), self.sender_public_key.as_slice()) {
            let expected = u8_list_to_text(self.sender_public_key.as_slice());
            let got = u8_list_to_text(frame.public_key.as_slice());
            let a = join_text("Incorrect sender public key. Expected ", expected.as_str());
            let b = join_text(a.as_str(), ", got ");
            let c = join_text(b.as_str(), got.as_str());
            return Err(RatchetError::DecryptError(c));
        }
        if frame.sender_id != self.sender_id {
            let expected = u64_to_text(self.sender_id);
            let got = u64_to_text(frame.sender_id);
            let a = join_text("Incorrect sender ID. Expected ", expected.as_str());
            let b = join_text(a.as_str(), ", got ");
            let c = join_text(b.as_str(), got.as_str());
            return Err(RatchetError::DecryptError(c));
        }
        let epoch = frame.epoch;
        let generation = frame.generation;
        if !self.epoch_keys.contains_key(&epoch) {
            let secret = match self.epoch_secrets.get(&epoch) {
                Some(s) => *s,
                None => {
                    return Err(RatchetError::EpochNotFound);
                },
            };
            let _ = self.update_epoch(epoch, &secret);
        }
        let ghost ready = self@;
        assert(ready == prepared(before, epoch));
        assert(ready.epochs.contains_key(epoch));
        assert(self.epoch_keys@.contains_key(epoch));
        let (message_key, ahead) = match self.key_for(epoch, generation) {
            Ok(found) => found,
            Err(e) => {
                return Err(e);
            },
        };
        let plaintext = match aes128_gcm_decrypt(&message_key, &frame.nonce, frame.sealed.as_slice()) {
            Ok(p) => p,
            Err(e) => {
                return Err(
                    RatchetError::DecryptError(
                        join_text("Failed to decrypt message: ", e.as_str()),
                    ),
                );
            },
        };
        let ghost table = self.epoch_keys@;
        let keys = match self.epoch_keys.remove(&epoch) {
            Some(k) => k,
            None => {
                return Err(RatchetError::EpochNotFound);
            },
        };
        let updated = match ahead {
            Some((passed, next_chain)) => commit_ahead(keys, generation, passed, next_chain),
            None => commit_behind(keys, generation),
        };
        self.epoch_keys.insert(epoch, updated);
        proof {
            assert(self.epoch_keys@ =~= table.insert(epoch, updated));
            let expected = ReceiverView {
                epochs: ready.epochs.insert(epoch, after_accept(ready.epochs[epoch], generation)),
                ..ready
            };
            assert(self@.epochs =~= expected.epochs);
            assert(self@.secrets =~= expected.secrets);
        }
        Ok(plaintext)
    }
}

impl ReceiverRatchet {
    /// A well-formed receiver stands for a consistent state.
    pub proof fn lemma_consistent(&self)
        requires
            self.well_formed(),
        ensures
            self@.consistent(),
    {
        assert forall|e: u32| #[trigger] self@.epochs.contains_key(e) implies self@.epochs[e].consistent() by {
            assert(self.epoch_keys@.contains_key(e));
            let keys = self.epoch_keys@[e];
            assert forall|k: u32| keys.view().skipped.contains(k) implies k < keys.generation by {
                assert(keys.skipped_keys@.contains_key(k));
            }
        }
    }
}

} // verus!
