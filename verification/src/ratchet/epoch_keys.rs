//! The key material of one epoch.

use vstd::prelude::*;
use std::collections::HashMap;
use crate::ratchet::crypto::{
    chain_key_at, derive_initial_keys, initial_keys, message_key_at,
};

verus! {

/// Key material for a specific epoch: the root key, the chain key at the
/// current generation, and the message keys of generations that were
/// passed over.
pub(crate) struct EpochKeys {
    pub(crate) root_key: [u8; 16],
    pub(crate) chain_key: [u8; 16],
    pub(crate) generation: u32,
    pub(crate) skipped_keys: HashMap<u32, [u8; 16]>,
    /// The secret that the keys were derived from.
    pub(crate) seed: Ghost<Seq<u8>>,
}

/// What an epoch's key material stands for: the secret it came from, the
/// generation that comes next, and the earlier generations whose keys are
/// still kept.
pub struct EpochView {
    pub seed: Seq<u8>,
    pub generation: u32,
    pub skipped: Set<u32>,
}

impl EpochView {
    /// Every kept key belongs to a generation behind the cursor.
    pub open spec fn consistent(self) -> bool {
        forall|k: u32| self.skipped.contains(k) ==> k < self.generation
    }

    /// The state of an epoch that was just installed.
    pub open spec fn fresh(secret: Seq<u8>) -> EpochView {
        EpochView { seed: secret, generation: 0, skipped: Set::empty() }
    }
}

impl EpochKeys {
    /// What the key material stands for.
    pub(crate) open spec fn view(&self) -> EpochView {
        EpochView {
            seed: self.seed@,
            generation: self.generation,
            skipped: self.skipped_keys@.dom(),
        }
    }

    /// The keys are those of the key schedule: the root key and the chain
    /// key follow from the secret and the generation, and every kept key is
    /// the message key of an earlier generation.
    pub(crate) open spec fn wf(&self) -> bool {
        &&& self.root_key@ == initial_keys(self.seed@).0
        &&& self.chain_key@ == chain_key_at(self.seed@, self.generation as nat)
        &&& forall|g: u32| #[trigger]
            self.skipped_keys@.contains_key(g) ==> g < self.generation && self.skipped_keys@[g]@
                == message_key_at(self.seed@, g as nat)
    }

    /// The keys of an epoch at generation zero.
    pub(crate) fn fresh(secret: &[u8; 16]) -> (keys: EpochKeys)
        ensures
            keys.wf(),
            keys@ == EpochView::fresh(secret@),
    {
        let (root_key, chain_key) = derive_initial_keys(secret);
        let keys = EpochKeys {
            root_key,
            chain_key,
            generation: 0,
            skipped_keys: HashMap::new(),
            seed: Ghost(secret@),
        };
        assert(keys@.skipped =~= Set::<u32>::empty());
        keys
    }
}

} // verus!
