//! The frame that carries one encrypted payload: the sender's public key
//! with its length, the sender's id, epoch and generation, the nonce, and
//! the ciphertext with its tag. Numbers are little-endian.

use vstd::prelude::*;
use vstd::bytes::{
    spec_u32_from_le_bytes, spec_u32_to_le_bytes, spec_u64_from_le_bytes, spec_u64_to_le_bytes,
};
use crate::wire::bytes::{
    get_u32_le, get_u64_le, lemma_le_u32, lemma_le_u64, push_all, push_u32_le, push_u64_le,
    take_bytes,
};

verus! {

/// What a frame holds.
#[derive(Debug)]
pub struct Frame {
    pub public_key: Vec<u8>,
    pub sender_id: u64,
    pub epoch: u32,
    pub generation: u32,
    pub nonce: [u8; 12],
    /// The ciphertext with its tag.
    pub sealed: Vec<u8>,
}

pub struct FrameView {
    pub public_key: Seq<u8>,
    pub sender_id: u64,
    pub epoch: u32,
    pub generation: u32,
    pub nonce: Seq<u8>,
    pub sealed: Seq<u8>,
}

impl View for Frame {
    type V = FrameView;

    open spec fn view(&self) -> FrameView {
        FrameView {
            public_key: self.public_key@,
            sender_id: self.sender_id,
            epoch: self.epoch,
            generation: self.generation,
            nonce: self.nonce@,
            sealed: self.sealed@,
        }
    }
}

impl FrameView {
    /// The frame on the wire.
    pub open spec fn to_bytes(self) -> Seq<u8> {
        spec_u32_to_le_bytes(self.public_key.len() as u32) + self.public_key
            + spec_u64_to_le_bytes(self.sender_id) + spec_u32_to_le_bytes(self.epoch)
            + spec_u32_to_le_bytes(self.generation) + self.nonce + self.sealed
    }

    /// What a frame must meet to be written: a key whose length fits 32
    /// bits, and a nonce of twelve bytes.
    pub open spec fn well_formed(self) -> bool {
        self.public_key.len() <= u32::MAX && self.nonce.len() == 12
    }
}

/// The frame that bytes stand for, if they are long enough for one: four
/// bytes of key length, the key, and 28 bytes of id, epoch, generation and
/// nonce. Whatever follows is the ciphertext.
pub open spec fn parse_frame(data: Seq<u8>) -> Option<FrameView> {
    if data.len() < 4 {
        None
    } else {
        let key_len = spec_u32_from_le_bytes(data.subrange(0, 4)) as int;
        if data.len() < 4 + key_len + 28 {
            None
        } else {
            let k1 = 4 + key_len;
            Some(
                FrameView {
                    public_key: data.subrange(4, k1),
                    sender_id: spec_u64_from_le_bytes(data.subrange(k1, k1 + 8)),
                    epoch: spec_u32_from_le_bytes(data.subrange(k1 + 8, k1 + 12)),
                    generation: spec_u32_from_le_bytes(data.subrange(k1 + 12, k1 + 16)),
                    nonce: data.subrange(k1 + 16, k1 + 28),
                    sealed: data.subrange(k1 + 28, data.len() as int),
                },
            )
        }
    }
}

impl Frame {
    /// The frame on the wire.
    pub fn to_bytes(&self) -> (bytes: Vec<u8>)
        requires
            self@.well_formed(),
        ensures
            bytes@ == self@.to_bytes(),
    {
        let mut bytes: Vec<u8> = Vec::new();
        push_u32_le(&mut bytes, self.public_key.len() as u32);
        push_all(&mut bytes, self.public_key.as_slice());
        push_u64_le(&mut bytes, self.sender_id);
        push_u32_le(&mut bytes, self.epoch);
        push_u32_le(&mut bytes, self.generation);
        push_all(&mut bytes, self.nonce.as_slice());
        push_all(&mut bytes, self.sealed.as_slice());
        assert(bytes@ =~= self@.to_bytes());
        bytes
    }

    /// Reads a frame from the wire.
    pub fn from_bytes(data: &[u8]) -> (r: Option<Frame>)
        ensures
            match (r, parse_frame(data@)) {
                (Some(f), Some(v)) => f@ == v,
                (None, None) => true,
                _ => false,
            },
    {
        let total = data.len();
        if total < 4 {
            return None;
        }
        let key_len = get_u32_le(data, 0);
        if ((total - 4) as u64) < key_len as u64 + 28 {
            return None;
        }
        let k1: usize = 4 + key_len as usize;
        let public_key = take_bytes(data, 4, k1);
        let sender_id = get_u64_le(data, k1);
        let epoch = get_u32_le(data, k1 + 8);
        let generation = get_u32_le(data, k1 + 12);
        let mut nonce = [0u8; 12];
        let mut i: usize = 0;
        while i < 12
            invariant
                i <= 12,
                k1 + 28 <= data.len(),
                forall|j: int| 0 <= j < i ==> nonce@[j] == data@[k1 + 16 + j],
            decreases 12 - i,
        {
            nonce[i] = data[k1 + 16 + i];
            i += 1;
        }
        assert(nonce@ =~= data@.subrange(k1 + 16, k1 + 28));
        let sealed = take_bytes(data, k1 + 28, total);
        Some(Frame { public_key, sender_id, epoch, generation, nonce, sealed })
    }
}

/// A frame that was written reads back as itself.
pub proof fn lemma_frame_round_trip(f: FrameView)
    requires
        f.well_formed(),
    ensures
        parse_frame(f.to_bytes()) == Some(f),
{
    let data = f.to_bytes();
    let n = f.public_key.len() as u32;
    lemma_le_u32(n);
    lemma_le_u64(f.sender_id);
    lemma_le_u32(f.epoch);
    lemma_le_u32(f.generation);
    let k1 = (4 + f.public_key.len()) as int;
    assert(data.subrange(0, 4) =~= spec_u32_to_le_bytes(n));
    assert(data.subrange(4, k1) =~= f.public_key);
    assert(data.subrange(k1, k1 + 8) =~= spec_u64_to_le_bytes(f.sender_id));
    assert(data.subrange(k1 + 8, k1 + 12) =~= spec_u32_to_le_bytes(f.epoch));
    assert(data.subrange(k1 + 12, k1 + 16) =~= spec_u32_to_le_bytes(f.generation));
    assert(data.subrange(k1 + 16, k1 + 28) =~= f.nonce);
    assert(data.subrange(k1 + 28, data.len() as int) =~= f.sealed);
}

} // verus!
