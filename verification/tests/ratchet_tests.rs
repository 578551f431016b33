use ship_lib::ratchet::config::RatchetConfig;
use ship_lib::ratchet::error::RatchetError;
use ship_lib::ratchet::frame::Frame;
use ship_lib::ratchet::manager::{GroupRatchetManager, Participant};
use ship_lib::ratchet::receiver::ReceiverRatchet;
use ship_lib::ratchet::sender::SenderRatchet;
use ship_lib::ratchet::crypto::{derive_initial_keys, derive_step};
use ship_lib::voice::{clear_prefix_len, decrypt_voice, encrypt_voice, VoiceId};

const SECRET: [u8; 16] = [7; 16];
const OTHER_SECRET: [u8; 16] = [8; 16];

fn pair(epoch: u64) -> (SenderRatchet, ReceiverRatchet) {
    let sender = SenderRatchet::new(&SECRET, vec![1, 2, 3], 42, epoch);
    let receiver = ReceiverRatchet::new(&SECRET, vec![1, 2, 3], 42, None, epoch);
    (sender, receiver)
}

fn is_decrypt_error(r: &Result<Vec<u8>, RatchetError>, text: &str) -> bool {
    matches!(r, Err(RatchetError::DecryptError(m)) if m == text)
}

#[test]
fn encrypt_then_decrypt_gives_the_plaintext() {
    let (mut sender, mut receiver) = pair(7);
    for i in 0..5u8 {
        let plaintext = vec![i; 20];
        let frame = sender.encrypt(&plaintext).unwrap();
        assert_eq!(receiver.decrypt(&frame).unwrap(), plaintext);
    }
    let empty = sender.encrypt(&[]).unwrap();
    assert_eq!(receiver.decrypt(&empty).unwrap(), Vec::<u8>::new());
}

#[test]
fn frame_layout_is_bit_exact() {
    let mut sender = SenderRatchet::new(&SECRET, vec![1, 2, 3], 42, 7);
    let nonce = [5u8; 12];
    let first = sender.encrypt_with_nonce(b"hello", &nonce).unwrap();
    assert_eq!(&first[0..4], &3u32.to_le_bytes());
    assert_eq!(&first[4..7], &[1, 2, 3]);
    assert_eq!(&first[7..15], &42u64.to_le_bytes());
    assert_eq!(&first[15..19], &7u32.to_le_bytes());
    assert_eq!(&first[19..23], &0u32.to_le_bytes());
    assert_eq!(&first[23..35], &nonce);
    // Ciphertext and 16 bytes of tag.
    assert_eq!(first.len(), 35 + 5 + 16);
    let second = sender.encrypt_with_nonce(b"hello", &nonce).unwrap();
    assert_eq!(&second[19..23], &1u32.to_le_bytes());
    assert_ne!(&first[35..], &second[35..]);
    let parsed = Frame::from_bytes(&second).unwrap();
    assert_eq!(parsed.public_key, vec![1, 2, 3]);
    assert_eq!(parsed.sender_id, 42);
    assert_eq!(parsed.epoch, 7);
    assert_eq!(parsed.generation, 1);
    assert_eq!(parsed.nonce, nonce);
    assert_eq!(parsed.to_bytes(), second);
}

#[test]
fn encryption_is_a_function_of_key_nonce_and_plaintext() {
    let mut a = SenderRatchet::new(&SECRET, vec![1], 1, 3);
    let mut b = SenderRatchet::new(&SECRET, vec![1], 1, 3);
    let nonce = [0u8; 12];
    assert_eq!(
        a.encrypt_with_nonce(b"x", &nonce).unwrap(),
        b.encrypt_with_nonce(b"x", &nonce).unwrap()
    );
    let mut c = SenderRatchet::new(&OTHER_SECRET, vec![1], 1, 3);
    assert_ne!(
        a.encrypt_with_nonce(b"x", &nonce).unwrap()[23..],
        c.encrypt_with_nonce(b"x", &nonce).unwrap()[23..]
    );
}

#[test]
fn key_schedule_splits_the_hkdf_output() {
    let (root, chain) = derive_initial_keys(&SECRET);
    assert_ne!(root, chain);
    assert_ne!(root, SECRET);
    let (next_chain, message_key) = derive_step(&root, &chain);
    assert_ne!(next_chain, chain);
    assert_ne!(message_key, next_chain);
    assert_eq!(derive_initial_keys(&SECRET), (root, chain));
    assert_eq!(derive_step(&root, &chain), (next_chain, message_key));
    // HKDF-SHA-256 over the secret with the init label, computed outside.
    let hk = hkdf::Hkdf::<sha2::Sha256>::new(None, &SECRET);
    let mut okm = [0u8; 32];
    hk.expand(b"SenderRatchetInit", &mut okm).unwrap();
    assert_eq!(&okm[..16], &root);
    assert_eq!(&okm[16..], &chain);
    let hk = hkdf::Hkdf::<sha2::Sha256>::new(Some(&root), &chain);
    hk.expand(b"MessageKeyDerivation", &mut okm).unwrap();
    assert_eq!(&okm[..16], &next_chain);
    assert_eq!(&okm[16..], &message_key);
}

#[test]
fn ratchet_out_of_order() {
    let (mut sender, mut receiver) = pair(7);
    let frames: Vec<Vec<u8>> =
        (1..=5u8).map(|i| sender.encrypt(&[i; 8]).unwrap()).collect();
    for i in [0usize, 2, 1, 3, 4] {
        assert_eq!(receiver.decrypt(&frames[i]).unwrap(), vec![(i + 1) as u8; 8]);
    }
    // Every key was used: each frame is refused now.
    for frame in frames.iter() {
        assert!(is_decrypt_error(&receiver.decrypt(frame), "Message key not available"));
    }
}

#[test]
fn a_frame_is_accepted_once() {
    let (mut sender, mut receiver) = pair(1);
    let frame = sender.encrypt(b"once").unwrap();
    assert_eq!(receiver.decrypt(&frame).unwrap(), b"once".to_vec());
    assert!(is_decrypt_error(&receiver.decrypt(&frame), "Message key not available"));
}

#[test]
fn too_many_skipped_messages() {
    let (mut sender, mut receiver) = pair(1);
    let mut last = Vec::new();
    for _ in 0..1002 {
        last = sender.encrypt(b"x").unwrap();
    }
    // Generation 1001 lies 1001 ahead of the cursor at 0.
    assert!(matches!(receiver.decrypt(&last), Err(RatchetError::TooManySkippedMessages)));
    // Nothing was changed: the first frame of a fresh sender still decrypts.
    let mut again = SenderRatchet::new(&SECRET, vec![1, 2, 3], 42, 1);
    let first = again.encrypt(b"first").unwrap();
    assert_eq!(receiver.decrypt(&first).unwrap(), b"first".to_vec());
}

#[test]
fn a_gap_of_exactly_the_limit_is_accepted() {
    let (mut sender, mut receiver) = pair(1);
    let mut last = Vec::new();
    for _ in 0..1001 {
        last = sender.encrypt(b"x").unwrap();
    }
    assert_eq!(receiver.decrypt(&last).unwrap(), b"x".to_vec());
}

#[test]
fn a_failed_decrypt_does_not_poison_the_state() {
    let (mut sender, mut receiver) = pair(1);
    let first = sender.encrypt(b"one").unwrap();
    let second = sender.encrypt(b"two").unwrap();
    let mut tampered = second.clone();
    let last = tampered.len() - 1;
    tampered[last] ^= 1;
    assert!(is_decrypt_error(&receiver.decrypt(&tampered), "Failed to decrypt message: aead::Error"));
    assert_eq!(receiver.decrypt(&second).unwrap(), b"two".to_vec());
    assert_eq!(receiver.decrypt(&first).unwrap(), b"one".to_vec());
}

#[test]
fn frames_of_another_sender_are_refused() {
    let (mut sender, _) = pair(1);
    let frame = sender.encrypt(b"x").unwrap();
    let mut other_key = ReceiverRatchet::new(&SECRET, vec![9], 42, None, 1);
    assert!(is_decrypt_error(
        &other_key.decrypt(&frame),
        "Incorrect sender public key. Expected [9], got [1, 2, 3]"
    ));
    let mut other_id = ReceiverRatchet::new(&SECRET, vec![1, 2, 3], 43, None, 1);
    assert!(is_decrypt_error(
        &other_id.decrypt(&frame),
        "Incorrect sender ID. Expected 43, got 42"
    ));
}

#[test]
fn short_frames_are_invalid() {
    let (mut sender, mut receiver) = pair(1);
    let frame = sender.encrypt(b"").unwrap();
    assert!(matches!(receiver.decrypt(&[]), Err(RatchetError::InvalidFormat)));
    assert!(matches!(receiver.decrypt(&[1, 0, 0]), Err(RatchetError::InvalidFormat)));
    assert!(matches!(receiver.decrypt(&frame[..34]), Err(RatchetError::InvalidFormat)));
    assert!(matches!(
        receiver.decrypt(&[255, 255, 255, 255, 0, 0]),
        Err(RatchetError::InvalidFormat)
    ));
    // The header alone parses, but carries no tag.
    assert!(is_decrypt_error(
        &receiver.decrypt(&frame[..35]),
        "Failed to decrypt message: aead::Error"
    ));
    assert!(Frame::from_bytes(&frame[..34]).is_none());
}

#[test]
fn unknown_epoch_is_refused_until_its_secret_is_known() {
    let (mut sender, mut receiver) = pair(1);
    sender.update_epoch(&OTHER_SECRET, 2);
    let frame = sender.encrypt(b"new epoch").unwrap();
    assert!(matches!(receiver.decrypt(&frame), Err(RatchetError::EpochNotFound)));
    receiver.add_epoch_secret(2, OTHER_SECRET);
    assert_eq!(receiver.decrypt(&frame).unwrap(), b"new epoch".to_vec());
}

#[test]
fn epoch_rollover() {
    let (mut sender, mut receiver) = pair(5);
    let old_frame = sender.encrypt(b"old").unwrap();
    sender.update_epoch(&OTHER_SECRET, 6);
    assert!(receiver.update_epoch(6, &OTHER_SECRET).is_ok());
    let new_frame = sender.encrypt(b"new").unwrap();
    assert_eq!(&new_frame[15..19], &6u32.to_le_bytes());
    assert_eq!(&new_frame[19..23], &0u32.to_le_bytes());
    assert_eq!(receiver.decrypt(&new_frame).unwrap(), b"new".to_vec());
    // A frame of the earlier epoch still decrypts.
    assert_eq!(receiver.decrypt(&old_frame).unwrap(), b"old".to_vec());
}

#[test]
fn the_oldest_epoch_goes_when_the_new_one_is_far_ahead() {
    let config = RatchetConfig { max_previous_epochs: 2 };
    let mut receiver = ReceiverRatchet::new(&SECRET, vec![1], 1, Some(config), 1);
    let mut sender = SenderRatchet::new(&SECRET, vec![1], 1, 1);
    let old = sender.encrypt(b"old").unwrap();
    receiver.update_epoch(2, &OTHER_SECRET).unwrap();
    // Two epochs are held, but 3 is not further ahead of 1 than 2.
    receiver.update_epoch(3, &OTHER_SECRET).unwrap();
    assert_eq!(receiver.decrypt(&old).unwrap(), b"old".to_vec());
    // 4 is: epoch 1 goes, with its secret.
    receiver.update_epoch(4, &OTHER_SECRET).unwrap();
    let mut again = SenderRatchet::new(&SECRET, vec![1], 1, 1);
    again.encrypt(b"skip").unwrap();
    let late = again.encrypt(b"late").unwrap();
    assert!(matches!(receiver.decrypt(&late), Err(RatchetError::EpochNotFound)));
}

#[test]
fn default_config_keeps_five_epochs() {
    assert_eq!(RatchetConfig::default().max_previous_epochs, 5);
}

#[test]
fn epoch_number_is_the_lower_32_bits() {
    let mut sender = SenderRatchet::new(&SECRET, vec![], 1, (1u64 << 32) + 9);
    let frame = sender.encrypt(b"x").unwrap();
    assert_eq!(&frame[0..4], &0u32.to_le_bytes());
    assert_eq!(&frame[12..16], &9u32.to_le_bytes());
}

fn manager(user_id: u64, key: Vec<u8>) -> GroupRatchetManager {
    GroupRatchetManager::new(SECRET, key, user_id, None, 3)
}

#[test]
fn manager_routes_frames_to_the_receiver_of_their_sender() {
    let mut alice = manager(1, vec![1]);
    let mut bob = GroupRatchetManager::new(OTHER_SECRET, vec![2], 2, None, 3);
    bob.add_participant(1, vec![1], Some(SECRET)).unwrap();
    alice.add_participant(2, vec![2], Some(OTHER_SECRET)).unwrap();
    let to_bob = alice.encrypt(b"hi bob").unwrap();
    assert_eq!(bob.decrypt(&to_bob).unwrap(), b"hi bob".to_vec());
    let to_alice = bob.encrypt(b"hi alice").unwrap();
    assert_eq!(alice.decrypt(&to_alice).unwrap(), b"hi alice".to_vec());
    // Alice has no receiver for herself.
    let own = alice.encrypt(b"me").unwrap();
    assert!(is_decrypt_error(&alice.decrypt(&own), "Sender ratchet for user 1 not found"));
    assert!(matches!(alice.decrypt(&[1, 2]), Err(RatchetError::InvalidFormat)));
}

#[test]
fn a_new_participant_needs_a_secret() {
    let mut alice = manager(1, vec![1]);
    assert!(matches!(
        alice.add_participant(2, vec![2], None),
        Err(RatchetError::MissingSharedSecret)
    ));
    alice.add_participant(2, vec![2], Some(OTHER_SECRET)).unwrap();
    assert!(alice.add_participant(2, vec![2], None).is_ok());
    assert!(alice.update_receiver_epoch_secret(2, 4, SECRET).is_ok());
    assert!(matches!(
        alice.update_receiver_epoch_secret(9, 4, SECRET),
        Err(RatchetError::DecryptError(m)) if m == "Receiver ratchet not found"
    ));
}

#[test]
fn voice_ratchet_follows_the_group_into_a_new_epoch() {
    let mut alice = manager(1, vec![1]);
    let mut bob = GroupRatchetManager::new(OTHER_SECRET, vec![2], 2, None, 3);
    alice.add_participant(2, vec![2], Some(OTHER_SECRET)).unwrap();
    bob.add_participant(1, vec![1], Some(SECRET)).unwrap();
    let before = alice.encrypt(b"epoch 3").unwrap();

    let alice_next = [21u8; 16];
    let bob_next = [22u8; 16];
    let members = |a: [u8; 16], b: [u8; 16]| {
        vec![
            Participant { user_id: 1, public_key: vec![1], secret: a },
            Participant { user_id: 2, public_key: vec![2], secret: b },
        ]
    };
    alice.update_voice_ratchet(4, &alice_next, &members(alice_next, bob_next)).unwrap();
    bob.update_voice_ratchet(4, &bob_next, &members(alice_next, bob_next)).unwrap();

    let after = alice.encrypt(b"epoch 4").unwrap();
    assert_eq!(&after[13..17], &4u32.to_le_bytes());
    assert_eq!(bob.decrypt(&after).unwrap(), b"epoch 4".to_vec());
    assert_eq!(bob.decrypt(&before).unwrap(), b"epoch 3".to_vec());
    let back = bob.encrypt(b"reply").unwrap();
    assert_eq!(alice.decrypt(&back).unwrap(), b"reply".to_vec());
}

#[test]
fn vp8_frames_keep_their_head_in_the_clear() {
    assert_eq!(clear_prefix_len(100, true, 10), 10);
    assert_eq!(clear_prefix_len(100, false, 10), 0);
    assert_eq!(clear_prefix_len(10, true, 10), 0);
    assert_eq!(clear_prefix_len(0, true, 1), 0);
    assert_eq!(clear_prefix_len(100, true, 0), 0);

    let mut alice = manager(1, vec![1]);
    let mut bob = GroupRatchetManager::new(OTHER_SECRET, vec![2], 2, None, 3);
    bob.add_participant(1, vec![1], Some(SECRET)).unwrap();
    let frame: Vec<u8> = (0..40u8).collect();
    let sealed = encrypt_voice(&mut alice, &frame, true, 10).unwrap();
    assert_eq!(&sealed[..10], &frame[..10]);
    assert_ne!(&sealed[10..], &frame[10..]);
    assert_eq!(decrypt_voice(&mut bob, &sealed, true, 10).unwrap(), frame);

    let whole = encrypt_voice(&mut alice, &frame, false, 10).unwrap();
    assert_eq!(&whole[0..4], &1u32.to_le_bytes());
    assert_eq!(decrypt_voice(&mut bob, &whole, false, 10).unwrap(), frame);
}

#[test]
fn voice_id_is_the_name_in_bytes() {
    let id = VoiceId::from_string("room");
    assert_eq!(id.to_vec(), b"room".to_vec());
    assert_eq!(id, VoiceId(b"room".to_vec()));
    assert_eq!(ship_lib::voice::EXPORT_SECRET_LABEL, "SHIP Voice Channel");
    assert_eq!(ship_lib::voice::EXPORT_SECRET_LENGTH, 16);
}

#[test]
fn encryption_succeeds_on_every_ordinary_payload() {
    let mut sender = SenderRatchet::new(&SECRET, vec![1, 2], 1, 3);
    for size in [0usize, 1, 15, 16, 17, 1000, 100_000] {
        let frame = sender.encrypt(&vec![7u8; size]).unwrap();
        // Header, nonce, the payload and the tag of 16 bytes.
        assert_eq!(frame.len(), 4 + 2 + 8 + 4 + 4 + 12 + size + 16);
    }
}
