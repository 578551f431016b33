//! The voice ratchet: a symmetric key schedule on top of the secrets that an
//! MLS group exports, one chain per sender and epoch.

pub mod config;
pub mod constants;
pub mod crypto;
pub mod error;
pub mod frame;
pub mod laws;
pub mod epoch_keys;
pub mod sender;

pub use config::RatchetConfig;
pub use sender::SenderRatchet;
pub mod receiver;
pub use receiver::ReceiverRatchet;
pub mod manager;
pub use manager::GroupRatchetManager;
