//! Dealerless distributed key generation for BLS threshold keys.
//!
//! Each participant owns one [`key_gen::KeyGen`] instance per epoch. The instance consumes the
//! messages the caller delivers, hands back the messages the caller has to broadcast, and, once
//! it reached its final phase, assembles the group's public key set and this participant's
//! secret key share.

pub mod key_gen;
