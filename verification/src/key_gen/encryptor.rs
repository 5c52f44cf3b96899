//! The encryption between two participants, which the session's owner provides.

use vstd::prelude::*;
use xor_name::XorName;

verus! {

/// The number of bytes of a key.
pub const KEY_SIZE: usize = 16;

/// The number of bytes of an initialisation vector.
pub const IV_SIZE: usize = 16;

/// The key of the cipher between us and one participant.
#[derive(Clone, Copy, Debug, PartialEq, Eq, PartialOrd, Ord, Hash)]
pub struct Key(pub [u8; 16]);

/// The initialisation vector of the cipher between us and one participant.
#[derive(Clone, Copy, Debug, PartialEq, Eq, PartialOrd, Ord, Hash)]
pub struct Iv(pub [u8; 16]);

/// What a session needs of the encryption between its participants. The session encrypts
/// what it sends to one participant with it, and promises nothing of what comes back.
pub trait Encryptor {
    /// Encrypts `plaintext` for the participant `peer`, or fails if it cannot.
    fn encrypt(&self, peer: &XorName, plaintext: &Vec<u8>) -> Option<Vec<u8>>;

    /// Decrypts what the participant `peer` encrypted for us, or fails if it cannot.
    fn decrypt(&self, peer: &XorName, ciphertext: &Vec<u8>) -> Option<Vec<u8>>;

    /// The keys in use, by participant.
    fn keys_map(&self) -> Vec<(XorName, (Key, Iv))>;
}

} // verus!
