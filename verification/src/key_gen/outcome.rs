//! What a session yields.

use vstd::prelude::*;

verus! {

/// The keys that a session yields to one participant.
#[derive(Clone, Debug, PartialEq, Eq)]
pub struct Outcome {
    /// The group's public key set, encoded.
    pub public_key_set: Vec<u8>,
    /// This participant's share of the secret key, encoded.
    pub secret_key_share: Vec<u8>,
}

impl Outcome {
    /// Puts the two keys together.
    pub fn new(public_key_set: Vec<u8>, secret_key_share: Vec<u8>) -> (outcome: Outcome)
        ensures
            outcome.public_key_set == public_key_set,
            outcome.secret_key_share == secret_key_share,
    {
        Outcome { public_key_set, secret_key_share }
    }
}

} // verus!
