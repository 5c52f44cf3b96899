//! The phases of a session, and what can be wrong with a message.

use vstd::prelude::*;
use std::collections::BTreeSet;

verus! {

/// The phases that a session goes through. It starts in `Initialization` and ends in
/// `Finalization`.
#[derive(Clone, Copy, Debug, PartialEq, Eq, Structural)]
pub enum Phase {
    /// The participants announce what they take the session to be.
    Initialization,
    /// The participants send out their proposals and acknowledge those of the others.
    Contribution,
    /// The participants complain about those whose messages were faulty or missing.
    Complaining,
    /// Set aside for accused participants to justify themselves.
    Justification,
    /// A second round of proposals and acknowledgments, after a round that ended in
    /// complaints.
    Commitment,
    /// The keys can be generated.
    Finalization,
}

/// What can be wrong with an `Acknowledgment`.
#[derive(Clone, Copy, Debug, PartialEq, Eq, PartialOrd, Ord, Structural)]
pub enum AcknowledgmentFault {
    /// The number of values differs from the number of participants.
    ValueCount,
    /// No proposal was received to which the acknowledgment could belong.
    MissingPart,
    /// The value could not be decrypted.
    DecryptValue,
    /// The value could not be decoded.
    DeserializeValue,
    /// The value does not match the proposal's commitment.
    ValueAcknowledgment,
}

/// What can be wrong with a `Part`.
#[derive(Clone, Copy, Debug, PartialEq, Eq, PartialOrd, Ord, Structural)]
pub enum PartFault {
    /// The number of rows differs from the number of participants.
    RowCount,
    /// The same sender sent a part with another commitment before.
    MultipleParts,
    /// Our row could not be decrypted.
    DecryptRow,
    /// Our row could not be decoded.
    DeserializeRow,
    /// Our row does not match the commitment.
    RowAcknowledgment,
}

/// A local error while handling a message, which the message itself did not cause by being
/// faulty.
#[derive(Clone, Debug, PartialEq, Eq)]
pub enum Error {
    /// What was asked for cannot be done in the state the session is in.
    Unknown,
    /// The sender is no participant.
    UnknownSender,
    /// A value could not be encoded or decoded.
    Serialization(String),
    /// The network failed.
    QuicP2P(String),
    /// A message could not be encrypted.
    Encryption,
    /// The complaining phase could not be closed: too many participants are faulty. The
    /// error carries their indices.
    TooManyNonVoters(BTreeSet<u64>),
    /// The session is not in the phase that the request belongs to.
    UnexpectedPhase { expected: Phase, actual: Phase },
}

/// `format!` with two places: the two texts one after the other.
#[verifier::external_body]
fn joined(head: &str, tail: &String) -> (text: String)
    ensures
        text@ == head@ + tail@,
{
    format!("{}{}", head, tail)
}

impl Error {
    /// What the error is, in words.
    pub open spec fn words(self) -> Seq<char> {
        match self {
            Error::Unknown => "Unknown"@,
            Error::UnknownSender => "Unknown sender"@,
            Error::Serialization(text) => "Serialization error: "@ + text@,
            Error::QuicP2P(text) => "QuicP2P error: "@ + text@,
            Error::Encryption => "Encryption error"@,
            Error::TooManyNonVoters(_) => "Too many non-voters error"@,
            Error::UnexpectedPhase { .. } => "Unexpected phase"@,
        }
    }

    /// The error for a value that could not be encoded or decoded, with the words that say
    /// why.
    pub fn serialization(text: String) -> (made: Error)
        ensures
            made == Error::Serialization(text),
    {
        Error::Serialization(text)
    }

    /// What the error is, in words.
    pub fn message(&self) -> (text: String)
        ensures
            text@ == self.words(),
    {
        match self {
            Error::Unknown => "Unknown".to_string(),
            Error::UnknownSender => "Unknown sender".to_string(),
            Error::Serialization(text) => joined("Serialization error: ", text),
            Error::QuicP2P(text) => joined("QuicP2P error: ", text),
            Error::Encryption => "Encryption error".to_string(),
            Error::TooManyNonVoters(_) => "Too many non-voters error".to_string(),
            Error::UnexpectedPhase { .. } => "Unexpected phase".to_string(),
        }
    }
}

impl AcknowledgmentFault {
    /// What the fault is, in words.
    pub fn message(&self) -> (text: String)
        ensures
            text@ == match *self {
                AcknowledgmentFault::ValueCount =>
                    "The number of values differs from the number of nodes"@,
                AcknowledgmentFault::MissingPart => "No corresponding Part received"@,
                AcknowledgmentFault::DecryptValue => "Value decryption failed"@,
                AcknowledgmentFault::DeserializeValue => "Value deserialization failed"@,
                AcknowledgmentFault::ValueAcknowledgment => "Value doesn't match the ack"@,
            },
    {
        match self {
            AcknowledgmentFault::ValueCount =>
                "The number of values differs from the number of nodes".to_string(),
            AcknowledgmentFault::MissingPart => "No corresponding Part received".to_string(),
            AcknowledgmentFault::DecryptValue => "Value decryption failed".to_string(),
            AcknowledgmentFault::DeserializeValue => "Value deserialization failed".to_string(),
            AcknowledgmentFault::ValueAcknowledgment => "Value doesn't match the ack".to_string(),
        }
    }
}

impl PartFault {
    /// What the fault is, in words.
    pub fn message(&self) -> (text: String)
        ensures
            text@ == match *self {
                PartFault::RowCount => "The number of rows differs from the number of nodes"@,
                PartFault::MultipleParts =>
                    "Received multiple different Part messages from the same sender"@,
                PartFault::DecryptRow => "Could not decrypt our row in the Part message"@,
                PartFault::DeserializeRow =>
                    "Could not deserialize our row in the Part message"@,
                PartFault::RowAcknowledgment => "Row does not match the ack"@,
            },
    {
        match self {
            PartFault::RowCount =>
                "The number of rows differs from the number of nodes".to_string(),
            PartFault::MultipleParts =>
                "Received multiple different Part messages from the same sender".to_string(),
            PartFault::DecryptRow => "Could not decrypt our row in the Part message".to_string(),
            PartFault::DeserializeRow =>
                "Could not deserialize our row in the Part message".to_string(),
            PartFault::RowAcknowledgment => "Row does not match the ack".to_string(),
        }
    }
}

} // verus!
