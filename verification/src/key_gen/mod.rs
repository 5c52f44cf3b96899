//! The key generation state machine and the bookkeeping it is built from.

pub mod bytes;
pub mod complaints;
pub mod curve;
pub mod encryptor;
pub mod generator;
pub mod initialization;
pub mod laws;
pub mod message;
pub mod mode;
pub mod names;
pub mod outcome;
pub mod phase;
pub mod proposal;
pub mod roster_laws;
pub mod search;
pub mod session;
pub mod sets;
pub mod sharexorname;

pub use generator::KeyGen;
pub use message::Acknowledgment;
pub use message::Part;
pub use message::PartOutcome;
pub use phase::AcknowledgmentFault;
pub use phase::Error;
pub use phase::PartFault;
pub use phase::Phase;
