//! The kind of a session.

use vstd::prelude::*;

verus! {

/// What a session is held for. Every message of the session carries it.
#[derive(Clone, Copy, Debug, PartialEq, Eq, PartialOrd, Ord, Structural)]
pub enum Mode {
    /// The first keys of a group.
    Initial,
    /// New keys for a group that has keys.
    Refresh,
    /// The keys of an earlier epoch are recovered.
    Recovery(u64),
}

} // verus!
