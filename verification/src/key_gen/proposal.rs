//! What a session knows of one proposer's part.

use vstd::prelude::*;
use std::collections::BTreeSet;
use crate::key_gen::bytes::copy_bytes;
use crate::key_gen::bytes::rows_of;
use crate::key_gen::curve::gave;
use crate::key_gen::curve::interpolate;
use crate::key_gen::curve::row_value;
use crate::key_gen::curve::zero_commitment_bytes;
use crate::key_gen::curve::zero_value_bytes;
use crate::key_gen::search::asc_sorted;
use crate::key_gen::search::find_asc_slot;
use crate::key_gen::search::lemma_asc_insert;
use crate::key_gen::session::ProposalView;

verus! {

/// What is known of one proposer's part: its commitment, the values of our row that
/// others have sent and that match the commitment, the encrypted values that the
/// proposer sent, and who has acknowledged the part.
#[derive(Debug, PartialEq, Eq)]
pub struct ProposalState {
    /// The proposer's commitment, encoded.
    pub commitment: Vec<u8>,
    /// The points at which a value of our row is known, in ascending order.
    pub points: Vec<u64>,
    /// The values at these points, encoded.
    pub values: Vec<Vec<u8>>,
    /// The encrypted values that the proposer sent with its own acknowledgment.
    pub enc_values: Vec<Vec<u8>>,
    /// The participants that have acknowledged the part.
    pub acks: BTreeSet<u64>,
}

impl View for ProposalState {
    type V = ProposalView;

    open spec fn view(&self) -> ProposalView {
        ProposalView {
            commitment: self.commitment@,
            points: self.points@,
            values: rows_of(self.values@),
            enc_values: rows_of(self.enc_values@),
            acks: self.acks@,
        }
    }
}

/// The encoding of the commitment to the polynomial that is zero.
pub fn zero_commitment() -> (bytes: Vec<u8>)
    ensures
        bytes@ == zero_commitment_bytes(),
{
    let mut bytes: Vec<u8> = Vec::new();
    let mut i: usize = 0;
    while i < 8
        invariant
            i <= 8,
            bytes.len() == i,
            forall|j: int| 0 <= j < i ==> bytes@[j] == 0u8,
        decreases 8 - i,
    {
        bytes.push(0u8);
        i += 1;
    }
    proof {
        assert(bytes@ =~= zero_commitment_bytes());
    }
    bytes
}

/// The encoding of the field's zero.
pub fn zero_value() -> (bytes: Vec<u8>)
    ensures
        bytes@ == zero_value_bytes(),
{
    let mut bytes: Vec<u8> = Vec::new();
    let mut i: usize = 0;
    while i < 32
        invariant
            i <= 32,
            bytes.len() == i,
            forall|j: int| 0 <= j < i ==> bytes@[j] == 0u8,
        decreases 32 - i,
    {
        bytes.push(0u8);
        i += 1;
    }
    proof {
        assert(bytes@ =~= zero_value_bytes());
    }
    bytes
}

impl ProposalState {
    /// The state's invariant: each point has its value, the points are in strictly
    /// ascending order, and those who have acknowledged can be counted.
    pub open spec fn wf(&self) -> bool {
        &&& self.points.len() == self.values.len()
        &&& asc_sorted(self.points@)
        &&& self.acks@.finite()
    }

    /// What is known of a part of which only the commitment has come.
    pub fn new(commitment: Vec<u8>) -> (state: ProposalState)
        ensures
            state@ == ProposalView::new(commitment@),
            state.wf(),
    {
        let state = ProposalState {
            commitment,
            points: Vec::new(),
            values: Vec::new(),
            enc_values: Vec::new(),
            acks: BTreeSet::new(),
        };
        proof {
            assert(state@.values =~= Seq::<Seq<u8>>::empty());
            assert(state@.enc_values =~= Seq::<Seq<u8>>::empty());
        }
        state
    }

    /// Whether more participants than `threshold` have acknowledged the part.
    pub fn is_complete(&self, threshold: usize) -> (complete: bool)
        ensures
            complete == self@.is_complete(threshold),
    {
        self.acks.len() > threshold
    }

    /// Takes note of the value at `point`. It replaces the value known at the point, if
    /// one is.
    pub fn insert_value(&mut self, point: u64, value: Vec<u8>)
        requires
            old(self).wf(),
        ensures
            final(self).wf(),
            final(self)@ == old(self)@.with_value(point, value@),
    {
        let p = find_asc_slot(&self.points, point);
        proof {
            lemma_asc_insert(self.points@, point);
        }
        if p < self.points.len() && self.points[p] == point {
            self.values[p] = value;
            proof {
                assert(self@.values =~= old(self)@.values.update(p as int, value@));
            }
        } else {
            self.points.insert(p, point);
            self.values.insert(p, value);
            proof {
                assert(self@.values =~= old(self)@.values.insert(p as int, value@));
            }
        }
    }

    /// The part's contribution to our share of the secret key: the value at zero of the
    /// polynomial through the first values known, one more than `threshold` of them or
    /// all. It is an error if the curve does not yield it.
    pub fn secret(&self, threshold: usize) -> (value: Result<Vec<u8>, Box<bincode::ErrorKind>>)
        requires
            self.wf(),
        ensures
            gave(value, self@.secret(threshold)),
    {
        let count = if threshold < self.points.len() {
            threshold + 1
        } else {
            self.points.len()
        };
        let mut xs: Vec<u64> = Vec::new();
        let mut ys: Vec<Vec<u8>> = Vec::new();
        let mut i: usize = 0;
        while i < count
            invariant
                i <= count <= self.points.len(),
                self.points.len() == self.values.len(),
                xs@ == self.points@.take(i as int),
                ys.len() == i,
                forall|j: int| 0 <= j < i ==> ys@[j]@ == self.values@[j]@,
            decreases count - i,
        {
            xs.push(self.points[i]);
            ys.push(copy_bytes(&self.values[i]));
            proof {
                assert(self.points@.take(i + 1) == self.points@.take(i as int).push(
                    self.points@[i as int],
                ));
            }
            i += 1;
        }
        proof {
            assert(rows_of(ys@) =~= self@.values.take(count as int));
            assert forall|i: int, j: int|
                0 <= i < xs@.len() && 0 <= j < xs@.len() && i != j implies xs@[i] != xs@[j] by {
                if i < j {
                    assert(self.points@[i] < self.points@[j]);
                } else {
                    assert(self.points@[j] < self.points@[i]);
                }
            }
        }
        match interpolate(&xs, &ys) {
            Ok(row) => row_value(&row, 0),
            Err(error) => Err(error),
        }
    }
}

} // verus!
