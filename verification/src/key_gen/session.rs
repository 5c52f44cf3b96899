//! The session as a state machine over mathematical values.
//!
//! What a session holds is a `Session`; each request to the session is a function from the
//! session before the request to the session after it. These functions say what the
//! requests do; the session's executable code is proved to do the same.

use vstd::prelude::*;
use xor_name::XorName;
use crate::key_gen::complaints::Complaints;
use crate::key_gen::curve::commitment_degree_of;
use crate::key_gen::curve::commitment_row_of;
use crate::key_gen::curve::commitment_sum_of;
use crate::key_gen::curve::commitment_value_of;
use crate::key_gen::curve::interpolation_of;
use crate::key_gen::curve::row_commitment_of;
use crate::key_gen::curve::row_value_of;
use crate::key_gen::curve::value_commitment_of;
use crate::key_gen::curve::value_sum_of;
use crate::key_gen::curve::zero_commitment_bytes;
use crate::key_gen::curve::zero_value_bytes;
use crate::key_gen::initialization::Announcements;
use crate::key_gen::message::written_acknowledgment_message;
use crate::key_gen::message::written_proposal;
use crate::key_gen::message::AcknowledgmentView;
use crate::key_gen::message::MessageView;
use crate::key_gen::message::PartView;
use crate::key_gen::mode::Mode;
use crate::key_gen::names::names_sorted;
use crate::key_gen::phase::AcknowledgmentFault;
use crate::key_gen::phase::Error;
use crate::key_gen::phase::PartFault;
use crate::key_gen::phase::Phase;
use crate::key_gen::search::asc_slot;
use crate::key_gen::search::first_index;
use crate::key_gen::sets::chosen;
use crate::key_gen::sets::lemma_chosen;
use crate::key_gen::sets::name_set;
use crate::key_gen::sharexorname::Roster;

verus! {

/// What is known of one proposer's part, as mathematical values.
pub struct ProposalView {
    /// The proposer's commitment, encoded.
    pub commitment: Seq<u8>,
    /// The points at which a value of our row is known and was found to match the
    /// commitment, in ascending order.
    pub points: Seq<u64>,
    /// The values at these points, encoded.
    pub values: Seq<Seq<u8>>,
    /// The encrypted values that the proposer sent with its own acknowledgment.
    pub enc_values: Seq<Seq<u8>>,
    /// The participants that have acknowledged the part.
    pub acks: Set<u64>,
}

impl ProposalView {
    /// What is known of a part of which only the commitment has come.
    pub open spec fn new(commitment: Seq<u8>) -> ProposalView {
        ProposalView {
            commitment,
            points: Seq::empty(),
            values: Seq::empty(),
            enc_values: Seq::empty(),
            acks: Set::empty(),
        }
    }

    /// A part is complete when more participants than the threshold have acknowledged it.
    pub open spec fn is_complete(self, threshold: usize) -> bool {
        self.acks.len() > threshold
    }

    /// The part with the value at `point` known: it replaces the value that was known at
    /// the point, if one was.
    pub open spec fn with_value(self, point: u64, value: Seq<u8>) -> ProposalView {
        let p = asc_slot(self.points, point);
        if p < self.points.len() && self.points[p] == point {
            ProposalView { values: self.values.update(p, value), ..self }
        } else {
            ProposalView {
                points: self.points.insert(p, point),
                values: self.values.insert(p, value),
                ..self
            }
        }
    }

    /// How many of the known values go into our share of the key: one more than the
    /// threshold, or all if there are fewer.
    pub open spec fn sample_count(self, threshold: usize) -> int {
        if threshold < self.points.len() {
            threshold + 1
        } else {
            self.points.len() as int
        }
    }

    /// The part's contribution to our share of the secret key: the value at zero of the
    /// polynomial through the first known values.
    pub open spec fn secret(self, threshold: usize) -> Option<Seq<u8>> {
        let count = self.sample_count(threshold);
        match interpolation_of(self.points.take(count), self.values.take(count)) {
            Some(row) => row_value_of(row, 0),
            None => None,
        }
    }
}

/// The complaint of a participant that did not contribute.
pub open spec fn not_contributed() -> Seq<u8> {
    seq![
        78u8, 111u8, 116u8, 32u8, 99u8, 111u8, 110u8, 116u8, 114u8, 105u8, 98u8, 117u8, 116u8,
        101u8, 100u8,
    ]
}

/// What is wrong with a row that we were sent, if anything is, where `commitment` is the
/// row of the proposer's commitment that belongs to us and `ours` is the commitment to the
/// row that we were sent, each as far as the curve yields it. Without the first, and where
/// the two differ, the row does not match; without the second, the row is not one.
pub open spec fn row_fault(commitment: Option<Seq<u8>>, ours: Option<Seq<u8>>) -> Option<
    PartFault,
> {
    match (commitment, ours) {
        (None, _) => Some(PartFault::RowAcknowledgment),
        (Some(_), None) => Some(PartFault::DeserializeRow),
        (Some(commitment), Some(ours)) => if ours != commitment {
            Some(PartFault::RowAcknowledgment)
        } else {
            None
        },
    }
}

/// What is wrong with a value that we were sent, if anything is, where `point` is the
/// generator multiplied by the value and `expected` is the value of the proposer's
/// commitment at the sender's point and ours, each as far as the curve yields it. Without
/// the first, the value is not one; where the second is not the first, the value does not
/// match.
pub open spec fn value_fault(point: Option<Seq<u8>>, expected: Option<Seq<u8>>) -> Option<
    AcknowledgmentFault,
> {
    match point {
        None => Some(AcknowledgmentFault::DeserializeValue),
        Some(_) => if expected != point {
            Some(AcknowledgmentFault::ValueAcknowledgment)
        } else {
            None
        },
    }
}

/// What a session holds, as mathematical values.
pub struct Session {
    /// Our name.
    pub our_id: XorName,
    /// Our index: the position of our name among the participants.
    pub our_index: u64,
    /// The participants, as a set of names.
    pub pub_keys: Seq<XorName>,
    /// The threshold: the degree of the polynomials.
    pub threshold: usize,
    /// The phase that the session is in.
    pub phase: Phase,
    /// Our roster, which every message of ours carries.
    pub context: Roster,
    /// The kind of the session.
    pub mode: Mode,
    /// The proposers of which a part is known, in ascending order.
    pub proposers: Seq<u64>,
    /// What is known of their parts, in the same order.
    pub parts: Seq<ProposalView>,
    /// The announcements counted.
    pub announcements: Announcements,
    /// The complaints counted.
    pub complaints: Complaints,
    /// The complaints of ours that wait for the contribution phase to be closed.
    pub pending: Seq<MessageView>,
}

impl Session {
    /// The number of participants.
    pub open spec fn n(self) -> int {
        self.pub_keys.len() as int
    }

    /// Whether the session takes proposals and acknowledgments.
    pub open spec fn contributing(self) -> bool {
        self.phase == Phase::Contribution || self.phase == Phase::Commitment
    }

    /// Whether a part of `proposer` is known.
    pub open spec fn has_part(self, proposer: u64) -> bool {
        let p = asc_slot(self.proposers, proposer);
        p < self.proposers.len() && self.proposers[p] == proposer
    }

    /// What is known of the part of `proposer`.
    pub open spec fn part_of(self, proposer: u64) -> ProposalView {
        self.parts[asc_slot(self.proposers, proposer)]
    }

    /// The session with a part of `proposer` known of which only the commitment has come.
    pub open spec fn with_part(self, proposer: u64, commitment: Seq<u8>) -> Session {
        let p = asc_slot(self.proposers, proposer);
        Session {
            proposers: self.proposers.insert(p, proposer),
            parts: self.parts.insert(p, ProposalView::new(commitment)),
            ..self
        }
    }

    /// The session with `part` in the place of what was known of the part of `proposer`.
    pub open spec fn with_part_as(self, proposer: u64, part: ProposalView) -> Session {
        Session { parts: self.parts.update(asc_slot(self.proposers, proposer), part), ..self }
    }

    /// Our complaint about the participant `target`, with what we complain of.
    pub open spec fn complaint(self, target: u64, msg: Seq<u8>) -> MessageView {
        MessageView::Complaint { key_gen_id: self.our_index, target, context: self.context, msg }
    }

    /// The session with one more complaint waiting.
    pub open spec fn with_pending(self, complaint: MessageView) -> Session {
        Session { pending: self.pending.push(complaint), ..self }
    }

    /// The error for a request that does not belong to the session's phase.
    pub open spec fn unexpected(self, expected: Phase) -> Error {
        Error::UnexpectedPhase { expected, actual: self.phase }
    }

    /// What is wrong with the part that `sender` proposes, if anything is. A part that is
    /// not for us, or that is known, has no fault.
    pub open spec fn part_fault(self, sender: u64, part: PartView) -> Option<PartFault> {
        if part.enc_rows.len() != self.n() {
            Some(PartFault::RowCount)
        } else if part.receiver != self.our_index {
            None
        } else if self.has_part(sender) {
            if self.part_of(sender).commitment != part.commitment {
                Some(PartFault::MultipleParts)
            } else {
                None
            }
        } else {
            row_fault(
                commitment_row_of(part.commitment, (self.our_index + 1) as u64),
                row_commitment_of(part.ser_row),
            )
        }
    }

    /// Whether the part that `sender` proposes is taken note of: it has the right number
    /// of rows, is for us, is the first of its sender, and its commitment has a row for
    /// us.
    pub open spec fn part_kept(self, sender: u64, part: PartView) -> bool {
        &&& part.enc_rows.len() == self.n()
        &&& part.receiver == self.our_index
        &&& !self.has_part(sender)
        &&& commitment_row_of(part.commitment, (self.our_index + 1) as u64).is_some()
    }

    /// Whether the part that `sender` proposes is acknowledged: it is taken note of and has
    /// no fault.
    pub open spec fn part_acknowledged(self, sender: u64, part: PartView) -> bool {
        self.part_kept(sender, part) && self.part_fault(sender, part).is_none()
    }

    /// The session after `sender` has proposed `part` in a message with the roster
    /// `context`. Outside the phases that take proposals nothing changes. Otherwise the part
    /// is taken note of if it is to be, and a complaint about the sender, which holds the
    /// message as it is written, waits if the part has a fault.
    pub open spec fn after_proposal(self, sender: u64, context: Roster, part: PartView) -> Session {
        if !self.contributing() {
            self
        } else {
            let kept = if self.part_kept(sender, part) {
                self.with_part(sender, part.commitment)
            } else {
                self
            };
            if self.part_fault(sender, part).is_some() {
                kept.with_pending(
                    self.complaint(sender, written_proposal(sender, context, part)),
                )
            } else {
                kept
            }
        }
    }

    /// Whether the acknowledgment that `sender` sends is counted: it has the right number
    /// of values, is for us, belongs to a known part, and is the first of its sender for
    /// that part.
    pub open spec fn ack_counted(self, sender: u64, ack: AcknowledgmentView) -> bool {
        &&& ack.enc_values.len() == self.n()
        &&& ack.receiver == self.our_index
        &&& self.has_part(ack.proposer)
        &&& !self.part_of(ack.proposer).acks.contains(sender)
    }

    /// Whether the value in the acknowledgment that `sender` sends matches the commitment
    /// of the part that it belongs to.
    pub open spec fn ack_verified(self, sender: u64, ack: AcknowledgmentView) -> bool {
        self.ack_value_fault(sender, ack).is_none()
    }

    /// What is wrong with the value in the acknowledgment that `sender` sends, if anything
    /// is. The sender's point is its index and one; the sender with the greatest index that
    /// there is has no point, and the commitment no value for it.
    pub open spec fn ack_value_fault(self, sender: u64, ack: AcknowledgmentView) -> Option<
        AcknowledgmentFault,
    > {
        value_fault(
            value_commitment_of(ack.ser_value),
            if sender < u64::MAX {
                commitment_value_of(
                    self.part_of(ack.proposer).commitment,
                    (self.our_index + 1) as u64,
                    (sender + 1) as u64,
                )
            } else {
                None
            },
        )
    }

    /// What is wrong with the acknowledgment that `sender` sends, if anything is. An
    /// acknowledgment that is not for us, or that was counted before, has no fault.
    pub open spec fn ack_fault(self, sender: u64, ack: AcknowledgmentView) -> Option<
        AcknowledgmentFault,
    > {
        if ack.enc_values.len() != self.n() {
            Some(AcknowledgmentFault::ValueCount)
        } else if ack.receiver != self.our_index {
            None
        } else if !self.has_part(ack.proposer) {
            Some(AcknowledgmentFault::MissingPart)
        } else if self.part_of(ack.proposer).acks.contains(sender) {
            None
        } else if self.ack_value_fault(sender, ack).is_some() {
            self.ack_value_fault(sender, ack)
        } else if !self.has_part(sender) {
            Some(AcknowledgmentFault::MissingPart)
        } else {
            None
        }
    }

    /// The session after the acknowledgment that `sender` sends has been looked at, before
    /// anything follows from it: if it is counted, the sender is among those who have
    /// acknowledged the part; if its value matches too, the value is known at the sender's
    /// point, and the encrypted values are kept with the sender's own part, if that is
    /// known.
    pub open spec fn with_ack(self, sender: u64, ack: AcknowledgmentView) -> Session {
        if !self.ack_counted(sender, ack) {
            self
        } else {
            let part = self.part_of(ack.proposer);
            let counted = ProposalView { acks: part.acks.insert(sender), ..part };
            if !self.ack_verified(sender, ack) {
                self.with_part_as(ack.proposer, counted)
            } else {
                let valued = self.with_part_as(
                    ack.proposer,
                    counted.with_value((sender + 1) as u64, ack.ser_value),
                );
                if self.has_part(sender) {
                    valued.with_part_as(
                        sender,
                        ProposalView { enc_values: ack.enc_values, ..valued.part_of(sender) },
                    )
                } else {
                    valued
                }
            }
        }
    }

    /// Whether every participant's part is known and acknowledged by every participant.
    pub open spec fn all_received(self) -> bool {
        &&& self.n() == self.parts.len()
        &&& forall|i: int| 0 <= i < self.parts.len() ==> (#[trigger] self.parts[i]).acks.len()
            == self.n()
    }

    /// How many of the first `upto` known parts are complete.
    pub open spec fn complete_upto(self, upto: int) -> int
        decreases upto,
    {
        if upto <= 0 {
            0
        } else {
            self.complete_upto(upto - 1) + if self.parts[upto - 1].is_complete(self.threshold) {
                1int
            } else {
                0int
            }
        }
    }

    /// How many of the known parts are complete.
    pub open spec fn complete_parts_count(self) -> int {
        self.complete_upto(self.parts.len() as int)
    }

    /// Whether enough parts are complete for the keys to be generated.
    pub open spec fn is_ready(self) -> bool {
        self.complete_parts_count() >= self.threshold
    }

    /// Whether the participant with the index `k` has not contributed: no part of it is
    /// known, or it has not acknowledged its own part and the participants are fewer than
    /// two.
    pub open spec fn non_contributor(self, k: u64) -> bool {
        !self.has_part(k) || (!self.part_of(k).acks.contains(k) && 1 > self.n() / 2)
    }

    /// Our complaints about those of the first `upto` participants that have not
    /// contributed.
    pub open spec fn absent_upto(self, upto: int) -> Seq<MessageView>
        decreases upto,
    {
        if upto <= 0 {
            Seq::empty()
        } else if self.non_contributor((upto - 1) as u64) {
            self.absent_upto(upto - 1).push(self.complaint((upto - 1) as u64, not_contributed()))
        } else {
            self.absent_upto(upto - 1)
        }
    }

    /// The complaints that we send when the contribution phase is closed: those that wait,
    /// and one about every participant that has not contributed.
    pub open spec fn closing_complaints(self) -> Seq<MessageView> {
        self.pending + self.absent_upto(self.n())
    }

    /// The session after the contribution phase has been closed: no complaint waits. The
    /// session is final if we have no complaint and enough parts are complete; otherwise
    /// the participants complain.
    pub open spec fn after_contributing(self) -> Session {
        Session {
            phase: if self.closing_complaints().len() == 0 && self.is_ready() {
                Phase::Finalization
            } else {
                Phase::Complaining
            },
            pending: Seq::empty(),
            ..self
        }
    }

    /// Whether the acknowledgment that `sender` sends closes the contribution phase: it has
    /// no fault, and with it all is received in the first round.
    pub open spec fn ack_closes(self, sender: u64, ack: AcknowledgmentView) -> bool {
        &&& self.phase == Phase::Contribution
        &&& self.ack_fault(sender, ack).is_none()
        &&& self.with_ack(sender, ack).all_received()
    }

    /// The session after `sender` has sent the acknowledgment `ack` in a message with the
    /// roster `context`. Outside the phases that take acknowledgments nothing changes. If
    /// the acknowledgment has a fault, a complaint about the sender, which holds the message
    /// as it is written, waits. If it has none and all is received, the second
    /// round ends as final, and the first round is closed.
    pub open spec fn after_ack(self, sender: u64, context: Roster, ack: AcknowledgmentView)
        -> Session {
        if !self.contributing() {
            self
        } else {
            let noted = self.with_ack(sender, ack);
            if self.ack_fault(sender, ack).is_some() {
                noted.with_pending(
                    self.complaint(
                        sender,
                        written_acknowledgment_message(sender, context, ack),
                    ),
                )
            } else if !noted.all_received() {
                noted
            } else if self.phase == Phase::Commitment {
                Session { phase: Phase::Finalization, ..noted }
            } else {
                noted.after_contributing()
            }
        }
    }

    /// The session after the participant with the index `sender` has complained about the
    /// one with the index `target`: the complaint is counted if the session is in the
    /// complaining phase and both are participants.
    pub open spec fn after_complaint(self, sender: u64, target: u64) -> Session {
        if self.phase == Phase::Complaining && sender < self.n() && target < self.n() {
            Session {
                complaints: self.complaints.after(
                    self.pub_keys[sender as int],
                    self.pub_keys[target as int],
                ),
                ..self
            }
        } else {
            self
        }
    }

    /// What the session answers to a complaint of the participant with the index `sender`
    /// about the one with the index `target`, where it is an error.
    pub open spec fn complaint_error(self, sender: u64, target: u64) -> Option<Error> {
        if self.phase != Phase::Complaining {
            Some(self.unexpected(Phase::Complaining))
        } else if sender >= self.n() {
            Some(Error::UnknownSender)
        } else if target >= self.n() {
            Some(Error::Unknown)
        } else {
            None
        }
    }

    /// The participants that are taken for faulty when the complaining phase is closed.
    pub open spec fn failings(self) -> Seq<XorName> {
        self.complaints.failings()
    }

    /// Whether so many participants are taken for faulty that the session cannot go on: as
    /// many as, or more than, the number of participants less the threshold.
    pub open spec fn too_many_failings(self) -> bool {
        self.failings().len() >= self.n() - self.threshold
    }

    /// The indices of those of the first `upto` participants that are taken for faulty.
    pub open spec fn failing_below(self, upto: int) -> Set<u64> {
        Set::new(|k: u64| k < upto && self.failings().contains(self.pub_keys[k as int]))
    }

    /// The indices of the participants that are taken for faulty.
    pub open spec fn failing_indices(self) -> Set<u64> {
        self.failing_below(self.n())
    }

    /// Those of the first `upto` participants that are not taken for faulty.
    pub open spec fn remaining_upto(self, upto: int) -> Seq<XorName> {
        chosen(self.pub_keys, |name: XorName| !self.failings().contains(name), upto)
    }

    /// The participants that are not taken for faulty.
    pub open spec fn remaining(self) -> Seq<XorName> {
        self.remaining_upto(self.n())
    }

    /// **Who stays for the second round.** The participants that are not taken for faulty
    /// are a set of names: the participants but for those taken for faulty.
    pub proof fn lemma_remaining(self)
        requires
            names_sorted(self.pub_keys),
        ensures
            names_sorted(self.remaining()),
            self.remaining().len() <= self.pub_keys.len(),
            forall|name: XorName| #[trigger]
                self.remaining().contains(name) <==> !self.failings().contains(name)
                    && self.pub_keys.contains(name),
    {
        lemma_chosen(self.pub_keys, |name: XorName| !self.failings().contains(name), self.n());
        assert(self.pub_keys.take(self.n()) == self.pub_keys);
    }

    /// The session at the start of the second round: no part is known.
    pub open spec fn restarted(self) -> Session {
        Session {
            phase: Phase::Commitment,
            proposers: Seq::empty(),
            parts: Seq::empty(),
            ..self
        }
    }

    /// Whether closing the complaining phase has us justify ourselves: the faulty
    /// participants are not too many, and we are one of them.
    pub open spec fn justifies(self) -> bool {
        !self.too_many_failings() && self.failings().contains(self.our_id)
    }

    /// Whether `out` is our justification, and nothing else: one message, with our index
    /// and our roster. The keys in it are the encryptor's.
    pub open spec fn justifying(self, out: Seq<MessageView>) -> bool {
        &&& out.len() == 1
        &&& out[0] matches MessageView::Justification { key_gen_id, context, .. }
        &&& key_gen_id == self.our_index
        &&& context == self.context
    }

    /// The session after the complaining phase has been closed. With too many faulty
    /// participants nothing changes. Otherwise the faulty participants are none any more;
    /// if there were any, a second round starts without them. If we are not among those who
    /// are left, because we are faulty or were no participant, no round starts for us:
    /// our index, the phase and the parts stay as they were. If nobody was faulty, the
    /// session is final if enough parts are complete, and starts a second round if not.
    pub open spec fn after_complaining(self) -> Session {
        if self.too_many_failings() {
            self
        } else if self.failings().len() > 0 {
            let left = Session { pub_keys: self.remaining(), ..self };
            let index = first_index(left.pub_keys, self.our_id);
            if index < left.pub_keys.len() {
                Session { our_index: index as u64, ..left }.restarted()
            } else {
                left
            }
        } else if self.is_ready() {
            Session { phase: Phase::Finalization, ..self }
        } else {
            self.restarted()
        }
    }

    /// Whether closing the complaining phase starts a second round.
    pub open spec fn restarts(self) -> bool {
        &&& !self.too_many_failings()
        &&& if self.failings().len() > 0 {
            self.remaining().contains(self.our_id)
        } else {
            !self.is_ready()
        }
    }

    /// The session after `sender` has announced the threshold `m`, the number `n` and the
    /// participants `members`. Outside the first phase nothing changes. Otherwise the
    /// announcement is counted; if `m` senders have now announced the same, it is what the
    /// session is, and the contribution phase starts.
    pub open spec fn after_initialization(
        self,
        m: usize,
        n: usize,
        sender: u64,
        members: Seq<XorName>,
    ) -> Session {
        if self.phase != Phase::Initialization {
            self
        } else {
            let counted = Session {
                announcements: self.announcements.after(m, n, sender, members),
                ..self
            };
            if self.announcements.agrees(m, n, sender, members) {
                Session {
                    threshold: m,
                    pub_keys: name_set(members),
                    phase: Phase::Contribution,
                    ..counted
                }
            } else {
                counted
            }
        }
    }

    /// Whether the announcement starts the contribution phase.
    pub open spec fn starts(self, m: usize, n: usize, sender: u64, members: Seq<XorName>) -> bool {
        self.phase == Phase::Initialization && self.announcements.agrees(m, n, sender, members)
    }

    /// The session after the owner's timer has run out: the contribution phase and the
    /// complaining phase are closed, and nothing changes in the other phases.
    pub open spec fn after_timer(self) -> Session {
        match self.phase {
            Phase::Contribution => self.after_contributing(),
            Phase::Complaining => self.after_complaining(),
            _ => self,
        }
    }

    /// Whether the session takes no message of the roster `context`: it is of another
    /// epoch.
    pub open spec fn foreign(self, context: Roster) -> bool {
        context.epoch != self.context.epoch
    }

    /// The session after the message has been handled. A message of another epoch changes
    /// nothing.
    pub open spec fn after_message(self, message: MessageView) -> Session {
        if self.foreign(message.context()) {
            self
        } else {
            match message {
                MessageView::Initialization { key_gen_id, m, n, member_list, .. } => {
                    self.after_initialization(m, n, key_gen_id, member_list)
                },
                MessageView::Proposal { key_gen_id, context, part } => self.after_proposal(
                    key_gen_id,
                    context,
                    part,
                ),
                MessageView::Complaint { key_gen_id, target, .. } => self.after_complaint(
                    key_gen_id,
                    target,
                ),
                MessageView::Justification { .. } => self,
                MessageView::Acknowledgment { key_gen_id, context, ack } => self.after_ack(
                    key_gen_id,
                    context,
                    ack,
                ),
            }
        }
    }

    /// The phase that a message of this kind is first of all for.
    pub open spec fn phase_for(message: MessageView) -> Phase {
        match message {
            MessageView::Initialization { .. } => Phase::Initialization,
            MessageView::Complaint { .. } => Phase::Complaining,
            MessageView::Justification { .. } => Phase::Justification,
            _ => Phase::Contribution,
        }
    }

    /// Whether the session's phase takes a message of this kind.
    pub open spec fn takes(self, message: MessageView) -> bool {
        match message {
            MessageView::Initialization { .. } => self.phase == Phase::Initialization,
            MessageView::Complaint { .. } => self.phase == Phase::Complaining,
            MessageView::Justification { .. } => self.phase == Phase::Justification,
            _ => self.contributing(),
        }
    }

    /// The error with which the session turns the message away before it looks at what the
    /// message holds, if it does: the message is of another epoch, or does not belong to
    /// the session's phase.
    pub open spec fn refusal(self, message: MessageView) -> Option<Error> {
        if self.foreign(message.context()) {
            Some(Error::Unknown)
        } else if !self.takes(message) {
            Some(self.unexpected(Session::phase_for(message)))
        } else {
            None
        }
    }

    /// The proposals of ours with the commitment, the rows and the encrypted rows given:
    /// one for each row, to the participant with the row's index.
    pub open spec fn proposals(
        self,
        commitment: Seq<u8>,
        rows: Seq<Seq<u8>>,
        enc_rows: Seq<Seq<u8>>,
    ) -> Seq<MessageView> {
        Seq::new(
            rows.len(),
            |k: int|
                MessageView::Proposal {
                    key_gen_id: self.our_index,
                    context: self.context,
                    part: PartView {
                        receiver: k as u64,
                        commitment,
                        ser_row: rows[k],
                        enc_rows,
                    },
                },
        )
    }

    /// Whether `rows` holds, for each participant, the row of the polynomial that
    /// `commitment` commits to: the row at the participant's index and one, as the
    /// participant will find it to match the commitment.
    pub open spec fn rows_of_commitment(self, commitment: Seq<u8>, rows: Seq<Seq<u8>>) -> bool {
        &&& rows.len() == self.n()
        &&& forall|k: int|
            0 <= k < rows.len() ==> row_fault(
                commitment_row_of(commitment, (k + 1) as u64),
                row_commitment_of(#[trigger] rows[k]),
            ).is_none()
    }

    /// Whether `out` is what we send to propose: one proposal to each participant, all
    /// with one commitment, which is of the threshold's degree, and the same encrypted
    /// rows, one for each participant; the row in the proposal to a participant is the
    /// row of the commitment for that participant.
    pub open spec fn proposing(self, out: Seq<MessageView>) -> bool {
        exists|commitment: Seq<u8>, rows: Seq<Seq<u8>>, enc_rows: Seq<Seq<u8>>|
            commitment_degree_of(commitment) == Some(self.threshold) && self.rows_of_commitment(
                commitment,
                rows,
            ) && enc_rows.len() == self.n() && out == #[trigger] self.proposals(
                commitment,
                rows,
                enc_rows,
            )
    }

    /// Our acknowledgments of the part of `proposer` with the values and the encrypted
    /// values given: one for each value, to the participant with the value's index.
    pub open spec fn acknowledgments(
        self,
        proposer: u64,
        values: Seq<Seq<u8>>,
        enc_values: Seq<Seq<u8>>,
    ) -> Seq<MessageView> {
        Seq::new(
            values.len(),
            |k: int|
                MessageView::Acknowledgment {
                    key_gen_id: self.our_index,
                    context: self.context,
                    ack: AcknowledgmentView {
                        proposer,
                        receiver: k as u64,
                        ser_value: values[k],
                        enc_values,
                    },
                },
        )
    }

    /// Whether `values` holds the value of the encoded polynomial `row` for each
    /// participant: at the participant's index and one.
    pub open spec fn values_of(self, row: Seq<u8>, values: Seq<Seq<u8>>) -> bool {
        &&& values.len() == self.n()
        &&& forall|k: int|
            0 <= k < values.len() ==> row_value_of(row, (k + 1) as u64) == Some(
                #[trigger] values[k],
            )
    }

    /// Whether the curve does not yield the value of the encoded polynomial `row` for one
    /// of the participants.
    pub open spec fn lacks_value(self, row: Seq<u8>) -> bool {
        exists|k: int|
            0 <= k < self.n() && (#[trigger] row_value_of(row, (k + 1) as u64)).is_none()
    }

    /// Whether `out` is what we send to acknowledge the part of `proposer` with our row
    /// `row`: one acknowledgment to each participant, with the value of the row for that
    /// participant, all with the same encrypted values, one for each participant.
    pub open spec fn acknowledging(self, proposer: u64, row: Seq<u8>, out: Seq<MessageView>)
        -> bool {
        exists|values: Seq<Seq<u8>>, enc_values: Seq<Seq<u8>>|
            self.values_of(row, values) && enc_values.len() == self.n() && out == #[trigger]
            self.acknowledgments(proposer, values, enc_values)
    }

    /// The sum of the rows at zero of the commitments of those of the first `upto` known
    /// parts that are complete, encoded: the commitment to the group's key, as far as
    /// these parts go.
    pub open spec fn public_key_upto(self, upto: int) -> Option<Seq<u8>>
        decreases upto,
    {
        if upto <= 0 {
            Some(zero_commitment_bytes())
        } else if !self.parts[upto - 1].is_complete(self.threshold) {
            self.public_key_upto(upto - 1)
        } else {
            match (
                self.public_key_upto(upto - 1),
                commitment_row_of(self.parts[upto - 1].commitment, 0),
            ) {
                (Some(sum), Some(row)) => commitment_sum_of(sum, row),
                _ => None,
            }
        }
    }

    /// The sum of the contributions of those of the first `upto` known parts that are
    /// complete, encoded: our share of the secret key, as far as these parts go.
    pub open spec fn secret_upto(self, upto: int) -> Option<Seq<u8>>
        decreases upto,
    {
        if upto <= 0 {
            Some(zero_value_bytes())
        } else if !self.parts[upto - 1].is_complete(self.threshold) {
            self.secret_upto(upto - 1)
        } else {
            match (self.secret_upto(upto - 1), self.parts[upto - 1].secret(self.threshold)) {
                (Some(sum), Some(value)) => value_sum_of(sum, value),
                _ => None,
            }
        }
    }

    /// Where the curve does not yield the sum over some of the known parts, it does not
    /// yield the sum over more of them.
    pub proof fn lemma_no_public_key(self, upto: int)
        requires
            0 <= upto <= self.parts.len(),
            self.public_key_upto(upto).is_none(),
        ensures
            self.public_key_set().is_none(),
        decreases self.parts.len() - upto,
    {
        if upto < self.parts.len() {
            self.lemma_no_public_key(upto + 1);
        }
    }

    /// Where the curve does not yield the sum of the contributions of some of the known
    /// parts, it does not yield the sum over more of them.
    pub proof fn lemma_no_secret(self, upto: int)
        requires
            0 <= upto <= self.parts.len(),
            self.secret_upto(upto).is_none(),
        ensures
            self.secret_key_share().is_none(),
        decreases self.parts.len() - upto,
    {
        if upto < self.parts.len() {
            self.lemma_no_secret(upto + 1);
        }
    }

    /// The group's public key set, encoded, if the curve yields it.
    pub open spec fn public_key_set(self) -> Option<Seq<u8>> {
        self.public_key_upto(self.parts.len() as int)
    }

    /// Our share of the secret key, encoded, if the curve yields it.
    pub open spec fn secret_key_share(self) -> Option<Seq<u8>> {
        self.secret_upto(self.parts.len() as int)
    }

    /// Whether the participant with the index `k` may be holding the session up. In the
    /// first phase it is who has not announced; in the contribution phase, who has not
    /// contributed; in the second round, who has not acknowledged every known part; in the
    /// other phases, nobody.
    pub open spec fn blocks(self, k: u64) -> bool {
        match self.phase {
            Phase::Initialization => !self.announcements.senders.contains(k),
            Phase::Contribution => self.non_contributor(k),
            Phase::Justification | Phase::Commitment => exists|i: int|
                0 <= i < self.parts.len() && !(#[trigger] self.parts[i]).acks.contains(k),
            _ => false,
        }
    }

    /// Those of the first `upto` participants that may be holding the session up.
    pub open spec fn blockers_upto(self, upto: int) -> Seq<XorName>
        decreases upto,
    {
        if upto <= 0 {
            Seq::empty()
        } else if self.blocks((upto - 1) as u64) {
            self.blockers_upto(upto - 1).push(self.pub_keys[upto - 1])
        } else {
            self.blockers_upto(upto - 1)
        }
    }

    /// The participants that may be holding the session up, in the order of the
    /// participants.
    pub open spec fn possible_blockers(self) -> Seq<XorName> {
        self.blockers_upto(self.n())
    }
}

} // verus!
