//! What holds of a session whatever messages arrive.

use vstd::prelude::*;
use crate::key_gen::generator::nothing_sent;
use crate::key_gen::message::views;
use crate::key_gen::message::written_acknowledgment_message;
use crate::key_gen::message::written_proposal;
use crate::key_gen::message::AcknowledgmentView;
use crate::key_gen::message::Message;
use crate::key_gen::message::MessageView;
use crate::key_gen::message::PartView;
use crate::key_gen::phase::Error;
use crate::key_gen::phase::PartFault;
use crate::key_gen::phase::Phase;
use crate::key_gen::search::asc_slot;
use crate::key_gen::search::asc_sorted;
use crate::key_gen::names::names_sorted;
use crate::key_gen::search::lemma_asc_insert;
use crate::key_gen::search::lemma_first_index_contains;
use crate::key_gen::roster_laws::lemma_insert_at;
use crate::key_gen::session::ProposalView;
use crate::key_gen::session::Session;
use crate::key_gen::sharexorname::Roster;

verus! {

impl Session {
    /// The proposers are in strictly ascending order, with one part each.
    pub open spec fn ordered(self) -> bool {
        asc_sorted(self.proposers) && self.proposers.len() == self.parts.len()
    }
}

/// **Phase guard.** A message of the session's epoch that does not belong to the session's
/// phase is turned away with the error of the unexpected phase, which names the phase that
/// messages of its kind are for, and it changes nothing. This holds of every kind of
/// message and of every sender.
pub proof fn lemma_phase_guard(s: Session, message: MessageView)
    requires
        !s.foreign(message.context()),
        !s.takes(message),
    ensures
        s.refusal(message) == Some(
            Error::UnexpectedPhase { expected: Session::phase_for(message), actual: s.phase },
        ),
        s.after_message(message) == s,
{
}

/// **Phase guard of the timer.** The owner's timer closes the contribution phase and the
/// complaining phase only: in every other phase it changes nothing, and but for the final
/// phase it is answered with the error of the unexpected phase.
pub proof fn lemma_timer_guard(s: Session, answer: Result<Vec<Message>, Error>)
    requires
        s.phase != Phase::Contribution,
        s.phase != Phase::Complaining,
        s.timer_reply(s.after_timer(), answer),
    ensures
        s.after_timer() == s,
        s.phase == Phase::Finalization ==> nothing_sent(answer),
        s.phase == Phase::Initialization ==> answer == Err::<Vec<Message>, Error>(
            Error::UnexpectedPhase { expected: Phase::Contribution, actual: s.phase },
        ),
        s.phase == Phase::Commitment || s.phase == Phase::Justification ==> answer == Err::<
            Vec<Message>,
            Error,
        >(Error::UnexpectedPhase { expected: Phase::Complaining, actual: s.phase }),
{
}

/// **Fault routing.** A part with a fault, handled in a phase that takes proposals, makes
/// exactly one complaint wait, which is ours about the part's sender and holds the message
/// as it is written; and nothing is sent, so no acknowledgment is.
pub proof fn lemma_fault_routing(
    s: Session,
    sender: u64,
    context: Roster,
    part: PartView,
    answer: Result<Vec<Message>, Error>,
)
    requires
        s.contributing(),
        s.part_fault(sender, part).is_some(),
        s.proposal_reply(sender, part, answer),
    ensures
        s.after_proposal(sender, context, part).pending == s.pending.push(
            MessageView::Complaint {
                key_gen_id: s.our_index,
                target: sender,
                context: s.context,
                msg: written_proposal(sender, context, part),
            },
        ),
        nothing_sent(answer),
{
}

/// **Fault routing of acknowledgments.** An acknowledgment with a fault, handled in a phase
/// that takes acknowledgments, makes exactly one complaint wait, which is ours about the
/// acknowledgment's sender and holds the message as it is written; and nothing is sent.
pub proof fn lemma_ack_fault_routing(
    s: Session,
    sender: u64,
    context: Roster,
    ack: AcknowledgmentView,
    answer: Result<Vec<Message>, Error>,
)
    requires
        s.contributing(),
        s.ack_fault(sender, ack).is_some(),
        s.ack_reply(sender, ack, answer),
    ensures
        s.after_ack(sender, context, ack).pending == s.pending.push(
            MessageView::Complaint {
                key_gen_id: s.our_index,
                target: sender,
                context: s.context,
                msg: written_acknowledgment_message(sender, context, ack),
            },
        ),
        s.after_ack(sender, context, ack).phase == s.phase,
        answer matches Ok(out) && out@.len() == 0,
{
    assert(views(answer->Ok_0@).len() == answer->Ok_0@.len());
}

/// **Who is faulty justifies itself.** Where the faulty participants are not too many and
/// we are one of them, closing the complaining phase sends our justification, with our
/// index from before, and nothing else. The faulty, we among them, are no participants any
/// more, and nothing else of the session changes: no round starts for us.
pub proof fn lemma_justifies(s: Session, answer: Result<Vec<Message>, Error>)
    requires
        names_sorted(s.pub_keys),
        s.justifies(),
        s.complaining_reply(s.after_complaining(), answer),
    ensures
        s.after_complaining() == (Session { pub_keys: s.remaining(), ..s }),
        !s.remaining().contains(s.our_id),
        answer matches Ok(out) && s.justifying(views(out@)),
        answer matches Ok(out) && out@.len() == 1 && out@[0]@ is Justification && out@[0]@.sender()
            == s.our_index && out@[0]@.context() == s.context,
{
    s.lemma_remaining();
    lemma_first_index_contains(s.remaining(), s.our_id);
    let i = choose|i: int| 0 <= i < s.failings().len() && s.failings()[i] == s.our_id;
    let out = answer->Ok_0;
    assert(views(out@).len() == out@.len());
    assert(views(out@)[0] == out@[0]@);
}

/// How far a phase is on the way from the start of a session to its end.
pub open spec fn rank(phase: Phase) -> int {
    match phase {
        Phase::Initialization => 0,
        Phase::Contribution => 1,
        Phase::Complaining => 2,
        Phase::Justification => 3,
        Phase::Commitment => 4,
        Phase::Finalization => 5,
    }
}

/// **The phases come in their order.** No message and no running out of the timer takes a
/// session back to an earlier phase.
pub proof fn lemma_phases_advance(s: Session, message: MessageView)
    ensures
        rank(s.after_message(message).phase) >= rank(s.phase),
        rank(s.after_timer().phase) >= rank(s.phase),
{
}

/// **The final phase is the end.** In the final phase no message and no running out of the
/// timer changes anything.
pub proof fn lemma_final_is_final(s: Session, message: MessageView)
    requires
        s.phase == Phase::Finalization,
    ensures
        s.after_message(message) == s,
        s.after_timer() == s,
{
}

/// A part that was taken note of is known, with its commitment.
pub proof fn lemma_part_known(s: Session, proposer: u64, commitment: Seq<u8>)
    requires
        s.ordered(),
        !s.has_part(proposer),
    ensures
        s.with_part(proposer, commitment).ordered(),
        s.with_part(proposer, commitment).has_part(proposer),
        s.with_part(proposer, commitment).part_of(proposer) == ProposalView::new(commitment),
{
    let p = asc_slot(s.proposers, proposer);
    let t = s.with_part(proposer, commitment);
    lemma_asc_insert(s.proposers, proposer);
    lemma_insert_at(s.proposers, p, proposer);
    lemma_insert_at(s.parts, p, ProposalView::new(commitment));
    lemma_asc_insert(t.proposers, proposer);
    assert(t.proposers[p] == proposer);
}

/// **The same part twice.** A part that is handled a second time changes nothing: the
/// session is what it was after the part was handled first. This holds of every part that
/// does not have a fault for which it is not taken note of; such a part makes a complaint
/// wait each time.
pub proof fn lemma_proposal_twice(s: Session, sender: u64, context: Roster, part: PartView)
    requires
        s.ordered(),
        s.part_fault(sender, part).is_none() || s.part_kept(sender, part),
    ensures
        s.after_proposal(sender, context, part).after_proposal(sender, context, part)
            == s.after_proposal(sender, context, part),
{
    if s.contributing() && s.part_kept(sender, part) {
        lemma_part_known(s, sender, part.commitment);
    }
}

/// **Another part of the same sender.** Once a part of a sender is taken note of, a part of
/// that sender for us with another commitment has the fault of multiple parts.
pub proof fn lemma_second_part(
    s: Session,
    sender: u64,
    context: Roster,
    part: PartView,
    other: PartView,
)
    requires
        s.ordered(),
        s.contributing(),
        s.part_kept(sender, part),
        other.receiver == s.our_index,
        other.enc_rows.len() == s.n(),
        other.commitment != part.commitment,
    ensures
        s.after_proposal(sender, context, part).part_fault(sender, other) == Some(
            PartFault::MultipleParts,
        ),
{
    lemma_part_known(s, sender, part.commitment);
}

/// An acknowledgment that was counted is not counted again.
pub proof fn lemma_ack_noted(s: Session, sender: u64, ack: AcknowledgmentView)
    requires
        s.ordered(),
        s.ack_counted(sender, ack),
    ensures
        s.with_ack(sender, ack).proposers == s.proposers,
        s.with_ack(sender, ack).parts.len() == s.parts.len(),
        s.with_ack(sender, ack).has_part(ack.proposer),
        s.with_ack(sender, ack).part_of(ack.proposer).acks.contains(sender),
        !s.with_ack(sender, ack).ack_counted(sender, ack),
        s.with_ack(sender, ack).ack_fault(sender, ack).is_none(),
        s.with_ack(sender, ack).with_ack(sender, ack) == s.with_ack(sender, ack),
{
    let p = asc_slot(s.proposers, ack.proposer);
    let part = s.part_of(ack.proposer);
    let counted = ProposalView { acks: part.acks.insert(sender), ..part };
    lemma_asc_insert(s.proposers, ack.proposer);
    lemma_asc_insert(s.proposers, sender);
    assert(counted.acks.contains(sender));
    let valued = counted.with_value((sender + 1) as u64, ack.ser_value);
    assert(valued.acks == counted.acks);
}

/// **The same acknowledgment twice.** An acknowledgment without a fault that is handled a
/// second time changes nothing: the session is what it was after the acknowledgment was
/// handled first. An acknowledgment with a fault makes a complaint wait when it is handled
/// first, and can close the contribution phase when it is handled again.
pub proof fn lemma_ack_twice(s: Session, sender: u64, context: Roster, ack: AcknowledgmentView)
    requires
        s.ordered(),
        s.ack_fault(sender, ack).is_none(),
    ensures
        s.after_ack(sender, context, ack).after_ack(sender, context, ack) == s.after_ack(
            sender,
            context,
            ack,
        ),
{
    if s.contributing() && s.ack_counted(sender, ack) {
        lemma_ack_noted(s, sender, ack);
    }
}

/// **The same message twice.** A proposal or an acknowledgment of the session's epoch that
/// has no fault, and is handled a second time, changes nothing: the session is what it was
/// after the message was handled first.
pub proof fn lemma_message_twice(s: Session, message: MessageView)
    requires
        s.ordered(),
        match message {
            MessageView::Proposal { key_gen_id, part, .. } => s.part_fault(key_gen_id, part)
                .is_none(),
            MessageView::Acknowledgment { key_gen_id, ack, .. } => s.ack_fault(key_gen_id, ack)
                .is_none(),
            _ => false,
        },
    ensures
        s.after_message(message).after_message(message) == s.after_message(message),
{
    match message {
        MessageView::Proposal { key_gen_id, context, part } => {
            lemma_proposal_twice(s, key_gen_id, context, part);
        },
        MessageView::Acknowledgment { key_gen_id, context, ack } => {
            lemma_ack_twice(s, key_gen_id, context, ack);
        },
        _ => {},
    }
}

/// **One key for the group.** Two sessions with the same threshold that know the same
/// number of parts, with the same commitments, of which the same are complete, yield the
/// same public key set.
pub proof fn lemma_same_public_key(a: Session, b: Session, upto: int)
    requires
        a.threshold == b.threshold,
        a.parts.len() == b.parts.len(),
        0 <= upto <= a.parts.len(),
        forall|i: int|
            0 <= i < a.parts.len() ==> (#[trigger] a.parts[i]).commitment == b.parts[i].commitment
                && a.parts[i].is_complete(a.threshold) == b.parts[i].is_complete(b.threshold),
    ensures
        a.public_key_upto(upto) == b.public_key_upto(upto),
        upto == a.parts.len() ==> a.public_key_set() == b.public_key_set(),
    decreases upto,
{
    if upto > 0 {
        lemma_same_public_key(a, b, upto - 1);
        assert(a.parts[upto - 1].commitment == b.parts[upto - 1].commitment);
    }
}

} // verus!
