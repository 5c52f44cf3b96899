//! The session of one participant: the state machine that takes the messages of the
//! others, says what is to be sent to them, and yields the keys at the end.

use vstd::prelude::*;
use std::collections::BTreeSet;
use rand::RngCore;
use xor_name::XorName;
use crate::key_gen::bytes::copy_bytes;
use crate::key_gen::bytes::copy_rows;
use crate::key_gen::bytes::rows_of;
use crate::key_gen::complaints::Complaints;
use crate::key_gen::complaints::ComplaintsAccumulator;
use crate::key_gen::curve::commitment_degree;
use crate::key_gen::curve::commitment_degree_of;
use crate::key_gen::curve::commitment_row;
use crate::key_gen::curve::commitment_row_of;
use crate::key_gen::curve::commitment_sum;
use crate::key_gen::curve::commitment_value;
use crate::key_gen::curve::degree_fits;
use crate::key_gen::curve::describe;
use crate::key_gen::curve::poly_commitment;
use crate::key_gen::curve::poly_row;
use crate::key_gen::curve::row_commitment;
use crate::key_gen::curve::row_commitment_of;
use crate::key_gen::curve::row_value;
use crate::key_gen::curve::row_value_of;
use crate::key_gen::curve::sample_poly;
use crate::key_gen::curve::value_commitment;
use crate::key_gen::curve::value_sum;
use crate::key_gen::encryptor::Encryptor;
use crate::key_gen::encryptor::Iv;
use crate::key_gen::encryptor::Key;
use crate::key_gen::initialization::Announcements;
use crate::key_gen::initialization::InitializationAccumulator;
use crate::key_gen::message::views;
use crate::key_gen::message::write_acknowledgment;
use crate::key_gen::message::write_proposal;
use crate::key_gen::message::Acknowledgment;
use crate::key_gen::message::AcknowledgmentView;
use crate::key_gen::message::Message;
use crate::key_gen::message::MessageView;
use crate::key_gen::message::Part;
use crate::key_gen::message::PartView;
use crate::key_gen::mode::Mode;
use crate::key_gen::names::names_sorted;
use crate::key_gen::outcome::Outcome;
use crate::key_gen::phase::AcknowledgmentFault;
use crate::key_gen::phase::Error;
use crate::key_gen::phase::PartFault;
use crate::key_gen::phase::Phase;
use crate::key_gen::proposal::zero_commitment;
use crate::key_gen::proposal::zero_value;
use crate::key_gen::proposal::ProposalState;
use crate::key_gen::search::asc_slot;
use crate::key_gen::search::asc_sorted;
use crate::key_gen::search::find_asc_slot;
use crate::key_gen::search::find_name;
use crate::key_gen::search::first_index;
use crate::key_gen::search::lemma_asc_insert;
use crate::key_gen::search::lemma_first_index_contains;
use crate::key_gen::session::not_contributed;
use crate::key_gen::session::row_fault;
use crate::key_gen::session::value_fault;
use crate::key_gen::session::ProposalView;
use crate::key_gen::session::Session;
use crate::key_gen::sets::copy_names;
use crate::key_gen::sets::has_name;
use crate::key_gen::sets::name_set;
use crate::key_gen::sets::names_to_set;
use crate::key_gen::sets::same_bytes;
use crate::key_gen::sharexorname::Roster;
use crate::key_gen::sharexorname::ShareXorName;

verus! {

/// The session of one participant in a dealerless distributed key generation.
///
/// The owner makes the session with `initialize` and sends the message that comes with it
/// to every participant. It hands every message that arrives to `handle_message` and sends
/// what comes back to every participant. When the time for contributions has run out, and
/// again when the time for complaints has, it calls `timed_phase_transition`. Once the
/// session is final, `generate_keys` yields the keys.
pub struct KeyGen<E: Encryptor> {
    /// Our name.
    our_id: XorName,
    /// Our index: the position of our name among the participants.
    our_index: u64,
    /// The participants, as a set of names.
    pub_keys: Vec<XorName>,
    /// The encryption between us and each participant.
    encryptor: E,
    /// The proposers of which a part is known, in ascending order.
    proposers: Vec<u64>,
    /// What is known of their parts, in the same order.
    parts: Vec<ProposalState>,
    /// The degree of the polynomials.
    threshold: usize,
    /// The phase that the session is in.
    phase: Phase,
    /// Our roster, which every message of ours carries.
    context: ShareXorName,
    /// The kind of the session.
    mode: Mode,
    /// Counts the announcements.
    initalization_accumulator: InitializationAccumulator,
    /// Counts the complaints.
    complaints_accumulator: ComplaintsAccumulator,
    /// Our complaints that wait for the contribution phase to be closed.
    pending_complain_messages: Vec<Message>,
}

/// What is known of the parts, as mathematical values.
pub open spec fn parts_of(parts: Seq<ProposalState>) -> Seq<ProposalView> {
    Seq::new(parts.len(), |i: int| parts[i]@)
}

/// Whether the error is one that proposing can fail with: the polynomial could not be
/// sampled, a row could not be encoded, or a row could not be encrypted.
pub open spec fn proposing_error(error: Error) -> bool {
    error == Error::Unknown || error is Serialization || error == Error::Encryption
}

/// Whether the answer is that nothing is to be sent.
pub open spec fn nothing_sent(answer: Result<Vec<Message>, Error>) -> bool {
    answer matches Ok(out) && out@.len() == 0
}

impl Session {
    /// The session at its start: in the first phase, with nothing known.
    pub open spec fn initial(
        our_id: XorName,
        our_index: u64,
        threshold: usize,
        pub_keys: Seq<XorName>,
        context: Roster,
        mode: Mode,
        phase: Phase,
    ) -> Session {
        Session {
            our_id,
            our_index,
            pub_keys: name_set(pub_keys),
            threshold,
            phase,
            context,
            mode,
            proposers: Seq::empty(),
            parts: Seq::empty(),
            announcements: Announcements { senders: Set::empty(), tallies: Seq::empty() },
            complaints: Complaints {
                members: name_set(pub_keys),
                threshold,
                accusations: Seq::empty(),
            },
            pending: Seq::empty(),
        }
    }

    /// The announcement with which a session starts.
    pub open spec fn announcement(self) -> MessageView {
        MessageView::Initialization {
            key_gen_id: self.our_index,
            context: self.context,
            m: self.threshold,
            n: self.pub_keys.len() as usize,
            member_list: self.pub_keys,
            mode: self.mode,
        }
    }

    /// Whether `answer` answers the announcement of `m`, `n` and `members` by `sender`,
    /// where `after` is the session after it. Outside the first phase it is the error of
    /// the unexpected phase. An announcement that does not start the contribution phase
    /// has nothing sent. One that does has our proposals sent, unless proposing fails.
    pub open spec fn initialization_reply(
        self,
        m: usize,
        n: usize,
        sender: u64,
        members: Seq<XorName>,
        after: Session,
        answer: Result<Vec<Message>, Error>,
    ) -> bool {
        if self.phase != Phase::Initialization {
            answer == Err::<Vec<Message>, Error>(self.unexpected(Phase::Initialization))
        } else if !self.starts(m, n, sender, members) {
            nothing_sent(answer)
        } else {
            after.proposal_reply_of(answer)
        }
    }

    /// Whether `answer` is what comes of our proposing: our proposals, or an error. It is
    /// an error if the coefficients of a polynomial of the threshold's degree do not fit a
    /// vector; and it can be one if the polynomial could not be sampled, a row could not be
    /// encoded, or a row could not be encrypted.
    pub open spec fn proposal_reply_of(self, answer: Result<Vec<Message>, Error>) -> bool {
        match answer {
            Ok(out) => self.proposing(views(out@)) && degree_fits(self.threshold),
            Err(error) => proposing_error(error) && (!degree_fits(self.threshold) ==> error
                == Error::Unknown),
        }
    }

    /// Whether `answer` answers the part that `sender` proposes. Outside the phases that
    /// take proposals it is the error of the unexpected phase. A part that is not
    /// acknowledged, because it has a fault, is not for us or is known, has nothing sent.
    /// A part that is acknowledged has our acknowledgments sent, unless a value of the row
    /// cannot be computed, which is an error of encoding, or cannot be encrypted.
    pub open spec fn proposal_reply(
        self,
        sender: u64,
        part: PartView,
        answer: Result<Vec<Message>, Error>,
    ) -> bool {
        if !self.contributing() {
            answer == Err::<Vec<Message>, Error>(self.unexpected(Phase::Contribution))
        } else if !self.part_acknowledged(sender, part) {
            nothing_sent(answer)
        } else {
            self.acknowledgment_reply(sender, part.ser_row, answer)
        }
    }

    /// Whether `answer` is what comes of our acknowledging the part of `proposer` with our
    /// row `row`. If the curve does not yield the value of the row for one of the
    /// participants, it is an error of encoding. Otherwise it is our acknowledgments,
    /// unless one of the values could not be encrypted.
    pub open spec fn acknowledgment_reply(
        self,
        proposer: u64,
        row: Seq<u8>,
        answer: Result<Vec<Message>, Error>,
    ) -> bool {
        if self.lacks_value(row) {
            answer matches Err(Error::Serialization(_))
        } else {
            match answer {
                Ok(out) => self.acknowledging(proposer, row, views(out@)),
                Err(error) => error == Error::Encryption,
            }
        }
    }

    /// Whether `answer` answers the acknowledgment that `sender` sends. Outside the phases
    /// that take acknowledgments it is the error of the unexpected phase. Otherwise
    /// nothing is sent, unless the acknowledgment closes the contribution phase: then our
    /// complaints are.
    pub open spec fn ack_reply(
        self,
        sender: u64,
        ack: AcknowledgmentView,
        answer: Result<Vec<Message>, Error>,
    ) -> bool {
        if !self.contributing() {
            answer == Err::<Vec<Message>, Error>(self.unexpected(Phase::Contribution))
        } else {
            answer matches Ok(out) && views(out@) == if self.ack_closes(sender, ack) {
                self.with_ack(sender, ack).closing_complaints()
            } else {
                Seq::<MessageView>::empty()
            }
        }
    }

    /// Whether `answer` answers the complaint of the participant with the index `sender`
    /// about the one with the index `target`: an error outside the complaining phase and
    /// where one of them is no participant, and nothing sent otherwise.
    pub open spec fn complaint_reply(
        self,
        sender: u64,
        target: u64,
        answer: Result<Vec<Message>, Error>,
    ) -> bool {
        match self.complaint_error(sender, target) {
            Some(error) => answer == Err::<Vec<Message>, Error>(error),
            None => nothing_sent(answer),
        }
    }

    /// Whether `answer` answers the closing of the complaining phase, where `after` is the
    /// session after it. With too many faulty participants it is the error that names
    /// them by index. If we are faulty, our justification is sent, and nothing else. If a
    /// second round starts, our proposals are sent, unless proposing fails. If participants
    /// are faulty and we are none of those who are left, though not faulty, it is an error.
    /// If nobody is faulty and enough parts are complete, nothing is sent.
    pub open spec fn complaining_reply(self, after: Session, answer: Result<Vec<Message>, Error>)
        -> bool {
        if self.too_many_failings() {
            answer matches Err(Error::TooManyNonVoters(indices)) && indices@
                == self.failing_indices()
        } else if self.justifies() {
            answer matches Ok(out) && self.justifying(views(out@))
        } else if self.restarts() {
            after.proposal_reply_of(answer)
        } else if self.failings().len() > 0 {
            answer == Err::<Vec<Message>, Error>(Error::Unknown)
        } else {
            nothing_sent(answer)
        }
    }

    /// Whether `answer` answers a justification: outside the phase of justifications it is
    /// the error of the unexpected phase, and in it nothing is sent.
    pub open spec fn justification_reply(self, answer: Result<Vec<Message>, Error>) -> bool {
        if self.phase != Phase::Justification {
            answer == Err::<Vec<Message>, Error>(self.unexpected(Phase::Justification))
        } else {
            nothing_sent(answer)
        }
    }

    /// Whether `answer` answers the running out of the owner's timer, where `after` is the
    /// session after it.
    pub open spec fn timer_reply(self, after: Session, answer: Result<Vec<Message>, Error>)
        -> bool {
        match self.phase {
            Phase::Contribution => answer matches Ok(out) && views(out@)
                == self.closing_complaints(),
            Phase::Complaining => self.complaining_reply(after, answer),
            Phase::Initialization => answer == Err::<Vec<Message>, Error>(
                self.unexpected(Phase::Contribution),
            ),
            Phase::Commitment | Phase::Justification => answer == Err::<Vec<Message>, Error>(
                self.unexpected(Phase::Complaining),
            ),
            Phase::Finalization => nothing_sent(answer),
        }
    }

    /// Whether `answer` answers the message, where `after` is the session after it. A
    /// message of another epoch is an error. Every other message is answered as its kind
    /// is.
    pub open spec fn reply(
        self,
        message: MessageView,
        after: Session,
        answer: Result<Vec<Message>, Error>,
    ) -> bool {
        if self.foreign(message.context()) {
            answer == Err::<Vec<Message>, Error>(Error::Unknown)
        } else {
            match message {
                MessageView::Initialization { key_gen_id, m, n, member_list, .. } => {
                    self.initialization_reply(m, n, key_gen_id, member_list, after, answer)
                },
                MessageView::Proposal { key_gen_id, part, .. } => self.proposal_reply(
                    key_gen_id,
                    part,
                    answer,
                ),
                MessageView::Complaint { key_gen_id, target, .. } => self.complaint_reply(
                    key_gen_id,
                    target,
                    answer,
                ),
                MessageView::Justification { .. } => self.justification_reply(answer),
                MessageView::Acknowledgment { key_gen_id, ack, .. } => self.ack_reply(
                    key_gen_id,
                    ack,
                    answer,
                ),
            }
        }
    }
}

/// What we complain of when a participant has not contributed.
pub fn not_contributed_bytes() -> (bytes: Vec<u8>)
    ensures
        bytes@ == not_contributed(),
{
    let mut bytes: Vec<u8> = Vec::new();
    bytes.push(78u8);
    bytes.push(111u8);
    bytes.push(116u8);
    bytes.push(32u8);
    bytes.push(99u8);
    bytes.push(111u8);
    bytes.push(110u8);
    bytes.push(116u8);
    bytes.push(114u8);
    bytes.push(105u8);
    bytes.push(98u8);
    bytes.push(117u8);
    bytes.push(116u8);
    bytes.push(101u8);
    bytes.push(100u8);
    proof {
        assert(bytes@ =~= not_contributed());
    }
    bytes
}

/// Whether the coefficients of a polynomial of this degree in two variables fit a vector.
pub fn fits(degree: usize) -> (fits: bool)
    ensures
        fits == degree_fits(degree),
{
    let side = match degree.checked_add(2) {
        Some(side) => side,
        None => {
            assert(!degree_fits(degree)) by (nonlinear_arith)
                requires
                    degree + 2 > usize::MAX,
                    usize::MAX >= isize::MAX,
            {
            }
            return false;
        },
    };
    let square = match side.checked_mul(side) {
        Some(square) => square,
        None => {
            assert(!degree_fits(degree)) by (nonlinear_arith)
                requires
                    side == degree + 2,
                    side * side > usize::MAX,
                    usize::MAX >= isize::MAX,
            {
            }
            return false;
        },
    };
    match square.checked_mul(32) {
        Some(bytes) => {
            assert(bytes == (degree + 2) * (degree + 2) * 32) by (nonlinear_arith)
                requires
                    side == degree + 2,
                    square == side * side,
                    bytes == square * 32,
            {
            }
            bytes <= isize::MAX as usize
        },
        None => {
            assert(!degree_fits(degree)) by (nonlinear_arith)
                requires
                    side == degree + 2,
                    square == side * side,
                    square * 32 > usize::MAX,
                    usize::MAX >= isize::MAX,
            {
            }
            false
        },
    }
}

/// What the curve yielded, if it yielded anything.
pub fn yielded(result: Result<Vec<u8>, Box<bincode::ErrorKind>>) -> (bytes: Option<Vec<u8>>)
    ensures
        bytes.is_some() == result.is_ok(),
        bytes matches Some(b) ==> result matches Ok(r) && b@ == r@,
{
    match result {
        Ok(bytes) => Some(bytes),
        Err(_) => None,
    }
}

/// The bytes as a mathematical sequence, if there are any.
pub open spec fn seen(bytes: Option<Vec<u8>>) -> Option<Seq<u8>> {
    match bytes {
        Some(bytes) => Some(bytes@),
        None => None,
    }
}

/// What is wrong with a row that we were sent, if anything is, where `commitment` is the
/// row of the proposer's commitment that belongs to us and `ours` is the commitment to the
/// row that we were sent, each as far as the curve yielded it.
pub fn row_fault_of(commitment: &Option<Vec<u8>>, ours: &Option<Vec<u8>>) -> (fault: Option<
    PartFault,
>)
    ensures
        fault == row_fault(seen(*commitment), seen(*ours)),
{
    match commitment {
        None => Some(PartFault::RowAcknowledgment),
        Some(commitment) => match ours {
            None => Some(PartFault::DeserializeRow),
            Some(ours) => if !same_bytes(ours, commitment) {
                Some(PartFault::RowAcknowledgment)
            } else {
                None
            },
        },
    }
}

/// What is wrong with a value that we were sent, if anything is, where `point` is the
/// generator multiplied by the value and `expected` is the value of the proposer's
/// commitment at the sender's point and ours, each as far as the curve yielded it.
pub fn value_fault_of(point: &Option<Vec<u8>>, expected: &Option<Vec<u8>>) -> (fault: Option<
    AcknowledgmentFault,
>)
    ensures
        fault == value_fault(seen(*point), seen(*expected)),
{
    match point {
        None => Some(AcknowledgmentFault::DeserializeValue),
        Some(point) => match expected {
            None => Some(AcknowledgmentFault::ValueAcknowledgment),
            Some(expected) => if !same_bytes(expected, point) {
                Some(AcknowledgmentFault::ValueAcknowledgment)
            } else {
                None
            },
        },
    }
}

/// Whether the encoded commitment is one to a polynomial of the degree given.
pub fn degree_is(commitment: &Vec<u8>, degree: usize) -> (is: bool)
    ensures
        is == (commitment_degree_of(commitment@) == Some(degree)),
{
    match commitment_degree(commitment) {
        Ok(found) => found == degree,
        Err(_) => false,
    }
}

/// Whether the encoded polynomial `row` is the row at `x` of the polynomial that the
/// encoded commitment commits to: whether who receives it will find it to match.
pub fn row_is_of(commitment: &Vec<u8>, row: &Vec<u8>, x: u64) -> (is: bool)
    ensures
        is == row_fault(commitment_row_of(commitment@, x), row_commitment_of(row@)).is_none(),
{
    let expected = yielded(commitment_row(commitment, x));
    let ours = if expected.is_some() {
        yielded(row_commitment(row))
    } else {
        None
    };
    row_fault_of(&expected, &ours).is_none()
}

/// The error for a value that `bincode` could not encode or decode. Its words are those in
/// which `bincode` describes what went wrong.
pub fn serialization_error(error: Box<bincode::ErrorKind>) -> (made: Error)
    ensures
        made is Serialization,
{
    Error::serialization(describe(error))
}

/// What is encrypted so far, with what one more encryption came to: one byte string more,
/// or nothing if that encryption failed.
pub fn with_encrypted(so_far: Vec<Vec<u8>>, outcome: Option<Vec<u8>>) -> (made: Option<
    Vec<Vec<u8>>,
>)
    ensures
        made.is_some() == outcome.is_some(),
        made matches Some(all) ==> (outcome matches Some(bytes) && rows_of(all@) == rows_of(
            so_far@,
        ).push(bytes@)),
{
    match outcome {
        Some(bytes) => {
            let mut all = so_far;
            all.push(bytes);
            proof {
                assert(rows_of(all@) =~= rows_of(so_far@).push(bytes@));
            }
            Some(all)
        },
        None => None,
    }
}

impl<E: Encryptor> View for KeyGen<E> {
    type V = Session;

    closed spec fn view(&self) -> Session {
        Session {
            our_id: self.our_id,
            our_index: self.our_index,
            pub_keys: self.pub_keys@,
            threshold: self.threshold,
            phase: self.phase,
            context: self.context@,
            mode: self.mode,
            proposers: self.proposers@,
            parts: parts_of(self.parts@),
            announcements: self.initalization_accumulator@,
            complaints: self.complaints_accumulator@,
            pending: views(self.pending_complain_messages@),
        }
    }
}

impl<E: Encryptor> KeyGen<E> {
    /// The session's invariant: the participants are a set of names, the proposers are in
    /// strictly ascending order with one part each, and what is kept of the parts and of
    /// the announcements keeps its own invariant.
    pub closed spec fn wf(&self) -> bool {
        &&& self.our_index < u64::MAX
        &&& names_sorted(self.pub_keys@)
        &&& self.proposers.len() == self.parts.len()
        &&& asc_sorted(self.proposers@)
        &&& forall|i: int| 0 <= i < self.parts.len() ==> (#[trigger] self.parts[i]).wf()
        &&& self.initalization_accumulator.wf()
        &&& names_sorted(self.complaints_accumulator@.members)
    }

    /// What holds of every session that keeps its invariant: the participants are a set
    /// of names, and so are those of whom complaints are counted; the proposers are in
    /// strictly ascending order, with one part each; and our index is not the greatest
    /// that there is.
    pub proof fn lemma_wf(&self)
        requires
            self.wf(),
        ensures
            self@.our_index < u64::MAX,
            names_sorted(self@.pub_keys),
            names_sorted(self@.complaints.members),
            self@.ordered(),
    {
    }

    /// Makes the session of the participant `our_id` with the threshold `threshold` among
    /// the participants `pub_keys`, and the announcement that is to be sent to every
    /// participant. It fails if the participants are fewer than the threshold, or if
    /// `our_id` is not one of them.
    pub fn initialize(
        our_id: XorName,
        threshold: usize,
        pub_keys: Vec<XorName>,
        context: ShareXorName,
        mode: Mode,
        encryptor: E,
    ) -> (made: Result<(KeyGen<E>, Message), Error>)
        ensures
            made.is_ok() <==> name_set(pub_keys@).len() >= threshold && pub_keys@.contains(our_id),
            made matches Err(error) ==> error == Error::Unknown,
            made matches Ok((key_gen, message)) ==> key_gen.wf() && key_gen@ == Session::initial(
                our_id,
                first_index(name_set(pub_keys@), our_id) as u64,
                threshold,
                pub_keys@,
                context@,
                mode,
                Phase::Initialization,
            ) && message@ == key_gen@.announcement(),
    {
        let keys = names_to_set(&pub_keys);
        if keys.len() < threshold {
            return Err(Error::Unknown);
        }
        let index = find_name(&keys, &our_id);
        proof {
            lemma_first_index_contains(keys@, our_id);
        }
        if index >= keys.len() {
            return Err(Error::Unknown);
        }
        let message = Message::Initialization {
            key_gen_id: index as u64,
            context: context.snapshot(),
            m: threshold,
            n: keys.len(),
            member_list: copy_names(&keys),
            mode,
        };
        let key_gen = KeyGen {
            our_id,
            our_index: index as u64,
            pub_keys: keys,
            encryptor,
            proposers: Vec::new(),
            parts: Vec::new(),
            threshold,
            phase: Phase::Initialization,
            context,
            mode,
            initalization_accumulator: InitializationAccumulator::new(),
            complaints_accumulator: ComplaintsAccumulator::new(pub_keys, threshold),
            pending_complain_messages: Vec::new(),
        };
        proof {
            assert(key_gen@.parts =~= Seq::<ProposalView>::empty());
            assert(key_gen@.pending =~= Seq::<MessageView>::empty());
        }
        Ok((key_gen, message))
    }

    /// Makes a session in a phase and with an index of choice.
    pub fn initialize_for_test(
        our_id: XorName,
        our_index: u64,
        pub_keys: Vec<XorName>,
        threshold: usize,
        phase: Phase,
        context: ShareXorName,
        mode: Mode,
        encryptor: E,
    ) -> (key_gen: KeyGen<E>)
        requires
            pub_keys.len() >= threshold,
            our_index < u64::MAX,
        ensures
            key_gen.wf(),
            key_gen@ == Session::initial(
                our_id,
                our_index,
                threshold,
                pub_keys@,
                context@,
                mode,
                phase,
            ),
    {
        let key_gen = KeyGen {
            our_id,
            our_index,
            pub_keys: names_to_set(&pub_keys),
            encryptor,
            proposers: Vec::new(),
            parts: Vec::new(),
            threshold,
            phase,
            context,
            mode,
            initalization_accumulator: InitializationAccumulator::new(),
            complaints_accumulator: ComplaintsAccumulator::new(pub_keys, threshold),
            pending_complain_messages: Vec::new(),
        };
        proof {
            assert(key_gen@.parts =~= Seq::<ProposalView>::empty());
            assert(key_gen@.pending =~= Seq::<MessageView>::empty());
        }
        key_gen
    }

    /// Our name.
    pub fn our_id(&self) -> (id: XorName)
        ensures
            id == self@.our_id,
    {
        self.our_id
    }

    /// Our roster, which every message of ours carries.
    pub fn context(&self) -> (context: &ShareXorName)
        ensures
            context@ == self@.context,
    {
        &self.context
    }

    /// The kind of the session.
    pub fn mode(&self) -> (mode: Mode)
        ensures
            mode == self@.mode,
    {
        self.mode
    }

    /// The threshold: the degree of the polynomials.
    pub fn threshold(&self) -> (threshold: usize)
        ensures
            threshold == self@.threshold,
    {
        self.threshold
    }

    /// The participants, as a set of names.
    pub fn pub_keys(&self) -> (keys: &Vec<XorName>)
        ensures
            keys@ == self@.pub_keys,
    {
        &self.pub_keys
    }

    /// The phase that the session is in.
    pub fn phase(&self) -> (phase: Phase)
        ensures
            phase == self@.phase,
    {
        self.phase
    }

    /// The index of the participant `node_id`, if it is one.
    pub fn node_index(&self, node_id: &XorName) -> (index: Option<u64>)
        ensures
            index.is_some() <==> self@.pub_keys.contains(*node_id),
            index.is_some() <==> first_index(self@.pub_keys, *node_id) < self@.pub_keys.len(),
            index matches Some(i) ==> i == first_index(self@.pub_keys, *node_id) && i
                < self@.pub_keys.len(),
    {
        let index = find_name(&self.pub_keys, node_id);
        proof {
            lemma_first_index_contains(self.pub_keys@, *node_id);
        }
        if index < self.pub_keys.len() {
            Some(index as u64)
        } else {
            None
        }
    }

    /// The participant with the index `node_index`, if there is one.
    pub fn node_id_from_index(&self, node_index: u64) -> (id: Option<XorName>)
        ensures
            id == if node_index < self@.n() {
                Some(self@.pub_keys[node_index as int])
            } else {
                None
            },
    {
        if node_index < self.pub_keys.len() as u64 {
            Some(self.pub_keys[node_index as usize])
        } else {
            None
        }
    }

    /// Where the part of `proposer` stands among the parts, or is to stand, and whether it
    /// is known.
    fn part_position(&self, proposer: u64) -> (found: (usize, bool))
        requires
            self.wf(),
        ensures
            found.0 == asc_slot(self@.proposers, proposer),
            found.0 <= self.parts.len(),
            found.1 == self@.has_part(proposer),
            found.1 ==> found.0 < self.parts.len(),
            found.1 == self@.proposers.contains(proposer),
    {
        let p = find_asc_slot(&self.proposers, proposer);
        proof {
            lemma_asc_insert(self.proposers@, proposer);
        }
        (p, p < self.proposers.len() && self.proposers[p] == proposer)
    }

    /// How many of the known parts are complete.
    pub fn complete_parts_count(&self) -> (count: usize)
        ensures
            count == self@.complete_parts_count(),
    {
        let mut count: usize = 0;
        let mut i: usize = 0;
        while i < self.parts.len()
            invariant
                i <= self.parts.len(),
                count <= i,
                count == self@.complete_upto(i as int),
            decreases self.parts.len() - i,
        {
            if self.parts[i].is_complete(self.threshold) {
                count += 1;
            }
            i += 1;
        }
        count
    }

    /// Whether enough parts are complete for the keys to be generated.
    pub fn is_ready(&self) -> (ready: bool)
        ensures
            ready == self@.is_ready(),
    {
        self.complete_parts_count() >= self.threshold
    }

    /// Whether every participant's part is known and acknowledged by every participant.
    pub fn all_contribution_received(&self) -> (all: bool)
        ensures
            all == self@.all_received(),
    {
        if self.pub_keys.len() != self.parts.len() {
            return false;
        }
        let mut i: usize = 0;
        while i < self.parts.len()
            invariant
                i <= self.parts.len(),
                forall|j: int| 0 <= j < i ==> (#[trigger] self@.parts[j]).acks.len() == self@.n(),
            decreases self.parts.len() - i,
        {
            if self.parts[i].acks.len() != self.pub_keys.len() {
                assert(self@.parts[i as int].acks.len() != self@.n());
                return false;
            }
            assert(self@.parts[i as int].acks.len() == self@.n());
            i += 1;
        }
        true
    }

    /// Whether the participant with the index `k` has not contributed.
    fn is_non_contributor(&self, k: u64) -> (absent: bool)
        requires
            self.wf(),
        ensures
            absent == self@.non_contributor(k),
    {
        let (p, known) = self.part_position(k);
        if !known {
            true
        } else {
            !self.parts[p].acks.contains(&k) && 1 > self.pub_keys.len() / 2
        }
    }

    /// The participants that have not contributed, by index and by name, each in
    /// increasing order: those of which no part is known.
    pub fn non_contributors(&self) -> (absent: (Vec<u64>, Vec<XorName>))
        requires
            self.wf(),
        ensures
            absent.0.len() == absent.1.len(),
            forall|j: int|
                0 <= j < absent.0.len() ==> (#[trigger] absent.0@[j]) < self@.n()
                    && self@.non_contributor(absent.0@[j]) && absent.1@[j]
                    == self@.pub_keys[absent.0@[j] as int],
            forall|i: int, j: int| 0 <= i < j < absent.0.len() ==> absent.0@[i] < absent.0@[j],
            forall|k: u64| k < self@.n() && self@.non_contributor(k) ==> absent.0@.contains(k),
    {
        let mut indices: Vec<u64> = Vec::new();
        let mut ids: Vec<XorName> = Vec::new();
        let mut k: usize = 0;
        while k < self.pub_keys.len()
            invariant
                k <= self.pub_keys.len(),
                self.wf(),
                indices.len() == ids.len(),
                forall|j: int|
                    0 <= j < indices.len() ==> (#[trigger] indices@[j]) < k
                        && self@.non_contributor(indices@[j]) && ids@[j]
                        == self@.pub_keys[indices@[j] as int],
                forall|i: int, j: int| 0 <= i < j < indices.len() ==> indices@[i] < indices@[j],
                forall|x: u64| x < k && self@.non_contributor(x) ==> indices@.contains(x),
            decreases self.pub_keys.len() - k,
        {
            if self.is_non_contributor(k as u64) {
                let ghost before = indices@;
                indices.push(k as u64);
                ids.push(self.pub_keys[k]);
                proof {
                    assert forall|x: u64| x < k + 1 && self@.non_contributor(
                        x,
                    ) implies indices@.contains(x) by {
                        if x < k {
                            assert(before.contains(x));
                            let j = choose|j: int| 0 <= j < before.len() && before[j] == x;
                            assert(indices@[j] == x);
                        } else {
                            assert(indices@[before.len() as int] == x);
                        }
                    }
                }
            }
            k += 1;
        }
        (indices, ids)
    }

    /// Our complaint about the participant `target`, with what we complain of.
    fn complaint(&self, target: u64, msg: Vec<u8>) -> (message: Message)
        ensures
            message@ == self@.complaint(target, msg@),
    {
        Message::Complaint {
            key_gen_id: self.our_index,
            target,
            context: self.context.snapshot(),
            msg,
        }
    }

    /// Our justification with the keys given.
    pub fn justification(&self, keys_map: Vec<(XorName, (Key, Iv))>) -> (message: Message)
        ensures
            message@ == (MessageView::Justification {
                key_gen_id: self@.our_index,
                context: self@.context,
                keys_map: keys_map@,
            }),
    {
        Message::Justification {
            key_gen_id: self.our_index,
            context: self.context.snapshot(),
            keys_map,
        }
    }

    /// Puts our proposals together from the commitment, the rows and the encrypted rows:
    /// one for each row, to the participant with the row's index.
    pub fn assemble_proposals(
        &self,
        commitment: &Vec<u8>,
        rows: &Vec<Vec<u8>>,
        enc_rows: &Vec<Vec<u8>>,
    ) -> (out: Vec<Message>)
        ensures
            views(out@) == self@.proposals(commitment@, rows_of(rows@), rows_of(enc_rows@)),
    {
        let mut out: Vec<Message> = Vec::new();
        let mut k: usize = 0;
        while k < rows.len()
            invariant
                k <= rows.len(),
                out.len() == k,
                forall|j: int|
                    0 <= j < k ==> (#[trigger] out@[j])@ == self@.proposals(
                        commitment@,
                        rows_of(rows@),
                        rows_of(enc_rows@),
                    )[j],
            decreases rows.len() - k,
        {
            out.push(
                Message::Proposal {
                    key_gen_id: self.our_index,
                    context: self.context.snapshot(),
                    part: Part {
                        receiver: k as u64,
                        commitment: copy_bytes(commitment),
                        ser_row: copy_bytes(&rows[k]),
                        enc_rows: copy_rows(enc_rows),
                    },
                },
            );
            k += 1;
        }
        proof {
            assert(views(out@) =~= self@.proposals(
                commitment@,
                rows_of(rows@),
                rows_of(enc_rows@),
            ));
        }
        out
    }

    /// Puts our acknowledgments of the part of `proposer` together from the values and the
    /// encrypted values: one for each value, to the participant with the value's index.
    pub fn assemble_acknowledgments(
        &self,
        proposer: u64,
        values: &Vec<Vec<u8>>,
        enc_values: &Vec<Vec<u8>>,
    ) -> (out: Vec<Message>)
        ensures
            views(out@) == self@.acknowledgments(proposer, rows_of(values@), rows_of(enc_values@)),
    {
        let mut out: Vec<Message> = Vec::new();
        let mut k: usize = 0;
        while k < values.len()
            invariant
                k <= values.len(),
                out.len() == k,
                forall|j: int|
                    0 <= j < k ==> (#[trigger] out@[j])@ == self@.acknowledgments(
                        proposer,
                        rows_of(values@),
                        rows_of(enc_values@),
                    )[j],
            decreases values.len() - k,
        {
            out.push(
                Message::Acknowledgment {
                    key_gen_id: self.our_index,
                    context: self.context.snapshot(),
                    ack: Acknowledgment(
                        proposer,
                        k as u64,
                        copy_bytes(&values[k]),
                        copy_rows(enc_values),
                    ),
                },
            );
            k += 1;
        }
        proof {
            assert(views(out@) =~= self@.acknowledgments(
                proposer,
                rows_of(values@),
                rows_of(enc_values@),
            ));
        }
        out
    }

    /// Samples a polynomial of the threshold's degree and makes our proposals from it:
    /// one to each participant, with the participant's row, the commitment, and every
    /// participant's row encrypted for it. What the curve hands back is put to the test
    /// that the receivers will put it to: the commitment is of the threshold's degree, and
    /// each row matches it. It fails if the polynomial cannot be sampled or does not stand
    /// the test, a row cannot be encoded, or a row cannot be encrypted.
    fn propose<R: RngCore>(&self, rng: &mut R) -> (made: Result<Vec<Message>, Error>)
        ensures
            made matches Ok(out) ==> self@.proposing(views(out@)),
            made matches Err(error) ==> proposing_error(error),
            !degree_fits(self@.threshold) ==> made == Err::<Vec<Message>, Error>(Error::Unknown),
    {
        if !fits(self.threshold) {
            return Err(Error::Unknown);
        }
        let poly = match sample_poly(rng, self.threshold) {
            Some(poly) => poly,
            None => {
                return Err(Error::Unknown);
            },
        };
        let commitment = match poly_commitment(&poly) {
            Ok(commitment) => commitment,
            Err(error) => {
                return Err(serialization_error(error));
            },
        };
        if !degree_is(&commitment, self.threshold) {
            return Err(Error::Unknown);
        }
        let mut rows: Vec<Vec<u8>> = Vec::new();
        let mut enc_rows: Vec<Vec<u8>> = Vec::new();
        let mut k: usize = 0;
        while k < self.pub_keys.len()
            invariant
                k <= self.pub_keys.len(),
                rows.len() == k,
                enc_rows.len() == k,
                degree_fits(self@.threshold),
                forall|j: int|
                    0 <= j < k ==> row_fault(
                        commitment_row_of(commitment@, (j + 1) as u64),
                        row_commitment_of((#[trigger] rows@[j])@),
                    ).is_none(),
            decreases self.pub_keys.len() - k,
        {
            let row = match poly_row(&poly, k as u64 + 1) {
                Ok(row) => row,
                Err(error) => {
                    return Err(serialization_error(error));
                },
            };
            if !row_is_of(&commitment, &row, k as u64 + 1) {
                return Err(Error::Unknown);
            }
            let enc_row = match self.encryptor.encrypt(&self.pub_keys[k], &row) {
                Some(enc_row) => enc_row,
                None => {
                    return Err(Error::Encryption);
                },
            };
            rows.push(row);
            enc_rows.push(enc_row);
            k += 1;
        }
        let out = self.assemble_proposals(&commitment, &rows, &enc_rows);
        proof {
            let sent = rows_of(rows@);
            assert(sent.len() == self@.n());
            assert(rows_of(enc_rows@).len() == self@.n());
            assert forall|j: int| 0 <= j < sent.len() implies row_fault(
                commitment_row_of(commitment@, (j + 1) as u64),
                row_commitment_of(#[trigger] sent[j]),
            ).is_none() by {
                assert(sent[j] == rows@[j]@);
            }
            assert(self@.rows_of_commitment(commitment@, sent));
        }
        Ok(out)
    }

    /// Handles the announcement of the threshold `m`, the number `n` and the participants
    /// `member_list` by `sender`. Outside the first phase it is turned away. Otherwise it
    /// is counted; if `m` senders have now announced the same, that is what the session
    /// is, the contribution phase starts, and our proposals are to be sent.
    pub fn handle_initialization<R: RngCore>(
        &mut self,
        rng: &mut R,
        m: usize,
        n: usize,
        sender: u64,
        member_list: Vec<XorName>,
    ) -> (answer: Result<Vec<Message>, Error>)
        requires
            old(self).wf(),
        ensures
            final(self).wf(),
            final(self)@ == old(self)@.after_initialization(m, n, sender, member_list@),
            old(self)@.initialization_reply(m, n, sender, member_list@, final(self)@, answer),
    {
        if self.phase != Phase::Initialization {
            return Err(Error::UnexpectedPhase {
                expected: Phase::Initialization,
                actual: self.phase,
            });
        }
        match self.initalization_accumulator.add_initialization(m, n, sender, member_list) {
            Some((m, _n, member_list)) => {
                self.threshold = m;
                self.pub_keys = member_list;
                self.phase = Phase::Contribution;
                assert(self@.parts == old(self)@.parts);
                assert(self@.pending == old(self)@.pending);
                self.propose(rng)
            },
            None => {
                assert(self@.parts == old(self)@.parts);
                assert(self@.pending == old(self)@.pending);
                Ok(Vec::new())
            },
        }
    }

    /// Looks at the part that `sender_index` proposes, and takes note of it if it is to
    /// be. Returns the part's fault, if it has one, and otherwise whether the part is to
    /// be acknowledged.
    pub fn handle_part_or_fault(&mut self, sender_index: u64, part: &Part) -> (verdict: Result<
        bool,
        PartFault,
    >)
        requires
            old(self).wf(),
        ensures
            final(self).wf(),
            final(self)@ == if old(self)@.part_kept(sender_index, part@) {
                old(self)@.with_part(sender_index, part@.commitment)
            } else {
                old(self)@
            },
            verdict == match old(self)@.part_fault(sender_index, part@) {
                Some(fault) => Err::<bool, PartFault>(fault),
                None => Ok::<bool, PartFault>(old(self)@.part_kept(sender_index, part@)),
            },
    {
        proof {
            assert(rows_of(part.enc_rows@).len() == part.enc_rows.len());
        }
        if part.enc_rows.len() != self.pub_keys.len() {
            return Err(PartFault::RowCount);
        }
        if part.receiver != self.our_index {
            return Ok(false);
        }
        let (p, known) = self.part_position(sender_index);
        if known {
            if !same_bytes(&self.parts[p].commitment, &part.commitment) {
                return Err(PartFault::MultipleParts);
            }
            return Ok(false);
        }
        let commitment = yielded(commitment_row(&part.commitment, self.our_index + 1));
        if commitment.is_none() {
            return match row_fault_of(&commitment, &None) {
                Some(fault) => Err(fault),
                None => Ok(false),
            };
        }
        self.proposers.insert(p, sender_index);
        self.parts.insert(p, ProposalState::new(copy_bytes(&part.commitment)));
        proof {
            lemma_asc_insert(old(self).proposers@, sender_index);
            assert(self@.parts =~= old(self)@.with_part(sender_index, part@.commitment).parts);
            assert(self@.pending == old(self)@.pending);
            assert forall|i: int| 0 <= i < self.parts.len() implies (#[trigger]
                self.parts[i]).wf() by {
                if i < p {
                    assert(self.parts[i] == old(self).parts[i]);
                } else if i > p {
                    assert(self.parts[i] == old(self).parts[i - 1]);
                }
            }
        }
        let ours = yielded(row_commitment(&part.ser_row));
        match row_fault_of(&commitment, &ours) {
            Some(fault) => Err(fault),
            None => Ok(true),
        }
    }

    /// The value of the encoded polynomial `row` for each participant: at the participant's
    /// index and one. It is an error exactly if the curve does not yield one of them.
    pub fn row_values(&self, row: &Vec<u8>) -> (made: Result<Vec<Vec<u8>>, Box<bincode::ErrorKind>>)
        ensures
            made matches Ok(values) ==> self@.values_of(row@, rows_of(values@)),
            made.is_err() <==> self@.lacks_value(row@),
    {
        let mut values: Vec<Vec<u8>> = Vec::new();
        let mut k: usize = 0;
        while k < self.pub_keys.len()
            invariant
                k <= self.pub_keys.len(),
                values.len() == k,
                forall|j: int|
                    0 <= j < k ==> row_value_of(row@, (j + 1) as u64) == Some(
                        (#[trigger] values@[j])@,
                    ),
            decreases self.pub_keys.len() - k,
        {
            match row_value(row, k as u64 + 1) {
                Ok(value) => {
                    values.push(value);
                },
                Err(error) => {
                    assert(row_value_of(row@, (k + 1) as u64).is_none());
                    return Err(error);
                },
            }
            k += 1;
        }
        proof {
            let vs = rows_of(values@);
            assert forall|j: int| 0 <= j < vs.len() implies row_value_of(
                row@,
                (j + 1) as u64,
            ) == Some(#[trigger] vs[j]) by {
                assert(vs[j] == values@[j]@);
            }
            if self@.lacks_value(row@) {
                let j = choose|j: int|
                    0 <= j < self@.n() && (#[trigger] row_value_of(row@, (j + 1) as u64))
                        .is_none();
                assert(row_value_of(row@, (j + 1) as u64) == Some(values@[j]@));
            }
        }
        Ok(values)
    }

    /// Encrypts each of the byte strings for the participant with its index, one after the
    /// other, and stops at the first that cannot be encrypted: then it fails. Whether a byte
    /// string can be encrypted, and to what, is the encryptor's to say. Where there is no
    /// participant, nothing is to be encrypted, and it does not fail.
    fn encrypt_each(&self, plain: &Vec<Vec<u8>>) -> (made: Option<Vec<Vec<u8>>>)
        requires
            plain.len() == self@.n(),
        ensures
            made matches Some(encrypted) ==> encrypted.len() == plain.len(),
            plain.len() == 0 ==> made.is_some(),
    {
        let mut encrypted: Vec<Vec<u8>> = Vec::new();
        let mut k: usize = 0;
        while k < self.pub_keys.len()
            invariant
                k <= self.pub_keys.len(),
                plain.len() == self.pub_keys.len(),
                encrypted.len() == k,
            decreases self.pub_keys.len() - k,
        {
            let outcome = self.encryptor.encrypt(&self.pub_keys[k], &plain[k]);
            encrypted = match with_encrypted(encrypted, outcome) {
                Some(all) => {
                    assert(rows_of(all@).len() == all.len());
                    all
                },
                None => {
                    return None;
                },
            };
            k += 1;
        }
        Some(encrypted)
    }

    /// Makes our acknowledgments of the part of `proposer` with our row `row`: the value
    /// of the row for each participant, in the clear for that participant and encrypted
    /// for it in every acknowledgment. It is an error of encoding exactly if the curve
    /// does not yield one of the values, and otherwise an error if a value cannot be
    /// encrypted.
    fn acknowledge(&self, proposer: u64, row: &Vec<u8>) -> (made: Result<Vec<Message>, Error>)
        ensures
            self@.acknowledgment_reply(proposer, row@, made),
    {
        let values = match self.row_values(row) {
            Ok(values) => values,
            Err(error) => {
                return Err(serialization_error(error));
            },
        };
        proof {
            assert(rows_of(values@).len() == values.len());
        }
        let enc_values = match self.encrypt_each(&values) {
            Some(enc_values) => enc_values,
            None => {
                return Err(Error::Encryption);
            },
        };
        let out = self.assemble_acknowledgments(proposer, &values, &enc_values);
        proof {
            assert(rows_of(enc_values@).len() == self@.n());
        }
        Ok(out)
    }

    /// Handles the part that `sender_index` proposes in a message with the roster
    /// `context`. Outside the phases that take proposals it is turned away. A part that
    /// has a fault makes a complaint about its sender wait, and nothing is sent. A sound
    /// part that is for us and new is acknowledged to every participant.
    pub fn handle_proposal(
        &mut self,
        sender_index: u64,
        context: &ShareXorName,
        part: Part,
    ) -> (answer: Result<Vec<Message>, Error>)
        requires
            old(self).wf(),
        ensures
            final(self).wf(),
            final(self)@ == old(self)@.after_proposal(sender_index, context@, part@),
            old(self)@.proposal_reply(sender_index, part@, answer),
    {
        if !(self.phase == Phase::Contribution || self.phase == Phase::Commitment) {
            return Err(
                Error::UnexpectedPhase { expected: Phase::Contribution, actual: self.phase },
            );
        }
        match self.handle_part_or_fault(sender_index, &part) {
            Ok(true) => {
                let answer = self.acknowledge(sender_index, &part.ser_row);
                proof {
                    assert(self@.lacks_value(part@.ser_row) == old(self)@.lacks_value(
                        part@.ser_row,
                    ));
                    if answer.is_ok() {
                        let sent = views(answer->Ok_0@);
                        let (values, enc_values) = choose|
                            values: Seq<Seq<u8>>,
                            enc_values: Seq<Seq<u8>>,
                        |
                            self@.values_of(part@.ser_row, values) && enc_values.len()
                                == self@.n() && sent == #[trigger] self@.acknowledgments(
                                sender_index,
                                values,
                                enc_values,
                            );
                        assert(old(self)@.values_of(part@.ser_row, values));
                        assert(sent == old(self)@.acknowledgments(
                            sender_index,
                            values,
                            enc_values,
                        ));
                    }
                }
                answer
            },
            Ok(false) => Ok(Vec::new()),
            Err(_fault) => {
                let invalid_contribute = write_proposal(sender_index, context, &part);
                let complaint = self.complaint(sender_index, invalid_contribute);
                let ghost before = self@;
                self.pending_complain_messages.push(complaint);
                proof {
                    assert(self@.pending =~= before.pending.push(complaint@));
                    assert(self@.parts == before.parts);
                }
                Ok(Vec::new())
            },
        }
    }

    /// Looks at the acknowledgment that `sender_index` sends, and takes note of what it
    /// says. Returns the acknowledgment's fault, if it has one.
    pub fn handle_ack_or_fault(&mut self, sender_index: u64, ack: &Acknowledgment) -> (verdict:
        Result<(), AcknowledgmentFault>)
        requires
            old(self).wf(),
        ensures
            final(self).wf(),
            final(self)@ == old(self)@.with_ack(sender_index, ack@),
            verdict == match old(self)@.ack_fault(sender_index, ack@) {
                Some(fault) => Err::<(), AcknowledgmentFault>(fault),
                None => Ok::<(), AcknowledgmentFault>(()),
            },
    {
        proof {
            assert(rows_of(ack.3@).len() == ack.3.len());
        }
        if ack.3.len() != self.pub_keys.len() {
            return Err(AcknowledgmentFault::ValueCount);
        }
        if ack.1 != self.our_index {
            return Ok(());
        }
        let (p, known) = self.part_position(ack.0);
        if !known {
            return Err(AcknowledgmentFault::MissingPart);
        }
        if !self.parts[p].acks.insert(sender_index) {
            proof {
                assert(self.parts[p as int]@.acks =~= old(self).parts[p as int]@.acks);
                assert(self.parts[p as int]@ == old(self).parts[p as int]@);
                assert(self@.parts =~= old(self)@.parts);
                assert(self@.pending == old(self)@.pending);
            }
            return Ok(());
        }
        let ghost part = old(self)@.part_of(ack.0);
        let ghost counted = ProposalView { acks: part.acks.insert(sender_index), ..part };
        proof {
            assert(self.parts[p as int]@ == counted);
            assert(self@.parts =~= old(self)@.with_part_as(ack.0, counted).parts);
            assert(self@.pending == old(self)@.pending);
            assert forall|i: int| 0 <= i < self.parts.len() implies (#[trigger]
                self.parts[i]).wf() by {
                if i != p {
                    assert(self.parts[i] == old(self).parts[i]);
                }
            }
        }
        let point = yielded(value_commitment(&ack.2));
        let expected = if point.is_some() && sender_index < u64::MAX {
            yielded(
                commitment_value(&self.parts[p].commitment, self.our_index + 1, sender_index + 1),
            )
        } else {
            None
        };
        match value_fault_of(&point, &expected) {
            Some(fault) => {
                return Err(fault);
            },
            None => {},
        }
        self.parts[p].insert_value(sender_index + 1, copy_bytes(&ack.2));
        let ghost valued_part = counted.with_value((sender_index + 1) as u64, ack@.ser_value);
        let ghost valued = old(self)@.with_part_as(ack.0, valued_part);
        proof {
            assert(self.parts[p as int]@ == valued_part);
            assert(self@.parts =~= valued.parts);
            assert(self@.pending == old(self)@.pending);
            assert forall|i: int| 0 <= i < self.parts.len() implies (#[trigger]
                self.parts[i]).wf() by {
                if i != p {
                    assert(self.parts[i] == old(self).parts[i]);
                }
            }
        }
        let (q, own) = self.part_position(sender_index);
        if !own {
            return Err(AcknowledgmentFault::MissingPart);
        }
        let ghost before = self@;
        self.parts[q].enc_values = copy_rows(&ack.3);
        proof {
            assert(self.parts[q as int]@ == ProposalView {
                enc_values: ack@.enc_values,
                ..before.part_of(sender_index)
            });
            assert(self@.parts =~= valued.with_part_as(
                sender_index,
                ProposalView { enc_values: ack@.enc_values, ..valued.part_of(sender_index) },
            ).parts);
            assert(self@.pending == old(self)@.pending);
            assert forall|i: int| 0 <= i < self.parts.len() implies (#[trigger]
                self.parts[i]).wf() by {
                if i != q {
                    assert(self.parts[i] == old(self).parts[i] || i == p);
                }
            }
        }
        Ok(())
    }

    /// Closes the contribution phase: the participants that have not contributed are
    /// complained about, and all our complaints are to be sent. The session is final if
    /// there is no complaint and enough parts are complete; otherwise the participants
    /// complain.
    pub fn finalize_contributing_phase(&mut self) -> (answer: Result<Vec<Message>, Error>)
        requires
            old(self).wf(),
        ensures
            final(self).wf(),
            final(self)@ == old(self)@.after_contributing(),
            answer matches Ok(out) && views(out@) == old(self)@.closing_complaints(),
    {
        let ready = self.is_ready();
        self.phase = Phase::Complaining;
        proof {
            assert(self@.parts == old(self)@.parts);
            assert(self@.pending == old(self)@.pending);
        }
        let mut k: usize = 0;
        while k < self.pub_keys.len()
            invariant
                k <= self.pub_keys.len(),
                self.wf(),
                self@ == (Session {
                    phase: Phase::Complaining,
                    pending: old(self)@.pending + old(self)@.absent_upto(k as int),
                    ..old(self)@
                }),
            decreases self.pub_keys.len() - k,
        {
            let ghost before = self@;
            if self.is_non_contributor(k as u64) {
                let complaint = self.complaint(k as u64, not_contributed_bytes());
                self.pending_complain_messages.push(complaint);
                proof {
                    assert(self@.pending =~= before.pending.push(complaint@));
                    assert(self@.parts == before.parts);
                    assert(complaint@ == old(self)@.complaint(k as u64, not_contributed()));
                }
            }
            proof {
                assert(before.non_contributor(k as u64) == old(self)@.non_contributor(k as u64));
                assert(self@.pending =~= old(self)@.pending + old(self)@.absent_upto(k + 1));
            }
            k += 1;
        }
        let ghost closed = self@;
        if self.pending_complain_messages.len() == 0 && ready {
            self.phase = Phase::Finalization;
        }
        let mut out: Vec<Message> = Vec::new();
        out.append(&mut self.pending_complain_messages);
        proof {
            assert(views(out@) =~= closed.pending);
            assert(self@.pending =~= Seq::<MessageView>::empty());
            assert(self@.parts == closed.parts);
        }
        Ok(out)
    }

    /// Handles the acknowledgment that `sender_index` sends in a message with the roster
    /// `context`. Outside the phases that take acknowledgments it is turned away. An
    /// acknowledgment that has a fault makes a complaint about its sender wait. If it has
    /// none and all is received, the second round ends as final, and the first round is
    /// closed: our complaints are then to be sent.
    pub fn handle_ack(
        &mut self,
        sender_index: u64,
        context: &ShareXorName,
        ack: Acknowledgment,
    ) -> (answer: Result<Vec<Message>, Error>)
        requires
            old(self).wf(),
        ensures
            final(self).wf(),
            final(self)@ == old(self)@.after_ack(sender_index, context@, ack@),
            old(self)@.ack_reply(sender_index, ack@, answer),
    {
        if !(self.phase == Phase::Contribution || self.phase == Phase::Commitment) {
            return Err(
                Error::UnexpectedPhase { expected: Phase::Contribution, actual: self.phase },
            );
        }
        match self.handle_ack_or_fault(sender_index, &ack) {
            Ok(()) => {
                if self.all_contribution_received() {
                    if self.phase == Phase::Commitment {
                        self.phase = Phase::Finalization;
                        proof {
                            assert(self@.parts == old(self)@.with_ack(sender_index, ack@).parts);
                            assert(self@.pending == old(self)@.pending);
                        }
                    } else {
                        return self.finalize_contributing_phase();
                    }
                }
            },
            Err(_fault) => {
                let invalid_ack = write_acknowledgment(sender_index, context, &ack);
                let complaint = self.complaint(sender_index, invalid_ack);
                let ghost before = self@;
                self.pending_complain_messages.push(complaint);
                proof {
                    assert(self@.pending =~= before.pending.push(complaint@));
                    assert(self@.parts == before.parts);
                }
            },
        }
        let out: Vec<Message> = Vec::new();
        proof {
            assert(views(out@) =~= Seq::<MessageView>::empty());
        }
        Ok(out)
    }

    /// Handles the complaint of the participant with the index `sender_index` about the
    /// one with the index `target_index`. Outside the complaining phase it is turned
    /// away, and so it is if one of the two is no participant. Otherwise it is counted.
    pub fn handle_complaint(
        &mut self,
        sender_index: u64,
        target_index: u64,
        invalid_msg: Vec<u8>,
    ) -> (answer: Result<Vec<Message>, Error>)
        requires
            old(self).wf(),
        ensures
            final(self).wf(),
            final(self)@ == old(self)@.after_complaint(sender_index, target_index),
            old(self)@.complaint_reply(sender_index, target_index, answer),
    {
        if self.phase != Phase::Complaining {
            return Err(Error::UnexpectedPhase { expected: Phase::Complaining, actual: self.phase });
        }
        let sender_id = match self.node_id_from_index(sender_index) {
            Some(id) => id,
            None => {
                return Err(Error::UnknownSender);
            },
        };
        let target_id = match self.node_id_from_index(target_index) {
            Some(id) => id,
            None => {
                return Err(Error::Unknown);
            },
        };
        let ghost members = self.complaints_accumulator@.members;
        self.complaints_accumulator.add_complaint(sender_id, target_id, invalid_msg);
        proof {
            assert(self.complaints_accumulator@.members == members);
            assert(self@.parts == old(self)@.parts);
            assert(self@.pending == old(self)@.pending);
        }
        Ok(Vec::new())
    }

    /// Closes the complaining phase. With too many faulty participants the session cannot
    /// go on. Otherwise the faulty participants are none any more. If we are one of them,
    /// our justification, with the encryptor's keys, is to be sent, and no round starts for
    /// us. If others were faulty, a second round starts without them. If nobody was, the
    /// session is final if enough parts are complete, and starts a second round if not. In
    /// a second round our new proposals are to be sent.
    pub fn finalize_complaining_phase<R: RngCore>(&mut self, rng: &mut R) -> (answer: Result<
        Vec<Message>,
        Error,
    >)
        requires
            old(self).wf(),
        ensures
            final(self).wf(),
            final(self)@ == old(self)@.after_complaining(),
            old(self)@.complaining_reply(final(self)@, answer),
    {
        let failings = self.complaints_accumulator.finalize_complaining_phase();
        let n = self.pub_keys.len();
        proof {
            self@.complaints.lemma_failings();
            self@.lemma_remaining();
        }
        if self.threshold >= n || failings.len() >= n - self.threshold {
            let mut indices: BTreeSet<u64> = BTreeSet::new();
            let mut k: usize = 0;
            proof {
                assert(indices@ =~= self@.failing_below(0));
            }
            while k < self.pub_keys.len()
                invariant
                    k <= self.pub_keys.len(),
                    failings@ == self@.failings(),
                    indices@ == self@.failing_below(k as int),
                decreases self.pub_keys.len() - k,
            {
                if has_name(&failings, &self.pub_keys[k]) {
                    let _ = indices.insert(k as u64);
                }
                proof {
                    assert(indices@ =~= self@.failing_below(k + 1));
                }
                k += 1;
            }
            return Err(Error::TooManyNonVoters(indices));
        }
        let mut result: Vec<Message> = Vec::new();
        let faulty = has_name(&failings, &self.our_id);
        if faulty {
            result.push(self.justification(self.encryptor.keys_map()));
            proof {
                assert(views(result@).len() == 1);
                assert(old(self)@.justifying(views(result@)));
                assert(failings@.len() > 0) by {
                    let i = choose|i: int| 0 <= i < failings@.len() && failings@[i] == self.our_id;
                }
            }
        }
        if failings.len() > 0 {
            let mut keys: Vec<XorName> = Vec::new();
            let mut k: usize = 0;
            while k < self.pub_keys.len()
                invariant
                    k <= self.pub_keys.len(),
                    failings@ == self@.failings(),
                    keys@ == self@.remaining_upto(k as int),
                decreases self.pub_keys.len() - k,
            {
                if !has_name(&failings, &self.pub_keys[k]) {
                    keys.push(self.pub_keys[k]);
                }
                k += 1;
            }
            self.pub_keys = keys;
            proof {
                assert(self@.parts == old(self)@.parts);
                assert(self@.pending == old(self)@.pending);
            }
            match self.node_index(&self.our_id) {
                Some(index) => {
                    self.our_index = index;
                },
                None => {
                    if faulty {
                        return Ok(result);
                    }
                    return Err(Error::Unknown);
                },
            }
        } else if self.is_ready() {
            self.phase = Phase::Finalization;
            proof {
                assert(self@.parts == old(self)@.parts);
                assert(self@.pending == old(self)@.pending);
            }
            return Ok(Vec::new());
        }
        self.phase = Phase::Commitment;
        self.proposers = Vec::new();
        self.parts = Vec::new();
        proof {
            assert(self@.parts =~= Seq::<ProposalView>::empty());
            assert(self@.pending == old(self)@.pending);
            assert(result@.len() == 0);
        }
        match self.propose(rng) {
            Ok(proposals) => {
                let mut proposals = proposals;
                let ghost sent = views(proposals@);
                result.append(&mut proposals);
                proof {
                    assert(views(result@) =~= sent);
                }
                Ok(result)
            },
            Err(error) => Err(error),
        }
    }

    /// Handles the running out of the owner's timer: it closes the contribution phase and
    /// the complaining phase. In the final phase nothing happens, and in the other phases
    /// it is an error.
    pub fn timed_phase_transition<R: RngCore>(&mut self, rng: &mut R) -> (answer: Result<
        Vec<Message>,
        Error,
    >)
        requires
            old(self).wf(),
        ensures
            final(self).wf(),
            final(self)@ == old(self)@.after_timer(),
            old(self)@.timer_reply(final(self)@, answer),
    {
        match self.phase {
            Phase::Contribution => self.finalize_contributing_phase(),
            Phase::Complaining => self.finalize_complaining_phase(rng),
            Phase::Initialization => Err(
                Error::UnexpectedPhase { expected: Phase::Contribution, actual: self.phase },
            ),
            Phase::Commitment | Phase::Justification => Err(
                Error::UnexpectedPhase { expected: Phase::Complaining, actual: self.phase },
            ),
            Phase::Finalization => Ok(Vec::new()),
        }
    }

    /// Handles a justification. Outside the phase of justifications it is turned away. In
    /// it, nothing is done with the keys, and nothing changes.
    pub fn handle_justification(
        &mut self,
        _sender_index: u64,
        _keys_map: Vec<(XorName, (Key, Iv))>,
    ) -> (answer: Result<Vec<Message>, Error>)
        ensures
            *final(self) == *old(self),
            old(self)@.justification_reply(answer),
    {
        if self.phase != Phase::Justification {
            return Err(
                Error::UnexpectedPhase { expected: Phase::Justification, actual: self.phase },
            );
        }
        Ok(Vec::new())
    }

    /// Handles a message of another participant, or of ours, and says what is to be sent
    /// to every participant. A message of another epoch is turned away, and so is one
    /// that does not belong to the session's phase.
    pub fn handle_message<R: RngCore>(&mut self, rng: &mut R, msg: Message) -> (answer: Result<
        Vec<Message>,
        Error,
    >)
        requires
            old(self).wf(),
        ensures
            final(self).wf(),
            final(self)@ == old(self)@.after_message(msg@),
            old(self)@.reply(msg@, final(self)@, answer),
            old(self)@.refusal(msg@) matches Some(error) ==> answer == Err::<Vec<Message>, Error>(
                error,
            ) && final(self)@ == old(self)@,
    {
        if msg.get_epoch() != self.context.epochid {
            return Err(Error::Unknown);
        }
        match msg {
            Message::Initialization { key_gen_id, context: _, m, n, member_list, mode: _ } => {
                self.handle_initialization(rng, m, n, key_gen_id, member_list)
            },
            Message::Proposal { key_gen_id, context, part } => self.handle_proposal(
                key_gen_id,
                &context,
                part,
            ),
            Message::Complaint { key_gen_id, target, context: _, msg } => self.handle_complaint(
                key_gen_id,
                target,
                msg,
            ),
            Message::Justification { key_gen_id, context: _, keys_map } => {
                self.handle_justification(key_gen_id, keys_map)
            },
            Message::Acknowledgment { key_gen_id, context, ack } => self.handle_ack(
                key_gen_id,
                &context,
                ack,
            ),
        }
    }

    /// Whether the participant with the index `k` may be holding the session up.
    fn blocks(&self, k: u64) -> (blocks: bool)
        requires
            self.wf(),
        ensures
            blocks == self@.blocks(k),
    {
        match self.phase {
            Phase::Initialization => !self.initalization_accumulator.has_sender(k),
            Phase::Contribution => self.is_non_contributor(k),
            Phase::Justification | Phase::Commitment => {
                let mut i: usize = 0;
                while i < self.parts.len()
                    invariant
                        i <= self.parts.len(),
                        self@.phase == Phase::Justification || self@.phase == Phase::Commitment,
                        forall|j: int| 0 <= j < i ==> (#[trigger] self@.parts[j]).acks.contains(k),
                    decreases self.parts.len() - i,
                {
                    if !self.parts[i].acks.contains(&k) {
                        assert(!self@.parts[i as int].acks.contains(k));
                        return true;
                    }
                    assert(self@.parts[i as int].acks.contains(k));
                    i += 1;
                }
                false
            },
            _ => false,
        }
    }

    /// The participants that may be holding the session up, in the order of the
    /// participants. It is to be asked before a session that has not become final is given
    /// up.
    pub fn possible_blockers(&self) -> (blockers: Vec<XorName>)
        requires
            self.wf(),
        ensures
            blockers@ == self@.possible_blockers(),
    {
        let mut blockers: Vec<XorName> = Vec::new();
        let mut k: usize = 0;
        while k < self.pub_keys.len()
            invariant
                k <= self.pub_keys.len(),
                self.wf(),
                blockers@ == self@.blockers_upto(k as int),
            decreases self.pub_keys.len() - k,
        {
            if self.blocks(k as u64) {
                blockers.push(self.pub_keys[k]);
            }
            k += 1;
        }
        blockers
    }

    /// The group's public key set, encoded: the sum of the rows at zero of the commitments
    /// of the complete parts. There is none if the curve does not yield it.
    pub fn public_key_set(&self) -> (key: Option<Vec<u8>>)
        requires
            self.wf(),
        ensures
            seen(key) == self@.public_key_set(),
    {
        let mut pk_commitment = zero_commitment();
        let mut i: usize = 0;
        while i < self.parts.len()
            invariant
                i <= self.parts.len(),
                self@.public_key_upto(i as int) == Some(pk_commitment@),
            decreases self.parts.len() - i,
        {
            if self.parts[i].is_complete(self.threshold) {
                let row = match commitment_row(&self.parts[i].commitment, 0) {
                    Ok(row) => row,
                    Err(_) => {
                        proof {
                            self@.lemma_no_public_key(i + 1);
                        }
                        return None;
                    },
                };
                pk_commitment = match commitment_sum(&pk_commitment, &row) {
                    Ok(sum) => sum,
                    Err(_) => {
                        proof {
                            self@.lemma_no_public_key(i + 1);
                        }
                        return None;
                    },
                };
            }
            i += 1;
        }
        Some(pk_commitment)
    }

    /// Our share of the secret key, encoded: the sum of the contributions of the complete
    /// parts. There is none if the curve does not yield it.
    pub fn secret_key_share(&self) -> (key: Option<Vec<u8>>)
        requires
            self.wf(),
        ensures
            seen(key) == self@.secret_key_share(),
    {
        let mut sk_val = zero_value();
        let mut i: usize = 0;
        while i < self.parts.len()
            invariant
                i <= self.parts.len(),
                self.wf(),
                self@.secret_upto(i as int) == Some(sk_val@),
            decreases self.parts.len() - i,
        {
            if self.parts[i].is_complete(self.threshold) {
                let secret = match self.parts[i].secret(self.threshold) {
                    Ok(secret) => secret,
                    Err(_) => {
                        proof {
                            self@.lemma_no_secret(i + 1);
                        }
                        return None;
                    },
                };
                sk_val = match value_sum(&sk_val, &secret) {
                    Ok(sum) => sum,
                    Err(_) => {
                        proof {
                            self@.lemma_no_secret(i + 1);
                        }
                        return None;
                    },
                };
            }
            i += 1;
        }
        Some(sk_val)
    }

    /// The keys of a session with the public key set and the share of the secret key
    /// given, each as far as the curve yielded it, for the participants of the session.
    /// There are none before the session is final, and none without both keys.
    pub fn outcome_of(
        &self,
        public_key_set: Option<Vec<u8>>,
        secret_key_share: Option<Vec<u8>>,
    ) -> (keys: Option<(Vec<XorName>, Outcome)>)
        ensures
            keys.is_some() <==> self@.phase == Phase::Finalization && public_key_set.is_some()
                && secret_key_share.is_some(),
            keys matches Some((members, outcome)) ==> members@ == self@.pub_keys && Some(
                outcome.public_key_set@,
            ) == seen(public_key_set) && Some(outcome.secret_key_share@) == seen(
                secret_key_share,
            ),
    {
        if self.phase != Phase::Finalization {
            return None;
        }
        match (public_key_set, secret_key_share) {
            (Some(public_key_set), Some(secret_key_share)) => Some(
                (copy_names(&self.pub_keys), Outcome::new(public_key_set, secret_key_share)),
            ),
            _ => None,
        }
    }

    /// The keys that the session yields, with the participants that they are for: the
    /// group's public key set and our share of the secret key. There are none before the
    /// session is final, and none if the curve does not yield them.
    pub fn generate_keys(&self) -> (keys: Option<(Vec<XorName>, Outcome)>)
        requires
            self.wf(),
        ensures
            keys.is_some() <==> self@.phase == Phase::Finalization
                && self@.public_key_set().is_some() && self@.secret_key_share().is_some(),
            keys matches Some((members, outcome)) ==> members@ == self@.pub_keys && Some(
                outcome.public_key_set@,
            ) == self@.public_key_set() && Some(outcome.secret_key_share@)
                == self@.secret_key_share(),
    {
        if self.phase != Phase::Finalization {
            return None;
        }
        let public_key_set = self.public_key_set();
        let secret_key_share = if public_key_set.is_some() {
            self.secret_key_share()
        } else {
            None
        };
        self.outcome_of(public_key_set, secret_key_share)
    }
}

} // verus!
