//! The messages that the participants of a session send one another.

use vstd::prelude::*;
use vstd::bytes::spec_u32_to_le_bytes;
use vstd::bytes::spec_u64_to_le_bytes;
use xor_name::XorName;
use crate::key_gen::bytes::copy_bytes;
use crate::key_gen::bytes::copy_indices;
use crate::key_gen::bytes::copy_rows;
use crate::key_gen::bytes::rows_of;
use crate::key_gen::bytes::write_bytes;
use crate::key_gen::bytes::write_indices;
use crate::key_gen::bytes::write_names;
use crate::key_gen::bytes::write_raw;
use crate::key_gen::bytes::write_rows;
use crate::key_gen::bytes::write_u32;
use crate::key_gen::bytes::write_u64;
use crate::key_gen::bytes::written_bytes;
use crate::key_gen::bytes::written_indices;
use crate::key_gen::bytes::written_names;
use crate::key_gen::bytes::written_rows;
use crate::key_gen::encryptor::Iv;
use crate::key_gen::encryptor::Key;
use crate::key_gen::mode::Mode;
use crate::key_gen::phase::PartFault;
use crate::key_gen::sets::copy_names;
use crate::key_gen::sharexorname::Roster;
use crate::key_gen::sharexorname::ShareXorName;

verus! {

/// A proposer's contribution to the keys, as it is sent to one receiver. Only the receiver
/// handles it.
#[derive(Clone, Debug, Hash, PartialEq, Eq, PartialOrd, Ord)]
pub struct Part {
    /// The index of the participant that is to receive this part.
    pub receiver: u64,
    /// The proposer's commitment to its polynomial, encoded.
    pub commitment: Vec<u8>,
    /// The row of the proposer's polynomial that belongs to the receiver, encoded.
    pub ser_row: Vec<u8>,
    /// The rows of all participants, each encrypted for the participant that it belongs to.
    pub enc_rows: Vec<Vec<u8>>,
}

/// A part as mathematical values.
pub struct PartView {
    pub receiver: u64,
    pub commitment: Seq<u8>,
    pub ser_row: Seq<u8>,
    pub enc_rows: Seq<Seq<u8>>,
}

impl View for Part {
    type V = PartView;

    open spec fn view(&self) -> PartView {
        PartView {
            receiver: self.receiver,
            commitment: self.commitment@,
            ser_row: self.ser_row@,
            enc_rows: rows_of(self.enc_rows@),
        }
    }
}

/// The confirmation that a participant has received a proposer's part and found its row to
/// match the proposer's commitment. It is sent to every participant, and holds: the
/// proposer's index, the receiver's index, the value of the row for the receiver, encoded,
/// and the values for all participants, each encrypted for the participant that it belongs
/// to.
#[derive(Clone, Debug, Hash, PartialEq, Eq, PartialOrd, Ord)]
pub struct Acknowledgment(pub u64, pub u64, pub Vec<u8>, pub Vec<Vec<u8>>);

/// An acknowledgment as mathematical values.
pub struct AcknowledgmentView {
    pub proposer: u64,
    pub receiver: u64,
    pub ser_value: Seq<u8>,
    pub enc_values: Seq<Seq<u8>>,
}

impl View for Acknowledgment {
    type V = AcknowledgmentView;

    open spec fn view(&self) -> AcknowledgmentView {
        AcknowledgmentView {
            proposer: self.0,
            receiver: self.1,
            ser_value: self.2@,
            enc_values: rows_of(self.3@),
        }
    }
}

/// What handling a `Part` came to.
#[derive(Clone, Debug, PartialEq, Eq)]
pub enum PartOutcome {
    /// The part was sound: the row in it matches the commitment, so that it can be
    /// acknowledged. It holds no acknowledgment if the same part was handled before.
    Valid(Option<Acknowledgment>),
    /// The part was faulty: its proposer is.
    Invalid(PartFault),
}

/// A message of a session. Each holds the index of its sender, `key_gen_id`, and the
/// sender's roster, `context`.
#[derive(Clone, Debug, PartialEq, Eq, PartialOrd, Ord)]
pub enum Message {
    /// The sender announces the threshold `m`, the number of participants `n` and the
    /// participants.
    Initialization {
        key_gen_id: u64,
        context: ShareXorName,
        m: usize,
        n: usize,
        member_list: Vec<XorName>,
        mode: Mode,
    },
    /// The sender proposes its part.
    Proposal { key_gen_id: u64, context: ShareXorName, part: Part },
    /// The sender complains about the participant `target`; `msg` is what it complains of.
    Complaint { key_gen_id: u64, target: u64, context: ShareXorName, msg: Vec<u8> },
    /// The sender, who was accused, discloses its keys.
    Justification { key_gen_id: u64, context: ShareXorName, keys_map: Vec<(XorName, (Key, Iv))> },
    /// The sender acknowledges a proposer's part.
    Acknowledgment { key_gen_id: u64, context: ShareXorName, ack: Acknowledgment },
}

/// A message as mathematical values.
pub enum MessageView {
    Initialization {
        key_gen_id: u64,
        context: Roster,
        m: usize,
        n: usize,
        member_list: Seq<XorName>,
        mode: Mode,
    },
    Proposal { key_gen_id: u64, context: Roster, part: PartView },
    Complaint { key_gen_id: u64, target: u64, context: Roster, msg: Seq<u8> },
    Justification { key_gen_id: u64, context: Roster, keys_map: Seq<(XorName, (Key, Iv))> },
    Acknowledgment { key_gen_id: u64, context: Roster, ack: AcknowledgmentView },
}

impl MessageView {
    /// The roster that the message carries.
    pub open spec fn context(self) -> Roster {
        match self {
            MessageView::Initialization { context, .. } => context,
            MessageView::Proposal { context, .. } => context,
            MessageView::Complaint { context, .. } => context,
            MessageView::Justification { context, .. } => context,
            MessageView::Acknowledgment { context, .. } => context,
        }
    }

    /// The index of the message's sender.
    pub open spec fn sender(self) -> u64 {
        match self {
            MessageView::Initialization { key_gen_id, .. } => key_gen_id,
            MessageView::Proposal { key_gen_id, .. } => key_gen_id,
            MessageView::Complaint { key_gen_id, .. } => key_gen_id,
            MessageView::Justification { key_gen_id, .. } => key_gen_id,
            MessageView::Acknowledgment { key_gen_id, .. } => key_gen_id,
        }
    }
}

impl View for Message {
    type V = MessageView;

    open spec fn view(&self) -> MessageView {
        match *self {
            Message::Initialization { key_gen_id, context, m, n, member_list, mode } => {
                MessageView::Initialization {
                    key_gen_id,
                    context: context@,
                    m,
                    n,
                    member_list: member_list@,
                    mode,
                }
            },
            Message::Proposal { key_gen_id, context, part } => MessageView::Proposal {
                key_gen_id,
                context: context@,
                part: part@,
            },
            Message::Complaint { key_gen_id, target, context, msg } => MessageView::Complaint {
                key_gen_id,
                target,
                context: context@,
                msg: msg@,
            },
            Message::Justification { key_gen_id, context, keys_map } => {
                MessageView::Justification { key_gen_id, context: context@, keys_map: keys_map@ }
            },
            Message::Acknowledgment { key_gen_id, context, ack } => MessageView::Acknowledgment {
                key_gen_id,
                context: context@,
                ack: ack@,
            },
        }
    }
}

/// The messages of a list, as mathematical values.
pub open spec fn views(messages: Seq<Message>) -> Seq<MessageView> {
    Seq::new(messages.len(), |i: int| messages[i]@)
}

/// A roster as it is written: the names, the shares, the free shares, the epoch.
pub open spec fn written_roster(roster: Roster) -> Seq<u8> {
    written_names(roster.names) + written_indices(roster.shares) + written_indices(
        roster.available,
    ) + spec_u64_to_le_bytes(roster.epoch)
}

/// A part as it is written: the receiver, the commitment as it is encoded, the row and the
/// encrypted rows.
pub open spec fn written_part(part: PartView) -> Seq<u8> {
    spec_u64_to_le_bytes(part.receiver) + part.commitment + written_bytes(part.ser_row)
        + written_rows(part.enc_rows)
}

/// An acknowledgment as it is written: its four fields in their order.
pub open spec fn written_acknowledgment(ack: AcknowledgmentView) -> Seq<u8> {
    spec_u64_to_le_bytes(ack.proposer) + spec_u64_to_le_bytes(ack.receiver) + written_bytes(
        ack.ser_value,
    ) + written_rows(ack.enc_values)
}

/// The message with which `sender` proposes `part`, as it is written: the number of the
/// message's kind in 32 bits, the sender, the roster and the part.
pub open spec fn written_proposal(sender: u64, context: Roster, part: PartView) -> Seq<u8> {
    spec_u32_to_le_bytes(1) + spec_u64_to_le_bytes(sender) + written_roster(context)
        + written_part(part)
}

/// The message with which `sender` sends the acknowledgment `ack`, as it is written: the
/// number of the message's kind in 32 bits, the sender, the roster and the acknowledgment.
pub open spec fn written_acknowledgment_message(
    sender: u64,
    context: Roster,
    ack: AcknowledgmentView,
) -> Seq<u8> {
    spec_u32_to_le_bytes(4) + spec_u64_to_le_bytes(sender) + written_roster(context)
        + written_acknowledgment(ack)
}

impl ShareXorName {
    /// A copy of the roster, as a message carries it.
    pub fn snapshot(&self) -> (copy: ShareXorName)
        ensures
            copy@ == self@,
    {
        ShareXorName {
            xornames: copy_names(&self.xornames),
            shares: copy_indices(&self.shares),
            available: copy_indices(&self.available),
            epochid: self.epochid,
        }
    }

    /// Writes the roster behind what `out` holds.
    pub fn write(&self, out: &mut Vec<u8>)
        ensures
            final(out)@ == old(out)@ + written_roster(self@),
    {
        write_names(out, &self.xornames);
        write_indices(out, &self.shares);
        write_indices(out, &self.available);
        write_u64(out, self.epochid);
        proof {
            assert(out@ == old(out)@ + written_roster(self@));
        }
    }
}

impl Part {
    /// A copy of the part.
    pub fn duplicate(&self) -> (copy: Part)
        ensures
            copy@ == self@,
    {
        Part {
            receiver: self.receiver,
            commitment: copy_bytes(&self.commitment),
            ser_row: copy_bytes(&self.ser_row),
            enc_rows: copy_rows(&self.enc_rows),
        }
    }
}

impl Acknowledgment {
    /// A copy of the acknowledgment.
    pub fn duplicate(&self) -> (copy: Acknowledgment)
        ensures
            copy@ == self@,
    {
        Acknowledgment(self.0, self.1, copy_bytes(&self.2), copy_rows(&self.3))
    }
}

impl Message {
    /// The roster that the message carries.
    pub fn get_context(&self) -> (context: &ShareXorName)
        ensures
            context@ == self@.context(),
    {
        match self {
            Message::Initialization { context, .. } => context,
            Message::Proposal { context, .. } => context,
            Message::Complaint { context, .. } => context,
            Message::Justification { context, .. } => context,
            Message::Acknowledgment { context, .. } => context,
        }
    }

    /// The epoch of the roster that the message carries.
    pub fn get_epoch(&self) -> (epoch: u64)
        ensures
            epoch == self@.context().epoch,
    {
        self.get_context().epochid
    }
}

/// Writes the message with which `sender` proposes `part`.
pub fn write_proposal(sender: u64, context: &ShareXorName, part: &Part) -> (out: Vec<u8>)
    ensures
        out@ == written_proposal(sender, context@, part@),
{
    let mut out: Vec<u8> = Vec::new();
    write_u32(&mut out, 1);
    write_u64(&mut out, sender);
    context.write(&mut out);
    write_u64(&mut out, part.receiver);
    write_raw(&mut out, &part.commitment);
    write_bytes(&mut out, &part.ser_row);
    write_rows(&mut out, &part.enc_rows);
    proof {
        assert(out@ == written_proposal(sender, context@, part@));
    }
    out
}

/// Writes the message with which `sender` sends the acknowledgment `ack`.
pub fn write_acknowledgment(sender: u64, context: &ShareXorName, ack: &Acknowledgment) -> (out:
    Vec<u8>)
    ensures
        out@ == written_acknowledgment_message(sender, context@, ack@),
{
    let mut out: Vec<u8> = Vec::new();
    write_u32(&mut out, 4);
    write_u64(&mut out, sender);
    context.write(&mut out);
    write_u64(&mut out, ack.0);
    write_u64(&mut out, ack.1);
    write_bytes(&mut out, &ack.2);
    write_rows(&mut out, &ack.3);
    proof {
        assert(out@ == written_acknowledgment_message(sender, context@, ack@));
    }
    out
}

} // verus!
