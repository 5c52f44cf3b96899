use bincode::serialize;
use bls_dkg::key_gen::bytes::{copy_bytes, copy_indices, copy_rows};
use bls_dkg::key_gen::encryptor::{Iv, Key};
use bls_dkg::key_gen::generator::{
    fits, not_contributed_bytes, row_fault_of, serialization_error, value_fault_of,
    with_encrypted, yielded,
};
use bls_dkg::key_gen::message::{
    write_acknowledgment, write_proposal, Acknowledgment, Message, Part,
};
use bls_dkg::key_gen::mode::Mode;
use bls_dkg::key_gen::outcome::Outcome;
use bls_dkg::key_gen::proposal::{zero_commitment, zero_value, ProposalState};
use bls_dkg::key_gen::sharexorname::ShareXorName;
use bls_dkg::key_gen::{AcknowledgmentFault, Error, PartFault, Phase};
use std::collections::BTreeSet;
use threshold_crypto::poly::{BivarPoly, Poly};
use threshold_crypto::serde_impl::FieldWrap;
use threshold_crypto::Fr;
use xor_name::XorName;

fn name(first: u8) -> XorName {
    let mut name = XorName::default();
    name.0[0] = first;
    name
}

fn roster() -> ShareXorName {
    let mut roster = ShareXorName::from_xornames(vec![name(3), name(1), name(2)]);
    roster.remove_xorname(name(2));
    roster.epochid = 7;
    roster
}

fn part() -> Part {
    Part {
        receiver: 1,
        commitment: vec![0xaa, 0xbb],
        ser_row: vec![1, 2, 3],
        enc_rows: vec![vec![9], vec![8, 7], Vec::new()],
    }
}

#[test]
fn every_message_carries_its_roster() {
    let roster = roster();
    let messages = vec![
        Message::Initialization {
            key_gen_id: 0,
            context: roster.clone(),
            m: 2,
            n: 3,
            member_list: vec![name(1)],
            mode: Mode::Initial,
        },
        Message::Proposal { key_gen_id: 1, context: roster.clone(), part: part() },
        Message::Complaint { key_gen_id: 2, target: 0, context: roster.clone(), msg: vec![1] },
        Message::Justification {
            key_gen_id: 3,
            context: roster.clone(),
            keys_map: vec![(name(1), (Key([1; 16]), Iv([2; 16])))],
        },
        Message::Acknowledgment {
            key_gen_id: 4,
            context: roster.clone(),
            ack: Acknowledgment(0, 1, vec![5], vec![vec![6]]),
        },
    ];
    for message in &messages {
        assert_eq!(message.get_context(), &roster);
        assert_eq!(message.get_epoch(), 7);
    }
}

#[test]
fn a_proposal_is_written_as_it_is_encoded() {
    let roster = roster();
    let mut rng = rand::thread_rng();
    let commitment = BivarPoly::random(1, &mut rng).commitment();
    let part = Part {
        receiver: 1,
        commitment: serialize(&commitment).unwrap(),
        ser_row: vec![1, 2, 3],
        enc_rows: vec![vec![9], vec![8, 7], Vec::new()],
    };
    let written = write_proposal(2, &roster, &part);
    let encoded = serialize(&(
        1u32,
        2u64,
        (&roster.xornames, &roster.shares, &roster.available, roster.epochid),
        (part.receiver, &commitment, &part.ser_row, &part.enc_rows),
    ))
    .unwrap();
    assert_eq!(written, encoded);
}

#[test]
fn a_proposal_is_written_byte_by_byte() {
    let roster = roster();
    let written = write_proposal(2, &roster, &part());
    let mut expected: Vec<u8> = Vec::new();
    expected.extend(&1u32.to_le_bytes());
    expected.extend(&2u64.to_le_bytes());
    expected.extend(&2u64.to_le_bytes());
    expected.extend(&name(1).0);
    expected.extend(&name(3).0);
    expected.extend(&2u64.to_le_bytes());
    expected.extend(&0u64.to_le_bytes());
    expected.extend(&2u64.to_le_bytes());
    expected.extend(&1u64.to_le_bytes());
    expected.extend(&1u64.to_le_bytes());
    expected.extend(&7u64.to_le_bytes());
    expected.extend(&1u64.to_le_bytes());
    expected.extend(&[0xaa, 0xbb]);
    expected.extend(&3u64.to_le_bytes());
    expected.extend(&[1, 2, 3]);
    expected.extend(&3u64.to_le_bytes());
    expected.extend(&1u64.to_le_bytes());
    expected.extend(&[9]);
    expected.extend(&2u64.to_le_bytes());
    expected.extend(&[8, 7]);
    expected.extend(&0u64.to_le_bytes());
    assert_eq!(written, expected);
}

#[test]
fn an_acknowledgment_is_written_as_it_is_encoded() {
    let roster = roster();
    let ack = Acknowledgment(3, 1, vec![4, 5], vec![vec![6], Vec::new()]);
    let written = write_acknowledgment(0, &roster, &ack);
    let encoded = serialize(&(
        4u32,
        0u64,
        (&roster.xornames, &roster.shares, &roster.available, roster.epochid),
        (ack.0, ack.1, &ack.2, &ack.3),
    ))
    .unwrap();
    assert_eq!(written, encoded);
}

#[test]
fn copies_hold_what_was_copied() {
    assert_eq!(copy_bytes(&vec![1, 2, 3]), vec![1, 2, 3]);
    assert_eq!(copy_indices(&vec![7, 8]), vec![7, 8]);
    let rows = vec![vec![1], Vec::new(), vec![2, 3]];
    assert_eq!(copy_rows(&rows), rows);
    assert_eq!(part().duplicate(), part());
    let ack = Acknowledgment(3, 1, vec![4, 5], vec![vec![6], Vec::new()]);
    assert_eq!(ack.duplicate(), ack);
}

#[test]
fn the_complaint_of_absence() {
    assert_eq!(not_contributed_bytes(), b"Not contributed".to_vec());
}

#[test]
fn the_zeros_are_those_of_the_curve() {
    assert_eq!(zero_commitment(), serialize(&Poly::zero().commitment()).unwrap());
    let zero: Fr = Poly::zero().evaluate(0);
    assert_eq!(zero_value(), serialize(&FieldWrap(zero)).unwrap());
}

#[test]
fn errors_in_words() {
    assert_eq!(Error::Unknown.message(), "Unknown");
    assert_eq!(Error::UnknownSender.message(), "Unknown sender");
    assert_eq!(
        Error::Serialization("no more bytes".to_string()).message(),
        "Serialization error: no more bytes"
    );
    assert_eq!(Error::QuicP2P("closed".to_string()).message(), "QuicP2P error: closed");
    assert_eq!(Error::Encryption.message(), "Encryption error");
    let faulty: BTreeSet<u64> = vec![0, 2].into_iter().collect();
    assert_eq!(Error::TooManyNonVoters(faulty).message(), "Too many non-voters error");
    assert_eq!(
        Error::UnexpectedPhase { expected: Phase::Contribution, actual: Phase::Complaining }
            .message(),
        "Unexpected phase"
    );
}

#[test]
fn an_error_of_the_encoding_is_an_error_of_serialization() {
    let error = bincode::deserialize::<u64>(&[1, 2]).unwrap_err();
    let words = format!("{:?}", error);
    assert_eq!(serialization_error(error), Error::Serialization(words));
}

#[test]
fn faults_in_words() {
    assert_eq!(
        AcknowledgmentFault::ValueCount.message(),
        "The number of values differs from the number of nodes"
    );
    assert_eq!(AcknowledgmentFault::MissingPart.message(), "No corresponding Part received");
    assert_eq!(AcknowledgmentFault::DecryptValue.message(), "Value decryption failed");
    assert_eq!(AcknowledgmentFault::DeserializeValue.message(), "Value deserialization failed");
    assert_eq!(AcknowledgmentFault::ValueAcknowledgment.message(), "Value doesn't match the ack");
    assert_eq!(
        PartFault::RowCount.message(),
        "The number of rows differs from the number of nodes"
    );
    assert_eq!(
        PartFault::MultipleParts.message(),
        "Received multiple different Part messages from the same sender"
    );
    assert_eq!(PartFault::DecryptRow.message(), "Could not decrypt our row in the Part message");
    assert_eq!(
        PartFault::DeserializeRow.message(),
        "Could not deserialize our row in the Part message"
    );
    assert_eq!(PartFault::RowAcknowledgment.message(), "Row does not match the ack");
}

#[test]
fn a_part_is_complete_with_more_acknowledgments_than_the_threshold() {
    let mut state = ProposalState::new(vec![1, 2]);
    assert_eq!(state.commitment, vec![1, 2]);
    assert!(!state.is_complete(0));
    let _ = state.acks.insert(4);
    let _ = state.acks.insert(1);
    let _ = state.acks.insert(4);
    assert!(state.is_complete(0));
    assert!(state.is_complete(1));
    assert!(!state.is_complete(2));
}

#[test]
fn the_values_of_a_part_are_kept_by_their_points() {
    let mut state = ProposalState::new(Vec::new());
    state.insert_value(5, vec![50]);
    state.insert_value(2, vec![20]);
    state.insert_value(9, vec![90]);
    state.insert_value(5, vec![55]);
    assert_eq!(state.points, vec![2, 5, 9]);
    assert_eq!(state.values, vec![vec![20], vec![55], vec![90]]);
}

#[test]
fn the_secret_of_a_part_is_the_value_at_zero_of_the_polynomial_through_its_first_values() {
    let mut rng = rand::thread_rng();
    let poly = Poly::random(2, &mut rng);
    let mut state = ProposalState::new(Vec::new());
    for point in [7u64, 3, 5, 4] {
        let value: Fr = poly.evaluate(point);
        state.insert_value(point, serialize(&FieldWrap(value)).unwrap());
    }
    let at_zero: Fr = poly.evaluate(0);
    assert_eq!(state.secret(2).unwrap(), serialize(&FieldWrap(at_zero)).unwrap());
    assert_eq!(state.secret(3).unwrap(), serialize(&FieldWrap(at_zero)).unwrap());
    let line = Poly::interpolate(vec![(3u64, poly.evaluate(3u64)), (4u64, poly.evaluate(4u64))]);
    let line_at_zero: Fr = line.evaluate(0);
    assert_eq!(state.secret(1).unwrap(), serialize(&FieldWrap(line_at_zero)).unwrap());
    assert_ne!(state.secret(1).unwrap(), state.secret(2).unwrap());
    state.insert_value(6, vec![1, 2, 3]);
    assert!(state.secret(9).is_err());
}

#[test]
fn an_outcome_holds_the_two_keys() {
    let outcome = Outcome::new(vec![1, 2], vec![3]);
    assert_eq!(outcome.public_key_set, vec![1, 2]);
    assert_eq!(outcome.secret_key_share, vec![3]);
}

#[test]
fn the_degrees_whose_coefficients_fit_a_vector() {
    assert!(fits(0));
    assert!(fits(5));
    assert!(fits(10_000));
    assert!(!fits(usize::MAX));
    assert!(!fits(usize::MAX - 1));
    assert!(!fits(usize::MAX - 2));
    let room = (isize::MAX as usize) / 32;
    let mut side: usize = 1;
    while (side + 1) * (side + 1) <= room {
        side *= 2;
    }
    while side * side > room {
        side -= 1;
    }
    assert!(fits(side - 2));
    assert!(!fits(side - 1));
}

#[test]
fn the_fault_of_a_row() {
    let commitment = Some(vec![1, 2, 3]);
    assert_eq!(row_fault_of(&commitment, &Some(vec![1, 2, 3])), None);
    assert_eq!(row_fault_of(&commitment, &Some(vec![1, 2])), Some(PartFault::RowAcknowledgment));
    assert_eq!(row_fault_of(&commitment, &Some(vec![1, 2, 4])), Some(PartFault::RowAcknowledgment));
    assert_eq!(row_fault_of(&commitment, &None), Some(PartFault::DeserializeRow));
    assert_eq!(row_fault_of(&None, &Some(vec![1, 2, 3])), Some(PartFault::RowAcknowledgment));
    assert_eq!(row_fault_of(&None, &None), Some(PartFault::RowAcknowledgment));
}

#[test]
fn the_fault_of_a_value() {
    let point = Some(vec![7, 8]);
    assert_eq!(value_fault_of(&point, &Some(vec![7, 8])), None);
    assert_eq!(
        value_fault_of(&point, &Some(vec![7, 9])),
        Some(AcknowledgmentFault::ValueAcknowledgment)
    );
    assert_eq!(value_fault_of(&point, &None), Some(AcknowledgmentFault::ValueAcknowledgment));
    assert_eq!(
        value_fault_of(&None, &Some(vec![7, 8])),
        Some(AcknowledgmentFault::DeserializeValue)
    );
    assert_eq!(value_fault_of(&None, &None), Some(AcknowledgmentFault::DeserializeValue));
}

#[test]
fn what_the_curve_yielded() {
    assert_eq!(yielded(Ok(vec![1, 2])), Some(vec![1, 2]));
    assert_eq!(yielded(bincode::serialize(&5u8)), Some(vec![5]));
    let failed = bincode::deserialize::<u64>(&[1, 2]).map(|number| vec![number as u8]);
    assert_eq!(yielded(failed), None);
}

#[test]
fn one_more_encryption() {
    assert_eq!(with_encrypted(Vec::new(), Some(vec![1, 2])), Some(vec![vec![1, 2]]));
    assert_eq!(
        with_encrypted(vec![vec![9], Vec::new()], Some(vec![3])),
        Some(vec![vec![9], Vec::new(), vec![3]])
    );
    assert_eq!(with_encrypted(vec![vec![9]], Some(Vec::new())), Some(vec![vec![9], Vec::new()]));
    assert_eq!(with_encrypted(vec![vec![9]], None), None);
    assert_eq!(with_encrypted(Vec::new(), None), None);
}

#[test]
fn the_error_of_serialization_holds_its_words() {
    assert_eq!(
        Error::serialization("no more bytes".to_string()),
        Error::Serialization("no more bytes".to_string())
    );
    assert_eq!(Error::serialization(String::new()), Error::Serialization(String::new()));
}
