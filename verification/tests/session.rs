use bincode::{deserialize, serialize};
use bls_dkg::key_gen::encryptor::{Encryptor, Iv, Key};
use bls_dkg::key_gen::message::Message;
use bls_dkg::key_gen::mode::Mode;
use bls_dkg::key_gen::outcome::Outcome;
use bls_dkg::key_gen::sharexorname::ShareXorName;
use bls_dkg::key_gen::{Error, KeyGen, Phase};
use std::collections::BTreeMap;
use threshold_crypto::poly::{BivarCommitment, Poly};
use threshold_crypto::serde_impl::{FieldWrap, SerdeSecret};
use threshold_crypto::{Fr, PublicKeySet, SecretKeyShare, SignatureShare};
use xor_name::XorName;

struct Plain;

impl Encryptor for Plain {
    fn encrypt(&self, _peer: &XorName, plaintext: &Vec<u8>) -> Option<Vec<u8>> {
        let mut ciphertext = plaintext.clone();
        ciphertext.reverse();
        Some(ciphertext)
    }

    fn decrypt(&self, _peer: &XorName, ciphertext: &Vec<u8>) -> Option<Vec<u8>> {
        let mut plaintext = ciphertext.clone();
        plaintext.reverse();
        Some(plaintext)
    }

    fn keys_map(&self) -> Vec<(XorName, (Key, Iv))> {
        Vec::new()
    }
}

fn name(first: u8) -> XorName {
    let mut name = XorName::default();
    name.0[0] = first;
    name
}

fn names(count: u8) -> Vec<XorName> {
    (1..=count).map(name).collect()
}

fn start(count: u8, threshold: usize) -> (Vec<KeyGen<Plain>>, Vec<Message>) {
    let names = names(count);
    let context = ShareXorName::from_xornames(names.clone());
    let mut nodes = Vec::new();
    let mut announcements = Vec::new();
    for id in &names {
        let (node, message) = KeyGen::initialize(
            *id,
            threshold,
            names.clone(),
            context.clone(),
            Mode::Initial,
            Plain,
        )
        .expect("a participant can start the session");
        nodes.push(node);
        announcements.push(message);
    }
    (nodes, announcements)
}

/// Hands every message to every node but those of `silent`, and collects what they answer.
/// A message that comes too late for its phase is turned away, and that is all.
fn deliver(
    nodes: &mut Vec<KeyGen<Plain>>,
    messages: Vec<Message>,
    silent: &[usize],
) -> Vec<Message> {
    let mut rng = rand::thread_rng();
    let mut answers = Vec::new();
    for message in messages {
        for (index, node) in nodes.iter_mut().enumerate() {
            if silent.contains(&index) {
                continue;
            }
            match node.handle_message(&mut rng, message.clone()) {
                Ok(sent) => answers.extend(sent),
                Err(Error::UnexpectedPhase { .. }) => {}
                Err(error) => panic!("the message was not handled: {:?}", error),
            }
        }
    }
    answers
}

/// Runs the messages until no node answers any more.
fn settle(nodes: &mut Vec<KeyGen<Plain>>, mut messages: Vec<Message>, silent: &[usize]) {
    while !messages.is_empty() {
        messages = deliver(nodes, messages, silent);
    }
}

fn keys(outcome: &Outcome) -> (PublicKeySet, SecretKeyShare) {
    let public: PublicKeySet = deserialize(&outcome.public_key_set).expect("a public key set");
    let secret: SerdeSecret<SecretKeyShare> =
        deserialize(&outcome.secret_key_share).expect("a secret key share");
    (public, secret.into_inner())
}

fn check_threshold_signing(outcomes: &[(u64, Outcome)], threshold: usize) {
    let (public, _) = keys(&outcomes[0].1);
    assert_eq!(public.threshold(), threshold);
    let text = "Hello from the group!";
    let mut shares: BTreeMap<u64, SignatureShare> = BTreeMap::new();
    for (index, outcome) in outcomes {
        let (their_public, secret) = keys(outcome);
        assert_eq!(their_public, public);
        assert_eq!(outcome.public_key_set, outcomes[0].1.public_key_set);
        assert_eq!(secret.public_key_share(), public.public_key_share(*index));
        let _ = shares.insert(*index, secret.sign(text));
    }
    assert!(public
        .public_key_share(outcomes[0].0)
        .verify(&shares[&outcomes[0].0], text));
    let enough: Vec<(u64, &SignatureShare)> =
        shares.iter().take(threshold + 1).map(|(i, s)| (*i, s)).collect();
    let signature = public.combine_signatures(enough).expect("enough shares");
    assert!(public.public_key().verify(&signature, text));
    let other: Vec<(u64, &SignatureShare)> =
        shares.iter().rev().take(threshold + 1).map(|(i, s)| (*i, s)).collect();
    let again = public.combine_signatures(other).expect("enough shares");
    assert_eq!(serialize(&again).unwrap(), serialize(&signature).unwrap());
    let few: Vec<(u64, &SignatureShare)> =
        shares.iter().take(threshold).map(|(i, s)| (*i, s)).collect();
    match public.combine_signatures(few) {
        Ok(_) => panic!("too few shares were combined"),
        Err(error) => assert_eq!(format!("{:?}", error), "NotEnoughShares".to_string()),
    }
}

fn check_threshold_decryption(outcomes: &[(u64, Outcome)], threshold: usize) {
    let (public, _) = keys(&outcomes[0].1);
    let text = "Help for threshold encryption unit test!".as_bytes();
    let ciphertext = public.public_key().encrypt(text);
    let mut shares = BTreeMap::new();
    for (index, outcome) in outcomes {
        let (_, secret) = keys(outcome);
        let _ = shares.insert(*index, secret.decrypt_share_no_verify(&ciphertext));
    }
    let enough: Vec<_> = shares.iter().take(threshold + 1).map(|(i, s)| (*i, s)).collect();
    let decrypted = public.decrypt(enough, &ciphertext).expect("enough shares");
    assert_eq!(text, decrypted.as_slice());
    let few: Vec<_> = shares.iter().take(threshold).map(|(i, s)| (*i, s)).collect();
    match public.decrypt(few, &ciphertext) {
        Ok(_) => panic!("too few shares decrypted"),
        Err(error) => assert_eq!(format!("{:?}", error), "NotEnoughShares".to_string()),
    }
}

fn outcomes(nodes: &[KeyGen<Plain>], of: &[usize]) -> Vec<(u64, Outcome)> {
    of.iter()
        .map(|index| {
            let node = &nodes[*index];
            let (members, outcome) = node.generate_keys().expect("the session is final");
            assert_eq!(&members, node.pub_keys());
            let our_index = members
                .iter()
                .position(|id| *id == name(*index as u8 + 1))
                .expect("we are a participant") as u64;
            (our_index, outcome)
        })
        .collect()
}

#[test]
fn an_honest_session_ends_with_keys_that_sign_with_one_share_over_the_threshold() {
    let (mut nodes, announcements) = start(4, 2);
    settle(&mut nodes, announcements, &[]);
    for node in &nodes {
        assert!(node.all_contribution_received());
        assert_eq!(Phase::Finalization, node.phase());
        assert!(node.is_ready());
        assert_eq!(node.complete_parts_count(), 4);
        assert_eq!(node.possible_blockers(), Vec::new());
    }
    let outcomes = outcomes(&nodes, &[0, 1, 2, 3]);
    check_threshold_signing(&outcomes, 2);
}

#[test]
fn an_honest_session_ends_with_keys_that_decrypt_with_one_share_over_the_threshold() {
    let (mut nodes, announcements) = start(3, 1);
    settle(&mut nodes, announcements, &[]);
    for node in &nodes {
        assert_eq!(Phase::Finalization, node.phase());
    }
    let outcomes = outcomes(&nodes, &[0, 1, 2]);
    check_threshold_decryption(&outcomes, 1);
}

#[test]
fn a_session_of_three_with_the_threshold_two_yields_keys_to_all() {
    let (mut nodes, announcements) = start(3, 2);
    settle(&mut nodes, announcements, &[]);
    let outcomes = outcomes(&nodes, &[0, 1, 2]);
    for (_, outcome) in &outcomes {
        assert_eq!(outcome.public_key_set, outcomes[0].1.public_key_set);
    }
    check_threshold_signing(&outcomes, 2);
}

#[test]
fn the_roster_after_churn_serves_a_new_session() {
    let mut roster = ShareXorName::from_xornames(names(3));
    roster.to_new_xornames(names(4));
    assert_eq!(roster.xornames, names(4));
    assert_eq!(roster.shares, vec![0, 1, 2, 3]);
    roster.epochid = 1;
    let members = roster.xornames.clone();
    let threshold = members.len() * 2 / 3;
    assert_eq!(threshold, 2);
    let mut nodes = Vec::new();
    let mut announcements = Vec::new();
    for id in &members {
        let (node, message) = KeyGen::initialize(
            *id,
            threshold,
            members.clone(),
            roster.snapshot(),
            Mode::Refresh,
            Plain,
        )
        .unwrap();
        assert_eq!(message.get_epoch(), 1);
        nodes.push(node);
        announcements.push(message);
    }
    settle(&mut nodes, announcements, &[]);
    assert!(nodes.iter().all(|node| node.generate_keys().is_some()));
}

#[test]
fn a_silent_participant_is_complained_about_and_left_out_of_the_second_round() {
    let mut rng = rand::thread_rng();
    let (mut nodes, announcements) = start(4, 2);
    let proposals = deliver(&mut nodes, announcements, &[]);
    assert_eq!(proposals.len(), 16);
    for node in &nodes {
        assert_eq!(node.phase(), Phase::Contribution);
    }
    let honest: Vec<Message> = proposals
        .into_iter()
        .filter(|message| match message {
            Message::Proposal { key_gen_id, .. } => *key_gen_id != 0,
            _ => false,
        })
        .collect();
    settle(&mut nodes, honest, &[0]);
    let mut complaints = Vec::new();
    for node in nodes.iter_mut().skip(1) {
        assert_eq!(node.phase(), Phase::Contribution);
        assert!(!node.all_contribution_received());
        assert_eq!(node.possible_blockers(), vec![name(1)]);
        assert_eq!(node.non_contributors(), (vec![0], vec![name(1)]));
        let sent = node.timed_phase_transition(&mut rng).unwrap();
        assert_eq!(sent.len(), 1);
        match &sent[0] {
            Message::Complaint { target, msg, .. } => {
                assert_eq!(*target, 0);
                assert_eq!(msg, &b"Not contributed".to_vec());
            }
            other => panic!("not a complaint: {:?}", other),
        }
        assert_eq!(node.phase(), Phase::Complaining);
        assert_eq!(node.possible_blockers(), Vec::new());
        complaints.extend(sent);
    }
    assert_eq!(deliver(&mut nodes, complaints, &[0]), Vec::new());
    let mut proposals = Vec::new();
    for node in nodes.iter_mut().skip(1) {
        let sent = node.timed_phase_transition(&mut rng).unwrap();
        assert_eq!(sent.len(), 3);
        assert_eq!(node.phase(), Phase::Commitment);
        assert_eq!(node.pub_keys(), &vec![name(2), name(3), name(4)]);
        assert_eq!(node.complete_parts_count(), 0);
        proposals.extend(sent);
    }
    settle(&mut nodes, proposals, &[0]);
    for node in nodes.iter().skip(1) {
        assert_eq!(node.phase(), Phase::Finalization);
        assert_eq!(node.pub_keys().len(), 3);
    }
    let outcomes = outcomes(&nodes, &[1, 2, 3]);
    check_threshold_signing(&outcomes, 2);
}

#[test]
fn proposals_carry_rows_that_match_their_commitment() {
    let (mut nodes, announcements) = start(3, 1);
    let proposals = deliver(&mut nodes, announcements, &[1, 2]);
    assert_eq!(proposals.len(), 3);
    for (index, message) in proposals.iter().enumerate() {
        match message {
            Message::Proposal { key_gen_id, context, part } => {
                assert_eq!(*key_gen_id, 0);
                assert_eq!(context, &ShareXorName::from_xornames(names(3)));
                assert_eq!(part.receiver, index as u64);
                assert_eq!(part.enc_rows.len(), 3);
                let commitment: BivarCommitment = deserialize(&part.commitment).unwrap();
                assert_eq!(commitment.degree(), 1);
                let row: Poly = deserialize(&part.ser_row).unwrap();
                assert_eq!(row.commitment(), commitment.row(index as u64 + 1));
                let mut encrypted = part.ser_row.clone();
                encrypted.reverse();
                assert_eq!(part.enc_rows[index], encrypted);
                match &proposals[0] {
                    Message::Proposal { part: first, .. } => {
                        assert_eq!(part.commitment, first.commitment);
                        assert_eq!(part.enc_rows, first.enc_rows);
                    }
                    _ => panic!("not a proposal"),
                }
            }
            other => panic!("not a proposal: {:?}", other),
        }
    }
}

#[test]
fn acknowledgments_carry_the_values_of_the_row() {
    let mut rng = rand::thread_rng();
    let (mut nodes, announcements) = start(3, 1);
    let proposals = deliver(&mut nodes, announcements, &[1, 2]);
    let for_second = proposals[1].clone();
    let row: Poly = match &for_second {
        Message::Proposal { part, .. } => deserialize(&part.ser_row).unwrap(),
        _ => panic!("not a proposal"),
    };
    let mut second = nodes.remove(1);
    let _ = second.handle_message(&mut rng, Message::Initialization {
        key_gen_id: 0,
        context: ShareXorName::from_xornames(names(3)),
        m: 1,
        n: 3,
        member_list: names(3),
        mode: Mode::Initial,
    });
    assert_eq!(second.phase(), Phase::Contribution);
    let acks = second.handle_message(&mut rng, for_second).unwrap();
    assert_eq!(acks.len(), 3);
    for (index, message) in acks.iter().enumerate() {
        match message {
            Message::Acknowledgment { key_gen_id, ack, .. } => {
                assert_eq!(*key_gen_id, 1);
                assert_eq!(ack.0, 0);
                assert_eq!(ack.1, index as u64);
                let value: Fr = row.evaluate(index as u64 + 1);
                assert_eq!(ack.2, serialize(&FieldWrap(value)).unwrap());
                assert_eq!(ack.3.len(), 3);
                let mut encrypted = ack.2.clone();
                encrypted.reverse();
                assert_eq!(ack.3[index], encrypted);
            }
            other => panic!("not an acknowledgment: {:?}", other),
        }
    }
}

#[test]
fn the_keys_of_a_session_without_complete_parts_are_those_of_the_zero_polynomial() {
    let node = KeyGen::initialize_for_test(
        name(1),
        0,
        names(2),
        0,
        Phase::Finalization,
        ShareXorName::from_xornames(names(2)),
        Mode::Initial,
        Plain,
    );
    let (members, outcome) = node.generate_keys().expect("the session is final");
    assert_eq!(members, names(2));
    assert_eq!(outcome.public_key_set, serialize(&Poly::zero().commitment()).unwrap());
    let zero: Fr = Poly::zero().evaluate(0);
    assert_eq!(outcome.secret_key_share, serialize(&FieldWrap(zero)).unwrap());
    assert_eq!(outcome.public_key_set, vec![0u8; 8]);
    assert_eq!(outcome.secret_key_share, vec![0u8; 32]);
}

#[test]
fn there_are_no_keys_before_the_session_is_final() {
    let (mut nodes, announcements) = start(3, 2);
    assert_eq!(nodes[0].generate_keys(), None);
    let _ = deliver(&mut nodes, announcements, &[]);
    assert_eq!(nodes[0].phase(), Phase::Contribution);
    assert_eq!(nodes[0].generate_keys(), None);
}

#[test]
fn a_session_cannot_start_with_fewer_participants_than_the_threshold() {
    let context = ShareXorName::from_xornames(names(3));
    let made = KeyGen::initialize(name(1), 4, names(3), context.clone(), Mode::Initial, Plain);
    assert_eq!(made.err(), Some(Error::Unknown));
    let made = KeyGen::initialize(name(1), 3, names(3), context, Mode::Initial, Plain);
    assert!(made.is_ok());
}

#[test]
fn a_session_cannot_be_started_by_a_stranger() {
    let context = ShareXorName::from_xornames(names(3));
    let made = KeyGen::initialize(name(9), 2, names(3), context, Mode::Initial, Plain);
    assert_eq!(made.err(), Some(Error::Unknown));
}

#[test]
fn a_session_starts_with_its_announcement() {
    let mut context = ShareXorName::from_xornames(names(3));
    context.epochid = 5;
    let members = vec![name(3), name(1), name(2), name(3)];
    let (node, message) = KeyGen::initialize(
        name(2),
        2,
        members,
        context.clone(),
        Mode::Recovery(4),
        Plain,
    )
    .unwrap();
    assert_eq!(node.phase(), Phase::Initialization);
    assert_eq!(node.our_id(), name(2));
    assert_eq!(node.threshold(), 2);
    assert_eq!(node.mode(), Mode::Recovery(4));
    assert_eq!(node.context().get_epoch(), 5);
    assert_eq!(node.pub_keys(), &names(3));
    assert_eq!(node.node_index(&name(2)), Some(1));
    assert_eq!(node.node_index(&name(7)), None);
    assert_eq!(node.node_id_from_index(2), Some(name(3)));
    assert_eq!(node.node_id_from_index(3), None);
    assert_eq!(
        message,
        Message::Initialization {
            key_gen_id: 1,
            context,
            m: 2,
            n: 3,
            member_list: names(3),
            mode: Mode::Recovery(4),
        }
    );
    assert_eq!(node.possible_blockers(), names(3));
}
