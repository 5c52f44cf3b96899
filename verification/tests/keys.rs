use bincode::{deserialize, serialize};
use bls_dkg::key_gen::encryptor::{Encryptor, Iv, Key};
use bls_dkg::key_gen::message::{Acknowledgment, Message, Part};
use bls_dkg::key_gen::mode::Mode;
use bls_dkg::key_gen::sharexorname::ShareXorName;
use bls_dkg::key_gen::{KeyGen, Phase};
use threshold_crypto::ff::Field;
use threshold_crypto::poly::{BivarCommitment, BivarPoly, Commitment, Poly};
use threshold_crypto::serde_impl::{FieldWrap, SerdeSecret};
use threshold_crypto::{DecryptionShare, Fr, PublicKeySet, SecretKeyShare, SignatureShare};
use xor_name::XorName;

const NODE_NUM: usize = 7;
const THRESHOLD: usize = 5;

struct Plain;

impl Encryptor for Plain {
    fn encrypt(&self, _peer: &XorName, plaintext: &Vec<u8>) -> Option<Vec<u8>> {
        Some(plaintext.clone())
    }

    fn decrypt(&self, _peer: &XorName, ciphertext: &Vec<u8>) -> Option<Vec<u8>> {
        Some(ciphertext.clone())
    }

    fn keys_map(&self) -> Vec<(XorName, (Key, Iv))> {
        Vec::new()
    }
}

fn name(first: u8) -> XorName {
    let mut name = XorName::default();
    name.0[0] = first;
    name
}

/// What one participant's session yields, and what the curve says it should.
struct Run {
    member: KeyGen<Plain>,
    pub_key_set: PublicKeySet,
    our_share: SecretKeyShare,
    expected_key_set: PublicKeySet,
    expected_shares: Vec<SecretKeyShare>,
}

/// The participant with the index `ours` runs the session of the library. The others are
/// played with the curve's own polynomials: their proposals and all acknowledgments are
/// made from these.
fn run_member(context: &ShareXorName, threshold: usize, ours: u64) -> Run {
    let mut rng = rand::thread_rng();
    let names = context.xornames.clone();
    let count = names.len();
    let (mut member, _) = KeyGen::initialize(
        names[ours as usize],
        threshold,
        names.clone(),
        context.snapshot(),
        Mode::Initial,
        Plain,
    )
    .unwrap();

    let mut our_proposals = Vec::new();
    for sender in 0..threshold as u64 {
        our_proposals = member
            .handle_message(
                &mut rng,
                Message::Initialization {
                    key_gen_id: sender,
                    context: context.snapshot(),
                    m: threshold,
                    n: count,
                    member_list: names.clone(),
                    mode: Mode::Initial,
                },
            )
            .unwrap();
    }
    assert_eq!(member.phase(), Phase::Contribution);
    assert_eq!(our_proposals.len(), count);
    let our_parts: Vec<Part> = our_proposals
        .iter()
        .map(|message| match message {
            Message::Proposal { part, .. } => part.clone(),
            other => panic!("not a proposal: {:?}", other),
        })
        .collect();
    let our_rows: Vec<Poly> = our_parts
        .iter()
        .map(|part| deserialize(&part.ser_row).unwrap())
        .collect();
    let our_commitment: BivarCommitment = deserialize(&our_parts[0].commitment).unwrap();

    let polys: Vec<Option<BivarPoly>> = (0..count as u64)
        .map(|proposer| {
            if proposer == ours {
                None
            } else {
                Some(BivarPoly::random(threshold, &mut rng))
            }
        })
        .collect();
    let blank: Vec<Vec<u8>> = vec![Vec::new(); count];

    for proposer in 0..count as u64 {
        let part = match &polys[proposer as usize] {
            Some(poly) => Part {
                receiver: ours,
                commitment: serialize(&poly.commitment()).unwrap(),
                ser_row: serialize(&poly.row(ours + 1)).unwrap(),
                enc_rows: blank.clone(),
            },
            None => our_parts[ours as usize].clone(),
        };
        let acks = member
            .handle_message(
                &mut rng,
                Message::Proposal { key_gen_id: proposer, context: context.snapshot(), part },
            )
            .unwrap();
        assert_eq!(acks.len(), count);
    }
    assert_eq!(member.possible_blockers(), Vec::new());
    assert!(!member.all_contribution_received());

    for proposer in 0..count as u64 {
        for sender in 0..count as u64 {
            let value: Fr = match &polys[proposer as usize] {
                Some(poly) => poly.evaluate(sender + 1, ours + 1),
                None => our_rows[sender as usize].evaluate(ours + 1),
            };
            let ser_value = serialize(&FieldWrap(value)).unwrap();
            let ack = Acknowledgment(proposer, ours, ser_value, blank.clone());
            let sent = member
                .handle_message(
                    &mut rng,
                    Message::Acknowledgment {
                        key_gen_id: sender,
                        context: context.snapshot(),
                        ack,
                    },
                )
                .unwrap();
            assert_eq!(sent, Vec::new());
        }
    }

    let (members, outcome) = member.generate_keys().expect("the session is final");
    assert_eq!(members, names);
    let pub_key_set: PublicKeySet = deserialize(&outcome.public_key_set).unwrap();
    let our_share: SecretKeyShare =
        deserialize::<SerdeSecret<SecretKeyShare>>(&outcome.secret_key_share)
            .unwrap()
            .into_inner();

    let mut sum: Commitment = Poly::zero().commitment();
    for proposer in 0..count {
        match &polys[proposer] {
            Some(poly) => sum += poly.commitment().row(0),
            None => sum += our_commitment.row(0),
        }
    }
    let expected_shares: Vec<SecretKeyShare> = (0..count as u64)
        .map(|index| {
            let mut share = Fr::zero();
            for proposer in 0..count {
                let value: Fr = match &polys[proposer] {
                    Some(poly) => poly.evaluate(0, index + 1),
                    None => our_rows[index as usize].evaluate(0),
                };
                share.add_assign(&value);
            }
            SecretKeyShare::from_mut(&mut share)
        })
        .collect();
    Run {
        member,
        pub_key_set,
        our_share,
        expected_key_set: PublicKeySet::from(sum),
        expected_shares,
    }
}

#[test]
fn member_basics_test() {
    let names: Vec<XorName> = (1..=NODE_NUM as u8).map(name).collect();
    let context = ShareXorName::from_xornames(names);
    let ours: u64 = 2;
    let run = run_member(&context, THRESHOLD, ours);

    assert!(run.member.all_contribution_received());
    assert_eq!(Phase::Finalization, run.member.phase());
    assert!(run.member.is_ready());
    assert_eq!(run.member.complete_parts_count(), NODE_NUM);

    let pub_key_set = run.pub_key_set;
    assert_eq!(pub_key_set, run.expected_key_set);
    assert_eq!(pub_key_set.threshold(), THRESHOLD);
    assert_eq!(run.our_share, run.expected_shares[ours as usize]);
    assert_eq!(run.our_share.public_key_share(), pub_key_set.public_key_share(ours));

    let msg = "Hello from the group!";
    let sig_shares: Vec<(usize, SignatureShare)> = run
        .expected_shares
        .iter()
        .enumerate()
        .map(|(index, share)| {
            let share = if index as u64 == ours { &run.our_share } else { share };
            (index, share.sign(msg))
        })
        .collect();
    assert!(pub_key_set
        .public_key_share(ours)
        .verify(&sig_shares[ours as usize].1, msg));

    let mut signatures = Vec::new();
    for left_out in 0..NODE_NUM {
        let combination: Vec<(usize, &SignatureShare)> = sig_shares
            .iter()
            .filter(|(index, _)| *index != left_out)
            .map(|(i, s)| (*i, s))
            .collect();
        assert_eq!(combination.len(), THRESHOLD + 1);
        let sig = pub_key_set.combine_signatures(combination).expect("signature shares match");
        assert!(pub_key_set.public_key().verify(&sig, msg));
        signatures.push(serialize(&sig).unwrap());
    }
    for pair in signatures.windows(2) {
        assert_eq!(pair[0], pair[1]);
    }
    for first in 0..NODE_NUM {
        for second in first + 1..NODE_NUM {
            let deficient: Vec<(usize, &SignatureShare)> = sig_shares
                .iter()
                .filter(|(index, _)| *index != first && *index != second)
                .map(|(i, s)| (*i, s))
                .collect();
            assert_eq!(deficient.len(), THRESHOLD);
            match pub_key_set.combine_signatures(deficient) {
                Ok(_) => panic!(
                    "Unexpected Success: Signatures cannot be aggregated with THRESHOLD shares"
                ),
                Err(e) => assert_eq!(format!("{:?}", e), "NotEnoughShares".to_string()),
            }
        }
    }

    let msg = "Help for threshold encryption unit test!".as_bytes();
    let ciphertext = pub_key_set.public_key().encrypt(msg);
    let dec_shares: Vec<(usize, DecryptionShare)> = run
        .expected_shares
        .iter()
        .enumerate()
        .map(|(index, share)| {
            let share = if index as u64 == ours { &run.our_share } else { share };
            (index, share.decrypt_share_no_verify(&ciphertext))
        })
        .collect();
    for left_out in 0..NODE_NUM {
        let combination: Vec<(usize, &DecryptionShare)> = dec_shares
            .iter()
            .filter(|(index, _)| *index != left_out)
            .map(|(i, s)| (*i, s))
            .collect();
        let decrypted = pub_key_set.decrypt(combination, &ciphertext).unwrap();
        assert_eq!(msg, decrypted.as_slice());
    }
    for first in 0..NODE_NUM {
        for second in first + 1..NODE_NUM {
            let deficient: Vec<(usize, &DecryptionShare)> = dec_shares
                .iter()
                .filter(|(index, _)| *index != first && *index != second)
                .map(|(i, s)| (*i, s))
                .collect();
            match pub_key_set.decrypt(deficient, &ciphertext) {
                Ok(_) => {
                    panic!("Unexpected Success: Cannot decrypt by aggregating THRESHOLD shares")
                }
                Err(e) => assert_eq!(format!("{:?}", e), "NotEnoughShares".to_string()),
            }
        }
    }
}

/// The rosters of a group that starts with three participants, grows to four, five and six,
/// and then loses one: the roster after each change, with the threshold of its session.
fn churn() -> Vec<(ShareXorName, usize)> {
    let mut all: Vec<XorName> = (1..=3u8).map(|first| name(first * 10)).collect();
    let mut roster = ShareXorName::from_xornames(all.clone());
    let mut joining = vec![name(25), name(5), name(35)];
    let mut rosters = Vec::new();
    let mut rounds = 3;
    while rounds < 7 {
        let before = roster.clone();
        if all.len() < NODE_NUM - 1 && !joining.is_empty() {
            all.push(joining.remove(0));
        } else {
            let _ = all.remove(1);
        }
        rounds += 1;
        roster.to_new_xornames(all.clone());
        roster.epochid += 1;
        assert_eq!(roster.xornames.len(), all.len());
        for id in &all {
            if before.get_share(*id).is_some() {
                assert_eq!(before.get_share(*id), roster.get_share(*id));
            }
        }
        let threshold: usize = all.len() * 2 / 3;
        rosters.push((roster.clone(), threshold));
    }
    assert_eq!(all.len(), 5);
    assert_eq!(roster.get_epoch(), 4);
    rosters
}

fn session_after_churn(roster: &ShareXorName, threshold: usize) {
    let run = run_member(roster, threshold, 0);
    assert_eq!(run.member.phase(), Phase::Finalization);
    assert!(run.member.generate_keys().is_some());
    assert_eq!(run.pub_key_set, run.expected_key_set);
    assert_eq!(run.our_share, run.expected_shares[0]);
}

#[test]
fn churn_test() {
    let rosters = churn();
    let sizes: Vec<(usize, usize)> =
        rosters.iter().map(|(roster, threshold)| (roster.xornames.len(), *threshold)).collect();
    assert_eq!(sizes, vec![(4, 2), (5, 3), (6, 4), (5, 3)]);
    session_after_churn(&rosters[0].0, rosters[0].1);
    session_after_churn(&rosters[1].0, rosters[1].1);
}

#[test]
fn churn_test_of_six() {
    let rosters = churn();
    session_after_churn(&rosters[2].0, rosters[2].1);
}

#[test]
fn churn_test_after_one_left() {
    let rosters = churn();
    assert_eq!(rosters[3].0.available.len(), 1);
    session_after_churn(&rosters[3].0, rosters[3].1);
}
