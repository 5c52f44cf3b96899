use bls_dkg::key_gen::complaints::ComplaintsAccumulator;
use bls_dkg::key_gen::initialization::InitializationAccumulator;
use xor_name::XorName;

fn name(first: u8) -> XorName {
    let mut name = XorName::default();
    name.0[0] = first;
    name
}

fn names(firsts: &[u8]) -> Vec<XorName> {
    firsts.iter().map(|first| name(*first)).collect()
}

#[test]
fn an_announcement_is_agreed_when_as_many_senders_as_the_threshold_made_it() {
    let mut accumulator = InitializationAccumulator::new();
    let members = names(&[1, 2, 3, 4]);
    assert_eq!(accumulator.add_initialization(3, 4, 0, members.clone()), None);
    assert_eq!(accumulator.add_initialization(3, 4, 1, members.clone()), None);
    assert_eq!(
        accumulator.add_initialization(3, 4, 2, members.clone()),
        Some((3, 4, members.clone()))
    );
    assert_eq!(
        accumulator.add_initialization(3, 4, 3, members.clone()),
        Some((3, 4, members))
    );
    assert!(accumulator.has_sender(2));
    assert!(!accumulator.has_sender(7));
}

#[test]
fn a_sender_counts_once() {
    let mut accumulator = InitializationAccumulator::new();
    let members = names(&[1, 2, 3]);
    assert_eq!(accumulator.add_initialization(2, 3, 5, members.clone()), None);
    assert_eq!(accumulator.add_initialization(2, 3, 5, members.clone()), None);
    assert_eq!(accumulator.add_initialization(2, 3, 5, members.clone()), None);
    assert_eq!(
        accumulator.add_initialization(2, 3, 6, members.clone()),
        Some((2, 3, members))
    );
}

#[test]
fn announcements_that_differ_are_counted_apart() {
    let mut accumulator = InitializationAccumulator::new();
    assert_eq!(accumulator.add_initialization(2, 3, 0, names(&[1, 2, 3])), None);
    assert_eq!(accumulator.add_initialization(2, 4, 1, names(&[1, 2, 3])), None);
    assert_eq!(accumulator.add_initialization(2, 3, 2, names(&[1, 2, 4])), None);
    assert_eq!(accumulator.add_initialization(3, 3, 3, names(&[1, 2, 3])), None);
    assert_eq!(
        accumulator.add_initialization(2, 3, 4, names(&[3, 2, 1, 2])),
        Some((2, 3, names(&[1, 2, 3])))
    );
}

#[test]
fn a_threshold_of_one_is_agreed_by_the_first_announcement() {
    let mut accumulator = InitializationAccumulator::new();
    assert_eq!(
        accumulator.add_initialization(1, 2, 9, names(&[2, 1])),
        Some((1, 2, names(&[1, 2])))
    );
    let mut accumulator = InitializationAccumulator::new();
    assert_eq!(
        accumulator.add_initialization(0, 2, 9, names(&[2, 1])),
        Some((0, 2, names(&[1, 2])))
    );
}

#[test]
fn without_complaints_nobody_is_faulty() {
    let accumulator = ComplaintsAccumulator::new(names(&[1, 2, 3, 4, 5]), 4);
    assert_eq!(accumulator.finalize_complaining_phase(), Vec::new());
}

#[test]
fn who_is_complained_about_by_more_than_the_rest_over_the_threshold_is_faulty() {
    let mut accumulator = ComplaintsAccumulator::new(names(&[1, 2, 3, 4, 5]), 4);
    accumulator.add_complaint(name(2), name(1), Vec::new());
    assert_eq!(accumulator.finalize_complaining_phase(), Vec::new());
    accumulator.add_complaint(name(3), name(1), b"why".to_vec());
    assert_eq!(accumulator.finalize_complaining_phase(), names(&[1]));
}

#[test]
fn the_same_complaint_twice_counts_once() {
    let mut accumulator = ComplaintsAccumulator::new(names(&[1, 2, 3, 4, 5]), 4);
    accumulator.add_complaint(name(2), name(1), Vec::new());
    accumulator.add_complaint(name(2), name(1), Vec::new());
    accumulator.add_complaint(name(2), name(1), Vec::new());
    assert_eq!(accumulator.finalize_complaining_phase(), Vec::new());
}

#[test]
fn complaints_of_or_about_strangers_are_dropped() {
    let mut accumulator = ComplaintsAccumulator::new(names(&[1, 2, 3]), 3);
    accumulator.add_complaint(name(9), name(1), Vec::new());
    accumulator.add_complaint(name(1), name(9), Vec::new());
    assert_eq!(accumulator.finalize_complaining_phase(), Vec::new());
    accumulator.add_complaint(name(2), name(1), Vec::new());
    assert_eq!(accumulator.finalize_complaining_phase(), names(&[1]));
}

#[test]
fn who_fails_to_complain_about_more_than_half_is_faulty_too() {
    let mut accumulator = ComplaintsAccumulator::new(names(&[1, 2, 3]), 3);
    accumulator.add_complaint(name(2), name(1), Vec::new());
    accumulator.add_complaint(name(1), name(2), Vec::new());
    assert_eq!(accumulator.finalize_complaining_phase(), names(&[1, 2, 3]));
}

#[test]
fn who_fails_to_complain_about_half_is_not_faulty() {
    let mut accumulator = ComplaintsAccumulator::new(names(&[1, 2, 3, 4]), 3);
    accumulator.add_complaint(name(3), name(1), Vec::new());
    accumulator.add_complaint(name(4), name(1), Vec::new());
    accumulator.add_complaint(name(3), name(2), Vec::new());
    accumulator.add_complaint(name(4), name(2), Vec::new());
    assert_eq!(accumulator.finalize_complaining_phase(), names(&[1, 2]));
}

#[test]
fn the_faulty_come_in_the_order_of_the_names() {
    let mut accumulator = ComplaintsAccumulator::new(names(&[5, 3, 1, 2, 4]), 4);
    accumulator.add_complaint(name(1), name(5), Vec::new());
    accumulator.add_complaint(name(2), name(5), Vec::new());
    accumulator.add_complaint(name(1), name(3), Vec::new());
    accumulator.add_complaint(name(2), name(3), Vec::new());
    assert_eq!(accumulator.finalize_complaining_phase(), names(&[3, 5]));
}
