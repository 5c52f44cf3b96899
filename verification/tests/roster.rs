use bls_dkg::key_gen::sharexorname::ShareXorName;
use xor_name::XorName;

fn name(first: u8) -> XorName {
    let mut name = XorName::default();
    name.0[0] = first;
    name
}

fn names(firsts: &[u8]) -> Vec<XorName> {
    firsts.iter().map(|first| name(*first)).collect()
}

#[test]
fn test_gen_names() {
    let names: Vec<XorName> = (1..10).map(|_| XorName::random()).collect();
    let _name2 = name(1);
    let sxn = ShareXorName::from_xornames(names);
    assert_eq!(sxn.xornames.len(), 9);
}

#[test]
fn test_inorder() {
    let names: Vec<XorName> = (1..5).map(|i| name(i)).collect();
    let mut sxn2 = ShareXorName::from_xornames(Vec::new());
    let mut sxn3 = ShareXorName::from_xornames(Vec::new());
    sxn2.add_xornames(names.clone());
    sxn3.iteradd_xornames(names.clone());
    println!("{:?}", sxn2);
    assert_eq!(sxn3, sxn2, "sxn3 {:?} sxn2 {:?}", sxn3, sxn2);

    let mut sxn = ShareXorName::from_xornames(names);
    assert_eq!(sxn, sxn2, "sxn1 {:?} sxn2 {:?}", sxn, sxn2);

    println!("1 {:?}", sxn);
    println!("2 {:?}", sxn2);

    println!("{:?}", sxn);
    sxn.add_xorname(XorName::random());
    println!("{:?}", sxn);
    sxn.remove_xorname(XorName::random());
    println!("{:?}", sxn);
    sxn.remove_xorname(sxn.xornames[2]);
    println!("{:?}", sxn);
    sxn.add_xorname(XorName::random());
    println!("{:?}", sxn);
}

#[test]
fn test_not_in_order() {
    let names: Vec<XorName> = vec![12, 11, 15, 13, 14].into_iter().map(|i| name(i)).collect();
    let mut sxn2 = ShareXorName::from_xornames(Vec::new());
    let mut sxn3 = ShareXorName::from_xornames(Vec::new());
    sxn2.add_xornames(names.clone());
    sxn3.iteradd_xornames(names.clone());
    println!("{:?}", sxn2);
    assert_eq!(sxn3, sxn2);

    let mut sxn = ShareXorName::from_xornames(names);
    assert_ne!(sxn, sxn2);

    println!("1 {:?}", sxn);
    println!("2 {:?}", sxn2);

    println!("{:?}", sxn);
    sxn.add_xorname(XorName::random());
    println!("{:?}", sxn);
    sxn.remove_xorname(XorName::random());
    println!("{:?}", sxn);
    sxn.remove_xorname(sxn.xornames[2]);
    println!("{:?}", sxn);
    sxn.add_xorname(XorName::random());
    println!("{:?}", sxn);
}

#[test]
fn from_xornames_sorts_and_counts_from_zero() {
    let sxn = ShareXorName::from_xornames(names(&[12, 11, 15, 13, 14]));
    assert_eq!(sxn.xornames, names(&[11, 12, 13, 14, 15]));
    assert_eq!(sxn.shares, vec![0, 1, 2, 3, 4]);
    assert_eq!(sxn.available, Vec::<u64>::new());
    assert_eq!(sxn.epochid, 0);
    assert_eq!(sxn.get_epoch(), 0);
}

#[test]
fn from_xornames_of_nothing_is_empty() {
    let sxn = ShareXorName::from_xornames(Vec::new());
    assert!(sxn.xornames.is_empty());
    assert!(sxn.shares.is_empty());
    assert!(sxn.available.is_empty());
    assert_eq!(sxn.get_pairs(), Vec::new());
}

#[test]
fn names_that_join_out_of_order_keep_their_order_of_arrival_in_shares() {
    let mut sxn = ShareXorName::from_xornames(Vec::new());
    sxn.add_xornames(names(&[12, 11, 15, 13, 14]));
    assert_eq!(sxn.xornames, names(&[11, 12, 13, 14, 15]));
    assert_eq!(sxn.shares, vec![1, 0, 3, 4, 2]);
    assert_eq!(sxn.get_share(name(12)), Some(0));
    assert_eq!(sxn.get_share(name(15)), Some(2));
    assert_eq!(sxn.get_xorname(4), Some(name(14)));
}

#[test]
fn get_share_and_get_xorname_of_what_is_not_there() {
    let sxn = ShareXorName::from_xornames(names(&[1, 2, 3]));
    assert_eq!(sxn.get_share(name(2)), Some(1));
    assert_eq!(sxn.get_share(name(9)), None);
    assert_eq!(sxn.get_xorname(2), Some(name(3)));
    assert_eq!(sxn.get_xorname(3), None);
}

#[test]
fn get_pairs_pairs_names_with_shares() {
    let mut sxn = ShareXorName::from_xornames(Vec::new());
    sxn.add_xornames(names(&[7, 5]));
    assert_eq!(sxn.get_pairs(), vec![(name(5), 1), (name(7), 0)]);
}

#[test]
fn a_share_that_was_given_back_is_taken_again() {
    let mut sxn = ShareXorName::from_xornames(names(&[1, 2, 3, 4]));
    sxn.remove_xorname(name(2));
    assert_eq!(sxn.xornames, names(&[1, 3, 4]));
    assert_eq!(sxn.shares, vec![0, 2, 3]);
    assert_eq!(sxn.available, vec![1]);
    sxn.add_xorname(name(9));
    assert_eq!(sxn.xornames, names(&[1, 3, 4, 9]));
    assert_eq!(sxn.shares, vec![0, 2, 3, 1]);
    assert_eq!(sxn.available, Vec::<u64>::new());
}

#[test]
fn free_shares_are_kept_in_descending_order_and_the_smallest_goes_first() {
    let mut sxn = ShareXorName::from_xornames(names(&[1, 2, 3, 4, 5]));
    sxn.remove_xorname(name(3));
    sxn.remove_xorname(name(1));
    sxn.remove_xorname(name(5));
    assert_eq!(sxn.available, vec![4, 2, 0]);
    sxn.add_xorname(name(8));
    assert_eq!(sxn.get_share(name(8)), Some(0));
    assert_eq!(sxn.available, vec![4, 2]);
    sxn.add_xorname(name(7));
    assert_eq!(sxn.get_share(name(7)), Some(2));
    assert_eq!(sxn.xornames, names(&[2, 4, 7, 8]));
    assert_eq!(sxn.shares, vec![1, 3, 2, 0]);
}

#[test]
fn removing_a_name_that_is_not_there_changes_nothing() {
    let mut sxn = ShareXorName::from_xornames(names(&[1, 2, 3]));
    let before = sxn.clone();
    sxn.remove_xorname(name(9));
    assert_eq!(sxn, before);
    sxn.remove_xornames(names(&[8, 9]));
    assert_eq!(sxn, before);
}

#[test]
fn remove_xornames_frees_every_share() {
    let mut sxn = ShareXorName::from_xornames(names(&[1, 2, 3, 4, 5]));
    sxn.remove_xornames(names(&[4, 2, 9]));
    assert_eq!(sxn.xornames, names(&[1, 3, 5]));
    assert_eq!(sxn.shares, vec![0, 2, 4]);
    assert_eq!(sxn.available, vec![3, 1]);
}

#[test]
fn a_batch_that_takes_a_free_share_and_a_new_one_gives_no_share_twice() {
    let mut sxn = ShareXorName::from_xornames(names(&[1, 2, 3]));
    sxn.remove_xorname(name(2));
    sxn.add_xornames(names(&[7, 8]));
    assert_eq!(sxn.xornames, names(&[1, 3, 7, 8]));
    assert_eq!(sxn.shares, vec![0, 2, 1, 3]);
    assert_eq!(sxn.available, Vec::<u64>::new());
}

#[test]
fn a_name_that_joins_leaves_and_joins_again_has_its_share_again() {
    let mut sxn = ShareXorName::from_xornames(names(&[1, 2, 3]));
    sxn.remove_xorname(name(1));
    sxn.add_xorname(name(6));
    let joined = sxn.clone();
    assert_eq!(sxn.get_share(name(6)), Some(0));
    sxn.remove_xorname(name(6));
    sxn.add_xorname(name(6));
    assert_eq!(sxn.get_share(name(6)), Some(0));
    assert_eq!(sxn, joined);

    let mut fresh = ShareXorName::from_xornames(names(&[1, 2, 3]));
    fresh.add_xorname(name(6));
    assert_eq!(fresh.get_share(name(6)), Some(3));
    fresh.remove_xorname(name(6));
    fresh.add_xorname(name(6));
    assert_eq!(fresh.get_share(name(6)), Some(3));
}

#[test]
fn changing_to_new_names_keeps_the_shares_of_those_who_stay() {
    let mut sxn = ShareXorName::from_xornames(names(&[1, 2, 3, 4]));
    sxn.to_new_xornames(names(&[4, 9, 2, 7, 9]));
    assert_eq!(sxn.xornames, names(&[2, 4, 7, 9]));
    assert_eq!(sxn.get_share(name(2)), Some(1));
    assert_eq!(sxn.get_share(name(4)), Some(3));
    assert_eq!(sxn.get_share(name(9)), Some(0));
    assert_eq!(sxn.get_share(name(7)), Some(2));
    assert_eq!(sxn.get_share(name(1)), None);
    assert_eq!(sxn.available, Vec::<u64>::new());
}

#[test]
fn changing_to_the_same_names_twice_changes_nothing_the_second_time() {
    let mut sxn = ShareXorName::from_xornames(names(&[1, 2, 3, 4]));
    let wanted = names(&[3, 8, 1, 6, 5]);
    sxn.to_new_xornames(wanted.clone());
    let once = sxn.clone();
    sxn.to_new_xornames(wanted);
    assert_eq!(sxn, once);
    assert_eq!(once.xornames, names(&[1, 3, 5, 6, 8]));
    assert_eq!(once.shares, vec![0, 2, 4, 3, 1]);
}

#[test]
fn changing_to_fewer_names_leaves_shares_free() {
    let mut sxn = ShareXorName::from_xornames(names(&[1, 2, 3, 4]));
    sxn.to_new_xornames(names(&[3]));
    assert_eq!(sxn.xornames, names(&[3]));
    assert_eq!(sxn.shares, vec![2]);
    assert_eq!(sxn.available, vec![3, 1, 0]);
}

#[test]
fn the_snapshot_of_a_roster_is_the_roster() {
    let mut sxn = ShareXorName::from_xornames(names(&[1, 2, 3, 4]));
    sxn.remove_xorname(name(2));
    sxn.epochid = 17;
    assert_eq!(sxn.snapshot(), sxn);
    assert_eq!(sxn.get_epoch(), 17);
}
