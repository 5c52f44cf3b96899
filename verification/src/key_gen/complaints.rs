//! Counting the complaints of the participants about one another.

use vstd::prelude::*;
use xor_name::XorName;
use crate::key_gen::names::names_equal;
use crate::key_gen::names::names_sorted;
use crate::key_gen::search::first_true;
use crate::key_gen::search::lemma_first_true_is;
use crate::key_gen::sets::has_name;
use crate::key_gen::sets::chosen;
use crate::key_gen::sets::lemma_chosen;
use crate::key_gen::sets::name_set;
use crate::key_gen::sets::names_to_set;

verus! {

/// Who has complained about one participant.
pub struct Accusation {
    /// The participant complained about.
    pub target: XorName,
    /// Those who complained, each once, in the order in which they did.
    pub accusers: Vec<XorName>,
}

/// An accusation as mathematical values.
pub struct AccusationView {
    pub target: XorName,
    pub accusers: Seq<XorName>,
}

impl View for Accusation {
    type V = AccusationView;

    open spec fn view(&self) -> AccusationView {
        AccusationView { target: self.target, accusers: self.accusers@ }
    }
}

/// Collects the complaints of a session's participants, and tells at the end of the
/// complaining phase who is to be taken for faulty.
pub struct ComplaintsAccumulator {
    pub_keys: Vec<XorName>,
    threshold: usize,
    complaints: Vec<Accusation>,
}

/// What the accumulator holds, as mathematical values.
pub struct Complaints {
    /// The participants, as a set of names.
    pub members: Seq<XorName>,
    /// The session's threshold.
    pub threshold: usize,
    /// The accusations, one for each participant that was complained about.
    pub accusations: Seq<AccusationView>,
}

impl Complaints {
    /// For each accusation, whether it is the one against `target`.
    pub open spec fn hits(self, target: XorName) -> Seq<bool> {
        Seq::new(self.accusations.len(), |i: int| self.accusations[i].target == target)
    }

    /// What the accumulator holds after `sender` has complained about `target`: nothing new
    /// unless both are participants; otherwise `sender` is among the accusers of `target`.
    pub open spec fn after(self, sender: XorName, target: XorName) -> Complaints {
        let i = first_true(self.hits(target));
        if !self.members.contains(sender) || !self.members.contains(target) {
            self
        } else if i < self.accusations.len() {
            if self.accusations[i].accusers.contains(sender) {
                self
            } else {
                Complaints {
                    accusations: self.accusations.update(
                        i,
                        AccusationView {
                            target,
                            accusers: self.accusations[i].accusers.push(sender),
                        },
                    ),
                    ..self
                }
            }
        } else {
            Complaints {
                accusations: self.accusations.push(
                    AccusationView { target, accusers: seq![sender] },
                ),
                ..self
            }
        }
    }

    /// Whether the accusation at `i` condemns its target: more participants have complained
    /// than the number of participants less the threshold.
    pub open spec fn condemns(self, i: int) -> bool {
        self.accusations[i].accusers.len() > self.members.len() - self.threshold
    }

    /// Whether one of the first `upto` accusations is against `name` and condemns it.
    pub open spec fn condemned_within(self, name: XorName, upto: int) -> bool {
        exists|i: int| 0 <= i < upto && self.accusations[i].target == name && self.condemns(i)
    }

    /// Whether an accusation against `name` condemns it.
    pub open spec fn condemned(self, name: XorName) -> bool {
        self.condemned_within(name, self.accusations.len() as int)
    }

    /// How many of the first `upto` accusations condemn their target although `name` did not
    /// complain.
    pub open spec fn missed(self, name: XorName, upto: int) -> int
        decreases upto,
    {
        if upto <= 0 {
            0
        } else {
            self.missed(name, upto - 1) + if self.condemns(upto - 1) && !self.accusations[upto
                - 1].accusers.contains(name) {
                1int
            } else {
                0int
            }
        }
    }

    /// Whether the participant `name` is to be taken for faulty: an accusation condemns it, or
    /// it has failed to complain about more condemned participants than half the
    /// participants.
    pub open spec fn faulty(self, name: XorName) -> bool {
        self.members.contains(name) && (self.condemned(name) || self.missed(
            name,
            self.accusations.len() as int,
        ) > self.members.len() / 2)
    }
}

impl Complaints {
    /// The faulty ones among the first `upto` participants, in their order.
    pub open spec fn faulty_among(self, upto: int) -> Seq<XorName> {
        chosen(self.members, |name: XorName| self.faulty(name), upto)
    }

    /// The participants that are to be taken for faulty, in the order of the participants.
    pub open spec fn failings(self) -> Seq<XorName> {
        self.faulty_among(self.members.len() as int)
    }

    /// **Who is taken for faulty.** The participants taken for faulty are a set of names:
    /// the participants that an accusation condemns, and those that have failed to complain
    /// about more condemned participants than half the participants.
    pub proof fn lemma_failings(self)
        requires
            names_sorted(self.members),
        ensures
            names_sorted(self.failings()),
            self.failings().len() <= self.members.len(),
            forall|name: XorName| #[trigger] self.failings().contains(name) <==> self.faulty(name),
    {
        lemma_chosen(self.members, |name: XorName| self.faulty(name), self.members.len() as int);
        assert(self.members.take(self.members.len() as int) == self.members);
    }
}

impl View for ComplaintsAccumulator {
    type V = Complaints;

    closed spec fn view(&self) -> Complaints {
        Complaints {
            members: self.pub_keys@,
            threshold: self.threshold,
            accusations: Seq::new(self.complaints.len() as nat, |i: int| self.complaints[i]@),
        }
    }
}

impl ComplaintsAccumulator {
    /// An accumulator for the participants `pub_keys` and the threshold `threshold`, without
    /// complaints.
    pub fn new(pub_keys: Vec<XorName>, threshold: usize) -> (accumulator: ComplaintsAccumulator)
        ensures
            accumulator@.members == name_set(pub_keys@),
            names_sorted(accumulator@.members),
            accumulator@.threshold == threshold,
            accumulator@.accusations == Seq::<AccusationView>::empty(),
    {
        let accumulator = ComplaintsAccumulator {
            pub_keys: names_to_set(&pub_keys),
            threshold,
            complaints: Vec::new(),
        };
        proof {
            assert(accumulator@.accusations =~= Seq::<AccusationView>::empty());
        }
        accumulator
    }

    /// Takes note that `sender_id` complains about `target_id`. The complaint is dropped
    /// unless both are participants. What the complaint is about, `_msg`, is not looked at.
    pub fn add_complaint(&mut self, sender_id: XorName, target_id: XorName, _msg: Vec<u8>)
        ensures
            final(self)@ == old(self)@.after(sender_id, target_id),
    {
        if !has_name(&self.pub_keys, &sender_id) || !has_name(&self.pub_keys, &target_id) {
            return ;
        }
        let ghost flags = self@.hits(target_id);
        let mut i: usize = 0;
        let mut found = false;
        while i < self.complaints.len() && !found
            invariant
                i <= self.complaints.len(),
                flags == self@.hits(target_id),
                flags.len() == self.complaints.len(),
                forall|j: int| 0 <= j < i ==> !flags[j],
                found ==> i < self.complaints.len() && flags[i as int],
            decreases self.complaints.len() - i + (if found { 0int } else { 1int }),
        {
            if names_equal(&self.complaints[i].target, &target_id) {
                found = true;
            } else {
                i += 1;
            }
        }
        proof {
            lemma_first_true_is(flags, i as int);
        }
        if found {
            if !has_name(&self.complaints[i].accusers, &sender_id) {
                self.complaints[i].accusers.push(sender_id);
            }
        } else {
            let mut accusers: Vec<XorName> = Vec::new();
            accusers.push(sender_id);
            self.complaints.push(Accusation { target: target_id, accusers });
        }
        proof {
            assert(self@.accusations =~= old(self)@.after(sender_id, target_id).accusations);
        }
    }

    /// Whether the accusation at `i` condemns its target.
    fn condemns(&self, i: usize) -> (condemns: bool)
        requires
            i < self@.accusations.len(),
        ensures
            condemns == self@.condemns(i as int),
    {
        self.threshold > self.pub_keys.len() || self.complaints[i].accusers.len()
            > self.pub_keys.len() - self.threshold
    }

    /// Whether the participant `name` is to be taken for faulty.
    fn is_faulty(&self, name: &XorName) -> (faulty: bool)
        requires
            self@.members.contains(*name),
        ensures
            faulty == self@.faulty(*name),
    {
        let mut condemned = false;
        let mut missed: usize = 0;
        let mut i: usize = 0;
        while i < self.complaints.len()
            invariant
                i <= self.complaints.len(),
                condemned == self@.condemned_within(*name, i as int),
                missed == self@.missed(*name, i as int),
                missed <= i,
            decreases self.complaints.len() - i,
        {
            if self.condemns(i) {
                if names_equal(&self.complaints[i].target, name) {
                    condemned = true;
                }
                if !has_name(&self.complaints[i].accusers, name) {
                    missed += 1;
                }
            }
            proof {
                let view = self@;
                if view.condemned_within(*name, i + 1) {
                    let j = choose|j: int|
                        0 <= j < i + 1 && view.accusations[j].target == *name && view.condemns(j);
                    if j < i {
                        assert(view.condemned_within(*name, i as int));
                    }
                }
                if view.condemned_within(*name, i as int) {
                    let j = choose|j: int|
                        0 <= j < i && view.accusations[j].target == *name && view.condemns(j);
                    assert(0 <= j < i + 1 && view.accusations[j].target == *name
                        && view.condemns(j));
                }
                if view.condemns(i as int) && view.accusations[i as int].target == *name {
                    assert(view.condemned_within(*name, i + 1));
                }
            }
            i += 1;
        }
        condemned || missed > self.pub_keys.len() / 2
    }

    /// The participants that are to be taken for faulty at the end of the complaining phase,
    /// in the order of the participants: those whom more participants have complained about
    /// than the number of participants less the threshold, and those who have failed to
    /// complain about more of these than half the participants.
    pub fn finalize_complaining_phase(&self) -> (invalid_peers: Vec<XorName>)
        ensures
            invalid_peers@ == self@.failings(),
    {
        let mut invalid_peers: Vec<XorName> = Vec::new();
        let mut k: usize = 0;
        while k < self.pub_keys.len()
            invariant
                k <= self.pub_keys.len(),
                invalid_peers@ == self@.faulty_among(k as int),
            decreases self.pub_keys.len() - k,
        {
            let name = self.pub_keys[k];
            assert(self@.members.contains(name)) by {
                assert(self@.members[k as int] == name);
            }
            if self.is_faulty(&name) {
                invalid_peers.push(name);
            }
            k += 1;
        }
        invalid_peers
    }
}

} // verus!
