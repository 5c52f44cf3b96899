//! Counting the announcements with which a session starts.

use vstd::prelude::*;
use std::collections::BTreeSet;
use xor_name::XorName;
use crate::key_gen::names::names_sorted;
use crate::key_gen::search::first_true;
use crate::key_gen::search::lemma_first_true_is;
use crate::key_gen::sets::copy_names;
use crate::key_gen::sets::name_set;
use crate::key_gen::sets::names_to_set;
use crate::key_gen::sets::same_names;

verus! {

/// What some participants announced the session to be, and how many of them did.
pub struct Tally {
    /// The threshold announced.
    pub m: usize,
    /// The number of participants announced.
    pub n: usize,
    /// The participants announced, as a set of names.
    pub members: Vec<XorName>,
    /// How many participants announced this.
    pub votes: usize,
}

/// A tally as mathematical values.
pub struct TallyView {
    pub m: usize,
    pub n: usize,
    pub members: Seq<XorName>,
    pub votes: usize,
}

impl View for Tally {
    type V = TallyView;

    open spec fn view(&self) -> TallyView {
        TallyView { m: self.m, n: self.n, members: self.members@, votes: self.votes }
    }
}

/// Collects the participants' announcements of what the session is: a threshold `m`, a
/// number of participants `n` and the participants. Each sender counts once.
pub struct InitializationAccumulator {
    senders: BTreeSet<u64>,
    initializations: Vec<Tally>,
}

/// What the accumulator holds, as mathematical values.
pub struct Announcements {
    /// Who has announced.
    pub senders: Set<u64>,
    /// What was announced, each announcement once, with the number of its senders.
    pub tallies: Seq<TallyView>,
}

impl Announcements {
    /// For each tally, whether it counts the announcement of `m`, `n` and `members`.
    pub open spec fn hits(self, m: usize, n: usize, members: Seq<XorName>) -> Seq<bool> {
        Seq::new(
            self.tallies.len(),
            |i: int|
                self.tallies[i].m == m && self.tallies[i].n == n && self.tallies[i].members
                    == members,
        )
    }

    /// How many senders have announced `m`, `n` and `members`.
    pub open spec fn votes(self, m: usize, n: usize, members: Seq<XorName>) -> int {
        let i = first_true(self.hits(m, n, members));
        if i < self.tallies.len() {
            self.tallies[i].votes as int
        } else {
            0
        }
    }

    /// Whether the announcement of `m`, `n` and `members` by `sender` counts, and is the one
    /// with which `m` senders have announced the same.
    pub open spec fn agrees(self, m: usize, n: usize, sender: u64, members: Seq<XorName>) -> bool {
        !self.senders.contains(sender) && self.votes(m, n, name_set(members)) + 1 >= m
    }

    /// What the accumulator holds after `sender` has announced `m`, `n` and `members`:
    /// nothing new if the sender has announced before; otherwise one vote more for this
    /// announcement.
    pub open spec fn after(self, m: usize, n: usize, sender: u64, members: Seq<XorName>)
        -> Announcements {
        let set = name_set(members);
        let i = first_true(self.hits(m, n, set));
        if self.senders.contains(sender) {
            self
        } else if i < self.tallies.len() {
            Announcements {
                senders: self.senders.insert(sender),
                tallies: self.tallies.update(
                    i,
                    TallyView { m, n, members: set, votes: (self.tallies[i].votes + 1) as usize },
                ),
            }
        } else {
            Announcements {
                senders: self.senders.insert(sender),
                tallies: self.tallies.push(TallyView { m, n, members: set, votes: 1 }),
            }
        }
    }
}

impl View for InitializationAccumulator {
    type V = Announcements;

    closed spec fn view(&self) -> Announcements {
        Announcements {
            senders: self.senders@,
            tallies: Seq::new(self.initializations.len() as nat, |i: int| self.initializations[i]@),
        }
    }
}

impl InitializationAccumulator {
    /// The accumulator's invariant: the senders can be counted, and no tally counts more senders
    /// than there are.
    pub closed spec fn wf(&self) -> bool {
        &&& self.senders@.finite()
        &&& forall|i: int|
            0 <= i < self.initializations.len() ==> (#[trigger] self.initializations[i]).votes
                <= self.senders.len()
    }

    /// An accumulator that has seen no announcement.
    pub fn new() -> (accumulator: InitializationAccumulator)
        ensures
            accumulator.wf(),
            accumulator@.senders == Set::<u64>::empty(),
            accumulator@.tallies == Seq::<TallyView>::empty(),
    {
        let accumulator = InitializationAccumulator {
            senders: BTreeSet::new(),
            initializations: Vec::new(),
        };
        proof {
            assert(accumulator@.tallies =~= Seq::<TallyView>::empty());
        }
        accumulator
    }

    /// Whether `sender` has announced.
    pub fn has_sender(&self, sender: u64) -> (found: bool)
        ensures
            found == self@.senders.contains(sender),
    {
        self.senders.contains(&sender)
    }

    /// Counts the announcement of the threshold `m`, the number `n` and the participants
    /// `member_list` by `sender`. A sender who has announced before is not counted again.
    /// Returns the announcement, with the participants as a set of names, if `m` senders
    /// have now announced the same.
    pub fn add_initialization(
        &mut self,
        m: usize,
        n: usize,
        sender: u64,
        member_list: Vec<XorName>,
    ) -> (agreed: Option<(usize, usize, Vec<XorName>)>)
        requires
            old(self).wf(),
        ensures
            final(self).wf(),
            final(self)@ == old(self)@.after(m, n, sender, member_list@),
            agreed.is_some() == old(self)@.agrees(m, n, sender, member_list@),
            agreed matches Some(triple) ==> triple.0 == m && triple.1 == n && triple.2@
                == name_set(member_list@) && names_sorted(triple.2@),
    {
        if self.senders.contains(&sender) {
            return None;
        }
        let members = names_to_set(&member_list);
        let ghost flags = self@.hits(m, n, members@);
        let mut i: usize = 0;
        let mut found = false;
        while i < self.initializations.len() && !found
            invariant
                i <= self.initializations.len(),
                flags == self@.hits(m, n, members@),
                flags.len() == self.initializations.len(),
                forall|j: int| 0 <= j < i ==> !flags[j],
                found ==> i < self.initializations.len() && flags[i as int],
            decreases self.initializations.len() - i + (if found { 0int } else { 1int }),
        {
            let tally = &self.initializations[i];
            if tally.m == m && tally.n == n && same_names(&tally.members, &members) {
                found = true;
            } else {
                i += 1;
            }
        }
        proof {
            lemma_first_true_is(flags, i as int);
        }
        let votes = if found {
            let counted = self.initializations[i].votes;
            assert(counted <= self.senders.len());
            let _ = self.senders.insert(sender);
            assert(self.senders@.len() == old(self).senders@.len() + 1);
            assert(self.senders.len() <= usize::MAX);
            self.initializations[i].votes = counted + 1;
            counted + 1
        } else {
            let _ = self.senders.insert(sender);
            self.initializations.push(Tally { m, n, members: copy_names(&members), votes: 1 });
            1
        };
        proof {
            assert(self@.tallies =~= old(self)@.after(m, n, sender, member_list@).tallies);
        }
        if votes >= m {
            Some((m, n, members))
        } else {
            None
        }
    }
}

} // verus!
