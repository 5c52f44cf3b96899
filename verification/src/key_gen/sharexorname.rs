//! The roster: which participant holds which share.
//!
//! A share is the point at which a participant's key material is evaluated, so it has to stay
//! with its participant for as long as the participant is there. The roster keeps the
//! participants' names in order, each beside its share, and a pool of the shares that
//! participants who left have given back. A participant who joins takes the smallest share of
//! the pool, or a share that was never handed out if the pool is empty.

use vstd::prelude::*;
use xor_name::XorName;
use crate::key_gen::names::names_sorted;
use crate::key_gen::roster_laws::lemma_changed_to;
use crate::key_gen::roster_laws::lemma_of_names;
use crate::key_gen::roster_laws::lemma_with;
use crate::key_gen::roster_laws::lemma_without;
use crate::key_gen::roster_laws::lemma_without_all;
use crate::key_gen::search::desc_slot;
use crate::key_gen::search::find_desc_slot;
use crate::key_gen::search::find_name;
use crate::key_gen::search::find_slot;
use crate::key_gen::search::find_u64;
use crate::key_gen::search::first_index;
use crate::key_gen::search::first_index_u64;
use crate::key_gen::search::slot_of;

verus! {

/// The participants' names with their shares, the pool of free shares, and the epoch.
#[derive(Debug, Clone, Hash, PartialEq, Eq, PartialOrd, Ord)]
pub struct ShareXorName {
    /// The names of the participants, in order.
    pub xornames: Vec<XorName>,
    /// The participants' shares: the share at a position belongs to the name at that position.
    pub shares: Vec<u64>,
    /// The free shares in descending order, so that the smallest is taken first.
    pub available: Vec<u64>,
    /// The epoch's tag. Two rosters of different epochs do not belong to the same session.
    pub epochid: u64,
}

/// What a roster holds, as mathematical sequences.
pub struct Roster {
    pub names: Seq<XorName>,
    pub shares: Seq<u64>,
    pub available: Seq<u64>,
    pub epoch: u64,
}

/// The values of `s` are in strictly descending order.
pub open spec fn desc_sorted(s: Seq<u64>) -> bool {
    forall|i: int, j: int| 0 <= i < j < s.len() ==> s[i] > s[j]
}

/// `s` with `x` inserted before the first value that is not greater than it.
pub open spec fn insert_desc(s: Seq<u64>, x: u64) -> Seq<u64> {
    s.insert(desc_slot(s, x), x)
}

/// The names of `s` one after the other, each put before the first name that comes after it:
/// `s` sorted, with equal names in the order in which they came.
pub open spec fn sort_names(s: Seq<XorName>) -> Seq<XorName>
    decreases s.len(),
{
    if s.len() == 0 {
        s
    } else {
        let sorted = sort_names(s.drop_last());
        sorted.insert(slot_of(sorted, s.last()), s.last())
    }
}

/// The names of `names` that are not in `keep`, in their order.
pub open spec fn stale_names(names: Seq<XorName>, keep: Seq<XorName>) -> Seq<XorName>
    decreases names.len(),
{
    if names.len() == 0 {
        names
    } else if keep.contains(names.last()) {
        stale_names(names.drop_last(), keep)
    } else {
        stale_names(names.drop_last(), keep).push(names.last())
    }
}

/// The names of `wanted` that are not in `present`, each once, in the order in which they
/// first occur.
pub open spec fn fresh_names(wanted: Seq<XorName>, present: Seq<XorName>) -> Seq<XorName>
    decreases wanted.len(),
{
    if wanted.len() == 0 {
        wanted
    } else {
        let before = fresh_names(wanted.drop_last(), present);
        if present.contains(wanted.last()) || before.contains(wanted.last()) {
            before
        } else {
            before.push(wanted.last())
        }
    }
}

impl Roster {
    /// Every name has a share beside it.
    pub open spec fn aligned(self) -> bool {
        self.names.len() == self.shares.len()
    }

    /// The roster's invariant: the names are in strictly increasing order, so none occurs
    /// twice; no share is held twice, nor held and free at once; the free shares are in
    /// strictly descending order; and no share is as large as the number of shares there are,
    /// held or free. The number of participants fits a share.
    pub open spec fn wf(self) -> bool {
        &&& self.aligned()
        &&& self.names.len() <= u64::MAX
        &&& names_sorted(self.names)
        &&& desc_sorted(self.available)
        &&& self.shares.no_duplicates()
        &&& forall|i: int, j: int|
            0 <= i < self.shares.len() && 0 <= j < self.available.len() ==> self.shares[i]
                != self.available[j]
        &&& forall|i: int|
            0 <= i < self.shares.len() ==> self.shares[i] < self.names.len()
                + self.available.len()
        &&& forall|j: int|
            0 <= j < self.available.len() ==> self.available[j] < self.names.len()
                + self.available.len()
    }

    /// Whether `name` is a participant.
    pub open spec fn has(self, name: XorName) -> bool {
        self.names.contains(name)
    }

    /// The share of `name`: the share beside the first occurrence of the name.
    pub open spec fn share_of(self, name: XorName) -> Option<u64> {
        let p = first_index(self.names, name);
        if p < self.names.len() {
            Some(self.shares[p])
        } else {
            None
        }
    }

    /// The name that holds `share`: the name beside the first occurrence of the share.
    pub open spec fn name_of(self, share: u64) -> Option<XorName> {
        let p = first_index_u64(self.shares, share);
        if p < self.shares.len() {
            Some(self.names[p])
        } else {
            None
        }
    }

    /// The share that the next participant to join gets: the smallest free share, or, if none
    /// is free, the number of participants.
    pub open spec fn next_share(self) -> u64 {
        if self.available.len() > 0 {
            self.available.last()
        } else {
            self.names.len() as u64
        }
    }

    /// The roster after `name` has left: its share is free. Unchanged if `name` is no
    /// participant.
    pub open spec fn without(self, name: XorName) -> Roster {
        let p = first_index(self.names, name);
        if p < self.names.len() {
            Roster {
                names: self.names.remove(p),
                shares: self.shares.remove(p),
                available: insert_desc(self.available, self.shares[p]),
                epoch: self.epoch,
            }
        } else {
            self
        }
    }

    /// The roster after `name` has joined with the next share.
    pub open spec fn with(self, name: XorName) -> Roster {
        let p = slot_of(self.names, name);
        Roster {
            names: self.names.insert(p, name),
            shares: self.shares.insert(p, self.next_share()),
            available: if self.available.len() > 0 {
                self.available.drop_last()
            } else {
                self.available
            },
            epoch: self.epoch,
        }
    }

    /// The roster's first `n` participants, with all of its free shares.
    pub open spec fn first(self, n: int) -> Roster {
        Roster {
            names: self.names.take(n),
            shares: self.shares.take(n),
            available: self.available,
            epoch: self.epoch,
        }
    }

    /// The roster after every participant whose name is in `leaving` has left, the first
    /// participant first.
    pub open spec fn without_all(self, leaving: Seq<XorName>) -> Roster
        decreases self.names.len(),
    {
        if self.names.len() == 0 || !self.aligned() {
            self
        } else {
            let n = self.names.len() - 1;
            let before = self.first(n).without_all(leaving);
            if leaving.contains(self.names[n]) {
                Roster {
                    names: before.names,
                    shares: before.shares,
                    available: insert_desc(before.available, self.shares[n]),
                    epoch: self.epoch,
                }
            } else {
                Roster {
                    names: before.names.push(self.names[n]),
                    shares: before.shares.push(self.shares[n]),
                    available: before.available,
                    epoch: self.epoch,
                }
            }
        }
    }

    /// The roster after the names of `joining` have joined one after the other.
    pub open spec fn with_all(self, joining: Seq<XorName>) -> Roster
        decreases joining.len(),
    {
        if joining.len() == 0 {
            self
        } else {
            self.with_all(joining.drop_last()).with(joining.last())
        }
    }

    /// The roster after the change to the participants `wanted`: those who are not wanted
    /// have left, then those who were not there have joined, in the order in which `wanted`
    /// first names them.
    pub open spec fn changed_to(self, wanted: Seq<XorName>) -> Roster {
        self.without_all(stale_names(self.names, wanted)).with_all(
            fresh_names(wanted, self.names),
        )
    }

    /// The roster of the participants `names` at the start: the names sorted, the shares
    /// counted from zero in that order, no share free.
    pub open spec fn of_names(names: Seq<XorName>) -> Roster {
        Roster {
            names: sort_names(names),
            shares: Seq::new(names.len(), |i: int| i as u64),
            available: Seq::empty(),
            epoch: 0,
        }
    }
}

impl View for ShareXorName {
    type V = Roster;

    open spec fn view(&self) -> Roster {
        Roster {
            names: self.xornames@,
            shares: self.shares@,
            available: self.available@,
            epoch: self.epochid,
        }
    }
}

/// Sorts names: each is put before the first name that comes after it.
pub fn sorted_names(names: &Vec<XorName>) -> (sorted: Vec<XorName>)
    ensures
        sorted@ == sort_names(names@),
        sorted.len() == names.len(),
{
    let mut sorted: Vec<XorName> = Vec::new();
    let mut i: usize = 0;
    while i < names.len()
        invariant
            i <= names.len(),
            sorted@ == sort_names(names@.take(i as int)),
            sorted.len() == i,
        decreases names.len() - i,
    {
        let name = names[i];
        let p = find_slot(&sorted, &name);
        sorted.insert(p, name);
        proof {
            assert(names@.take(i + 1).drop_last() == names@.take(i as int));
        }
        i += 1;
    }
    proof {
        assert(names@.take(names.len() as int) == names@);
    }
    sorted
}

impl ShareXorName {
    /// The roster of the participants `xornames` at the start. The names are sorted, and the
    /// shares are counted from zero in that order.
    pub fn from_xornames(xornames: Vec<XorName>) -> (roster: ShareXorName)
        ensures
            roster@ == Roster::of_names(xornames@),
            roster@.aligned(),
            roster@.names.len() == xornames@.len(),
            xornames@.no_duplicates() ==> roster@.wf(),
    {
        let names = sorted_names(&xornames);
        let mut shares: Vec<u64> = Vec::new();
        let mut i: usize = 0;
        while i < xornames.len()
            invariant
                i <= xornames.len(),
                shares.len() == i,
                forall|j: int| 0 <= j < i ==> shares@[j] == j as u64,
            decreases xornames.len() - i,
        {
            shares.push(i as u64);
            i += 1;
        }
        let roster = ShareXorName { xornames: names, shares, available: Vec::new(), epochid: 0 };
        proof {
            assert(roster@.shares =~= Roster::of_names(xornames@).shares);
            assert(roster@.available =~= Roster::of_names(xornames@).available);
            if xornames@.no_duplicates() {
                lemma_of_names(xornames@);
            }
        }
        roster
    }

    /// The participants with their shares, in the order of the names.
    pub fn get_pairs(&self) -> (pairs: Vec<(XorName, u64)>)
        ensures
            pairs.len() == self@.names.len() || pairs.len() == self@.shares.len(),
            pairs.len() <= self@.names.len(),
            pairs.len() <= self@.shares.len(),
            forall|i: int|
                0 <= i < pairs.len() ==> pairs@[i] == (self@.names[i], self@.shares[i]),
    {
        let mut pairs: Vec<(XorName, u64)> = Vec::new();
        let mut i: usize = 0;
        while i < self.xornames.len() && i < self.shares.len()
            invariant
                i <= self.xornames.len(),
                i <= self.shares.len(),
                pairs.len() == i,
                forall|j: int|
                    0 <= j < i ==> pairs@[j] == (self.xornames@[j], self.shares@[j]),
            decreases self.xornames.len() - i,
        {
            pairs.push((self.xornames[i], self.shares[i]));
            i += 1;
        }
        pairs
    }

    /// The share of `xorname`, if it is a participant.
    pub fn get_share(&self, xorname: XorName) -> (share: Option<u64>)
        requires
            self@.aligned(),
        ensures
            share == self@.share_of(xorname),
            share.is_some() <==> self@.has(xorname),
    {
        let p = find_name(&self.xornames, &xorname);
        proof {
            crate::key_gen::search::lemma_first_index_contains(self.xornames@, xorname);
        }
        if p < self.xornames.len() {
            Some(self.shares[p])
        } else {
            None
        }
    }

    /// The participant that holds `share`, if one does.
    pub fn get_xorname(&self, share: u64) -> (name: Option<XorName>)
        requires
            self@.aligned(),
        ensures
            name == self@.name_of(share),
            name.is_some() <==> self@.shares.contains(share),
    {
        let p = find_u64(&self.shares, share);
        proof {
            crate::key_gen::search::lemma_first_index_u64_contains(self.shares@, share);
        }
        if p < self.shares.len() {
            Some(self.xornames[p])
        } else {
            None
        }
    }

    /// Lets `xorname` leave, if it is a participant: its share becomes free.
    pub fn remove_xorname(&mut self, xorname: XorName)
        requires
            old(self)@.aligned(),
        ensures
            final(self)@ == old(self)@.without(xorname),
            final(self)@.aligned(),
            old(self)@.wf() ==> final(self)@.wf(),
    {
        proof {
            if self@.wf() {
                lemma_without(self@, xorname);
            }
        }
        let p = find_name(&self.xornames, &xorname);
        if p < self.xornames.len() {
            let share = self.shares[p];
            self.xornames.remove(p);
            self.shares.remove(p);
            let q = find_desc_slot(&self.available, share);
            self.available.insert(q, share);
        }
    }

    /// Lets `xorname` join with the next share: the smallest free one, or, if none is free,
    /// the number of participants.
    pub fn add_xorname(&mut self, xorname: XorName)
        requires
            old(self)@.aligned(),
        ensures
            final(self)@ == old(self)@.with(xorname),
            final(self)@.aligned(),
            old(self)@.wf() && !old(self)@.has(xorname) ==> final(self)@.wf(),
    {
        let share = match self.available.pop() {
            Some(share) => share,
            None => self.xornames.len() as u64,
        };
        let p = find_slot(&self.xornames, &xorname);
        self.xornames.insert(p, xorname);
        self.shares.insert(p, share);
        proof {
            if old(self)@.wf() && !old(self)@.has(xorname) {
                assert(self.xornames.len() == old(self).xornames.len() + 1);
                assert(self.xornames.len() <= usize::MAX <= u64::MAX);
                lemma_with(old(self)@, xorname);
            }
        }
    }

    /// Lets the names of `add_xornames` join one after the other.
    pub fn iteradd_xornames(&mut self, add_xornames: Vec<XorName>)
        requires
            old(self)@.aligned(),
        ensures
            final(self)@ == old(self)@.with_all(add_xornames@),
            final(self)@.aligned(),
    {
        let mut i: usize = 0;
        while i < add_xornames.len()
            invariant
                i <= add_xornames.len(),
                self@.aligned(),
                self@ == old(self)@.with_all(add_xornames@.take(i as int)),
            decreases add_xornames.len() - i,
        {
            self.add_xorname(add_xornames[i]);
            proof {
                assert(add_xornames@.take(i + 1).drop_last() == add_xornames@.take(i as int));
            }
            i += 1;
        }
        proof {
            assert(add_xornames@.take(add_xornames.len() as int) == add_xornames@);
        }
    }

    /// Lets the names of `add_xornames` join one after the other. Each takes the smallest
    /// share that is free when its turn comes, or a share that was never handed out.
    pub fn add_xornames(&mut self, add_xornames: Vec<XorName>)
        requires
            old(self)@.aligned(),
        ensures
            final(self)@ == old(self)@.with_all(add_xornames@),
            final(self)@.aligned(),
    {
        self.iteradd_xornames(add_xornames)
    }

    /// Lets every participant whose name is in `rem_xornames` leave: their shares become
    /// free.
    pub fn remove_xornames(&mut self, rem_xornames: Vec<XorName>)
        requires
            old(self)@.aligned(),
        ensures
            final(self)@ == old(self)@.without_all(rem_xornames@),
            final(self)@.aligned(),
            old(self)@.wf() ==> final(self)@.wf(),
    {
        proof {
            if self@.wf() {
                lemma_without_all(self@, rem_xornames@);
            }
        }
        let mut names: Vec<XorName> = Vec::new();
        let mut shares: Vec<u64> = Vec::new();
        let mut i: usize = 0;
        proof {
            assert(names@ =~= old(self)@.names.take(0));
            assert(shares@ =~= old(self)@.shares.take(0));
        }
        while i < self.xornames.len()
            invariant
                i <= self.xornames.len(),
                self.xornames@ == old(self).xornames@,
                self.shares@ == old(self).shares@,
                self.epochid == old(self).epochid,
                old(self)@.aligned(),
                names.len() == shares.len(),
                (Roster {
                    names: names@,
                    shares: shares@,
                    available: self.available@,
                    epoch: self.epochid,
                }) == old(self)@.first(i as int).without_all(rem_xornames@),
            decreases self.xornames.len() - i,
        {
            let name = self.xornames[i];
            let share = self.shares[i];
            proof {
                let next = old(self)@.first(i + 1);
                assert(next.first(i as int) == old(self)@.first(i as int)) by {
                    assert(next.names.take(i as int) == old(self)@.names.take(i as int));
                    assert(next.shares.take(i as int) == old(self)@.shares.take(i as int));
                }
                assert(next.names.len() == i + 1);
                assert(next.aligned());
            }
            if find_name(&rem_xornames, &name) < rem_xornames.len() {
                let q = find_desc_slot(&self.available, share);
                self.available.insert(q, share);
            } else {
                names.push(name);
                shares.push(share);
            }
            i += 1;
        }
        proof {
            assert(old(self)@.first(self.xornames.len() as int) == old(self)@) by {
                assert(old(self)@.names.take(self.xornames.len() as int) == old(self)@.names);
                assert(old(self)@.shares.take(self.xornames.len() as int) == old(self)@.shares);
            }
        }
        self.xornames = names;
        self.shares = shares;
    }

    /// Changes the participants to `new_xornames`: those who are not among them leave, then
    /// those who were not there join, in the order in which `new_xornames` first names them.
    /// Who stays keeps its share.
    pub fn to_new_xornames(&mut self, new_xornames: Vec<XorName>)
        requires
            old(self)@.aligned(),
        ensures
            final(self)@ == old(self)@.changed_to(new_xornames@),
            final(self)@.aligned(),
            old(self)@.wf() ==> final(self)@.wf(),
    {
        let mut to_remove: Vec<XorName> = Vec::new();
        let mut i: usize = 0;
        while i < self.xornames.len()
            invariant
                i <= self.xornames.len(),
                to_remove@ == stale_names(self.xornames@.take(i as int), new_xornames@),
            decreases self.xornames.len() - i,
        {
            let name = self.xornames[i];
            proof {
                assert(self.xornames@.take(i + 1).drop_last() == self.xornames@.take(i as int));
            }
            if find_name(&new_xornames, &name) >= new_xornames.len() {
                to_remove.push(name);
            }
            i += 1;
        }
        let mut to_add: Vec<XorName> = Vec::new();
        let mut k: usize = 0;
        while k < new_xornames.len()
            invariant
                k <= new_xornames.len(),
                to_add@ == fresh_names(new_xornames@.take(k as int), self.xornames@),
            decreases new_xornames.len() - k,
        {
            let name = new_xornames[k];
            proof {
                assert(new_xornames@.take(k + 1).drop_last() == new_xornames@.take(k as int));
            }
            if find_name(&self.xornames, &name) >= self.xornames.len() && find_name(
                &to_add,
                &name,
            ) >= to_add.len() {
                to_add.push(name);
            }
            k += 1;
        }
        proof {
            assert(self.xornames@.take(self.xornames.len() as int) == self.xornames@);
            assert(new_xornames@.take(new_xornames.len() as int) == new_xornames@);
        }
        self.remove_xornames(to_remove);
        self.add_xornames(to_add);
        proof {
            if old(self)@.wf() {
                assert(self.xornames.len() <= usize::MAX <= u64::MAX);
                lemma_changed_to(old(self)@, new_xornames@);
            }
        }
    }

    /// The epoch's tag.
    pub fn get_epoch(&self) -> (epoch: u64)
        ensures
            epoch == self@.epoch,
    {
        self.epochid
    }
}

} // verus!
