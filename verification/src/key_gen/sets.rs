//! Sets of names, kept in vectors.
//!
//! A set of names is a vector of names in strictly increasing order; a participant's index
//! in the set is the position of its name.

use vstd::prelude::*;
use xor_name::XorName;
use crate::key_gen::names::lemma_name_lt_asymmetric;
use crate::key_gen::names::lemma_name_lt_transitive;
use crate::key_gen::names::lemma_name_trichotomy;
use crate::key_gen::names::name_lt;
use crate::key_gen::names::names_equal;
use crate::key_gen::names::names_sorted;
use crate::key_gen::roster_laws::lemma_insert_at;
use crate::key_gen::search::find_slot;
use crate::key_gen::search::lemma_slot_of;
use crate::key_gen::search::slot_of;

verus! {

/// `set` with `x` put in its place, unless it is there: `x` stands before the first name
/// that comes after it.
pub open spec fn with_name(set: Seq<XorName>, x: XorName) -> Seq<XorName> {
    if set.contains(x) {
        set
    } else {
        set.insert(slot_of(set, x), x)
    }
}

/// The set of the names of `names`: the names in strictly increasing order, each once.
pub open spec fn name_set(names: Seq<XorName>) -> Seq<XorName>
    decreases names.len(),
{
    if names.len() == 0 {
        names
    } else {
        with_name(name_set(names.drop_last()), names.last())
    }
}

/// A name put into a set of names leaves a set of names, which holds the name and what the
/// set held.
pub proof fn lemma_with_name(set: Seq<XorName>, x: XorName)
    requires
        names_sorted(set),
    ensures
        names_sorted(with_name(set, x)),
        forall|y: XorName| #[trigger] with_name(set, x).contains(y) <==> y == x || set.contains(y),
        set.contains(x) ==> with_name(set, x) == set,
        !set.contains(x) ==> with_name(set, x).len() == set.len() + 1,
{
    if !set.contains(x) {
        let p = slot_of(set, x);
        let t = with_name(set, x);
        lemma_slot_of(set, x);
        lemma_insert_at(set, p, x);
        assert forall|i: int| 0 <= i < p implies name_lt(set[i], x) by {
            assert(set.contains(set[i]));
            lemma_name_trichotomy(set[i], x);
        }
        assert forall|i: int| p <= i < set.len() implies name_lt(x, set[i]) by {
            if i > p {
                lemma_name_lt_transitive(x, set[p], set[i]);
            }
        }
        assert forall|i: int, j: int| 0 <= i < j < t.len() implies name_lt(
            #[trigger] t[i],
            #[trigger] t[j],
        ) by {
            if i < p && p < j {
                assert(t[i] == set[i] && t[j] == set[j - 1]);
            } else if i == p {
                assert(t[j] == set[j - 1]);
            } else if p < i {
                assert(t[i] == set[i - 1] && t[j] == set[j - 1]);
            }
        }
    }
}

/// The set of some names is a set of names, and holds exactly those names.
pub proof fn lemma_name_set(names: Seq<XorName>)
    ensures
        names_sorted(name_set(names)),
        name_set(names).len() <= names.len(),
        forall|y: XorName| #[trigger] name_set(names).contains(y) <==> names.contains(y),
    decreases names.len(),
{
    if names.len() > 0 {
        let rest = names.drop_last();
        let last = names.last();
        lemma_name_set(rest);
        lemma_with_name(name_set(rest), last);
        assert forall|y: XorName| #[trigger]
            name_set(names).contains(y) <==> names.contains(y) by {
            if names.contains(y) {
                let k = choose|k: int| 0 <= k < names.len() && names[k] == y;
                if k < rest.len() {
                    assert(rest[k] == y);
                }
            }
            if rest.contains(y) {
                let k = choose|k: int| 0 <= k < rest.len() && rest[k] == y;
                assert(names[k] == y);
            }
            assert(names[names.len() - 1] == last);
            assert(name_set(rest).contains(y) <==> rest.contains(y));
        }
    }
}

/// A set of names is its own set.
pub proof fn lemma_name_set_of_set(set: Seq<XorName>)
    requires
        names_sorted(set),
    ensures
        name_set(set) == set,
    decreases set.len(),
{
    if set.len() > 0 {
        let rest = set.drop_last();
        let last = set.last();
        lemma_name_set_of_set(rest);
        assert(!rest.contains(last)) by {
            if rest.contains(last) {
                let k = choose|k: int| 0 <= k < rest.len() && rest[k] == last;
                lemma_name_lt_asymmetric(set[k], set[set.len() - 1]);
            }
        }
        assert forall|i: int| 0 <= i < rest.len() implies !name_lt(last, rest[i]) by {
            lemma_name_lt_asymmetric(set[i], set[set.len() - 1]);
        }
        crate::key_gen::search::lemma_slot_of_is(rest, last, rest.len() as int);
        assert(rest.insert(rest.len() as int, last) =~= set);
    }
}

/// Those of the first `upto` names for which `keep` holds, in their order.
pub open spec fn chosen(names: Seq<XorName>, keep: spec_fn(XorName) -> bool, upto: int) -> Seq<
    XorName,
>
    decreases upto,
{
    if upto <= 0 {
        Seq::empty()
    } else if keep(names[upto - 1]) {
        chosen(names, keep, upto - 1).push(names[upto - 1])
    } else {
        chosen(names, keep, upto - 1)
    }
}

/// What is chosen from the first names of a set of names is a set of names, and holds
/// exactly those of these names for which `keep` holds.
pub proof fn lemma_chosen(names: Seq<XorName>, keep: spec_fn(XorName) -> bool, upto: int)
    requires
        names_sorted(names),
        0 <= upto <= names.len(),
    ensures
        names_sorted(chosen(names, keep, upto)),
        chosen(names, keep, upto).len() <= upto,
        forall|name: XorName| #[trigger]
            chosen(names, keep, upto).contains(name) <==> keep(name) && names.take(
                upto,
            ).contains(name),
    decreases upto,
{
    if upto > 0 {
        let k = upto - 1;
        lemma_chosen(names, keep, k);
        let name = names[k];
        let before = chosen(names, keep, k);
        let after = chosen(names, keep, upto);
        let prev = names.take(k);
        let next = names.take(upto);
        assert(next == prev.push(name));
        assert forall|y: XorName| #[trigger] next.contains(y) <==> y == name || prev.contains(
            y,
        ) by {
            if prev.contains(y) {
                let j = choose|j: int| 0 <= j < prev.len() && prev[j] == y;
                assert(next[j] == y);
            }
            if next.contains(y) {
                let j = choose|j: int| 0 <= j < next.len() && next[j] == y;
                if j < k {
                    assert(prev[j] == y);
                }
            }
            assert(next[k] == name);
        }
        assert(!prev.contains(name)) by {
            if prev.contains(name) {
                let j = choose|j: int| 0 <= j < prev.len() && prev[j] == name;
                lemma_set_position(names, j, k);
            }
        }
        assert forall|y: XorName| #[trigger]
            after.contains(y) <==> keep(y) && next.contains(y) by {
            assert(before.contains(y) <==> keep(y) && prev.contains(y));
            if keep(name) {
                assert(after[before.len() as int] == name);
                if after.contains(y) && y != name {
                    let j = choose|j: int| 0 <= j < after.len() && after[j] == y;
                    assert(before[j] == y);
                }
                if before.contains(y) {
                    let j = choose|j: int| 0 <= j < before.len() && before[j] == y;
                    assert(after[j] == y);
                }
            }
        }
        if keep(name) {
            assert forall|i: int, j: int| 0 <= i < j < after.len() implies name_lt(
                #[trigger] after[i],
                #[trigger] after[j],
            ) by {
                if j == before.len() {
                    assert(before[i] == after[i]);
                    assert(before.contains(before[i]));
                    assert(prev.contains(before[i]));
                    let p = choose|p: int| 0 <= p < prev.len() && prev[p] == before[i];
                    assert(names[p] == before[i]);
                } else {
                    assert(before[i] == after[i] && before[j] == after[j]);
                }
            }
        }
    }
}

/// In a set of names, a name stands at one position only.
pub proof fn lemma_set_position(set: Seq<XorName>, i: int, j: int)
    requires
        names_sorted(set),
        0 <= i < set.len(),
        0 <= j < set.len(),
        set[i] == set[j],
    ensures
        i == j,
{
    if i < j {
        lemma_name_lt_asymmetric(set[i], set[j]);
    }
    if j < i {
        lemma_name_lt_asymmetric(set[j], set[i]);
    }
}

/// Puts `x` into the set of names `set`, unless it is there.
pub fn insert_name(set: &mut Vec<XorName>, x: XorName)
    ensures
        final(set)@ == with_name(old(set)@, x),
{
    let p = find_slot(set, &x);
    proof {
        lemma_slot_of(set@, x);
    }
    if crate::key_gen::search::find_name(set, &x) >= set.len() {
        set.insert(p, x);
    }
}

/// The set of the names of `names`.
pub fn names_to_set(names: &Vec<XorName>) -> (set: Vec<XorName>)
    ensures
        set@ == name_set(names@),
        names_sorted(set@),
        set.len() <= names.len(),
        forall|y: XorName| #[trigger] set@.contains(y) <==> names@.contains(y),
{
    let mut set: Vec<XorName> = Vec::new();
    let mut i: usize = 0;
    while i < names.len()
        invariant
            i <= names.len(),
            set@ == name_set(names@.take(i as int)),
        decreases names.len() - i,
    {
        proof {
            assert(names@.take(i + 1).drop_last() == names@.take(i as int));
        }
        insert_name(&mut set, names[i]);
        i += 1;
    }
    proof {
        assert(names@.take(names.len() as int) == names@);
        lemma_name_set(names@);
    }
    set
}

/// A copy of the names.
pub fn copy_names(names: &Vec<XorName>) -> (copy: Vec<XorName>)
    ensures
        copy@ == names@,
{
    let mut copy: Vec<XorName> = Vec::new();
    let mut i: usize = 0;
    while i < names.len()
        invariant
            i <= names.len(),
            copy@ == names@.take(i as int),
        decreases names.len() - i,
    {
        copy.push(names[i]);
        proof {
            assert(names@.take(i + 1) == names@.take(i as int).push(names@[i as int]));
        }
        i += 1;
    }
    proof {
        assert(names@.take(names.len() as int) == names@);
    }
    copy
}

/// Whether the two vectors hold the same names in the same order.
pub fn same_names(a: &Vec<XorName>, b: &Vec<XorName>) -> (same: bool)
    ensures
        same == (a@ == b@),
{
    if a.len() != b.len() {
        return false;
    }
    let mut i: usize = 0;
    while i < a.len()
        invariant
            i <= a.len(),
            a.len() == b.len(),
            forall|j: int| 0 <= j < i ==> a@[j] == b@[j],
        decreases a.len() - i,
    {
        if !names_equal(&a[i], &b[i]) {
            return false;
        }
        i += 1;
    }
    proof {
        assert(a@ =~= b@);
    }
    true
}

/// Whether the two vectors hold the same bytes.
pub fn same_bytes(a: &Vec<u8>, b: &Vec<u8>) -> (same: bool)
    ensures
        same == (a@ == b@),
{
    if a.len() != b.len() {
        return false;
    }
    let mut i: usize = 0;
    while i < a.len()
        invariant
            i <= a.len(),
            a.len() == b.len(),
            forall|j: int| 0 <= j < i ==> a@[j] == b@[j],
        decreases a.len() - i,
    {
        if a[i] != b[i] {
            return false;
        }
        i += 1;
    }
    proof {
        assert(a@ =~= b@);
    }
    true
}

/// Whether `x` is among `names`.
pub fn has_name(names: &Vec<XorName>, x: &XorName) -> (found: bool)
    ensures
        found == names@.contains(*x),
{
    proof {
        crate::key_gen::search::lemma_first_index_contains(names@, *x);
    }
    crate::key_gen::search::find_name(names, x) < names.len()
}

} // verus!
