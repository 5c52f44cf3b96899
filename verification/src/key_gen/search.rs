//! Searching a sequence for the first position at which something holds.

use vstd::prelude::*;
use xor_name::XorName;
use crate::key_gen::names::name_lt;
use crate::key_gen::names::name_precedes;
use crate::key_gen::names::names_equal;

verus! {

/// `p` is the first position of `x` in `items`, or their number if `x` is not among them.
pub open spec fn is_first_index(items: Seq<XorName>, x: XorName, p: int) -> bool {
    &&& 0 <= p <= items.len()
    &&& forall|i: int| 0 <= i < p ==> !(items[i] == x)
    &&& p < items.len() ==> items[p] == x
}

/// The first position of `x` in `items`, or their number if `x` is not among them.
pub open spec fn first_index(items: Seq<XorName>, x: XorName) -> int {
    choose|p: int| is_first_index(items, x, p)
}

proof fn lemma_first_index_from(items: Seq<XorName>, x: XorName, from: int)
    requires
        0 <= from <= items.len(),
        forall|i: int| 0 <= i < from ==> !(items[i] == x),
    ensures
        exists|p: int| is_first_index(items, x, p),
    decreases items.len() - from,
{
    if from == items.len() || items[from] == x {
        assert(is_first_index(items, x, from));
    } else {
        lemma_first_index_from(items, x, from + 1);
    }
}

/// `first_index` names a position of that kind.
pub proof fn lemma_first_index(items: Seq<XorName>, x: XorName)
    ensures
        is_first_index(items, x, first_index(items, x)),
{
    lemma_first_index_from(items, x, 0);
}

/// A position of that kind is the one that `first_index` names.
pub proof fn lemma_first_index_is(items: Seq<XorName>, x: XorName, p: int)
    requires
        is_first_index(items, x, p),
    ensures
        first_index(items, x) == p,
{
}

/// Finds the first position of `x` in `items`.
pub fn find_name(items: &Vec<XorName>, x: &XorName) -> (p: usize)
    ensures
        p == first_index(items@, *x),
        is_first_index(items@, *x, p as int),
{
    let mut i: usize = 0;
    while i < items.len()
        invariant
            i <= items.len(),
            forall|j: int| 0 <= j < i ==> !(items@[j] == *x),
        decreases items.len() - i,
    {
        if names_equal(&items[i], x) {
            proof {
                lemma_first_index_is(items@, *x, i as int);
            }
            return i;
        }
        i += 1;
    }
    proof {
        lemma_first_index_is(items@, *x, i as int);
    }
    i
}

/// `p` is the first position in `items` of a name that comes after `x`, or their number.
pub open spec fn is_slot(items: Seq<XorName>, x: XorName, p: int) -> bool {
    &&& 0 <= p <= items.len()
    &&& forall|i: int| 0 <= i < p ==> !(name_lt(x, items[i]))
    &&& p < items.len() ==> name_lt(x, items[p])
}

/// The first position in `items` of a name that comes after `x`, or their number. Where
/// `items` is sorted, `x` can be inserted there behind every name that does not come after it.
pub open spec fn slot_of(items: Seq<XorName>, x: XorName) -> int {
    choose|p: int| is_slot(items, x, p)
}

proof fn lemma_slot_of_from(items: Seq<XorName>, x: XorName, from: int)
    requires
        0 <= from <= items.len(),
        forall|i: int| 0 <= i < from ==> !(name_lt(x, items[i])),
    ensures
        exists|p: int| is_slot(items, x, p),
    decreases items.len() - from,
{
    if from == items.len() || name_lt(x, items[from]) {
        assert(is_slot(items, x, from));
    } else {
        lemma_slot_of_from(items, x, from + 1);
    }
}

/// `slot_of` names a position of that kind.
pub proof fn lemma_slot_of(items: Seq<XorName>, x: XorName)
    ensures
        is_slot(items, x, slot_of(items, x)),
{
    lemma_slot_of_from(items, x, 0);
}

/// A position of that kind is the one that `slot_of` names.
pub proof fn lemma_slot_of_is(items: Seq<XorName>, x: XorName, p: int)
    requires
        is_slot(items, x, p),
    ensures
        slot_of(items, x) == p,
{
}

/// Finds the first position in `items` of a name that comes after `x`.
pub fn find_slot(items: &Vec<XorName>, x: &XorName) -> (p: usize)
    ensures
        p == slot_of(items@, *x),
        is_slot(items@, *x, p as int),
{
    let mut i: usize = 0;
    while i < items.len()
        invariant
            i <= items.len(),
            forall|j: int| 0 <= j < i ==> !(name_lt(*x, items@[j])),
        decreases items.len() - i,
    {
        if name_precedes(x, &items[i]) {
            proof {
                lemma_slot_of_is(items@, *x, i as int);
            }
            return i;
        }
        i += 1;
    }
    proof {
        lemma_slot_of_is(items@, *x, i as int);
    }
    i
}

/// `p` is the first position of `x` in `items`, or their number if `x` is not among them.
pub open spec fn is_first_index_u64(items: Seq<u64>, x: u64, p: int) -> bool {
    &&& 0 <= p <= items.len()
    &&& forall|i: int| 0 <= i < p ==> !(items[i] == x)
    &&& p < items.len() ==> items[p] == x
}

/// The first position of `x` in `items`, or their number if `x` is not among them.
pub open spec fn first_index_u64(items: Seq<u64>, x: u64) -> int {
    choose|p: int| is_first_index_u64(items, x, p)
}

proof fn lemma_first_index_u64_from(items: Seq<u64>, x: u64, from: int)
    requires
        0 <= from <= items.len(),
        forall|i: int| 0 <= i < from ==> !(items[i] == x),
    ensures
        exists|p: int| is_first_index_u64(items, x, p),
    decreases items.len() - from,
{
    if from == items.len() || items[from] == x {
        assert(is_first_index_u64(items, x, from));
    } else {
        lemma_first_index_u64_from(items, x, from + 1);
    }
}

/// `first_index_u64` names a position of that kind.
pub proof fn lemma_first_index_u64(items: Seq<u64>, x: u64)
    ensures
        is_first_index_u64(items, x, first_index_u64(items, x)),
{
    lemma_first_index_u64_from(items, x, 0);
}

/// A position of that kind is the one that `first_index_u64` names.
pub proof fn lemma_first_index_u64_is(items: Seq<u64>, x: u64, p: int)
    requires
        is_first_index_u64(items, x, p),
    ensures
        first_index_u64(items, x) == p,
{
}

/// Finds the first position of `x` in `items`.
pub fn find_u64(items: &Vec<u64>, x: u64) -> (p: usize)
    ensures
        p == first_index_u64(items@, x),
        is_first_index_u64(items@, x, p as int),
{
    let mut i: usize = 0;
    while i < items.len()
        invariant
            i <= items.len(),
            forall|j: int| 0 <= j < i ==> !(items@[j] == x),
        decreases items.len() - i,
    {
        if items[i] == x {
            proof {
                lemma_first_index_u64_is(items@, x, i as int);
            }
            return i;
        }
        i += 1;
    }
    proof {
        lemma_first_index_u64_is(items@, x, i as int);
    }
    i
}

/// `p` is the first position in `items` of a value that is not greater than `x`, or their
/// number.
pub open spec fn is_desc_slot(items: Seq<u64>, x: u64, p: int) -> bool {
    &&& 0 <= p <= items.len()
    &&& forall|i: int| 0 <= i < p ==> !(items[i] <= x)
    &&& p < items.len() ==> items[p] <= x
}

/// The first position in `items` of a value that is not greater than `x`, or their number.
/// Where `items` is in descending order, inserting `x` there keeps it so.
pub open spec fn desc_slot(items: Seq<u64>, x: u64) -> int {
    choose|p: int| is_desc_slot(items, x, p)
}

proof fn lemma_desc_slot_from(items: Seq<u64>, x: u64, from: int)
    requires
        0 <= from <= items.len(),
        forall|i: int| 0 <= i < from ==> !(items[i] <= x),
    ensures
        exists|p: int| is_desc_slot(items, x, p),
    decreases items.len() - from,
{
    if from == items.len() || items[from] <= x {
        assert(is_desc_slot(items, x, from));
    } else {
        lemma_desc_slot_from(items, x, from + 1);
    }
}

/// `desc_slot` names a position of that kind.
pub proof fn lemma_desc_slot(items: Seq<u64>, x: u64)
    ensures
        is_desc_slot(items, x, desc_slot(items, x)),
{
    lemma_desc_slot_from(items, x, 0);
}

/// A position of that kind is the one that `desc_slot` names.
pub proof fn lemma_desc_slot_is(items: Seq<u64>, x: u64, p: int)
    requires
        is_desc_slot(items, x, p),
    ensures
        desc_slot(items, x) == p,
{
}

/// Finds the first position in `items` of a value that is not greater than `x`.
pub fn find_desc_slot(items: &Vec<u64>, x: u64) -> (p: usize)
    ensures
        p == desc_slot(items@, x),
        is_desc_slot(items@, x, p as int),
{
    let mut i: usize = 0;
    while i < items.len()
        invariant
            i <= items.len(),
            forall|j: int| 0 <= j < i ==> !(items@[j] <= x),
        decreases items.len() - i,
    {
        if items[i] <= x {
            proof {
                lemma_desc_slot_is(items@, x, i as int);
            }
            return i;
        }
        i += 1;
    }
    proof {
        lemma_desc_slot_is(items@, x, i as int);
    }
    i
}

/// A name is in the sequence exactly if its first position is below the sequence's length.
pub proof fn lemma_first_index_contains(items: Seq<XorName>, x: XorName)
    ensures
        items.contains(x) <==> first_index(items, x) < items.len(),
        0 <= first_index(items, x) <= items.len(),
        first_index(items, x) < items.len() ==> items[first_index(items, x)] == x,
{
    lemma_first_index(items, x);
    if items.contains(x) {
        let i = choose|i: int| 0 <= i < items.len() && items[i] == x;
        assert(first_index(items, x) <= i);
    }
}

/// A value is in the sequence exactly if its first position is below the sequence's length.
pub proof fn lemma_first_index_u64_contains(items: Seq<u64>, x: u64)
    ensures
        items.contains(x) <==> first_index_u64(items, x) < items.len(),
        0 <= first_index_u64(items, x) <= items.len(),
        first_index_u64(items, x) < items.len() ==> items[first_index_u64(items, x)] == x,
{
    lemma_first_index_u64(items, x);
    if items.contains(x) {
        let i = choose|i: int| 0 <= i < items.len() && items[i] == x;
        assert(first_index_u64(items, x) <= i);
    }
}

/// `p` is the first position in `items` of a value that is not smaller than `x`, or their
/// number.
pub open spec fn is_asc_slot(items: Seq<u64>, x: u64, p: int) -> bool {
    &&& 0 <= p <= items.len()
    &&& forall|i: int| 0 <= i < p ==> !(items[i] >= x)
    &&& p < items.len() ==> items[p] >= x
}

/// The first position in `items` of a value that is not smaller than `x`, or their number.
/// Where `items` is in ascending order, `x` stands there if it is among them, and inserting
/// it there keeps the order if it is not.
pub open spec fn asc_slot(items: Seq<u64>, x: u64) -> int {
    choose|p: int| is_asc_slot(items, x, p)
}

proof fn lemma_asc_slot_from(items: Seq<u64>, x: u64, from: int)
    requires
        0 <= from <= items.len(),
        forall|i: int| 0 <= i < from ==> !(items[i] >= x),
    ensures
        exists|p: int| is_asc_slot(items, x, p),
    decreases items.len() - from,
{
    if from == items.len() || items[from] >= x {
        assert(is_asc_slot(items, x, from));
    } else {
        lemma_asc_slot_from(items, x, from + 1);
    }
}

/// `asc_slot` names a position of that kind.
pub proof fn lemma_asc_slot(items: Seq<u64>, x: u64)
    ensures
        is_asc_slot(items, x, asc_slot(items, x)),
{
    lemma_asc_slot_from(items, x, 0);
}

/// A position of that kind is the one that `asc_slot` names.
pub proof fn lemma_asc_slot_is(items: Seq<u64>, x: u64, p: int)
    requires
        is_asc_slot(items, x, p),
    ensures
        asc_slot(items, x) == p,
{
}

/// Finds the first position in `items` of a value that is not smaller than `x`.
pub fn find_asc_slot(items: &Vec<u64>, x: u64) -> (p: usize)
    ensures
        p == asc_slot(items@, x),
        is_asc_slot(items@, x, p as int),
{
    let mut i: usize = 0;
    while i < items.len()
        invariant
            i <= items.len(),
            forall|j: int| 0 <= j < i ==> !(items@[j] >= x),
        decreases items.len() - i,
    {
        if items[i] >= x {
            proof {
                lemma_asc_slot_is(items@, x, i as int);
            }
            return i;
        }
        i += 1;
    }
    proof {
        lemma_asc_slot_is(items@, x, i as int);
    }
    i
}

/// The values of `s` are in strictly ascending order.
pub open spec fn asc_sorted(s: Seq<u64>) -> bool {
    forall|i: int, j: int| 0 <= i < j < s.len() ==> s[i] < s[j]
}

/// Where a value stands in an ascending sequence, and that the sequence stays ascending when
/// a value that is not in it is inserted at its place.
pub proof fn lemma_asc_insert(s: Seq<u64>, x: u64)
    requires
        asc_sorted(s),
    ensures
        0 <= asc_slot(s, x) <= s.len(),
        s.contains(x) <==> asc_slot(s, x) < s.len() && s[asc_slot(s, x)] == x,
        !s.contains(x) ==> asc_sorted(s.insert(asc_slot(s, x), x)),
        forall|i: int| 0 <= i < s.len() && s[i] == x ==> asc_slot(s, x) == i,
{
    let p = asc_slot(s, x);
    lemma_asc_slot(s, x);
    if s.contains(x) {
        let i = choose|i: int| 0 <= i < s.len() && s[i] == x;
        if i < p {
            assert(!(s[i] >= x));
        }
        if p < i {
            assert(s[p] < s[i]);
        }
    }
    assert forall|i: int| 0 <= i < s.len() && s[i] == x implies p == i by {
        if i < p {
            assert(!(s[i] >= x));
        }
        if p < i {
            assert(s[p] < s[i]);
        }
    }
    if !s.contains(x) {
        let t = s.insert(p, x);
        assert forall|i: int, j: int| 0 <= i < j < t.len() implies t[i] < t[j] by {
            if j == p {
                assert(!(s[i] >= x));
            } else if i < p && p < j {
                assert(t[i] == s[i] && t[j] == s[j - 1]);
                assert(s[i] < s[j - 1]);
            } else if i == p {
                assert(t[j] == s[j - 1]);
                assert(s.contains(s[j - 1]));
                if p < j - 1 {
                    assert(s[p] < s[j - 1]);
                }
            } else if p < i {
                assert(t[i] == s[i - 1] && t[j] == s[j - 1]);
            }
        }
    }
}

/// `p` is the first position at which `flags` holds `true`, or its length if it holds none.
pub open spec fn is_first_true(flags: Seq<bool>, p: int) -> bool {
    &&& 0 <= p <= flags.len()
    &&& forall|i: int| 0 <= i < p ==> !flags[i]
    &&& p < flags.len() ==> flags[p]
}

/// The first position at which `flags` holds `true`, or its length if it holds none.
pub open spec fn first_true(flags: Seq<bool>) -> int {
    choose|p: int| is_first_true(flags, p)
}

/// A position of that kind is the one that `first_true` names.
pub proof fn lemma_first_true_is(flags: Seq<bool>, p: int)
    requires
        is_first_true(flags, p),
    ensures
        first_true(flags) == p,
{
}

} // verus!
