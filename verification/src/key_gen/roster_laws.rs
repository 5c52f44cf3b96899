//! What holds of a roster whenever participants join and leave.

use vstd::prelude::*;
use xor_name::XorName;
use crate::key_gen::names::lemma_name_lt_asymmetric;
use crate::key_gen::names::lemma_name_lt_transitive;
use crate::key_gen::names::lemma_name_trichotomy;
use crate::key_gen::names::name_lt;
use crate::key_gen::names::names_sorted;
use crate::key_gen::search::desc_slot;
use crate::key_gen::search::first_index;
use crate::key_gen::search::lemma_desc_slot;
use crate::key_gen::search::lemma_first_index_contains;
use crate::key_gen::search::lemma_first_index_is;
use crate::key_gen::search::lemma_slot_of;
use crate::key_gen::search::slot_of;
use crate::key_gen::sharexorname::desc_sorted;
use crate::key_gen::sharexorname::fresh_names;
use crate::key_gen::sharexorname::insert_desc;
use crate::key_gen::sharexorname::sort_names;
use crate::key_gen::sharexorname::stale_names;
use crate::key_gen::sharexorname::Roster;

verus! {

/// What stands where after an insertion.
pub proof fn lemma_insert_at<A>(s: Seq<A>, p: int, x: A)
    requires
        0 <= p <= s.len(),
    ensures
        s.insert(p, x).len() == s.len() + 1,
        s.insert(p, x)[p] == x,
        forall|i: int| 0 <= i < p ==> #[trigger] s.insert(p, x)[i] == s[i],
        forall|i: int| p < i <= s.len() ==> #[trigger] s.insert(p, x)[i] == s[i - 1],
        forall|y: A| #[trigger] s.insert(p, x).contains(y) <==> y == x || s.contains(y),
{
    let t = s.insert(p, x);
    assert forall|y: A| #[trigger] t.contains(y) <==> y == x || s.contains(y) by {
        if t.contains(y) {
            let i = choose|i: int| 0 <= i < t.len() && t[i] == y;
            if i < p {
                assert(s[i] == y);
            } else if i > p {
                assert(s[i - 1] == y);
            }
        }
        if s.contains(y) {
            let i = choose|i: int| 0 <= i < s.len() && s[i] == y;
            if i < p {
                assert(t[i] == y);
            } else {
                assert(t[i + 1] == y);
            }
        }
        if y == x {
            assert(t[p] == y);
        }
    }
}

/// What stands where after a removal.
pub proof fn lemma_remove_at<A>(s: Seq<A>, p: int)
    requires
        0 <= p < s.len(),
    ensures
        s.remove(p).len() == s.len() - 1,
        forall|i: int| 0 <= i < p ==> #[trigger] s.remove(p)[i] == s[i],
        forall|i: int| p <= i < s.len() - 1 ==> #[trigger] s.remove(p)[i] == s[i + 1],
{
}

/// Names in strictly increasing order are all different.
pub proof fn lemma_sorted_distinct(s: Seq<XorName>)
    requires
        names_sorted(s),
    ensures
        s.no_duplicates(),
{
    assert forall|i: int, j: int| 0 <= i < s.len() && 0 <= j < s.len() && i != j implies s[i]
        != s[j] by {
        if i < j {
            lemma_name_lt_asymmetric(s[i], s[j]);
        } else {
            lemma_name_lt_asymmetric(s[j], s[i]);
        }
    }
}

/// In a roster whose names are in order, each name's share is the one beside it.
pub proof fn lemma_share_at(r: Roster, i: int)
    requires
        r.aligned(),
        names_sorted(r.names),
        0 <= i < r.names.len(),
    ensures
        r.share_of(r.names[i]) == Some(r.shares[i]),
        first_index(r.names, r.names[i]) == i,
{
    lemma_sorted_distinct(r.names);
    lemma_first_index_is(r.names, r.names[i], i);
}

/// A participant who joins a roster that keeps its invariant and has room for one more, and
/// who was not there before, gets the next share, which nobody holds; the roster keeps its
/// invariant, and who was there keeps its share.
pub proof fn lemma_with(r: Roster, x: XorName)
    requires
        r.wf(),
        r.names.len() < u64::MAX,
        !r.has(x),
    ensures
        r.with(x).wf(),
        r.with(x).share_of(x) == Some(r.next_share()),
        !r.shares.contains(r.next_share()),
        forall|y: XorName| #[trigger] r.with(x).has(y) <==> y == x || r.has(y),
        forall|y: XorName| #[trigger] r.has(y) ==> r.with(x).share_of(y) == r.share_of(y),
{
    let p = slot_of(r.names, x);
    let s = r.next_share();
    let t = r.with(x);
    lemma_slot_of(r.names, x);
    lemma_insert_at(r.names, p, x);
    lemma_insert_at(r.shares, p, s);
    assert forall|i: int| 0 <= i < p implies name_lt(r.names[i], x) by {
        lemma_name_trichotomy(r.names[i], x);
    }
    assert forall|i: int| p <= i < r.names.len() implies name_lt(x, r.names[i]) by {
        if i > p {
            lemma_name_lt_transitive(x, r.names[p], r.names[i]);
        }
    }
    assert forall|i: int, j: int| 0 <= i < j < t.names.len() implies name_lt(
        #[trigger] t.names[i],
        #[trigger] t.names[j],
    ) by {
        if i < p && p < j {
            assert(name_lt(r.names[i], r.names[j - 1]));
        }
    }
    assert(!r.shares.contains(s)) by {
        if r.shares.contains(s) {
            let i = choose|i: int| 0 <= i < r.shares.len() && r.shares[i] == s;
            if r.available.len() > 0 {
                assert(r.shares[i] != r.available[r.available.len() - 1]);
            } else {
                assert(r.shares[i] < r.names.len());
            }
        }
    }
    assert(t.shares.no_duplicates()) by {
        assert forall|i: int, j: int|
            0 <= i < t.shares.len() && 0 <= j < t.shares.len() && i != j implies t.shares[i]
            != t.shares[j] by {
            let oi = if i < p { i } else { i - 1 };
            let oj = if j < p { j } else { j - 1 };
            if i == p {
                assert(t.shares[j] == r.shares[oj]);
            } else if j == p {
                assert(t.shares[i] == r.shares[oi]);
            } else {
                assert(t.shares[i] == r.shares[oi]);
                assert(t.shares[j] == r.shares[oj]);
            }
        }
    }
    assert forall|i: int, j: int|
        0 <= i < t.shares.len() && 0 <= j < t.available.len() implies t.shares[i]
        != t.available[j] by {
        let oi = if i < p { i } else { i - 1 };
        if i == p {
            if r.available.len() > 0 {
                assert(r.available[j] > r.available[r.available.len() - 1]);
            }
        } else {
            assert(t.shares[i] == r.shares[oi]);
            assert(t.available[j] == r.available[j]);
        }
    }
    assert forall|i: int| 0 <= i < t.shares.len() implies t.shares[i] < t.names.len()
        + t.available.len() by {
        let oi = if i < p { i } else { i - 1 };
        if i == p {
            if r.available.len() > 0 {
                assert(s == r.available[r.available.len() - 1]);
            }
        } else {
            assert(t.shares[i] == r.shares[oi]);
        }
    }
    assert forall|j: int| 0 <= j < t.available.len() implies t.available[j] < t.names.len()
        + t.available.len() by {
        assert(t.available[j] == r.available[j]);
    }
    assert(desc_sorted(t.available));
    lemma_share_at(t, p);
    assert forall|y: XorName| r.has(y) implies t.share_of(y) == r.share_of(y) by {
        let i = choose|i: int| 0 <= i < r.names.len() && r.names[i] == y;
        lemma_share_at(r, i);
        if i < p {
            assert(t.names[i] == y);
            lemma_share_at(t, i);
        } else {
            assert(t.names[i + 1] == y);
            lemma_share_at(t, i + 1);
        }
    }
}

/// A value that is smaller than or greater than each of a descending sequence goes to its
/// place in it, and the sequence stays descending.
pub proof fn lemma_insert_desc(a: Seq<u64>, x: u64)
    requires
        desc_sorted(a),
        !a.contains(x),
    ensures
        desc_sorted(insert_desc(a, x)),
        insert_desc(a, x).len() == a.len() + 1,
        forall|y: u64| #[trigger] insert_desc(a, x).contains(y) <==> y == x || a.contains(y),
        (forall|i: int| 0 <= i < a.len() ==> a[i] > x) ==> insert_desc(a, x) == a.push(x),
{
    let q = desc_slot(a, x);
    lemma_desc_slot(a, x);
    lemma_insert_at(a, q, x);
    let t = insert_desc(a, x);
    assert forall|i: int| q <= i < a.len() implies a[i] < x by {
        if i > q {
            assert(a[q] > a[i]);
        }
        assert(a.contains(a[i]));
    }
    assert forall|i: int, j: int| 0 <= i < j < t.len() implies t[i] > t[j] by {
        if i < q && q < j {
            assert(a[i] > x);
        }
    }
    if forall|i: int| 0 <= i < a.len() ==> a[i] > x {
        if q < a.len() {
            assert(a[q] > x);
        }
        assert(t =~= a.push(x));
    }
}

/// A participant who leaves a roster that keeps its invariant frees its share; the roster
/// keeps its invariant, and who stays keeps its share.
pub proof fn lemma_without(r: Roster, x: XorName)
    requires
        r.wf(),
    ensures
        r.without(x).wf(),
        forall|y: XorName| #[trigger] r.without(x).has(y) <==> y != x && r.has(y),
        forall|y: XorName|
            y != x && #[trigger] r.has(y) ==> r.without(x).share_of(y) == r.share_of(y),
        !r.has(x) ==> r.without(x) == r,
{
    let p = first_index(r.names, x);
    lemma_first_index_contains(r.names, x);
    let t = r.without(x);
    if p < r.names.len() {
        let s = r.shares[p];
        lemma_remove_at(r.names, p);
        lemma_remove_at(r.shares, p);
        lemma_sorted_distinct(r.names);
        assert(!r.available.contains(s)) by {
            if r.available.contains(s) {
                let j = choose|j: int| 0 <= j < r.available.len() && r.available[j] == s;
                assert(r.shares[p] != r.available[j]);
            }
        }
        lemma_insert_desc(r.available, s);
        assert(names_sorted(t.names)) by {
            assert forall|i: int, j: int| 0 <= i < j < t.names.len() implies name_lt(
                #[trigger] t.names[i],
                #[trigger] t.names[j],
            ) by {
                let oi = if i < p { i } else { i + 1 };
                let oj = if j < p { j } else { j + 1 };
                assert(t.names[i] == r.names[oi]);
                assert(t.names[j] == r.names[oj]);
            }
        }
        assert(t.shares.no_duplicates()) by {
            assert forall|i: int, j: int|
                0 <= i < t.shares.len() && 0 <= j < t.shares.len() && i != j implies t.shares[i]
                != t.shares[j] by {
                let oi = if i < p { i } else { i + 1 };
                let oj = if j < p { j } else { j + 1 };
                assert(t.shares[i] == r.shares[oi]);
                assert(t.shares[j] == r.shares[oj]);
            }
        }
        assert forall|i: int, j: int|
            0 <= i < t.shares.len() && 0 <= j < t.available.len() implies t.shares[i]
            != t.available[j] by {
            let oi = if i < p { i } else { i + 1 };
            assert(t.shares[i] == r.shares[oi]);
            assert(t.available.contains(t.available[j]));
            if t.available[j] != s {
                assert(r.available.contains(t.available[j]));
                let k = choose|k: int|
                    0 <= k < r.available.len() && r.available[k] == t.available[j];
                assert(r.shares[oi] != r.available[k]);
            }
        }
        assert forall|i: int| 0 <= i < t.shares.len() implies t.shares[i] < t.names.len()
            + t.available.len() by {
            let oi = if i < p { i } else { i + 1 };
            assert(t.shares[i] == r.shares[oi]);
        }
        assert forall|j: int| 0 <= j < t.available.len() implies t.available[j] < t.names.len()
            + t.available.len() by {
            assert(t.available.contains(t.available[j]));
            if t.available[j] != s {
                assert(r.available.contains(t.available[j]));
                let k = choose|k: int|
                    0 <= k < r.available.len() && r.available[k] == t.available[j];
                assert(r.available[k] < r.names.len() + r.available.len());
            }
        }
        assert forall|y: XorName| t.has(y) <==> y != x && r.has(y) by {
            if t.has(y) {
                let i = choose|i: int| 0 <= i < t.names.len() && t.names[i] == y;
                let oi = if i < p { i } else { i + 1 };
                assert(r.names[oi] == y);
            }
            if y != x && r.has(y) {
                let i = choose|i: int| 0 <= i < r.names.len() && r.names[i] == y;
                if i < p {
                    assert(t.names[i] == y);
                } else {
                    assert(t.names[i - 1] == y);
                }
            }
        }
        assert forall|y: XorName| y != x && r.has(y) implies t.share_of(y) == r.share_of(y) by {
            let i = choose|i: int| 0 <= i < r.names.len() && r.names[i] == y;
            lemma_share_at(r, i);
            if i < p {
                assert(t.names[i] == y);
                lemma_share_at(t, i);
            } else {
                assert(t.names[i - 1] == y);
                lemma_share_at(t, i - 1);
            }
        }
    }
}

/// A participant who joins, leaves and joins again gets the share that it had: the roster is
/// then what it was after it joined first.
pub proof fn lemma_join_leave_join(r: Roster, x: XorName)
    requires
        r.wf(),
        r.names.len() < u64::MAX,
        !r.has(x),
    ensures
        r.with(x).without(x).with(x) == r.with(x),
        r.with(x).without(x).with(x).share_of(x) == r.with(x).share_of(x),
{
    let a = r.with(x);
    lemma_with(r, x);
    let p = slot_of(r.names, x);
    lemma_slot_of(r.names, x);
    lemma_insert_at(r.names, p, x);
    lemma_insert_at(r.shares, p, r.next_share());
    lemma_share_at(a, p);
    let b = a.without(x);
    lemma_without(a, x);
    assert(b.names =~= r.names);
    assert(b.shares =~= r.shares);
    let s = r.next_share();
    assert(!a.available.contains(s)) by {
        if a.available.contains(s) {
            let j = choose|j: int| 0 <= j < a.available.len() && a.available[j] == s;
            assert(a.shares[p] != a.available[j]);
        }
    }
    assert forall|i: int| 0 <= i < a.available.len() implies a.available[i] > s by {
        if r.available.len() > 0 {
            assert(r.available[i] > r.available[r.available.len() - 1]);
        }
    }
    lemma_insert_desc(a.available, s);
    assert(b.available == a.available.push(s));
    assert(b.next_share() == s);
    assert(b.available.drop_last() =~= a.available);
    assert(b.with(x).available =~= a.available);
    assert(b.with(x).names =~= a.names);
    assert(b.with(x).shares =~= a.shares);
}

/// Which names are stale: those of `names` that `keep` does not name.
pub proof fn lemma_stale_names(names: Seq<XorName>, keep: Seq<XorName>)
    ensures
        forall|y: XorName|
            #[trigger] stale_names(names, keep).contains(y) <==> names.contains(y)
                && !keep.contains(y),
    decreases names.len(),
{
    let s = stale_names(names, keep);
    if names.len() > 0 {
        let rest = names.drop_last();
        let last = names.last();
        lemma_stale_names(rest, keep);
        let before = stale_names(rest, keep);
        assert forall|y: XorName| #[trigger]
            s.contains(y) <==> names.contains(y) && !keep.contains(y) by {
            if s.contains(y) {
                let i = choose|i: int| 0 <= i < s.len() && s[i] == y;
                if keep.contains(last) || i < before.len() {
                    assert(before[i] == y);
                    assert(before.contains(y));
                    let k = choose|k: int| 0 <= k < rest.len() && rest[k] == y;
                    assert(names[k] == y);
                } else {
                    assert(names[names.len() - 1] == y);
                }
            }
            if names.contains(y) && !keep.contains(y) {
                let k = choose|k: int| 0 <= k < names.len() && names[k] == y;
                if k < rest.len() {
                    assert(rest[k] == y);
                    assert(before.contains(y));
                    let i = choose|i: int| 0 <= i < before.len() && before[i] == y;
                    assert(s[i] == y);
                } else {
                    assert(s[s.len() - 1] == y);
                }
            }
        }
    }
}

/// Which names are fresh: those of `wanted` that are not in `present`, each once.
pub proof fn lemma_fresh_names(wanted: Seq<XorName>, present: Seq<XorName>)
    ensures
        fresh_names(wanted, present).no_duplicates(),
        fresh_names(wanted, present).len() <= wanted.len(),
        forall|y: XorName|
            #[trigger] fresh_names(wanted, present).contains(y) <==> wanted.contains(y)
                && !present.contains(y),
    decreases wanted.len(),
{
    let s = fresh_names(wanted, present);
    if wanted.len() > 0 {
        let rest = wanted.drop_last();
        let last = wanted.last();
        lemma_fresh_names(rest, present);
        let before = fresh_names(rest, present);
        assert forall|y: XorName| #[trigger]
            s.contains(y) <==> wanted.contains(y) && !present.contains(y) by {
            if s.contains(y) {
                let i = choose|i: int| 0 <= i < s.len() && s[i] == y;
                if i < before.len() {
                    assert(before[i] == y);
                    assert(before.contains(y));
                    let k = choose|k: int| 0 <= k < rest.len() && rest[k] == y;
                    assert(wanted[k] == y);
                } else {
                    assert(wanted[wanted.len() - 1] == y);
                }
            }
            if wanted.contains(y) && !present.contains(y) {
                let k = choose|k: int| 0 <= k < wanted.len() && wanted[k] == y;
                if k < rest.len() {
                    assert(rest[k] == y);
                    assert(before.contains(y));
                }
                if before.contains(y) {
                    let i = choose|i: int| 0 <= i < before.len() && before[i] == y;
                    assert(s[i] == y);
                } else {
                    assert(s[s.len() - 1] == y);
                }
            }
        }
        if !(present.contains(last) || before.contains(last)) {
            assert forall|i: int, j: int|
                0 <= i < s.len() && 0 <= j < s.len() && i != j implies s[i] != s[j] by {
                if i == before.len() {
                    assert(before[j] == s[j]);
                    assert(before.contains(s[j]));
                } else if j == before.len() {
                    assert(before[i] == s[i]);
                    assert(before.contains(s[i]));
                } else {
                    assert(before[i] == s[i] && before[j] == s[j]);
                }
            }
        }
    }
}

/// A sequence that holds nothing is the empty sequence.
pub proof fn lemma_nothing_held(s: Seq<XorName>)
    requires
        forall|y: XorName| !#[trigger] s.contains(y),
    ensures
        s == Seq::<XorName>::empty(),
{
    if s.len() > 0 {
        assert(s.contains(s[0]));
    }
    assert(s =~= Seq::<XorName>::empty());
}

impl Roster {
    /// The participant `name` holds `share`.
    pub open spec fn holds(self, name: XorName, share: u64) -> bool {
        exists|i: int|
            0 <= i < self.names.len() && self.names[i] == name && self.shares[i] == share
    }

    /// The invariant of a roster but for the number of its shares: every share, held or
    /// free, is below `bound`.
    pub open spec fn sound(self, bound: int) -> bool {
        &&& self.aligned()
        &&& names_sorted(self.names)
        &&& desc_sorted(self.available)
        &&& self.shares.no_duplicates()
        &&& forall|i: int, j: int|
            0 <= i < self.shares.len() && 0 <= j < self.available.len() ==> self.shares[i]
                != self.available[j]
        &&& forall|i: int| 0 <= i < self.shares.len() ==> self.shares[i] < bound
        &&& forall|j: int| 0 <= j < self.available.len() ==> self.available[j] < bound
    }
}

/// Who is a participant after some have left, whatever the roster held.
pub proof fn lemma_without_all_members(r: Roster, leaving: Seq<XorName>)
    requires
        r.aligned(),
    ensures
        r.without_all(leaving).aligned(),
        r.without_all(leaving).names.len() <= r.names.len(),
        forall|y: XorName|
            #[trigger] r.without_all(leaving).has(y) <==> r.has(y) && !leaving.contains(y),
        (forall|y: XorName| #[trigger] r.has(y) ==> !leaving.contains(y)) ==> r.without_all(
            leaving,
        ) == r,
    decreases r.names.len(),
{
    let t = r.without_all(leaving);
    if r.names.len() > 0 {
        let n = r.names.len() - 1;
        let head = r.first(n);
        lemma_without_all_members(head, leaving);
        let before = head.without_all(leaving);
        assert forall|y: XorName| #[trigger] t.has(y) <==> r.has(y) && !leaving.contains(y) by {
            if t.has(y) {
                let i = choose|i: int| 0 <= i < t.names.len() && t.names[i] == y;
                if i < before.names.len() {
                    assert(before.names[i] == y);
                    assert(before.has(y));
                    let k = choose|k: int| 0 <= k < head.names.len() && head.names[k] == y;
                    assert(r.names[k] == y);
                } else {
                    assert(r.names[n] == y);
                }
            }
            if r.has(y) && !leaving.contains(y) {
                let k = choose|k: int| 0 <= k < r.names.len() && r.names[k] == y;
                if k < n {
                    assert(head.names[k] == y);
                    assert(head.has(y));
                    assert(before.has(y));
                    let i = choose|i: int| 0 <= i < before.names.len() && before.names[i] == y;
                    assert(t.names[i] == y);
                } else {
                    assert(t.names[t.names.len() - 1] == y);
                }
            }
        }
        if forall|y: XorName| #[trigger] r.has(y) ==> !leaving.contains(y) {
            assert forall|y: XorName| #[trigger] head.has(y) implies !leaving.contains(y) by {
                let k = choose|k: int| 0 <= k < head.names.len() && head.names[k] == y;
                assert(r.names[k] == y);
                assert(r.has(y));
            }
            assert(r.has(r.names[n]));
            assert(t.names =~= r.names);
            assert(t.shares =~= r.shares);
        }
    }
}

/// What a roster holds after some participants have left: who stays holds what it held, the
/// shares of those who left are free, and the roster stays sound.
pub proof fn lemma_without_all_sound(r: Roster, leaving: Seq<XorName>, bound: int)
    requires
        r.sound(bound),
    ensures
        r.without_all(leaving).sound(bound),
        r.without_all(leaving).names.len() + r.without_all(leaving).available.len()
            == r.names.len() + r.available.len(),
        forall|k: int|
            0 <= k < r.without_all(leaving).names.len() ==> r.holds(
                #[trigger] r.without_all(leaving).names[k],
                r.without_all(leaving).shares[k],
            ),
        forall|v: u64|
            #[trigger] r.without_all(leaving).available.contains(v) ==> r.available.contains(v)
                || r.shares.contains(v),
    decreases r.names.len(),
{
    let t = r.without_all(leaving);
    if r.names.len() > 0 {
        let n = r.names.len() - 1;
        let head = r.first(n);
        assert(head.sound(bound));
        lemma_without_all_sound(head, leaving, bound);
        lemma_without_all_members(head, leaving);
        let before = head.without_all(leaving);
        let name = r.names[n];
        let share = r.shares[n];
        assert forall|k: int| 0 <= k < before.names.len() implies r.holds(
            #[trigger] before.names[k],
            before.shares[k],
        ) && before.shares[k] != share && name_lt(before.names[k], name) by {
            assert(head.holds(before.names[k], before.shares[k]));
            let i = choose|i: int|
                0 <= i < head.names.len() && head.names[i] == before.names[k] && head.shares[i]
                    == before.shares[k];
            assert(r.names[i] == before.names[k] && r.shares[i] == before.shares[k]);
        }
        assert forall|v: u64| before.available.contains(v) implies (r.available.contains(v)
            || r.shares.contains(v)) && v != share by {
            if head.shares.contains(v) {
                let i = choose|i: int| 0 <= i < head.shares.len() && head.shares[i] == v;
                assert(r.shares[i] == v);
            }
            if r.available.contains(v) {
                let j = choose|j: int| 0 <= j < r.available.len() && r.available[j] == v;
                assert(r.shares[n] != r.available[j]);
            }
        }
        if leaving.contains(name) {
            lemma_insert_desc(before.available, share);
            assert forall|i: int, j: int|
                0 <= i < t.shares.len() && 0 <= j < t.available.len() implies t.shares[i]
                != t.available[j] by {
                assert(t.available.contains(t.available[j]));
                if t.available[j] != share {
                    assert(before.available.contains(t.available[j]));
                    let k = choose|k: int|
                        0 <= k < before.available.len() && before.available[k]
                            == t.available[j];
                    assert(before.shares[i] != before.available[k]);
                } else {
                    assert(r.holds(before.names[i], before.shares[i]));
                }
            }
            assert forall|j: int| 0 <= j < t.available.len() implies t.available[j] < bound by {
                assert(t.available.contains(t.available[j]));
                if t.available[j] != share {
                    assert(before.available.contains(t.available[j]));
                    let k = choose|k: int|
                        0 <= k < before.available.len() && before.available[k]
                            == t.available[j];
                }
            }
            assert forall|v: u64| t.available.contains(v) implies r.available.contains(v)
                || r.shares.contains(v) by {
                if v == share {
                    assert(r.shares[n] == v);
                }
            }
        } else {
            assert(names_sorted(t.names)) by {
                assert forall|i: int, j: int| 0 <= i < j < t.names.len() implies name_lt(
                    #[trigger] t.names[i],
                    #[trigger] t.names[j],
                ) by {
                    if j < before.names.len() {
                        assert(t.names[i] == before.names[i] && t.names[j] == before.names[j]);
                    } else {
                        assert(t.names[i] == before.names[i]);
                    }
                }
            }
            assert(t.shares.no_duplicates()) by {
                assert forall|i: int, j: int|
                    0 <= i < t.shares.len() && 0 <= j < t.shares.len() && i != j implies t.shares[i]
                    != t.shares[j] by {
                    if i < before.shares.len() && j < before.shares.len() {
                        assert(t.shares[i] == before.shares[i] && t.shares[j]
                            == before.shares[j]);
                    } else if i < before.shares.len() {
                        assert(r.holds(before.names[i], before.shares[i]));
                    } else {
                        assert(r.holds(before.names[j], before.shares[j]));
                    }
                }
            }
            assert forall|i: int, j: int|
                0 <= i < t.shares.len() && 0 <= j < t.available.len() implies t.shares[i]
                != t.available[j] by {
                if i < before.shares.len() {
                    assert(t.shares[i] == before.shares[i]);
                } else {
                    assert(before.available.contains(before.available[j]));
                }
            }
            assert forall|i: int| 0 <= i < t.shares.len() implies t.shares[i] < bound by {
                if i < before.shares.len() {
                    assert(t.shares[i] == before.shares[i]);
                }
            }
            assert forall|k: int| 0 <= k < t.names.len() implies r.holds(
                #[trigger] t.names[k],
                t.shares[k],
            ) by {
                if k < before.names.len() {
                    assert(t.names[k] == before.names[k] && t.shares[k] == before.shares[k]);
                    assert(r.holds(before.names[k], before.shares[k]));
                }
            }
        }
    }
}

/// After some participants have left a roster that keeps its invariant, the roster keeps its
/// invariant, and who stays keeps its share.
pub proof fn lemma_without_all(r: Roster, leaving: Seq<XorName>)
    requires
        r.wf(),
    ensures
        r.without_all(leaving).wf(),
        r.without_all(leaving).names.len() <= r.names.len(),
        forall|y: XorName|
            #[trigger] r.without_all(leaving).has(y) <==> r.has(y) && !leaving.contains(y),
        forall|y: XorName|
            #[trigger] r.without_all(leaving).has(y) ==> r.without_all(leaving).share_of(y)
                == r.share_of(y),
{
    let t = r.without_all(leaving);
    let bound = r.names.len() + r.available.len();
    lemma_without_all_members(r, leaving);
    lemma_without_all_sound(r, leaving, bound as int);
    assert forall|y: XorName| #[trigger] t.has(y) implies t.share_of(y) == r.share_of(y) by {
        let k = choose|k: int| 0 <= k < t.names.len() && t.names[k] == y;
        lemma_share_at(t, k);
        assert(r.holds(t.names[k], t.shares[k]));
        let i = choose|i: int|
            0 <= i < r.names.len() && r.names[i] == t.names[k] && r.shares[i] == t.shares[k];
        lemma_share_at(r, i);
    }
}

/// Who is a participant after some have joined, whatever the roster held.
pub proof fn lemma_with_all_members(r: Roster, joining: Seq<XorName>)
    requires
        r.aligned(),
    ensures
        r.with_all(joining).aligned(),
        r.with_all(joining).names.len() == r.names.len() + joining.len(),
        forall|y: XorName|
            #[trigger] r.with_all(joining).has(y) <==> r.has(y) || joining.contains(y),
    decreases joining.len(),
{
    let t = r.with_all(joining);
    if joining.len() > 0 {
        let rest = joining.drop_last();
        let last = joining.last();
        lemma_with_all_members(r, rest);
        let before = r.with_all(rest);
        let p = slot_of(before.names, last);
        lemma_slot_of(before.names, last);
        lemma_insert_at(before.names, p, last);
        lemma_insert_at(before.shares, p, before.next_share());
        assert(t.names == before.names.insert(p, last));
        assert forall|y: XorName| #[trigger] t.has(y) <==> r.has(y) || joining.contains(y) by {
            assert(t.names.contains(y) <==> y == last || before.has(y));
            if joining.contains(y) {
                let k = choose|k: int| 0 <= k < joining.len() && joining[k] == y;
                if k < rest.len() {
                    assert(rest[k] == y);
                }
            }
            if rest.contains(y) {
                let k = choose|k: int| 0 <= k < rest.len() && rest[k] == y;
                assert(joining[k] == y);
            }
            assert(joining[joining.len() - 1] == last);
        }
    }
}

/// After participants who were not there, each named once, have joined a roster that keeps
/// its invariant and has room for them, the roster keeps its invariant, and who was there
/// keeps its share.
pub proof fn lemma_with_all(r: Roster, joining: Seq<XorName>)
    requires
        r.wf(),
        r.names.len() + joining.len() <= u64::MAX,
        joining.no_duplicates(),
        forall|y: XorName| #[trigger] joining.contains(y) ==> !r.has(y),
    ensures
        r.with_all(joining).wf(),
        forall|y: XorName|
            #[trigger] r.with_all(joining).has(y) <==> r.has(y) || joining.contains(y),
        forall|y: XorName|
            #[trigger] r.has(y) ==> r.with_all(joining).share_of(y) == r.share_of(y),
    decreases joining.len(),
{
    let t = r.with_all(joining);
    lemma_with_all_members(r, joining);
    if joining.len() > 0 {
        let rest = joining.drop_last();
        let last = joining.last();
        assert forall|y: XorName| #[trigger] rest.contains(y) implies !r.has(y) && y != last by {
            let k = choose|k: int| 0 <= k < rest.len() && rest[k] == y;
            assert(joining[k] == y);
            assert(joining.contains(y));
        }
        lemma_with_all(r, rest);
        lemma_with_all_members(r, rest);
        let before = r.with_all(rest);
        assert(joining.contains(last)) by {
            assert(joining[joining.len() - 1] == last);
        }
        assert(!before.has(last));
        lemma_with(before, last);
        assert forall|y: XorName| #[trigger] r.has(y) implies t.share_of(y) == r.share_of(y) by {
            assert(before.has(y));
        }
    }
}

/// **Shares stay with their participants.** After a roster that keeps its invariant has been
/// changed to the participants `wanted`, and their number fits a share, it keeps its
/// invariant, its participants are those that `wanted` names, and whoever was a participant
/// before and is one after has the share that it had.
pub proof fn lemma_changed_to(r: Roster, wanted: Seq<XorName>)
    requires
        r.wf(),
        r.changed_to(wanted).names.len() <= u64::MAX,
    ensures
        r.changed_to(wanted).wf(),
        forall|y: XorName| #[trigger] r.changed_to(wanted).has(y) <==> wanted.contains(y),
        forall|y: XorName|
            r.has(y) && #[trigger] r.changed_to(wanted).has(y) ==> r.changed_to(
                wanted,
            ).share_of(y) == r.share_of(y),
{
    let stale = stale_names(r.names, wanted);
    let fresh = fresh_names(wanted, r.names);
    lemma_stale_names(r.names, wanted);
    lemma_fresh_names(wanted, r.names);
    let mid = r.without_all(stale);
    lemma_without_all(r, stale);
    lemma_with_all_members(mid, fresh);
    lemma_with_all(mid, fresh);
}

/// **Changing to the same participants twice changes nothing the second time.**
pub proof fn lemma_changed_to_twice(r: Roster, wanted: Seq<XorName>)
    requires
        r.aligned(),
    ensures
        r.changed_to(wanted).changed_to(wanted) == r.changed_to(wanted),
{
    let stale = stale_names(r.names, wanted);
    let fresh = fresh_names(wanted, r.names);
    lemma_stale_names(r.names, wanted);
    lemma_fresh_names(wanted, r.names);
    let mid = r.without_all(stale);
    lemma_without_all_members(r, stale);
    lemma_with_all_members(mid, fresh);
    let t = r.changed_to(wanted);
    assert forall|y: XorName| #[trigger] t.names.contains(y) <==> wanted.contains(y) by {
        assert(t.has(y) <==> mid.has(y) || fresh.contains(y));
    }
    let stale2 = stale_names(t.names, wanted);
    let fresh2 = fresh_names(wanted, t.names);
    lemma_stale_names(t.names, wanted);
    lemma_fresh_names(wanted, t.names);
    lemma_nothing_held(stale2);
    lemma_nothing_held(fresh2);
    lemma_without_all_members(t, stale2);
    assert(t.without_all(stale2) == t);
}

/// Who is among sorted names: the names that were sorted.
pub proof fn lemma_sort_names(s: Seq<XorName>)
    ensures
        sort_names(s).len() == s.len(),
        forall|y: XorName| #[trigger] sort_names(s).contains(y) <==> s.contains(y),
        forall|i: int, j: int|
            0 <= i < j < s.len() ==> !name_lt(
                #[trigger] sort_names(s)[j],
                #[trigger] sort_names(s)[i],
            ),
        s.no_duplicates() ==> names_sorted(sort_names(s)),
    decreases s.len(),
{
    let t = sort_names(s);
    if s.len() > 0 {
        let rest = s.drop_last();
        let last = s.last();
        lemma_sort_names(rest);
        let before = sort_names(rest);
        let p = slot_of(before, last);
        lemma_slot_of(before, last);
        lemma_insert_at(before, p, last);
        assert forall|y: XorName| #[trigger] t.contains(y) <==> s.contains(y) by {
            if s.contains(y) {
                let k = choose|k: int| 0 <= k < s.len() && s[k] == y;
                if k < rest.len() {
                    assert(rest[k] == y);
                }
            }
            if rest.contains(y) {
                let k = choose|k: int| 0 <= k < rest.len() && rest[k] == y;
                assert(s[k] == y);
            }
            assert(s[s.len() - 1] == last);
        }
        assert forall|i: int| p <= i < before.len() implies name_lt(last, before[i]) by {
            if i > p {
                lemma_name_trichotomy(before[p], before[i]);
                if name_lt(before[p], before[i]) {
                    lemma_name_lt_transitive(last, before[p], before[i]);
                }
            }
        }
        assert forall|i: int, j: int| 0 <= i < j < s.len() implies !name_lt(
            #[trigger] t[j],
            #[trigger] t[i],
        ) by {
            if i < p && p < j {
                assert(t[i] == before[i] && t[j] == before[j - 1]);
            } else if i == p {
                assert(t[j] == before[j - 1]);
                lemma_name_lt_asymmetric(last, before[j - 1]);
            } else if p < i {
                assert(t[i] == before[i - 1] && t[j] == before[j - 1]);
            }
        }
        if s.no_duplicates() {
            assert(rest.no_duplicates());
            assert(!rest.contains(last)) by {
                if rest.contains(last) {
                    let k = choose|k: int| 0 <= k < rest.len() && rest[k] == last;
                    assert(s[k] == s[s.len() - 1]);
                }
            }
            assert forall|i: int| 0 <= i < p implies name_lt(before[i], last) by {
                assert(before.contains(before[i]));
                lemma_name_trichotomy(before[i], last);
            }
            assert forall|i: int, j: int| 0 <= i < j < t.len() implies name_lt(
                #[trigger] t[i],
                #[trigger] t[j],
            ) by {
                if i < p && p < j {
                    assert(t[i] == before[i] && t[j] == before[j - 1]);
                } else if i == p {
                    assert(t[j] == before[j - 1]);
                } else if p < i {
                    assert(t[i] == before[i - 1] && t[j] == before[j - 1]);
                }
            }
        }
    }
}

/// The roster of participants that are all different, and not too many, keeps the invariant;
/// its participants are the names given.
pub proof fn lemma_of_names(names: Seq<XorName>)
    requires
        names.no_duplicates(),
        names.len() <= u64::MAX,
    ensures
        Roster::of_names(names).wf(),
        forall|y: XorName| #[trigger] Roster::of_names(names).has(y) <==> names.contains(y),
{
    lemma_sort_names(names);
}

} // verus!
