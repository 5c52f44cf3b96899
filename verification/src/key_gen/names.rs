//! Participant names and their order.
//!
//! A participant is known by its `XorName`, a string of 32 bytes. Names are ordered
//! lexicographically by their bytes; a participant's index is the position of its name among
//! the sorted names of all participants.

use vstd::prelude::*;
use xor_name::XorName;

verus! {

/// `XorName` is a public tuple struct around an array of 32 bytes.
#[verifier::external_type_specification]
pub struct ExXorName(XorName);

/// The number of bytes of a name.
pub const NAME_LEN: usize = 32;

/// `k` is the first position at which the two names differ.
pub open spec fn differ_at(a: XorName, b: XorName, k: int) -> bool {
    &&& 0 <= k < 32
    &&& a.0@[k] != b.0@[k]
    &&& forall|j: int| 0 <= j < k ==> a.0@[j] == b.0@[j]
}

/// `a` comes strictly before `b` in the lexicographic order of their bytes.
pub open spec fn name_lt(a: XorName, b: XorName) -> bool {
    exists|k: int| #[trigger] differ_at(a, b, k) && a.0@[k] < b.0@[k]
}

/// The names of `s` are in strictly increasing order.
pub open spec fn names_sorted(s: Seq<XorName>) -> bool {
    forall|i: int, j: int| 0 <= i < j < s.len() ==> name_lt(#[trigger] s[i], #[trigger] s[j])
}

/// Two names whose bytes agree everywhere are the same name.
pub proof fn lemma_name_ext(a: XorName, b: XorName)
    requires
        forall|j: int| 0 <= j < 32 ==> a.0@[j] == b.0@[j],
    ensures
        a == b,
{
    assert(a.0@ =~= b.0@);
    assert(a.0 =~= b.0);
}

/// Two names differ at one first position only.
pub proof fn lemma_differ_at_unique(a: XorName, b: XorName, k1: int, k2: int)
    requires
        differ_at(a, b, k1),
        differ_at(a, b, k2),
    ensures
        k1 == k2,
{
}

/// No name comes before itself, and of two names at most one comes before the other.
pub proof fn lemma_name_lt_asymmetric(a: XorName, b: XorName)
    requires
        name_lt(a, b),
    ensures
        a != b,
        !name_lt(b, a),
{
    let k = choose|k: int| #[trigger] differ_at(a, b, k) && a.0@[k] < b.0@[k];
    if name_lt(b, a) {
        let k2 = choose|k: int| #[trigger] differ_at(b, a, k) && b.0@[k] < a.0@[k];
        assert(differ_at(a, b, k2));
        lemma_differ_at_unique(a, b, k, k2);
    }
}

/// Of two names, one comes before the other unless they are the same.
pub proof fn lemma_name_trichotomy(a: XorName, b: XorName)
    ensures
        a == b || name_lt(a, b) || name_lt(b, a),
{
    if a != b {
        lemma_first_difference(a, b, 0);
        let k = choose|k: int| differ_at(a, b, k);
        if a.0@[k] < b.0@[k] {
            assert(differ_at(a, b, k) && a.0@[k] < b.0@[k]);
        } else {
            assert(differ_at(b, a, k) && b.0@[k] < a.0@[k]);
        }
    }
}

/// Two different names that agree below `from` have a first position at which they differ.
proof fn lemma_first_difference(a: XorName, b: XorName, from: int)
    requires
        a != b,
        0 <= from <= 32,
        forall|j: int| 0 <= j < from ==> a.0@[j] == b.0@[j],
    ensures
        exists|k: int| differ_at(a, b, k),
    decreases 32 - from,
{
    if from == 32 {
        lemma_name_ext(a, b);
    } else if a.0@[from] != b.0@[from] {
        assert(differ_at(a, b, from));
    } else {
        lemma_first_difference(a, b, from + 1);
    }
}

/// The order of names is transitive.
pub proof fn lemma_name_lt_transitive(a: XorName, b: XorName, c: XorName)
    requires
        name_lt(a, b),
        name_lt(b, c),
    ensures
        name_lt(a, c),
{
    let k1 = choose|k: int| #[trigger] differ_at(a, b, k) && a.0@[k] < b.0@[k];
    let k2 = choose|k: int| #[trigger] differ_at(b, c, k) && b.0@[k] < c.0@[k];
    let k = if k1 <= k2 { k1 } else { k2 };
    assert(differ_at(a, c, k) && a.0@[k] < c.0@[k]);
}

/// Whether two names are the same.
pub fn names_equal(a: &XorName, b: &XorName) -> (r: bool)
    ensures
        r == (*a == *b),
{
    let mut i: usize = 0;
    while i < NAME_LEN
        invariant
            i <= 32,
            forall|j: int| 0 <= j < i ==> a.0@[j] == b.0@[j],
        decreases 32 - i,
    {
        if a.0[i] != b.0[i] {
            return false;
        }
        i += 1;
    }
    proof {
        lemma_name_ext(*a, *b);
    }
    true
}

/// Whether `a` comes strictly before `b`.
pub fn name_precedes(a: &XorName, b: &XorName) -> (r: bool)
    ensures
        r == name_lt(*a, *b),
{
    let mut i: usize = 0;
    while i < NAME_LEN
        invariant
            i <= 32,
            forall|j: int| 0 <= j < i ==> a.0@[j] == b.0@[j],
        decreases 32 - i,
    {
        if a.0[i] != b.0[i] {
            let less = a.0[i] < b.0[i];
            proof {
                assert(differ_at(*a, *b, i as int));
                if !less {
                    assert(differ_at(*b, *a, i as int) && b.0@[i as int] < a.0@[i as int]);
                    lemma_name_lt_asymmetric(*b, *a);
                }
            }
            return less;
        }
        i += 1;
    }
    proof {
        lemma_name_ext(*a, *b);
        if name_lt(*a, *b) {
            lemma_name_lt_asymmetric(*a, *b);
        }
    }
    false
}

} // verus!
