//! Byte strings, lists of byte strings, and how values are written as bytes.
//!
//! Values are written as `bincode` writes them with its default options: an integer of 64
//! bits as eight bytes, the least significant first; a vector as the number of its items, in
//! 64 bits, and then the items; a name as its 32 bytes.

use vstd::prelude::*;
use vstd::bytes::spec_u32_to_le_bytes;
use vstd::bytes::spec_u64_to_le_bytes;
use vstd::bytes::u32_to_le_bytes;
use vstd::bytes::u64_to_le_bytes;
use xor_name::XorName;

verus! {

/// The byte strings of a list, as mathematical sequences.
pub open spec fn rows_of(rows: Seq<Vec<u8>>) -> Seq<Seq<u8>> {
    Seq::new(rows.len(), |i: int| rows[i]@)
}

/// A copy of the bytes.
pub fn copy_bytes(bytes: &Vec<u8>) -> (copy: Vec<u8>)
    ensures
        copy@ == bytes@,
{
    let mut copy: Vec<u8> = Vec::new();
    let mut i: usize = 0;
    while i < bytes.len()
        invariant
            i <= bytes.len(),
            copy@ == bytes@.take(i as int),
        decreases bytes.len() - i,
    {
        copy.push(bytes[i]);
        proof {
            assert(bytes@.take(i + 1) == bytes@.take(i as int).push(bytes@[i as int]));
        }
        i += 1;
    }
    proof {
        assert(bytes@.take(bytes.len() as int) == bytes@);
    }
    copy
}

/// A copy of the list of byte strings.
pub fn copy_rows(rows: &Vec<Vec<u8>>) -> (copy: Vec<Vec<u8>>)
    ensures
        rows_of(copy@) == rows_of(rows@),
        copy.len() == rows.len(),
{
    let mut copy: Vec<Vec<u8>> = Vec::new();
    let mut i: usize = 0;
    while i < rows.len()
        invariant
            i <= rows.len(),
            copy.len() == i,
            forall|j: int| 0 <= j < i ==> copy@[j]@ == rows@[j]@,
        decreases rows.len() - i,
    {
        copy.push(copy_bytes(&rows[i]));
        i += 1;
    }
    proof {
        assert(rows_of(copy@) =~= rows_of(rows@));
    }
    copy
}

/// A copy of the indices.
pub fn copy_indices(items: &Vec<u64>) -> (copy: Vec<u64>)
    ensures
        copy@ == items@,
{
    let mut copy: Vec<u64> = Vec::new();
    let mut i: usize = 0;
    while i < items.len()
        invariant
            i <= items.len(),
            copy@ == items@.take(i as int),
        decreases items.len() - i,
    {
        copy.push(items[i]);
        proof {
            assert(items@.take(i + 1) == items@.take(i as int).push(items@[i as int]));
        }
        i += 1;
    }
    proof {
        assert(items@.take(items.len() as int) == items@);
    }
    copy
}

/// A byte string as it is written: its length, then its bytes.
pub open spec fn written_bytes(bytes: Seq<u8>) -> Seq<u8> {
    spec_u64_to_le_bytes(bytes.len() as u64) + bytes
}

/// The first `n` byte strings of a list, each as it is written, one after the other.
pub open spec fn written_rows_upto(rows: Seq<Seq<u8>>, n: int) -> Seq<u8>
    decreases n,
{
    if n <= 0 {
        Seq::empty()
    } else {
        written_rows_upto(rows, n - 1) + written_bytes(rows[n - 1])
    }
}

/// A list of byte strings as it is written: their number, then each as it is written.
pub open spec fn written_rows(rows: Seq<Seq<u8>>) -> Seq<u8> {
    spec_u64_to_le_bytes(rows.len() as u64) + written_rows_upto(rows, rows.len() as int)
}

/// The first `n` names of a list, each as its 32 bytes, one after the other.
pub open spec fn written_names_upto(names: Seq<XorName>, n: int) -> Seq<u8>
    decreases n,
{
    if n <= 0 {
        Seq::empty()
    } else {
        written_names_upto(names, n - 1) + names[n - 1].0@
    }
}

/// A list of names as it is written: their number, then the names.
pub open spec fn written_names(names: Seq<XorName>) -> Seq<u8> {
    spec_u64_to_le_bytes(names.len() as u64) + written_names_upto(names, names.len() as int)
}

/// The first `n` integers of a list, each as it is written, one after the other.
pub open spec fn written_indices_upto(items: Seq<u64>, n: int) -> Seq<u8>
    decreases n,
{
    if n <= 0 {
        Seq::empty()
    } else {
        written_indices_upto(items, n - 1) + spec_u64_to_le_bytes(items[n - 1])
    }
}

/// A list of integers as it is written: their number, then the integers.
pub open spec fn written_indices(items: Seq<u64>) -> Seq<u8> {
    spec_u64_to_le_bytes(items.len() as u64) + written_indices_upto(items, items.len() as int)
}

/// Writes an integer of 32 bits behind what `out` holds.
pub fn write_u32(out: &mut Vec<u8>, x: u32)
    ensures
        final(out)@ == old(out)@ + spec_u32_to_le_bytes(x),
{
    let mut bytes = u32_to_le_bytes(x);
    out.append(&mut bytes);
}

/// Writes an integer of 64 bits behind what `out` holds.
pub fn write_u64(out: &mut Vec<u8>, x: u64)
    ensures
        final(out)@ == old(out)@ + spec_u64_to_le_bytes(x),
{
    let mut bytes = u64_to_le_bytes(x);
    out.append(&mut bytes);
}

/// Writes the bytes behind what `out` holds, as they are.
pub fn write_raw(out: &mut Vec<u8>, bytes: &Vec<u8>)
    ensures
        final(out)@ == old(out)@ + bytes@,
{
    let mut i: usize = 0;
    while i < bytes.len()
        invariant
            i <= bytes.len(),
            out@ == old(out)@ + bytes@.take(i as int),
        decreases bytes.len() - i,
    {
        out.push(bytes[i]);
        proof {
            assert(bytes@.take(i + 1) == bytes@.take(i as int).push(bytes@[i as int]));
            assert(out@ == old(out)@ + bytes@.take(i + 1));
        }
        i += 1;
    }
    proof {
        assert(bytes@.take(bytes.len() as int) == bytes@);
    }
}

/// Writes a byte string behind what `out` holds.
pub fn write_bytes(out: &mut Vec<u8>, bytes: &Vec<u8>)
    ensures
        final(out)@ == old(out)@ + written_bytes(bytes@),
{
    write_u64(out, bytes.len() as u64);
    write_raw(out, bytes);
    proof {
        assert(out@ == old(out)@ + written_bytes(bytes@));
    }
}

/// Writes a list of byte strings behind what `out` holds.
pub fn write_rows(out: &mut Vec<u8>, rows: &Vec<Vec<u8>>)
    ensures
        final(out)@ == old(out)@ + written_rows(rows_of(rows@)),
{
    write_u64(out, rows.len() as u64);
    let ghost start = out@;
    let mut i: usize = 0;
    while i < rows.len()
        invariant
            i <= rows.len(),
            out@ == start + written_rows_upto(rows_of(rows@), i as int),
        decreases rows.len() - i,
    {
        write_bytes(out, &rows[i]);
        proof {
            assert(rows_of(rows@)[i as int] == rows@[i as int]@);
            assert(out@ == start + written_rows_upto(rows_of(rows@), i + 1));
        }
        i += 1;
    }
    proof {
        assert(out@ == old(out)@ + written_rows(rows_of(rows@)));
    }
}

/// Writes a list of names behind what `out` holds.
pub fn write_names(out: &mut Vec<u8>, names: &Vec<XorName>)
    ensures
        final(out)@ == old(out)@ + written_names(names@),
{
    write_u64(out, names.len() as u64);
    let ghost start = out@;
    let mut i: usize = 0;
    while i < names.len()
        invariant
            i <= names.len(),
            out@ == start + written_names_upto(names@, i as int),
        decreases names.len() - i,
    {
        let name = names[i];
        let ghost before = out@;
        let mut k: usize = 0;
        while k < 32
            invariant
                k <= 32,
                out@ == before + name.0@.take(k as int),
            decreases 32 - k,
        {
            out.push(name.0[k]);
            proof {
                assert(name.0@.take(k + 1) == name.0@.take(k as int).push(name.0@[k as int]));
                assert(out@ == before + name.0@.take(k + 1));
            }
            k += 1;
        }
        proof {
            assert(name.0@.take(32) == name.0@);
            assert(out@ == start + written_names_upto(names@, i + 1));
        }
        i += 1;
    }
    proof {
        assert(out@ == old(out)@ + written_names(names@));
    }
}

/// Writes a list of integers behind what `out` holds.
pub fn write_indices(out: &mut Vec<u8>, items: &Vec<u64>)
    ensures
        final(out)@ == old(out)@ + written_indices(items@),
{
    write_u64(out, items.len() as u64);
    let ghost start = out@;
    let mut i: usize = 0;
    while i < items.len()
        invariant
            i <= items.len(),
            out@ == start + written_indices_upto(items@, i as int),
        decreases items.len() - i,
    {
        write_u64(out, items[i]);
        proof {
            assert(out@ == start + written_indices_upto(items@, i + 1));
        }
        i += 1;
    }
    proof {
        assert(out@ == old(out)@ + written_indices(items@));
    }
}

} // verus!
