//! The layout of a split: which bytes of the source each part holds, and why
//! the parts, put together in order, are the source again.

use crate::planner::{ceil_div, lemma_ceil_div_covers, plan_spec};
use vstd::prelude::*;

verus! {

/// The offset in a source of `len` bytes at which part `index` starts: parts
/// of `part_size` bytes lie one after another until the source ends.
pub open spec fn part_start(len: nat, part_size: nat, index: nat) -> nat {
    if index * part_size <= len {
        index * part_size
    } else {
        len
    }
}

/// The number of bytes that part `index` holds.
pub open spec fn part_len(len: nat, part_size: nat, index: nat) -> nat {
    (part_start(len, part_size, index + 1) - part_start(len, part_size, index)) as nat
}

/// The bytes of `data` that part `index` holds.
pub open spec fn part_bytes(data: Seq<u8>, part_size: nat, index: nat) -> Seq<u8> {
    data.subrange(
        part_start(data.len(), part_size, index) as int,
        part_start(data.len(), part_size, index + 1) as int,
    )
}

/// The first `count` parts of `data`, in order.
pub open spec fn parts_of(data: Seq<u8>, part_size: nat, count: nat) -> Seq<Seq<u8>> {
    Seq::new(count, |i: int| part_bytes(data, part_size, i as nat))
}

/// The sum of the lengths of the given byte strings.
pub open spec fn total_len(parts: Seq<Seq<u8>>) -> nat
    decreases parts.len(),
{
    if parts.len() == 0 {
        0
    } else {
        total_len(parts.drop_last()) + parts.last().len()
    }
}

/// Part starts never move backwards and never pass the end of the source.
pub proof fn lemma_part_start_ordered(len: nat, part_size: nat, index: nat)
    ensures
        part_start(len, part_size, index) <= part_start(len, part_size, index + 1) <= len,
        part_start(len, part_size, 0) == 0,
{
    assert((index + 1) * part_size == index * part_size + part_size) by (nonlinear_arith);
    assert(0 * part_size == 0) by (nonlinear_arith);
}

/// A part that lies wholly inside the source has the planned size; the part in
/// which the source ends takes what is left; every later part is empty.
pub proof fn lemma_part_len_cases(len: nat, part_size: nat, index: nat)
    ensures
        (index + 1) * part_size <= len ==> part_len(len, part_size, index) == part_size,
        index * part_size <= len < (index + 1) * part_size ==> part_len(len, part_size, index)
            == len - index * part_size,
        len < index * part_size ==> part_len(len, part_size, index) == 0,
        part_len(len, part_size, index) <= part_size,
{
    assert((index + 1) * part_size == index * part_size + part_size) by (nonlinear_arith);
}

/// The bytes of a part are as many as its length says.
pub proof fn lemma_part_bytes_len(data: Seq<u8>, part_size: nat, index: nat)
    ensures
        part_bytes(data, part_size, index).len() == part_len(data.len(), part_size, index),
{
    lemma_part_start_ordered(data.len(), part_size, index);
}

/// Computes the number of bytes that part `index` holds when a source of
/// `file_size` bytes is laid out in parts of `part_size` bytes.
pub fn planned_len(file_size: u64, part_size: u64, index: u64) -> (len: u64)
    ensures
        len == part_len(file_size as nat, part_size as nat, index as nat),
{
    proof {
        assert((index + 1) * part_size == index * part_size + part_size) by (nonlinear_arith);
    }
    match index.checked_mul(part_size) {
        None => 0,
        Some(start) => {
            if start >= file_size {
                0
            } else if file_size - start < part_size {
                file_size - start
            } else {
                part_size
            }
        },
    }
}

/// The first `count` parts, put together in order, are the source up to the
/// start of part `count`.
pub proof fn lemma_parts_flatten_prefix(data: Seq<u8>, part_size: nat, count: nat)
    ensures
        parts_of(data, part_size, count).flatten() == data.subrange(
            0,
            part_start(data.len(), part_size, count) as int,
        ),
    decreases count,
{
    let len = data.len();
    if count == 0 {
        lemma_part_start_ordered(len, part_size, 0);
        assert(parts_of(data, part_size, 0) =~= Seq::<Seq<u8>>::empty());
        assert(data.subrange(0, 0) =~= Seq::<u8>::empty());
    } else {
        let k = (count - 1) as nat;
        lemma_parts_flatten_prefix(data, part_size, k);
        lemma_part_start_ordered(len, part_size, k);
        if k > 0 {
            lemma_part_start_ordered(len, part_size, (k - 1) as nat);
        }
        let head = parts_of(data, part_size, k);
        let last = part_bytes(data, part_size, k);
        assert(parts_of(data, part_size, count) =~= head.push(last));
        head.lemma_flatten_push(last);
        assert(head.flatten() + last =~= data.subrange(
            0,
            part_start(len, part_size, count) as int,
        ));
    }
}

/// Parts that are large enough to cover the source, put together in order,
/// are the source, byte for byte.
pub proof fn lemma_parts_cover(data: Seq<u8>, part_size: nat, count: nat)
    requires
        count * part_size >= data.len(),
    ensures
        parts_of(data, part_size, count).flatten() == data,
{
    lemma_parts_flatten_prefix(data, part_size, count);
    assert(data.subrange(0, data.len() as int) =~= data);
}

/// The lengths of the byte strings add up to the length of what they give
/// when they are put together.
pub proof fn lemma_total_len_is_flatten_len(parts: Seq<Seq<u8>>)
    ensures
        total_len(parts) == parts.flatten().len(),
    decreases parts.len(),
{
    if parts.len() == 0 {
    } else {
        lemma_total_len_is_flatten_len(parts.drop_last());
        parts.drop_last().lemma_flatten_push(parts.last());
        assert(parts.drop_last().push(parts.last()) =~= parts);
    }
}

/// Splitting as planned and putting the parts together again gives the source
/// back: for every count that the planner accepts, the planned parts of
/// `data`, in order, are `data`, and their lengths add up to its length.
pub proof fn lemma_round_trip(data: Seq<u8>, count: nat)
    requires
        plan_spec(data.len(), count) is Ok,
    ensures
        parts_of(data, ceil_div(data.len(), count), count).flatten() == data,
        total_len(parts_of(data, ceil_div(data.len(), count), count)) == data.len(),
{
    let part_size = ceil_div(data.len(), count);
    lemma_ceil_div_covers(data.len(), count);
    assert(count * part_size == part_size * count) by (nonlinear_arith);
    lemma_parts_cover(data, part_size, count);
    lemma_total_len_is_flatten_len(parts_of(data, part_size, count));
}

} // verus!
