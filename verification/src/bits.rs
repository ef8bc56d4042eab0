//! The bit vector that backs a bitmap, and what is taken on trust about it.
//!
//! Nothing in this file is proved. Each function below is a thin call into
//! `bit_vec`, and its contract restates what that crate documents.

use crate::packing::{pack, unpack};
use bit_vec::BitVec;
use vstd::prelude::*;

verus! {

/// `bit_vec::BitVec`, which the verifier knows as a type and nothing more.
#[verifier::external_type_specification]
#[verifier::external_body]
#[verifier::reject_recursive_types(B)]
pub struct ExBitVec<B>(BitVec<B>);

/// The bits that a bit vector holds, first bit first.
pub uninterp spec fn bits_of(v: BitVec) -> Seq<bool>;

/// Bitwise OR of two bit sequences, as long as the first.
pub open spec fn or_bits(a: Seq<bool>, b: Seq<bool>) -> Seq<bool> {
    Seq::new(a.len(), |i: int| a[i] || b[i])
}

/// Bitwise AND of two bit sequences, as long as the first.
pub open spec fn and_bits(a: Seq<bool>, b: Seq<bool>) -> Seq<bool> {
    Seq::new(a.len(), |i: int| a[i] && b[i])
}

/// Bitwise XOR of two bit sequences, as long as the first.
pub open spec fn xor_bits(a: Seq<bool>, b: Seq<bool>) -> Seq<bool> {
    Seq::new(a.len(), |i: int| a[i] != b[i])
}

/// `BitVec::from_elem`: a vector of `len` bits, each equal to `bit`.
#[verifier::external_body]
pub(crate) fn filled(len: usize, bit: bool) -> (v: BitVec)
    ensures
        bits_of(v) == Seq::new(len as nat, |i: int| bit),
{
    BitVec::from_elem(len, bit)
}

/// `BitVec::from_bytes`: each byte becomes eight bits, the most significant
/// first. The call panics when the number of bits does not fit in `usize`,
/// which the precondition excludes.
#[verifier::external_body]
pub(crate) fn unpacked(bytes: &Vec<u8>) -> (v: BitVec)
    requires
        8 * bytes@.len() <= usize::MAX,
    ensures
        bits_of(v) == unpack(bytes@),
{
    BitVec::from_bytes(bytes)
}

/// `BitVec::to_bytes`: the bits in groups of eight, the first bit of the
/// vector being the high-order bit of the first byte, with a last partial
/// group filled up with clear bits.
#[verifier::external_body]
pub(crate) fn packed(v: &BitVec) -> (bytes: Vec<u8>)
    ensures
        bytes@ == pack(bits_of(*v)),
{
    v.to_bytes()
}

/// `BitVec::get`: the bit at index `i`, or `None` when `i` is past the end.
#[verifier::external_body]
pub(crate) fn bit(v: &BitVec, i: usize) -> (r: Option<bool>)
    ensures
        r == if i < bits_of(*v).len() {
            Some(bits_of(*v)[i as int])
        } else {
            None
        },
{
    v.get(i)
}

/// `BitVec::set`: overwrites the bit at index `i` and leaves every other bit
/// as it was. The call panics when `i` is past the end, which the
/// precondition excludes.
#[verifier::external_body]
pub(crate) fn put(v: &mut BitVec, i: usize, x: bool)
    requires
        i < bits_of(*old(v)).len(),
    ensures
        bits_of(*final(v)) == bits_of(*old(v)).update(i as int, x),
    no_unwind
{
    v.set(i, x)
}

/// `BitVec::or`: sets `v` to the union of `v` and `other` and reports whether
/// `v` changed. The call panics when the lengths differ, which the
/// precondition excludes.
#[verifier::external_body]
pub(crate) fn unite(v: &mut BitVec, other: &BitVec) -> (changed: bool)
    requires
        bits_of(*old(v)).len() == bits_of(*other).len(),
    ensures
        bits_of(*final(v)) == or_bits(bits_of(*old(v)), bits_of(*other)),
        changed == (bits_of(*final(v)) != bits_of(*old(v))),
    no_unwind
{
    v.or(other)
}

/// `BitVec::and`: sets `v` to the intersection of `v` and `other` and reports
/// whether `v` changed. The call panics when the lengths differ, which the
/// precondition excludes.
#[verifier::external_body]
pub(crate) fn intersect(v: &mut BitVec, other: &BitVec) -> (changed: bool)
    requires
        bits_of(*old(v)).len() == bits_of(*other).len(),
    ensures
        bits_of(*final(v)) == and_bits(bits_of(*old(v)), bits_of(*other)),
        changed == (bits_of(*final(v)) != bits_of(*old(v))),
    no_unwind
{
    v.and(other)
}

/// `BitVec::xor`: sets `v` to the bitwise difference of `v` and `other` and
/// reports whether `v` changed. The call panics when the lengths differ,
/// which the precondition excludes.
#[verifier::external_body]
pub(crate) fn differ(v: &mut BitVec, other: &BitVec) -> (changed: bool)
    requires
        bits_of(*old(v)).len() == bits_of(*other).len(),
    ensures
        bits_of(*final(v)) == xor_bits(bits_of(*old(v)), bits_of(*other)),
        changed == (bits_of(*final(v)) != bits_of(*old(v))),
    no_unwind
{
    v.xor(other)
}

/// `BitVec::none`: whether every bit is clear.
#[verifier::external_body]
pub(crate) fn all_clear(v: &BitVec) -> (r: bool)
    ensures
        r == (forall|i: int| 0 <= i < bits_of(*v).len() ==> !bits_of(*v)[i]),
{
    v.none()
}

/// `BitVec`'s `==`: whether two vectors have the same length and the same
/// bits.
#[verifier::external_body]
pub(crate) fn same_bits(a: &BitVec, b: &BitVec) -> (r: bool)
    ensures
        r == (bits_of(*a) == bits_of(*b)),
{
    a == b
}

/// `BitVec`'s `clone`: a vector with the same bits.
#[verifier::external_body]
pub(crate) fn duplicate(v: &BitVec) -> (copy: BitVec)
    ensures
        bits_of(copy) == bits_of(*v),
{
    v.clone()
}

} // verus!
