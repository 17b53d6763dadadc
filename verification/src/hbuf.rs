//! Trusted view of the fixed-capacity vectors from the `heapless` crate.
//!
//! The transport buffers keep their bytes in `heapless::Vec`, a vector with a
//! compile-time capacity and no allocator.  Verus does not read that crate, so
//! the type is declared here and its contents are given names; the rest of the
//! library reasons about those names only.

use vstd::prelude::*;

verus! {

#[verifier::external_type_specification]
#[verifier::external_body]
#[verifier::reject_recursive_types(T)]
pub struct ExHeaplessVec<T, const N: usize>(heapless::Vec<T, N>);

/// The bytes a 256-byte transport buffer holds, oldest first.
pub uninterp spec fn byte_buf_bytes(v: heapless::Vec<u8, 256>) -> Seq<u8>;

/// The coordinate pairs a firing-coordinate list holds, in arrival order.
pub uninterp spec fn coord_list_coords(v: heapless::Vec<(u8, u8), 25>) -> Seq<(u8, u8)>;

/// Relies on heapless::Vec::new: the new vector holds no elements.
#[verifier::external_body]
pub fn byte_buf_new() -> (v: heapless::Vec<u8, 256>)
    ensures
        byte_buf_bytes(v) == Seq::<u8>::empty(),
{
    heapless::Vec::new()
}

/// Relies on heapless::Vec::as_slice: a slice of exactly the stored elements,
/// of which the type admits at most its capacity, 256.
#[verifier::external_body]
pub fn byte_buf_contents(v: &heapless::Vec<u8, 256>) -> (r: Vec<u8>)
    ensures
        r@ == byte_buf_bytes(*v),
        r@.len() <= 256,
{
    v.as_slice().to_vec()
}

/// Relies on heapless::Vec::from_slice: copies the slice whenever it fits the
/// capacity; the fallback arm is unreachable under the precondition.
#[verifier::external_body]
pub fn byte_buf_from(s: &[u8]) -> (v: heapless::Vec<u8, 256>)
    requires
        s@.len() <= 256,
    ensures
        byte_buf_bytes(v) == s@,
{
    match heapless::Vec::from_slice(s) {
        Ok(v) => v,
        Err(()) => heapless::Vec::new(),
    }
}

/// Relies on heapless::Vec::as_slice: a slice of exactly the stored elements,
/// of which the type admits at most its capacity, 25.
#[verifier::external_body]
pub fn coord_list_contents(v: &heapless::Vec<(u8, u8), 25>) -> (r: Vec<(u8, u8)>)
    ensures
        r@ == coord_list_coords(*v),
        r@.len() <= 25,
{
    v.as_slice().to_vec()
}

/// Relies on heapless::Vec::from_slice: copies the slice whenever it fits the
/// capacity; the fallback arm is unreachable under the precondition.
#[verifier::external_body]
pub fn coord_list_from(s: &[(u8, u8)]) -> (v: heapless::Vec<(u8, u8), 25>)
    requires
        s@.len() <= 25,
    ensures
        coord_list_coords(v) == s@,
{
    match heapless::Vec::from_slice(s) {
        Ok(v) => v,
        Err(()) => heapless::Vec::new(),
    }
}

} // verus!
