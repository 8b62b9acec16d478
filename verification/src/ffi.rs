//! The hand-off record for an owned byte buffer.
//!
//! A cross-runtime boundary wants a buffer together with its recorded
//! length and capacity.  The verified record keeps the vector itself; the
//! raw-pointer hand-off (leaking the allocation so a foreign caller can
//! free it) is an unverified concern of the embedding program, which
//! takes the three parts from this record.

use vstd::prelude::*;

verus! {

/// Relies on Vec::capacity: the number of elements the vector can hold
/// without reallocating, documented to be at least its length.
#[verifier::external_body]
fn vec_capacity<T>(v: &Vec<T>) -> (c: usize)
    ensures
        c >= v@.len(),
{
    v.capacity()
}

/// An owned buffer with its recorded length and capacity, ready for a
/// foreign hand-off.
pub struct FFIVec<T> {
    pub data: Vec<T>,
    pub len: u64,
    pub cap: u64,
}

impl<T> FFIVec<T> {
    /// Wraps a vector, recording its length and capacity.
    pub fn new(x: Vec<T>) -> (s: Self)
        ensures
            s.data@ == x@,
            s.len as nat == x@.len(),
            s.cap >= s.len,
    {
        let len: u64 = x.len() as u64;
        let cap: u64 = vec_capacity(&x) as u64;
        FFIVec { data: x, len, cap }
    }
}

} // verus!
