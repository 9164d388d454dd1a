//! Identity-based and attribute-based encryption over the BN254 pairing.
//!
//! The schemes are Boneh-Franklin identity-based encryption and a
//! simplified attribute-based encryption that masks a message for the
//! first of its attributes. The modules `ibe` and `abe` work on bytes, keys
//! and ciphertexts in their wire form; `ibe_impl` and `abe_impl` hold the
//! algorithms on group elements; `group` holds scalars and group elements,
//! `policy` the attribute lists written as one string, `entropy` the
//! source of random bytes, and `bytes` the keystream mask. The arithmetic
//! of the curve is that of an outside library, reached through `curve`.

use vstd::prelude::*;

pub mod abe;
pub mod abe_impl;
pub mod bytes;
pub mod curve;
pub mod entropy;
pub mod error;
pub mod group;
pub mod ibe;
pub mod ibe_impl;
pub mod policy;

verus! {

/// The sum of two numbers, for a host to see whether the library answers.
/// The sum must fit in 32 bits.
pub fn add(a: u32, b: u32) -> (sum: u32)
    requires
        a + b <= u32::MAX,
    ensures
        sum == a + b,
{
    a + b
}

} // verus!
