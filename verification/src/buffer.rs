//! The byte buffers that carry protocol input and payloads.
//!
//! Buffers are `bytes::Bytes` values. The verifier cannot look inside one, so
//! this module names what a buffer holds and states, without proof, how the
//! few operations used by the tokenizer and parser relate to those contents.

use bytes::Bytes;
use vstd::prelude::*;

verus! {

#[verifier::external_type_specification]
#[verifier::external_body]
pub struct ExBytes(Bytes);

/// The bytes that a buffer holds, in order.
pub uninterp spec fn contents(b: &Bytes) -> Seq<u8>;

/// `Bytes::copy_from_slice`: the new buffer holds a copy of exactly the
/// bytes of `data`.
pub assume_specification[ Bytes::copy_from_slice ](data: &[u8]) -> (b: Bytes)
    ensures
        contents(&b) == data@,
;

/// `Clone::clone` of `Bytes`: the clone is a second handle on the same
/// memory, so it holds the same bytes.
pub assume_specification[ <Bytes as Clone>::clone ](b: &Bytes) -> (c: Bytes)
    ensures
        contents(&c) == contents(b),
;

/// `Deref::deref` of `Bytes`: the slice that the buffer dereferences to is
/// its contents.
pub assume_specification<'a>[ <Bytes as core::ops::Deref>::deref ](b: &'a Bytes) -> (s: &'a [u8])
    ensures
        s@ == contents(b),
;

} // verus!
