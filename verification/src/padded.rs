//! Trusted declarations for `cache_padded`.
//!
//! The queue keeps its two position counters each in a
//! `cache_padded::CachePadded<usize>`, so that the two hot fields sit on
//! distinct cache lines.  To Verus the wrapper is an opaque box holding
//! one `usize`; `padded_value` names its contents, and the three small
//! wrappers below say how `new`, `Deref` and `DerefMut` relate to it.

use vstd::prelude::*;

verus! {

#[verifier::external_type_specification]
#[verifier::external_body]
#[verifier::reject_recursive_types(T)]
pub struct ExCachePadded<T>(cache_padded::CachePadded<T>);

/// The `usize` stored inside a `cache_padded::CachePadded`.
pub uninterp spec fn padded_value(p: cache_padded::CachePadded<usize>) -> usize;

/// Relies on `cache_padded::CachePadded::new`: it stores the given value,
/// adding nothing but alignment padding.
#[verifier::external_body]
#[allow(deprecated)]
pub(crate) fn padded_new(v: usize) -> (r: cache_padded::CachePadded<usize>)
    ensures
        padded_value(r) == v,
{
    cache_padded::CachePadded::new(v)
}

/// Relies on `cache_padded::CachePadded`'s `Deref` impl: it returns a
/// reference to the stored value.
#[verifier::external_body]
pub(crate) fn padded_read(p: &cache_padded::CachePadded<usize>) -> (r: usize)
    ensures
        r == padded_value(*p),
{
    **p
}

/// Relies on `cache_padded::CachePadded`'s `DerefMut` impl: it gives a
/// mutable reference to the stored value, through which the new value is
/// written.
#[verifier::external_body]
pub(crate) fn padded_write(p: &mut cache_padded::CachePadded<usize>, v: usize)
    ensures
        padded_value(*final(p)) == v,
{
    **p = v;
}

} // verus!
