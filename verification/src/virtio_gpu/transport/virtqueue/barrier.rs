//! Memory barriers between the writes that publish ring entries and the index
//! updates that make them visible.
use std::sync::atomic::{fence, Ordering};
use vstd::prelude::*;

verus! {

/// `std::sync::atomic::fence(Ordering::Release)`: orders the ring writes
/// before the index write that follows. It changes no value.
#[verifier::external_body]
pub(crate) fn release_fence() {
    fence(Ordering::Release);
}

/// `std::sync::atomic::fence(Ordering::Acquire)`: orders the index read
/// before the ring reads that follow. It changes no value.
#[verifier::external_body]
pub(crate) fn acquire_fence() {
    fence(Ordering::Acquire);
}

} // verus!
