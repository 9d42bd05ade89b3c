//! A counting semaphore of connection permits, kept with the number of
//! permits it was created with.

use std::sync::Arc;

use tokio::sync::{OwnedSemaphorePermit, Semaphore, TryAcquireError};
use vstd::prelude::*;

verus! {

#[verifier::external_type_specification]
#[verifier::external_body]
pub struct ExSemaphore(Semaphore);

#[verifier::external_type_specification]
#[verifier::external_body]
pub struct ExOwnedSemaphorePermit(OwnedSemaphorePermit);

#[verifier::external_type_specification]
#[verifier::external_body]
pub struct ExTryAcquireError(TryAcquireError);

/// The most permits a semaphore may hold; `tokio::sync::Semaphore::MAX_PERMITS`
/// is `usize::MAX >> 3`.
pub const MAX_PERMITS: usize = usize::MAX >> 3;

/// `MAX_PERMITS` is at least 2^29 - 1 on every platform (`usize` has at
/// least 32 bits), so any limit up to that bound can be set.
pub proof fn max_permits_lower_bound()
    ensures
        MAX_PERMITS >= 0x1FFF_FFFF,
{
    let m: usize = usize::MAX;
    assert(m >= 0xFFFF_FFFFusize);
    assert(m >> 3usize >= 0x1FFF_FFFFusize) by (bit_vector)
        requires
            m >= 0xFFFF_FFFFusize,
    ;
}

/// A shared semaphore and the number of permits it was created with. Only
/// `PermitPool::new` builds one, and nothing adds permits to it afterwards:
/// permits come back only when an acquired permit is dropped.
pub struct PermitPool {
    semaphore: Arc<Semaphore>,
    capacity: usize,
}

impl PermitPool {
    /// The number of permits the pool was created with.
    pub closed spec fn capacity(&self) -> usize {
        self.capacity
    }

    /// `tokio::sync::Semaphore::new`: a semaphore with `permits` permits,
    /// shared through an `Arc`; it panics above `MAX_PERMITS`.
    #[verifier::external_body]
    pub(crate) fn new(permits: usize) -> (p: Self)
        requires
            permits <= MAX_PERMITS,
        ensures
            p.capacity() == permits,
    {
        PermitPool { semaphore: Arc::new(Semaphore::new(permits)), capacity: permits }
    }

    /// `tokio::sync::Semaphore::try_acquire_owned`, on a new handle of the
    /// shared semaphore: a permit when one is free right now. Whether one is
    /// free depends on the permits held elsewhere, so only this is stated: a
    /// pool created without permits never grants one.
    #[verifier::external_body]
    pub(crate) fn try_acquire(&self) -> (r: Result<OwnedSemaphorePermit, TryAcquireError>)
        ensures
            self.capacity() == 0 ==> r is Err,
    {
        Arc::clone(&self.semaphore).try_acquire_owned()
    }
}

} // verus!
