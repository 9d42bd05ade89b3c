//! Process-wide connection limit, complementing per-listener limits with a
//! global ceiling across all listeners.

use tokio::sync::{OwnedSemaphorePermit, TryAcquireError};
use vstd::prelude::*;

use crate::semaphore::{MAX_PERMITS, PermitPool};

verus! {

/// The answer to a permit request, from the semaphore's outcome: the permit
/// on success, and `Err(())` when the limit is exhausted or closed.
pub fn acquire_outcome(r: Result<OwnedSemaphorePermit, TryAcquireError>) -> (a: Result<
    Option<OwnedSemaphorePermit>,
    (),
>)
    ensures
        r is Ok <==> a is Ok,
        r matches Ok(p) ==> a == Ok::<Option<OwnedSemaphorePermit>, ()>(Some(p)),
{
    match r {
        Ok(p) => Ok(Some(p)),
        Err(_) => Err(()),
    }
}

/// A connection limit that is either unset or a pool of permits.
pub struct ConnectionLimit {
    pool: Option<PermitPool>,
}

impl ConnectionLimit {
    /// The limit: `None` when unset, else the number of concurrent
    /// connections allowed.
    pub closed spec fn limit(&self) -> Option<usize> {
        match self.pool {
            Some(p) => Some(p.capacity()),
            None => None,
        }
    }

    /// Whether a limit has been set.
    pub open spec fn is_limited(&self) -> bool {
        self.limit() is Some
    }

    /// No limit configured.
    pub fn new() -> (l: Self)
        ensures
            !l.is_limited(),
    {
        ConnectionLimit { pool: None }
    }

    /// Set the limit to `max` concurrent connections. Only the first call
    /// has an effect; later calls are no-ops.
    pub fn init(&mut self, max: usize)
        requires
            !old(self).is_limited() ==> max <= MAX_PERMITS,
        ensures
            !old(self).is_limited() ==> final(self).limit() == Some(max),
            old(self).is_limited() ==> *final(self) == *old(self),
    {
        if self.pool.is_none() {
            self.pool = Some(PermitPool::new(max));
        }
    }

    /// Try to acquire a connection permit: `Ok(None)` when no limit is
    /// configured, `Ok(Some(permit))` on success, or `Err(())` when the
    /// limit is exceeded.
    pub fn try_acquire(&self) -> (r: Result<Option<OwnedSemaphorePermit>, ()>)
        ensures
            !self.is_limited() ==> r == Ok::<Option<OwnedSemaphorePermit>, ()>(None),
            self.is_limited() ==> (r is Err || r matches Ok(Some(_))),
            self.limit() == Some(0usize) ==> r is Err,
    {
        match &self.pool {
            None => Ok(None),
            Some(pool) => acquire_outcome(pool.try_acquire()),
        }
    }
}

} // verus!
