use praxis::connections::{ConnectionLimit, acquire_outcome};

#[test]
fn no_init_returns_ok_none() {
    let limit = ConnectionLimit::new();
    assert!(
        matches!(limit.try_acquire(), Ok(None)),
        "uninitialized global should return Ok(None)"
    );
}

#[test]
fn limit_grants_then_refuses_then_grants_after_release() {
    let mut limit = ConnectionLimit::new();
    limit.init(1);
    limit.init(5);
    let first = limit.try_acquire();
    assert!(matches!(first, Ok(Some(_))));
    assert!(matches!(limit.try_acquire(), Err(())), "second init is a no-op, limit stays 1");
    drop(first);
    assert!(matches!(limit.try_acquire(), Ok(Some(_))));
}

#[test]
fn zero_limit_refuses_everything() {
    let mut limit = ConnectionLimit::new();
    limit.init(0);
    assert!(matches!(limit.try_acquire(), Err(())));
}

#[test]
fn acquire_outcome_maps_errors() {
    assert!(matches!(
        acquire_outcome(Err(tokio::sync::TryAcquireError::NoPermits)),
        Err(())
    ));
    assert!(matches!(
        acquire_outcome(Err(tokio::sync::TryAcquireError::Closed)),
        Err(())
    ));
    let sem = std::sync::Arc::new(tokio::sync::Semaphore::new(1));
    assert!(matches!(acquire_outcome(sem.try_acquire_owned()), Ok(Some(_))));
}

#[test]
fn later_init_above_the_semaphore_bound_is_ignored() {
    let mut limit = ConnectionLimit::new();
    limit.init(1);
    limit.init(usize::MAX);
    let first = limit.try_acquire();
    assert!(matches!(first, Ok(Some(_))));
    assert!(matches!(limit.try_acquire(), Err(())));
}

#[test]
fn max_permits_matches_the_semaphore_bound() {
    assert_eq!(praxis::semaphore::MAX_PERMITS, tokio::sync::Semaphore::MAX_PERMITS);
    let mut limit = ConnectionLimit::new();
    limit.init(praxis::semaphore::MAX_PERMITS);
    assert!(matches!(limit.try_acquire(), Ok(Some(_))));
}
