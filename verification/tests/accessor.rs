use task_store::accessor::{AccessError, Accessor, Decision};
use task_store::pool::PoolError;

#[test]
fn new_accessor_has_no_pool() {
    let accessor: Accessor<u32> = Accessor::new();
    assert!(!accessor.is_initialized());
    assert!(accessor.handle().is_none());
}

#[test]
fn only_the_first_of_many_requests_initializes() {
    let mut accessor: Accessor<String> = Accessor::new();
    let mut told = Vec::new();
    for _ in 0..8 {
        told.push(accessor.request());
        assert!(accessor.handle().is_none());
    }
    assert_eq!(told[0], Decision::Initialize);
    assert!(told[1..].iter().all(|d| *d == Decision::Wait));
    assert_eq!(told.iter().filter(|d| **d == Decision::Initialize).count(), 1);
}

#[test]
fn everyone_shares_the_installed_handle() {
    let mut accessor: Accessor<String> = Accessor::new();
    assert_eq!(accessor.request(), Decision::Initialize);
    assert_eq!(accessor.request(), Decision::Wait);
    assert_eq!(accessor.complete(Ok(String::from("pool"))), Ok(()));
    assert!(accessor.is_initialized());
    for _ in 0..8 {
        assert_eq!(accessor.request(), Decision::Share);
        assert_eq!(accessor.handle(), Some(&String::from("pool")));
    }
}

#[test]
fn a_second_pool_is_refused() {
    let mut accessor: Accessor<u32> = Accessor::new();
    assert_eq!(accessor.request(), Decision::Initialize);
    assert_eq!(accessor.complete(Ok(1)), Ok(()));
    assert_eq!(accessor.complete(Ok(2)), Err(AccessError::NotInitializing));
    assert_eq!(
        accessor.complete(Err(PoolError::Unreachable)),
        Err(AccessError::NotInitializing)
    );
    assert_eq!(accessor.handle(), Some(&1));
    assert_eq!(accessor.request(), Decision::Share);
}

#[test]
fn outcome_without_a_request_is_refused() {
    let mut accessor: Accessor<u32> = Accessor::new();
    assert_eq!(accessor.complete(Ok(1)), Err(AccessError::NotInitializing));
    assert!(!accessor.is_initialized());
    assert_eq!(accessor.request(), Decision::Initialize);
}

#[test]
fn failure_lets_the_next_caller_try_again() {
    let mut accessor: Accessor<u32> = Accessor::new();
    assert_eq!(accessor.request(), Decision::Initialize);
    assert_eq!(
        accessor.complete(Err(PoolError::Unreachable)),
        Err(AccessError::Failed(PoolError::Unreachable))
    );
    assert!(!accessor.is_initialized());
    assert_eq!(accessor.request(), Decision::Initialize);
    assert_eq!(
        accessor.complete(Err(PoolError::MissingUrl)),
        Err(AccessError::Failed(PoolError::MissingUrl))
    );
    assert_eq!(accessor.request(), Decision::Initialize);
    assert_eq!(accessor.complete(Ok(9)), Ok(()));
    assert_eq!(accessor.handle(), Some(&9));
}
