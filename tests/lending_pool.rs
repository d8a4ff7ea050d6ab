use remittance_lending::{Address, Error, Event, LendingPool, Transfer};

fn addr(id: u64) -> Address {
    Address { id }
}

fn pool() -> LendingPool {
    let mut p = LendingPool::new(addr(50));
    p.initialize(addr(1), addr(60)).unwrap();
    p
}

#[test]
fn pool_scenario_deposit_withdraw_all() {
    let mut p = pool();
    let provider = addr(7);
    let (t, e) = p.deposit(&[provider], provider, 1000, 11).unwrap();
    assert_eq!(t, Transfer { token: addr(60), from: provider, to: addr(50), amount: 1000 });
    assert_eq!(e, Event::Deposited { provider, amount: 1000, timestamp: 11 });
    let (t, e) = p.withdraw(&[provider], provider, 1000, 1000, 12).unwrap();
    assert_eq!(t, Transfer { token: addr(60), from: addr(50), to: provider, amount: 1000 });
    assert_eq!(e, Event::Withdrawn { provider, amount: 1000, timestamp: 12 });
    assert!(!p.deposits.contains_key(&provider.id));
    assert_eq!(p.get_deposit(provider), 0);
    assert_eq!(p.withdraw(&[provider], provider, 1000, 1000, 13), Err(Error::InsufficientBalance));
}

#[test]
fn balance_tracks_net_flow() {
    let mut p = pool();
    let a = addr(7);
    p.deposit(&[a], a, 300, 0).unwrap();
    p.deposit(&[a], a, 200, 0).unwrap();
    p.withdraw(&[a], a, 150, 10_000, 0).unwrap();
    assert_eq!(p.withdraw(&[a], a, 400, 10_000, 0), Err(Error::InsufficientBalance));
    assert_eq!(p.deposit(&[a], a, 0, 0), Err(Error::InvalidAmount));
    assert_eq!(p.get_deposit(a), 350);
    assert!(p.deposits.contains_key(&a.id));
}

#[test]
fn withdraw_blocked_by_liquidity() {
    let mut p = pool();
    let a = addr(7);
    p.deposit(&[a], a, 500, 0).unwrap();
    assert_eq!(p.withdraw(&[a], a, 400, 399, 0), Err(Error::InsufficientLiquidity));
    assert_eq!(p.get_deposit(a), 500);
    assert!(p.withdraw(&[a], a, 400, 400, 0).is_ok());
    assert_eq!(p.get_deposit(a), 100);
}

#[test]
fn withdraw_balance_checked_before_liquidity() {
    let mut p = pool();
    let a = addr(7);
    p.deposit(&[a], a, 10, 0).unwrap();
    assert_eq!(p.withdraw(&[a], a, 11, 0, 0), Err(Error::InsufficientBalance));
}

#[test]
fn pool_operations_require_provider_authorization() {
    let mut p = pool();
    let a = addr(7);
    assert_eq!(p.deposit(&[addr(8)], a, 10, 0), Err(Error::Unauthorized));
    p.deposit(&[a], a, 10, 0).unwrap();
    assert_eq!(p.withdraw(&[], a, 10, 10, 0), Err(Error::Unauthorized));
    assert_eq!(p.withdraw(&[a], a, -1, 10, 0), Err(Error::InvalidAmount));
}

#[test]
fn deposit_overflow_is_refused() {
    let mut p = pool();
    let a = addr(7);
    p.deposit(&[a], a, i128::MAX, 0).unwrap();
    assert_eq!(p.deposit(&[a], a, 1, 0), Err(Error::ArithmeticOverflow));
    assert_eq!(p.get_deposit(a), i128::MAX);
}

#[test]
fn pool_not_initialized() {
    let mut p = LendingPool::new(addr(50));
    let a = addr(7);
    assert_eq!(p.deposit(&[a], a, 10, 0), Err(Error::NotInitialized));
    assert_eq!(p.get_token(), Err(Error::NotInitialized));
    assert_eq!(p.set_admin(&[a], a), Err(Error::NotInitialized));
}

#[test]
fn pool_initialize_once_and_admin_handoff() {
    let mut p = pool();
    assert_eq!(p.initialize(addr(2), addr(61)), Err(Error::AlreadyInitialized));
    assert_eq!(p.get_token(), Ok(addr(60)));
    assert_eq!(p.set_admin(&[addr(2)], addr(2)), Err(Error::Unauthorized));
    assert_eq!(p.set_admin(&[addr(1)], addr(2)), Ok(()));
    assert_eq!(p.admin, Some(addr(2)));
    assert_eq!(p.set_admin(&[addr(1)], addr(3)), Err(Error::Unauthorized));
}
