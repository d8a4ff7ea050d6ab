use remittance_lending::{Address, Error, Event, LoanManager, RemittanceNFT};

fn addr(id: u64) -> Address {
    Address { id }
}

// A registry initialized by an admin, and a gatekeeper set up on it and
// registered with it as a minter.
fn setup_test() -> (LoanManager, RemittanceNFT, Address) {
    let admin = addr(1);
    let mut nft = RemittanceNFT::new(addr(100));
    nft.initialize(admin).unwrap();
    let mut manager = LoanManager::new(addr(200));
    manager.initialize(nft.address).unwrap();
    nft.authorize_minter(&[admin], manager.address).unwrap();
    (manager, nft, admin)
}

#[test]
fn test_loan_request_success() {
    let (manager, mut nft, admin) = setup_test();
    let borrower = addr(7);
    nft.mint(&[admin], borrower, 600, [0u8; 32], None).unwrap();
    let r = manager.request_loan(&mut nft, borrower, 1000);
    assert_eq!(r, Ok(Event::LoanRequested { borrower, amount: 1000 }));
}

#[test]
fn test_loan_request_failure_low_score() {
    let (manager, mut nft, admin) = setup_test();
    let borrower = addr(7);
    nft.mint(&[admin], borrower, 400, [0u8; 32], None).unwrap();
    assert_eq!(manager.request_loan(&mut nft, borrower, 1000), Err(Error::ScoreTooLow));
}

#[test]
fn test_approve_loan_flow() {
    let manager = LoanManager::new(addr(200));
    assert_eq!(manager.approve_loan(1), Event::LoanApproved { loan_id: 1 });
}

#[test]
fn test_repayment_flow() {
    let (manager, mut nft, admin) = setup_test();
    let borrower = addr(7);
    nft.mint(&[admin], borrower, 600, [0u8; 32], None).unwrap();
    assert_eq!(nft.get_score(borrower), 600);
    let r = manager.repay(&mut nft, &[borrower], borrower, 500);
    assert_eq!(r, Ok(Event::LoanRepaid { borrower, amount: 500 }));
    assert_eq!(nft.get_score(borrower), 605);
}

#[test]
fn test_small_repayment_does_not_change_score() {
    let (manager, mut nft, admin) = setup_test();
    let borrower = addr(7);
    nft.mint(&[admin], borrower, 600, [0u8; 32], None).unwrap();
    assert_eq!(nft.get_score(borrower), 600);
    manager.repay(&mut nft, &[borrower], borrower, 99).unwrap();
    assert_eq!(nft.get_score(borrower), 600);
}

#[test]
fn test_access_controls_unauthorized_repay() {
    let (manager, mut nft, _admin) = setup_test();
    let borrower = addr(7);
    assert_eq!(manager.repay(&mut nft, &[], borrower, 500), Err(Error::Unauthorized));
}

#[test]
fn gatekeeper_scenario_end_to_end() {
    let (manager, mut nft, admin) = setup_test();
    let u = addr(7);
    nft.mint(&[admin], u, 600, [0u8; 32], None).unwrap();
    assert!(manager.request_loan(&mut nft, u, 1000).is_ok());
    manager.repay(&mut nft, &[u], u, 500).unwrap();
    assert_eq!(nft.get_score(u), 605);
    manager.repay(&mut nft, &[u], u, 99).unwrap();
    assert_eq!(nft.get_score(u), 605);
    let fresh = addr(8);
    nft.mint(&[admin], fresh, 400, [0u8; 32], None).unwrap();
    assert_eq!(manager.request_loan(&mut nft, fresh, 1000), Err(Error::ScoreTooLow));
}

#[test]
fn request_loan_rejects_non_positive_amount() {
    let (manager, mut nft, admin) = setup_test();
    let u = addr(7);
    nft.mint(&[admin], u, 600, [0u8; 32], None).unwrap();
    assert_eq!(manager.request_loan(&mut nft, u, 0), Err(Error::InvalidAmount));
    assert_eq!(manager.request_loan(&mut nft, u, -5), Err(Error::InvalidAmount));
}

#[test]
fn request_loan_at_threshold_and_for_unenrolled() {
    let (manager, mut nft, admin) = setup_test();
    let u = addr(7);
    nft.mint(&[admin], u, 500, [0u8; 32], None).unwrap();
    assert!(manager.request_loan(&mut nft, u, 1).is_ok());
    assert_eq!(manager.request_loan(&mut nft, addr(9), 1), Err(Error::ScoreTooLow));
}

#[test]
fn request_loan_migrates_legacy_record_only_on_success() {
    let (manager, mut nft, _admin) = setup_test();
    let rich = addr(7);
    let poor = addr(8);
    nft.legacy.insert(rich.id, 700);
    nft.legacy.insert(poor.id, 300);
    assert!(manager.request_loan(&mut nft, rich, 10).is_ok());
    assert!(!nft.legacy.contains_key(&rich.id));
    assert!(nft.records.contains_key(&rich.id));
    assert_eq!(manager.request_loan(&mut nft, poor, 10), Err(Error::ScoreTooLow));
    assert!(nft.legacy.contains_key(&poor.id));
    assert!(!nft.records.contains_key(&poor.id));
}

#[test]
fn gatekeeper_not_initialized() {
    let mut nft = RemittanceNFT::new(addr(100));
    nft.initialize(addr(1)).unwrap();
    let manager = LoanManager::new(addr(200));
    assert_eq!(manager.request_loan(&mut nft, addr(7), 10), Err(Error::NotInitialized));
    assert_eq!(manager.repay(&mut nft, &[addr(7)], addr(7), 100), Err(Error::NotInitialized));
    // below the scored minimum the registry is never consulted
    assert!(manager.repay(&mut nft, &[addr(7)], addr(7), 99).is_ok());
}

#[test]
fn gatekeeper_initialize_twice_fails() {
    let mut manager = LoanManager::new(addr(200));
    manager.initialize(addr(100)).unwrap();
    assert_eq!(manager.initialize(addr(101)), Err(Error::AlreadyInitialized));
    assert_eq!(manager.nft_contract, Some(addr(100)));
}

#[test]
fn repay_without_minter_registration_is_unauthorized() {
    let admin = addr(1);
    let mut nft = RemittanceNFT::new(addr(100));
    nft.initialize(admin).unwrap();
    let mut manager = LoanManager::new(addr(200));
    manager.initialize(nft.address).unwrap();
    let u = addr(7);
    nft.mint(&[admin], u, 600, [0u8; 32], None).unwrap();
    assert_eq!(manager.repay(&mut nft, &[u], u, 500), Err(Error::Unauthorized));
    assert_eq!(nft.get_score(u), 600);
}

#[test]
fn repay_rejects_non_positive_and_unenrolled() {
    let (manager, mut nft, _admin) = setup_test();
    let u = addr(7);
    assert_eq!(manager.repay(&mut nft, &[u], u, 0), Err(Error::InvalidAmount));
    assert_eq!(manager.repay(&mut nft, &[u], u, 100), Err(Error::NotEnrolled));
}
