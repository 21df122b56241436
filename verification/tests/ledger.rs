use donation::{Contract, Error, STORAGE_COST};

fn controller() -> String {
    "donation.testnet".to_string()
}

fn fresh_ledger() -> Contract {
    let c = controller();
    Contract::new(&c, &c, false, "beneficiary.testnet".to_string()).unwrap()
}

#[test]
fn new_sets_beneficiary_and_empty_ledger() {
    let ledger = fresh_ledger();
    assert_eq!(ledger.beneficiary(), "beneficiary.testnet".to_string());
    assert_eq!(ledger.total_donations(), 0);
    assert!(ledger.check_wf());
}

#[test]
fn new_rejects_second_initialization() {
    let c = controller();
    let r = Contract::new(&c, &c, true, "beneficiary.testnet".to_string());
    assert_eq!(r.unwrap_err(), Error::AlreadyInitialized);
}

#[test]
fn new_rejects_non_controller() {
    let c = controller();
    let intruder = "mallory.testnet".to_string();
    let r = Contract::new(&intruder, &c, false, "beneficiary.testnet".to_string());
    assert_eq!(r.unwrap_err(), Error::Unauthorized);
}

#[test]
fn default_ledger_is_empty_with_fallback_beneficiary() {
    let ledger = Contract::default();
    assert_eq!(ledger.beneficiary(), "v1.faucet.nonofficial.testnet".to_string());
    assert_eq!(ledger.total_donations(), 0);
    assert!(ledger.check_wf());
}

#[test]
fn first_donation_records_gross_amount() {
    let mut ledger = fresh_ledger();
    let out = ledger
        .donate("alice.testnet".to_string(), STORAGE_COST + 700)
        .unwrap();
    assert_eq!(out.new_total, STORAGE_COST + 700);
    assert_eq!(out.forwarded, 700);
    assert_eq!(out.beneficiary, "beneficiary.testnet".to_string());
    let d = ledger.get_donation_for_account("alice.testnet".to_string());
    assert_eq!(d.account_id, "alice.testnet".to_string());
    assert_eq!(d.total_amount, STORAGE_COST + 700);
}

#[test]
fn first_donation_not_exceeding_fee_is_rejected() {
    let mut ledger = fresh_ledger();
    let r = ledger.donate("alice.testnet".to_string(), STORAGE_COST);
    assert_eq!(r.unwrap_err(), Error::InsufficientDeposit);
    assert_eq!(ledger.total_donations(), 0);
    let d = ledger.get_donation_for_account("alice.testnet".to_string());
    assert_eq!(d.total_amount, 0);
}

#[test]
fn repeat_donation_adds_full_amount() {
    let mut ledger = fresh_ledger();
    let first = ledger
        .donate("alice.testnet".to_string(), STORAGE_COST + 1)
        .unwrap();
    let second = ledger.donate("alice.testnet".to_string(), 350).unwrap();
    assert_eq!(second.new_total, first.new_total + 350);
    assert_eq!(second.forwarded, 350);
    assert_eq!(
        ledger
            .get_donation_for_account("alice.testnet".to_string())
            .total_amount,
        STORAGE_COST + 351
    );
    assert_eq!(ledger.total_donations(), 1);
}

#[test]
fn example_storage_fee_flow() {
    let mut ledger = fresh_ledger();
    let first = ledger
        .donate("donor-a.testnet".to_string(), 2_000_000_000_000_000_000_000)
        .unwrap();
    assert_eq!(first.new_total, 2_000_000_000_000_000_000_000);
    assert_eq!(first.forwarded, 1_000_000_000_000_000_000_000);
    let second = ledger.donate("donor-a.testnet".to_string(), 500).unwrap();
    assert_eq!(second.new_total, 2_000_000_000_000_000_000_500);
    assert_eq!(second.forwarded, 500);
}

#[test]
fn donate_overflow_fails_closed() {
    let mut ledger = fresh_ledger();
    ledger
        .donate("alice.testnet".to_string(), u128::MAX)
        .unwrap();
    let r = ledger.donate("alice.testnet".to_string(), 1);
    assert_eq!(r.unwrap_err(), Error::Overflow);
    assert_eq!(
        ledger
            .get_donation_for_account("alice.testnet".to_string())
            .total_amount,
        u128::MAX
    );
}

#[test]
fn total_donations_counts_distinct_donors() {
    let mut ledger = fresh_ledger();
    ledger
        .donate("alice.testnet".to_string(), STORAGE_COST + 1)
        .unwrap();
    ledger
        .donate("bob.testnet".to_string(), STORAGE_COST + 2)
        .unwrap();
    ledger.donate("alice.testnet".to_string(), 9).unwrap();
    ledger
        .donate("carol.testnet".to_string(), STORAGE_COST + 3)
        .unwrap();
    assert_eq!(ledger.total_donations(), 3);
}

#[test]
fn change_beneficiary_requires_controller() {
    let c = controller();
    let mut ledger = fresh_ledger();
    let intruder = "mallory.testnet".to_string();
    let r = ledger.change_beneficiary(&intruder, &c, "mallory.testnet".to_string());
    assert_eq!(r.unwrap_err(), Error::Unauthorized);
    assert_eq!(ledger.beneficiary(), "beneficiary.testnet".to_string());
    ledger
        .change_beneficiary(&c, &c, "charity.testnet".to_string())
        .unwrap();
    assert_eq!(ledger.beneficiary(), "charity.testnet".to_string());
    let out = ledger
        .donate("alice.testnet".to_string(), STORAGE_COST + 5)
        .unwrap();
    assert_eq!(out.beneficiary, "charity.testnet".to_string());
}

#[test]
fn get_donation_for_account_absent_is_zero() {
    let ledger = fresh_ledger();
    let d = ledger.get_donation_for_account("nobody.testnet".to_string());
    assert_eq!(d.account_id, "nobody.testnet".to_string());
    assert_eq!(d.total_amount, 0);
}
