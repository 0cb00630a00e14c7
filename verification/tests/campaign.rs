use crowdfunding::{Address, Amount, Crowdfunding, Error, Status, Transfer};

fn address(tag: u8) -> Address {
    Address::new([tag; 32])
}

fn amount(v: u64) -> Amount {
    Amount::from_u64(v)
}

fn owner() -> Address {
    address(0)
}

fn donor_a() -> Address {
    address(1)
}

fn donor_b() -> Address {
    address(2)
}

fn is_transfer(t: &Option<Transfer>, to: &Address, v: u64) -> bool {
    match t {
        Some(t) => t.to.same(to) && t.amount.same(&amount(v)),
        None => false,
    }
}

#[test]
fn init_stores_target_and_deadline() {
    let c = Crowdfunding::init(amount(1000), 100);
    assert!(c.target().same(&amount(1000)));
    assert_eq!(c.deadline(), 100);
    assert!(c.deposit(&donor_a()).is_zero());
}

#[test]
fn init_accepts_zero_target_and_past_deadline() {
    let c = Crowdfunding::init(Amount::zero(), 0);
    assert!(c.target().is_zero());
    assert_eq!(c.deadline(), 0);
    assert_eq!(c.status(0, &Amount::zero()), Status::FundingPeriod);
    assert_eq!(c.status(1, &Amount::zero()), Status::Successful);
}

#[test]
fn deposits_add_up_per_donor() {
    let mut c = Crowdfunding::init(amount(1000), 100);
    assert_eq!(c.fund(&donor_a(), &amount(100), 1), Ok(()));
    assert_eq!(c.fund(&donor_b(), &amount(7), 2), Ok(()));
    assert_eq!(c.fund(&donor_a(), &amount(250), 3), Ok(()));
    assert_eq!(c.fund(&donor_a(), &amount(50), 100), Ok(()));
    assert!(c.deposit(&donor_a()).same(&amount(400)));
    assert!(c.deposit(&donor_b()).same(&amount(7)));
    assert!(c.deposit(&owner()).is_zero());
}

#[test]
fn the_same_payment_twice_counts_twice() {
    let mut c = Crowdfunding::init(amount(1000), 100);
    assert_eq!(c.fund(&donor_a(), &amount(300), 10), Ok(()));
    assert_eq!(c.fund(&donor_a(), &amount(300), 10), Ok(()));
    assert!(c.deposit(&donor_a()).same(&amount(600)));
}

#[test]
fn a_payment_of_zero_is_accepted() {
    let mut c = Crowdfunding::init(amount(1000), 100);
    assert_eq!(c.fund(&donor_a(), &Amount::zero(), 10), Ok(()));
    assert!(c.deposit(&donor_a()).is_zero());
    assert_eq!(c.fund(&donor_a(), &amount(5), 10), Ok(()));
    assert_eq!(c.fund(&donor_a(), &Amount::zero(), 11), Ok(()));
    assert!(c.deposit(&donor_a()).same(&amount(5)));
}

#[test]
fn deposits_grow_past_u64() {
    let mut c = Crowdfunding::init(amount(1000), 100);
    assert_eq!(c.fund(&donor_a(), &amount(u64::MAX), 10), Ok(()));
    assert_eq!(c.fund(&donor_a(), &amount(u64::MAX), 10), Ok(()));
    let expected = Amount { digits: vec![0xfe, 0xff, 0xff, 0xff, 0xff, 0xff, 0xff, 0xff, 0x01] };
    assert!(c.deposit(&donor_a()).same(&expected));
}

#[test]
fn funding_at_the_deadline_is_accepted() {
    let mut c = Crowdfunding::init(amount(1000), 100);
    assert_eq!(c.fund(&donor_a(), &amount(10), 100), Ok(()));
    assert!(c.deposit(&donor_a()).same(&amount(10)));
}

#[test]
fn funding_after_the_deadline_is_rejected() {
    let mut c = Crowdfunding::init(amount(1000), 100);
    assert_eq!(c.fund(&donor_a(), &amount(10), 50), Ok(()));
    assert_eq!(c.fund(&donor_a(), &amount(5), 101), Err(Error::DeadlinePassed));
    assert_eq!(c.fund(&donor_a(), &Amount::zero(), 101), Err(Error::DeadlinePassed));
    assert_eq!(c.fund(&donor_b(), &amount(u64::MAX), u64::MAX), Err(Error::DeadlinePassed));
    assert!(c.deposit(&donor_a()).same(&amount(10)));
    assert!(c.deposit(&donor_b()).is_zero());
}

#[test]
fn status_is_funding_period_up_to_the_deadline() {
    let c = Crowdfunding::init(amount(1000), 100);
    assert_eq!(c.status(0, &Amount::zero()), Status::FundingPeriod);
    assert_eq!(c.status(99, &amount(5000)), Status::FundingPeriod);
    assert_eq!(c.status(100, &amount(5000)), Status::FundingPeriod);
    assert_eq!(c.status(100, &amount(999)), Status::FundingPeriod);
}

#[test]
fn status_after_the_deadline_follows_the_funds() {
    let c = Crowdfunding::init(amount(1000), 100);
    assert_eq!(c.status(101, &amount(1000)), Status::Successful);
    assert_eq!(c.status(101, &amount(1001)), Status::Successful);
    assert_eq!(c.status(101, &amount(999)), Status::Failed);
    assert_eq!(c.status(u64::MAX, &Amount::zero()), Status::Failed);
}

#[test]
fn status_goes_by_the_funds_not_by_the_deposits() {
    let mut c = Crowdfunding::init(amount(1000), 100);
    assert_eq!(c.fund(&donor_a(), &amount(1200), 50), Ok(()));
    assert_eq!(c.status(101, &amount(800)), Status::Failed);
    assert_eq!(c.status(101, &amount(1200)), Status::Successful);
}

#[test]
fn claim_during_the_funding_period_is_too_early() {
    let mut c = Crowdfunding::init(amount(1000), 100);
    assert_eq!(c.fund(&donor_a(), &amount(1200), 50), Ok(()));
    let r = c.claim(&owner(), &owner(), 100, &amount(1200));
    assert!(matches!(r, Err(Error::ClaimTooEarly)));
    let r = c.claim(&donor_a(), &owner(), 60, &amount(1200));
    assert!(matches!(r, Err(Error::ClaimTooEarly)));
    assert!(c.deposit(&donor_a()).same(&amount(1200)));
}

#[test]
fn owner_claims_all_funds_of_a_successful_campaign() {
    let mut c = Crowdfunding::init(amount(1000), 100);
    assert_eq!(c.fund(&donor_a(), &amount(700), 50), Ok(()));
    assert_eq!(c.fund(&donor_b(), &amount(500), 60), Ok(()));
    let r = c.claim(&owner(), &owner(), 101, &amount(1200)).unwrap();
    assert!(is_transfer(&r, &owner(), 1200));
    // the deposits stay on record
    assert!(c.deposit(&donor_a()).same(&amount(700)));
    assert!(c.deposit(&donor_b()).same(&amount(500)));
    // with the escrow emptied, a further claim by the owner moves nothing
    let r = c.claim(&owner(), &owner(), 102, &Amount::zero()).unwrap();
    assert!(r.is_none());
}

#[test]
fn owner_claims_twice_with_a_target_of_zero() {
    let mut c = Crowdfunding::init(Amount::zero(), 100);
    assert_eq!(c.fund(&owner(), &amount(30), 50), Ok(()));
    let r = c.claim(&owner(), &owner(), 101, &amount(30)).unwrap();
    assert!(is_transfer(&r, &owner(), 30));
    let r = c.claim(&owner(), &owner(), 101, &Amount::zero()).unwrap();
    assert!(is_transfer(&r, &owner(), 0));
}

#[test]
fn owner_who_donated_is_refunded_once_the_escrow_is_empty() {
    let mut c = Crowdfunding::init(amount(1000), 100);
    assert_eq!(c.fund(&owner(), &amount(1200), 50), Ok(()));
    let r = c.claim(&owner(), &owner(), 101, &amount(1200)).unwrap();
    assert!(is_transfer(&r, &owner(), 1200));
    let r = c.claim(&owner(), &owner(), 101, &Amount::zero()).unwrap();
    assert!(is_transfer(&r, &owner(), 1200));
    assert!(c.deposit(&owner()).is_zero());
}

#[test]
fn only_the_owner_claims_a_successful_campaign() {
    let mut c = Crowdfunding::init(amount(1000), 100);
    assert_eq!(c.fund(&donor_a(), &amount(1200), 50), Ok(()));
    let r = c.claim(&donor_a(), &owner(), 101, &amount(1200));
    assert!(matches!(r, Err(Error::NotOwner)));
    let r = c.claim(&donor_b(), &owner(), 500, &amount(1000));
    assert!(matches!(r, Err(Error::NotOwner)));
    assert!(c.deposit(&donor_a()).same(&amount(1200)));
}

#[test]
fn claim_without_a_deposit_on_a_failed_campaign_moves_nothing() {
    let mut c = Crowdfunding::init(amount(1000), 100);
    assert_eq!(c.fund(&donor_a(), &amount(400), 50), Ok(()));
    assert_eq!(c.fund(&donor_b(), &Amount::zero(), 50), Ok(()));
    assert!(c.claim(&address(9), &owner(), 101, &amount(400)).unwrap().is_none());
    assert!(c.claim(&donor_b(), &owner(), 101, &amount(400)).unwrap().is_none());
    assert!(c.claim(&owner(), &owner(), 101, &amount(400)).unwrap().is_none());
    assert!(c.deposit(&donor_a()).same(&amount(400)));
}

#[test]
fn donor_is_refunded_once_on_a_failed_campaign() {
    let mut c = Crowdfunding::init(amount(1000), 100);
    assert_eq!(c.fund(&donor_a(), &amount(400), 50), Ok(()));
    assert_eq!(c.fund(&donor_b(), &amount(100), 50), Ok(()));
    let r = c.claim(&donor_a(), &owner(), 101, &amount(500)).unwrap();
    assert!(is_transfer(&r, &donor_a(), 400));
    assert!(c.deposit(&donor_a()).is_zero());
    assert!(c.deposit(&donor_b()).same(&amount(100)));
    let r = c.claim(&donor_a(), &owner(), 101, &amount(100)).unwrap();
    assert!(r.is_none());
    assert!(c.deposit(&donor_b()).same(&amount(100)));
}

#[test]
fn failed_campaign_refunds_each_donor() {
    let mut c = Crowdfunding::init(amount(1000), 100);
    let mut balance: u64 = 0;

    assert_eq!(c.fund(&donor_a(), &amount(400), 50), Ok(()));
    balance += 400;
    assert!(c.deposit(&donor_a()).same(&amount(400)));

    assert_eq!(c.fund(&donor_b(), &amount(400), 80), Ok(()));
    balance += 400;
    assert_eq!(balance, 800);

    assert_eq!(c.status(101, &amount(balance)), Status::Failed);

    let r = c.claim(&donor_a(), &owner(), 101, &amount(balance)).unwrap();
    assert!(is_transfer(&r, &donor_a(), 400));
    balance -= 400;
    assert!(c.deposit(&donor_a()).is_zero());

    let r = c.claim(&donor_b(), &owner(), 101, &amount(balance)).unwrap();
    assert!(is_transfer(&r, &donor_b(), 400));
    balance -= 400;
    assert!(c.deposit(&donor_b()).is_zero());

    // under a failed campaign the owner is a caller like any other
    let r = c.claim(&owner(), &owner(), 101, &amount(balance)).unwrap();
    assert!(r.is_none());
    assert_eq!(balance, 0);
}

#[test]
fn successful_campaign_pays_the_owner() {
    let mut c = Crowdfunding::init(amount(1000), 100);
    let mut balance: u64 = 0;

    assert_eq!(c.fund(&donor_a(), &amount(1200), 50), Ok(()));
    balance += 1200;
    assert_eq!(c.status(101, &amount(balance)), Status::Successful);

    // while the funds are in escrow, the donor cannot take them
    let r = c.claim(&donor_a(), &owner(), 101, &amount(balance));
    assert!(matches!(r, Err(Error::NotOwner)));
    assert!(c.deposit(&donor_a()).same(&amount(1200)));

    let r = c.claim(&owner(), &owner(), 101, &amount(balance)).unwrap();
    assert!(is_transfer(&r, &owner(), 1200));
    balance -= 1200;
    assert!(c.deposit(&donor_a()).same(&amount(1200)));

    // the emptied escrow is below the target, so the campaign now counts as failed
    assert_eq!(c.status(101, &amount(balance)), Status::Failed);
}

#[test]
fn restore_brings_back_one_deposit() {
    let mut c = Crowdfunding::restore(amount(1000), 100, &donor_a(), amount(400));
    assert!(c.target().same(&amount(1000)));
    assert_eq!(c.deadline(), 100);
    assert!(c.deposit(&donor_a()).same(&amount(400)));
    assert!(c.deposit(&donor_b()).is_zero());
    assert_eq!(c.fund(&donor_a(), &amount(1), 100), Ok(()));
    assert!(c.deposit(&donor_a()).same(&amount(401)));
    let r = c.claim(&donor_a(), &owner(), 101, &amount(401)).unwrap();
    assert!(is_transfer(&r, &donor_a(), 401));
}

#[test]
fn restore_with_no_deposit_is_a_fresh_campaign() {
    let mut c = Crowdfunding::restore(amount(1000), 100, &donor_a(), Amount::zero());
    assert!(c.deposit(&donor_a()).is_zero());
    assert!(c.claim(&donor_a(), &owner(), 101, &amount(10)).unwrap().is_none());
}

#[test]
fn claim_compares_owner_and_caller_by_every_byte() {
    let mut c = Crowdfunding::init(amount(10), 1);
    let mut bytes = [0u8; 32];
    bytes[31] = 1;
    let near_owner = Address::new(bytes);
    let r = c.claim(&near_owner, &owner(), 2, &amount(10));
    assert!(matches!(r, Err(Error::NotOwner)));
    let r = c.claim(&Address::new([0u8; 32]), &owner(), 2, &amount(10)).unwrap();
    assert!(is_transfer(&r, &owner(), 10));
}
