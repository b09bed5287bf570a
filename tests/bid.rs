use casper_core::bid::{
    AuctionError, DelegatorBid, DelegatorKind, UnbondKind, URef, VestingSchedule,
    VESTING_SCHEDULE_LENGTH_MILLIS, WEEK_MILLIS,
};
use casper_core::key::PublicKey;

const PURSE: URef = URef { addr: [42; 32], access_rights: 7 };

fn delegator() -> DelegatorKind {
    DelegatorKind::PublicKey(PublicKey(42))
}

#[test]
fn unlocked_bid_moves_stake_freely() {
    let mut bid = DelegatorBid::unlocked(delegator(), 100, PURSE, PublicKey(43));
    assert_eq!(bid.staked_amount(), 100);
    assert_eq!(*bid.delegator_kind(), delegator());
    assert_eq!(*bid.bonding_purse(), PURSE);
    assert_eq!(*bid.validator_public_key(), PublicKey(43));
    assert!(bid.vesting_schedule().is_none());
    assert!(!bid.is_locked(0));
    assert_eq!(bid.decrease_stake(30, 0), Ok(70));
    assert_eq!(bid.decrease_stake(71, 0), Err(AuctionError::InvalidAmount));
    assert_eq!(bid.staked_amount(), 70);
    assert_eq!(bid.increase_stake(5), Ok(75));
    assert_eq!(bid.increase_stake(u128::MAX), Err(AuctionError::InvalidAmount));
    assert_eq!(bid.staked_amount(), 75);
}

#[test]
fn locked_bid_follows_its_schedule() {
    let bid = DelegatorBid::locked(delegator(), 100, PURSE, PublicKey(43), 1_000);
    assert_eq!(bid.vesting_schedule(), Some(&VestingSchedule::new(1_000)));
    assert!(bid.is_locked(1_000 + VESTING_SCHEDULE_LENGTH_MILLIS - 1));
    assert!(!bid.is_locked(1_000 + VESTING_SCHEDULE_LENGTH_MILLIS));
    assert!(bid.is_locked_with_vesting_schedule(1_500, 501));
    assert!(!bid.is_locked_with_vesting_schedule(1_500, 500));
    assert!(DelegatorBid::locked(delegator(), 1, PURSE, PublicKey(1), u64::MAX - 1).is_locked(u64::MAX - 1));
}

#[test]
fn locked_stake_cannot_go_below_the_locked_amount() {
    let mut bid = DelegatorBid::locked(delegator(), 100, PURSE, PublicKey(43), 1_000);
    // The schedule is not set up yet: everything is locked.
    assert_eq!(bid.decrease_stake(1, 2_000), Err(AuctionError::DelegatorFundsLocked));
    let mut amounts = [0u128; 14];
    for (week, amount) in amounts.iter_mut().enumerate() {
        *amount = 90u128.saturating_sub(10 * week as u128);
    }
    bid.vesting_schedule_mut().unwrap().locked_amounts = Some(amounts);
    // Before the initial release nothing can be unlocked.
    assert_eq!(bid.decrease_stake(1, 999), Err(AuctionError::DelegatorFundsLocked));
    // In the first week 90 stays locked.
    assert_eq!(bid.decrease_stake(11, 1_000), Err(AuctionError::DelegatorFundsLocked));
    assert_eq!(bid.decrease_stake(10, 1_000), Ok(90));
    // In the third week 70 stays locked.
    assert_eq!(bid.decrease_stake(20, 1_000 + 2 * WEEK_MILLIS), Ok(70));
    // After the last week nothing is locked.
    assert_eq!(bid.decrease_stake(70, 1_000 + 20 * WEEK_MILLIS), Ok(0));
}

#[test]
fn vesting_schedule_locked_amounts() {
    let mut schedule = VestingSchedule::new(500);
    assert_eq!(schedule.locked_amount(600), None);
    schedule.locked_amounts = Some([7; 14]);
    assert_eq!(schedule.locked_amount(400), None);
    assert_eq!(schedule.locked_amount(500), Some(7));
    assert_eq!(schedule.locked_amount(500 + 14 * WEEK_MILLIS), Some(0));
    assert!(schedule.is_vesting(599, 100));
    assert!(!schedule.is_vesting(600, 100));
}

#[test]
fn empty_bid_and_setters() {
    let purse_kind = DelegatorKind::Purse([9; 32]);
    let mut bid = DelegatorBid::empty(PublicKey(1), purse_kind, PURSE);
    assert_eq!(bid.staked_amount(), 0);
    assert_eq!(bid.unbond_kind(), UnbondKind::DelegatedPurse([9; 32]));
    bid.with_validator_public_key(PublicKey(2)).increase_stake(3).unwrap();
    assert_eq!(*bid.validator_public_key(), PublicKey(2));
    assert_eq!(bid.staked_amount(), 3);
    *bid.staked_amount_mut() = 8;
    assert_eq!(bid.staked_amount(), 8);
    let keyed = DelegatorBid::unlocked(delegator(), 1, PURSE, PublicKey(2));
    assert_eq!(keyed.unbond_kind(), UnbondKind::DelegatedPublicKey(PublicKey(42)));
}
