//! Delegator bids: stake that a delegator entrusts to a validator.

use crate::key::PublicKey;
use vstd::prelude::*;

verus! {

/// Milliseconds in a week.
pub const WEEK_MILLIS: u64 = 604_800_000;

/// Length of the vesting schedule: 91 days.
pub const VESTING_SCHEDULE_LENGTH_MILLIS: u64 = 7_862_400_000;

/// An unforgeable reference to a purse, with its access rights.
#[derive(Clone, Copy, Debug, PartialEq, Eq)]
pub struct URef {
    pub addr: [u8; 32],
    pub access_rights: u8,
}

/// Who delegates: a key holder, or a purse.
#[derive(Clone, Copy, Debug, PartialEq, Eq)]
pub enum DelegatorKind {
    PublicKey(PublicKey),
    Purse([u8; 32]),
}

/// Whose stake an unbonding releases.
#[derive(Clone, Copy, Debug, PartialEq, Eq)]
pub enum UnbondKind {
    Validator(PublicKey),
    DelegatedPublicKey(PublicKey),
    DelegatedPurse([u8; 32]),
}

/// A failure of an auction operation.
#[derive(Clone, Copy, Debug, PartialEq, Eq, Structural)]
pub enum AuctionError {
    /// The amount overflows or exceeds the stake.
    InvalidAmount,
    /// The stake is still locked by its vesting schedule.
    DelegatorFundsLocked,
}

/// The release schedule of a locked stake: from the initial release onward,
/// the amount that stays locked in each week.
#[derive(Clone, Copy, Debug, PartialEq, Eq)]
pub struct VestingSchedule {
    pub initial_release_timestamp_millis: u64,
    /// The amount locked in each week after the initial release, once set.
    pub locked_amounts: Option<[u128; 14]>,
}

/// The amount locked at `timestamp_millis`: `None` before the schedule is set
/// or before the initial release, zero after its last week.
pub open spec fn locked_amount_spec(schedule: VestingSchedule, timestamp_millis: u64) -> Option<
    u128,
> {
    match schedule.locked_amounts {
        None => None,
        Some(amounts) => if timestamp_millis < schedule.initial_release_timestamp_millis {
            None
        } else {
            let week = (timestamp_millis - schedule.initial_release_timestamp_millis) / (
            WEEK_MILLIS as int);
            if week < 14 {
                Some(amounts@[week])
            } else {
                Some(0)
            }
        },
    }
}

impl VestingSchedule {
    /// A schedule that releases from `initial_release_timestamp_millis`, with
    /// its amounts not yet set.
    pub fn new(initial_release_timestamp_millis: u64) -> (r: VestingSchedule)
        ensures
            r.initial_release_timestamp_millis == initial_release_timestamp_millis,
            r.locked_amounts is None,
    {
        VestingSchedule { initial_release_timestamp_millis, locked_amounts: None }
    }

    /// The amount locked at `timestamp_millis`.
    pub fn locked_amount(&self, timestamp_millis: u64) -> (r: Option<u128>)
        ensures
            r == locked_amount_spec(*self, timestamp_millis),
    {
        let amounts = match &self.locked_amounts {
            Some(amounts) => amounts,
            None => return None,
        };
        let since = match timestamp_millis.checked_sub(self.initial_release_timestamp_millis) {
            Some(since) => since,
            None => return None,
        };
        let week = since / WEEK_MILLIS;
        if week < 14 {
            Some(amounts[week as usize])
        } else {
            Some(0)
        }
    }

    /// Whether `timestamp_millis` falls before the end of a vesting period of
    /// `vesting_schedule_period_millis` from the initial release; the end
    /// saturates at the largest timestamp.
    pub fn is_vesting(&self, timestamp_millis: u64, vesting_schedule_period_millis: u64) -> (r: bool)
        ensures
            r == (timestamp_millis < self.initial_release_timestamp_millis
                + vesting_schedule_period_millis && timestamp_millis < u64::MAX),
    {
        timestamp_millis < self.initial_release_timestamp_millis.saturating_add(
            vesting_schedule_period_millis,
        )
    }
}

/// A party delegating stake to a validator.
#[derive(Clone, Copy, Debug, PartialEq, Eq)]
pub struct DelegatorBid {
    pub delegator_kind: DelegatorKind,
    pub staked_amount: u128,
    pub bonding_purse: URef,
    pub validator_public_key: PublicKey,
    pub vesting_schedule: Option<VestingSchedule>,
}

impl DelegatorBid {
    /// A bid with unlocked funds.
    pub fn unlocked(
        delegator_kind: DelegatorKind,
        staked_amount: u128,
        bonding_purse: URef,
        validator_public_key: PublicKey,
    ) -> (r: DelegatorBid)
        ensures
            r == (DelegatorBid {
                delegator_kind,
                staked_amount,
                bonding_purse,
                validator_public_key,
                vesting_schedule: None,
            }),
    {
        DelegatorBid {
            delegator_kind,
            staked_amount,
            bonding_purse,
            validator_public_key,
            vesting_schedule: None,
        }
    }

    /// A bid whose funds are locked until a release at
    /// `release_timestamp_millis`.
    pub fn locked(
        delegator_kind: DelegatorKind,
        staked_amount: u128,
        bonding_purse: URef,
        validator_public_key: PublicKey,
        release_timestamp_millis: u64,
    ) -> (r: DelegatorBid)
        ensures
            r == (DelegatorBid {
                delegator_kind,
                staked_amount,
                bonding_purse,
                validator_public_key,
                vesting_schedule: Some(
                    VestingSchedule {
                        initial_release_timestamp_millis: release_timestamp_millis,
                        locked_amounts: None,
                    },
                ),
            }),
    {
        DelegatorBid {
            delegator_kind,
            staked_amount,
            bonding_purse,
            validator_public_key,
            vesting_schedule: Some(VestingSchedule::new(release_timestamp_millis)),
        }
    }

    /// An inactive bid with nothing staked.
    pub fn empty(
        validator_public_key: PublicKey,
        delegator_kind: DelegatorKind,
        bonding_purse: URef,
    ) -> (r: DelegatorBid)
        ensures
            r == (DelegatorBid {
                delegator_kind,
                staked_amount: 0,
                bonding_purse,
                validator_public_key,
                vesting_schedule: None,
            }),
    {
        DelegatorBid {
            delegator_kind,
            staked_amount: 0,
            bonding_purse,
            validator_public_key,
            vesting_schedule: None,
        }
    }

    /// The delegator kind.
    pub fn delegator_kind(&self) -> (r: &DelegatorKind)
        ensures
            *r == self.delegator_kind,
    {
        &self.delegator_kind
    }

    /// Whether the bid is still locked at `timestamp_millis` under the
    /// standard vesting schedule length.
    pub fn is_locked(&self, timestamp_millis: u64) -> (r: bool)
        ensures
            r == match self.vesting_schedule {
                Some(s) => timestamp_millis < s.initial_release_timestamp_millis
                    + VESTING_SCHEDULE_LENGTH_MILLIS && timestamp_millis < u64::MAX,
                None => false,
            },
    {
        self.is_locked_with_vesting_schedule(timestamp_millis, VESTING_SCHEDULE_LENGTH_MILLIS)
    }

    /// Whether the bid is still locked at `timestamp_millis` under a vesting
    /// period of `vesting_schedule_period_millis`; a bid without a schedule
    /// never is.
    pub fn is_locked_with_vesting_schedule(
        &self,
        timestamp_millis: u64,
        vesting_schedule_period_millis: u64,
    ) -> (r: bool)
        ensures
            r == match self.vesting_schedule {
                Some(s) => timestamp_millis < s.initial_release_timestamp_millis
                    + vesting_schedule_period_millis && timestamp_millis < u64::MAX,
                None => false,
            },
    {
        match &self.vesting_schedule {
            Some(vesting_schedule) => vesting_schedule.is_vesting(
                timestamp_millis,
                vesting_schedule_period_millis,
            ),
            None => false,
        }
    }

    /// The staked amount.
    pub fn staked_amount(&self) -> (r: u128)
        ensures
            r == self.staked_amount,
    {
        self.staked_amount
    }

    /// The staked amount, to change in place.
    pub fn staked_amount_mut(&mut self) -> (r: &mut u128)
        ensures
            *r == old(self).staked_amount,
            *final(self) == (DelegatorBid { staked_amount: *final(r), ..*old(self) }),
    {
        &mut self.staked_amount
    }

    /// The bonding purse.
    pub fn bonding_purse(&self) -> (r: &URef)
        ensures
            *r == self.bonding_purse,
    {
        &self.bonding_purse
    }

    /// The validator delegated to.
    pub fn validator_public_key(&self) -> (r: &PublicKey)
        ensures
            *r == self.validator_public_key,
    {
        &self.validator_public_key
    }

    /// Takes `amount` off the stake and returns what remains. Fails, changing
    /// nothing, where `amount` exceeds the stake, or where a vesting schedule
    /// is not yet set or keeps more than the remainder locked at
    /// `era_end_timestamp_millis`.
    pub fn decrease_stake(&mut self, amount: u128, era_end_timestamp_millis: u64) -> (r: Result<
        u128,
        AuctionError,
    >)
        ensures
            amount > old(self).staked_amount ==> r == Err::<u128, AuctionError>(
                AuctionError::InvalidAmount,
            ),
            amount <= old(self).staked_amount ==> r == match old(self).vesting_schedule {
                None => Ok::<u128, AuctionError>((old(self).staked_amount - amount) as u128),
                Some(s) => match locked_amount_spec(s, era_end_timestamp_millis) {
                    Some(locked) => if old(self).staked_amount - amount < locked {
                        Err(AuctionError::DelegatorFundsLocked)
                    } else {
                        Ok((old(self).staked_amount - amount) as u128)
                    },
                    None => Err(AuctionError::DelegatorFundsLocked),
                },
            },
            r matches Ok(v) ==> *final(self) == (DelegatorBid { staked_amount: v, ..*old(self) }),
            r is Err ==> *final(self) == *old(self),
    {
        let updated_staked_amount = match self.staked_amount.checked_sub(amount) {
            Some(updated) => updated,
            None => return Err(AuctionError::InvalidAmount),
        };
        let vesting_schedule = match &self.vesting_schedule {
            Some(vesting_schedule) => vesting_schedule,
            None => {
                self.staked_amount = updated_staked_amount;
                return Ok(updated_staked_amount);
            },
        };
        match vesting_schedule.locked_amount(era_end_timestamp_millis) {
            Some(locked_amount) => {
                if updated_staked_amount < locked_amount {
                    Err(AuctionError::DelegatorFundsLocked)
                } else {
                    self.staked_amount = updated_staked_amount;
                    Ok(updated_staked_amount)
                }
            },
            None => Err(AuctionError::DelegatorFundsLocked),
        }
    }

    /// Adds `amount` to the stake and returns the new stake. Fails, changing
    /// nothing, where the sum overflows.
    pub fn increase_stake(&mut self, amount: u128) -> (r: Result<u128, AuctionError>)
        ensures
            old(self).staked_amount + amount > u128::MAX ==> r == Err::<u128, AuctionError>(
                AuctionError::InvalidAmount,
            ) && *final(self) == *old(self),
            old(self).staked_amount + amount <= u128::MAX ==> r == Ok::<u128, AuctionError>(
                (old(self).staked_amount + amount) as u128,
            ) && *final(self) == (DelegatorBid {
                staked_amount: (old(self).staked_amount + amount) as u128,
                ..*old(self)
            }),
    {
        let updated_staked_amount = match self.staked_amount.checked_add(amount) {
            Some(updated) => updated,
            None => return Err(AuctionError::InvalidAmount),
        };
        self.staked_amount = updated_staked_amount;
        Ok(updated_staked_amount)
    }

    /// The vesting schedule; `None` for a bid made after genesis.
    pub fn vesting_schedule(&self) -> (r: Option<&VestingSchedule>)
        ensures
            match r {
                Some(s) => self.vesting_schedule == Some(*s),
                None => self.vesting_schedule is None,
            },
    {
        match &self.vesting_schedule {
            Some(s) => Some(s),
            None => None,
        }
    }

    /// The vesting schedule, to change in place.
    pub fn vesting_schedule_mut(&mut self) -> (r: Option<&mut VestingSchedule>)
        ensures
            match r {
                Some(s) => {
                    &&& old(self).vesting_schedule == Some(*s)
                    &&& *final(self) == (DelegatorBid {
                        vesting_schedule: Some(*final(s)),
                        ..*old(self)
                    })
                },
                None => {
                    &&& old(self).vesting_schedule is None
                    &&& *final(self) == *old(self)
                },
            },
    {
        self.vesting_schedule.as_mut()
    }

    /// Sets the validator delegated to.
    pub fn with_validator_public_key(&mut self, validator_public_key: PublicKey) -> (r: &mut Self)
        ensures
            *r == (DelegatorBid { validator_public_key, ..*old(self) }),
            *final(self) == *final(r),
    {
        self.validator_public_key = validator_public_key;
        self
    }

    /// What an unbonding of this bid releases.
    pub fn unbond_kind(&self) -> (r: UnbondKind)
        ensures
            r == match self.delegator_kind {
                DelegatorKind::PublicKey(pk) => UnbondKind::DelegatedPublicKey(pk),
                DelegatorKind::Purse(addr) => UnbondKind::DelegatedPurse(addr),
            },
    {
        match &self.delegator_kind {
            DelegatorKind::PublicKey(pk) => UnbondKind::DelegatedPublicKey(*pk),
            DelegatorKind::Purse(addr) => UnbondKind::DelegatedPurse(*addr),
        }
    }
}

} // verus!
