//! The remittance record and the transitions of its lifecycle.
//!
//! A remittance is born active, gathers contributions while active, and then
//! moves once, for good, to released or to cancelled.

use crate::amount::{amount_bound, Amount};
use crate::errors::Error;
use crate::principal::Principal;
use crate::utils::{calculate_fee, fee_of};
use vstd::arithmetic::div_mod::lemma_fundamental_div_mod_converse;
use vstd::prelude::*;

verus! {

/// The progress toward `target`, in whole percent, capped at 100; a zero
/// target counts as reached.
pub open spec fn progress_of(current: nat, target: nat) -> nat {
    if target == 0 || current >= target {
        100
    } else {
        current * 100 / target
    }
}

/// One escrow campaign: funds pooled toward a recipient's target.
#[derive(Clone, Debug)]
pub struct Remittance {
    /// Unique identifier, assigned at creation.
    pub id: u64,
    /// The account that created the remittance.
    pub creator: Principal,
    /// The account that receives the funds on release.
    pub recipient: Principal,
    /// The amount to be gathered.
    pub target_amount: Amount,
    /// The amount gathered so far.
    pub current_amount: Amount,
    /// What the funds are for.
    pub purpose: String,
    /// When the remittance was created.
    pub created_at: u64,
    /// Whether the funds have gone to the recipient.
    pub is_released: bool,
    /// Whether the remittance has been cancelled.
    pub is_cancelled: bool,
}

/// What a release pays out: the platform fee and the recipient's share.
#[derive(Clone, Copy, Debug)]
pub struct Release {
    pub fee: Amount,
    pub payout: Amount,
}

impl Remittance {
    pub open spec fn active(&self) -> bool {
        !self.is_released && !self.is_cancelled
    }

    /// The record with `is_released` set and nothing else changed.
    pub open spec fn released(self) -> Remittance {
        Remittance { is_released: true, ..self }
    }

    /// The record with `is_cancelled` set and nothing else changed.
    pub open spec fn cancelled(self) -> Remittance {
        Remittance { is_cancelled: true, ..self }
    }

    /// The record with `current_amount` replaced and nothing else changed.
    pub open spec fn with_current(self, a: Amount) -> Remittance {
        Remittance { current_amount: a, ..self }
    }

    /// A new, active remittance with nothing gathered yet.
    pub fn new(
        id: u64,
        creator: Principal,
        recipient: Principal,
        target_amount: Amount,
        purpose: String,
        created_at: u64,
    ) -> (r: Remittance)
        ensures
            r.id == id,
            r.creator == creator,
            r.recipient == recipient,
            r.target_amount == target_amount,
            r.current_amount.value() == 0,
            r.purpose == purpose,
            r.created_at == created_at,
            !r.is_released,
            !r.is_cancelled,
    {
        Remittance {
            id,
            creator,
            recipient,
            target_amount,
            current_amount: Amount::zero(),
            purpose,
            created_at,
            is_released: false,
            is_cancelled: false,
        }
    }

    /// Whether the remittance is neither released nor cancelled.
    pub fn is_active(&self) -> (r: bool)
        ensures
            r == self.active(),
    {
        !self.is_released && !self.is_cancelled
    }

    /// Whether the gathered amount has reached the target.
    pub fn is_target_met(&self) -> (r: bool)
        ensures
            r == (self.current_amount.value() >= self.target_amount.value()),
    {
        self.current_amount.ge(&self.target_amount)
    }

    /// What is still missing to reach the target; zero once it is reached.
    pub fn remaining_amount(&self) -> (r: Amount)
        ensures
            r.value() == (if self.current_amount.value() >= self.target_amount.value() {
                0
            } else {
                self.target_amount.value() - self.current_amount.value()
            }),
    {
        match self.target_amount.checked_sub(self.current_amount) {
            Some(d) => d,
            None => Amount::zero(),
        }
    }

    /// The progress toward the target in whole percent, capped at 100, in
    /// full precision.
    pub fn progress_percentage(&self) -> (r: u64)
        ensures
            r == progress_of(self.current_amount.value(), self.target_amount.value()),
    {
        let target = self.target_amount;
        let current = self.current_amount;
        if target.is_zero() || current.ge(&target) {
            return 100;
        }
        // Long division of 100 * current by target, one addition of current
        // at a time, so that nothing exceeds target.

        let ghost x = current.value() as int;
        let ghost t = target.value() as int;
        let mut acc = Amount::zero();
        let mut p: u64 = 0;
        let mut i: u64 = 0;
        while i < 100
            invariant
                0 <= i <= 100,
                p <= i,
                x == current.value(),
                t == target.value(),
                0 <= x < t,
                0 <= acc.value() < t,
                i * x == p * t + acc.value(),
            decreases 100 - i,
        {
            // room: what acc may still grow by before it reaches target
            let room = match target.checked_sub(acc) {
                Some(d) => d,
                None => {
                    assert(false);
                    acc
                },
            };
            assert((i + 1) * x == i * x + x) by (nonlinear_arith);
            if current.ge(&room) {
                acc = match current.checked_sub(room) {
                    Some(d) => d,
                    None => {
                        assert(false);
                        acc
                    },
                };
                assert((p + 1) * t == p * t + t) by (nonlinear_arith);
                p = p + 1;
            } else {
                acc = match acc.checked_add(current) {
                    Some(s) => s,
                    None => {
                        proof {
                            current.lemma_bound();
                            target.lemma_bound();
                        }
                        assert(false);
                        acc
                    },
                };
            }
            i = i + 1;
        }
        proof {
            lemma_fundamental_div_mod_converse(x * 100, t, p as int, acc.value() as int);
            assert(x * 100 == 100 * x);
        }
        p
    }
}

impl Remittance {
    /// Why the remittance takes no more contributions, if it takes none.
    pub open spec fn open_error(self) -> Option<Error> {
        if self.is_released {
            Some(Error::AlreadyReleased)
        } else if self.is_cancelled {
            Some(Error::RemittanceCancelled)
        } else {
            None
        }
    }

    /// Fails with `AlreadyReleased` or `RemittanceCancelled`, whichever
    /// terminal state the remittance has reached.
    pub fn check_open(&self) -> (r: Result<(), Error>)
        ensures
            r == (match self.open_error() {
                Some(e) => Err(e),
                None => Ok(()),
            }),
    {
        if self.is_released {
            return Err(Error::AlreadyReleased);
        }
        if self.is_cancelled {
            return Err(Error::RemittanceCancelled);
        }
        Ok(())
    }

    /// Adds `amount` to the gathered amount. Fails with `ArithmeticOverflow`,
    /// changing nothing, where the sum does not fit in 512 bits.
    pub fn add_to_current(&mut self, amount: Amount) -> (r: Result<(), Error>)
        ensures
            match r {
                Ok(()) => old(self).current_amount.value() + amount.value() < amount_bound()
                    && final(self).current_amount.value() == old(self).current_amount.value()
                    + amount.value() && *final(self) == old(self).with_current(
                    final(self).current_amount,
                ),
                Err(e) => old(self).current_amount.value() + amount.value() >= amount_bound()
                    && e == Error::ArithmeticOverflow && *final(self) == *old(self),
            },
    {
        match self.current_amount.checked_add(amount) {
            Some(s) => {
                proof {
                    s.lemma_bound();
                }
                self.current_amount = s;
                Ok(())
            },
            None => Err(Error::ArithmeticOverflow),
        }
    }

    /// Why `caller` may not release the remittance at `fee_bps` basis
    /// points, if it may not.
    pub open spec fn release_error(self, caller: Principal, fee_bps: nat) -> Option<Error> {
        let current = self.current_amount.value();
        if caller != self.recipient {
            Some(Error::Unauthorized)
        } else if self.is_released {
            Some(Error::AlreadyReleased)
        } else if self.is_cancelled {
            Some(Error::RemittanceCancelled)
        } else if current < self.target_amount.value() {
            Some(Error::TargetNotMet)
        } else if current * fee_bps >= amount_bound() || fee_of(current, fee_bps) > current {
            Some(Error::ArithmeticOverflow)
        } else {
            None
        }
    }

    /// Releases the remittance to its recipient: computes the platform fee
    /// and the recipient's payout, and marks the record released. The
    /// transfers of the two amounts are the caller's to make, after this.
    pub fn release(&mut self, caller: &Principal, fee_bps: u64) -> (r: Result<Release, Error>)
        ensures
            match r {
                Ok(rel) => old(self).release_error(*caller, fee_bps as nat) is None
                    && rel.fee.value() == fee_of(old(self).current_amount.value(), fee_bps as nat)
                    && rel.payout.value() + rel.fee.value() == old(self).current_amount.value()
                    && *final(self) == old(self).released(),
                Err(e) => old(self).release_error(*caller, fee_bps as nat) == Some(e)
                    && *final(self) == *old(self),
            },
    {
        if !caller.same(&self.recipient) {
            return Err(Error::Unauthorized);
        }
        if self.is_released {
            return Err(Error::AlreadyReleased);
        }
        if self.is_cancelled {
            return Err(Error::RemittanceCancelled);
        }
        if !self.is_target_met() {
            return Err(Error::TargetNotMet);
        }
        let fee = calculate_fee(&self.current_amount, fee_bps)?;
        let payout = match self.current_amount.checked_sub(fee) {
            Some(d) => d,
            None => return Err(Error::ArithmeticOverflow),
        };
        self.is_released = true;
        Ok(Release { fee, payout })
    }

    /// Why `caller` may not cancel the remittance, if it may not.
    pub open spec fn cancel_error(self, caller: Principal) -> Option<Error> {
        if caller != self.creator {
            Some(Error::Unauthorized)
        } else if self.is_released {
            Some(Error::AlreadyReleased)
        } else if self.is_cancelled {
            Some(Error::RemittanceCancelled)
        } else {
            None
        }
    }

    /// Cancels the remittance, which opens the way to refunds. No funds
    /// move here.
    pub fn cancel(&mut self, caller: &Principal) -> (r: Result<(), Error>)
        ensures
            match r {
                Ok(()) => old(self).cancel_error(*caller) is None && *final(self) == old(
                    self,
                ).cancelled(),
                Err(e) => old(self).cancel_error(*caller) == Some(e) && *final(self) == *old(
                    self,
                ),
            },
    {
        if !caller.same(&self.creator) {
            return Err(Error::Unauthorized);
        }
        if self.is_released {
            return Err(Error::AlreadyReleased);
        }
        if self.is_cancelled {
            return Err(Error::RemittanceCancelled);
        }
        self.is_cancelled = true;
        Ok(())
    }

    /// Why a contributor who gave `contributed` and has `claimed` (or not)
    /// may not claim a refund, if they may not.
    pub open spec fn refund_error(self, contributed: nat, claimed: bool) -> Option<Error> {
        if !self.is_cancelled {
            Some(Error::NotCancelled)
        } else if contributed == 0 {
            Some(Error::NoContribution)
        } else if claimed {
            Some(Error::RefundAlreadyClaimed)
        } else {
            None
        }
    }

    /// The refund owed to a contributor who gave `contributed` and has
    /// `claimed` it already or not: all they gave.
    pub fn refund_due(&self, contributed: Amount, claimed: bool) -> (r: Result<Amount, Error>)
        ensures
            match r {
                Ok(a) => self.refund_error(contributed.value(), claimed) is None && a
                    == contributed,
                Err(e) => self.refund_error(contributed.value(), claimed) == Some(e),
            },
    {
        if !self.is_cancelled {
            return Err(Error::NotCancelled);
        }
        if contributed.is_zero() {
            return Err(Error::NoContribution);
        }
        if claimed {
            return Err(Error::RefundAlreadyClaimed);
        }
        Ok(contributed)
    }
}

/// One contribution made to a remittance.
#[derive(Clone, Copy, Debug)]
pub struct Contribution {
    /// The account that contributed.
    pub contributor: Principal,
    /// The amount contributed.
    pub amount: Amount,
    /// When the contribution was made.
    pub timestamp: u64,
}

impl Contribution {
    pub fn new(contributor: Principal, amount: Amount, timestamp: u64) -> (r: Contribution)
        ensures
            r.contributor == contributor,
            r.amount == amount,
            r.timestamp == timestamp,
    {
        Contribution { contributor, amount, timestamp }
    }
}

} // verus!
