//! The escrow ledger: every remittance, the contribution ledger keyed by
//! (remittance id, contributor), the refund markers, and the configuration
//! that the owner controls.

use crate::amount::{amount_bound, Amount};
use crate::errors::{Error, DEFAULT_FEE_BPS, MAX_FEE_BPS};
use crate::principal::Principal;
use crate::remittance::{Release, Remittance};
use crate::entries::{
    key_is, lemma_entry_at, lemma_push_entry, lemma_total_covers_entry, lemma_total_monotone,
    lemma_total_push, lemma_total_unused, lemma_total_update, lemma_update_entry, same_key,
    seq_amount, seq_claimed, seq_has, total_for, keys_unique, LedgerEntry,
};
use crate::utils::{
    fee_of, purpose_ok, validate_account_hash, validate_non_zero_amount, validate_purpose,
};
use vstd::prelude::*;

verus! {

/// Process-wide settings, set once at installation and changed only by the
/// owner.
#[derive(Clone, Copy, Debug)]
pub struct Config {
    /// The one principal allowed to change the settings.
    pub owner: Principal,
    /// Where platform fees go.
    pub fee_collector: Principal,
    /// The platform fee in basis points, at most `MAX_FEE_BPS`.
    pub fee_bps: u64,
    /// Whether the remittance operations are refused.
    pub paused: bool,
}

/// Whether a ledger made of these parts holds together: one record per id
/// handed out, each at its place; no record both released and cancelled; a
/// fee within its cap; one entry per (remittance, contributor), each above
/// zero and naming a remittance that exists; a claimed refund only on a
/// cancelled remittance; and the entries of each remittance summing to its
/// gathered amount.
pub open spec fn parts_wf(
    config: Config,
    last_id: u64,
    recs: Seq<Remittance>,
    ents: Seq<LedgerEntry>,
) -> bool {
    &&& recs.len() == last_id
    &&& config.fee_bps <= MAX_FEE_BPS
    &&& forall|i: int| 0 <= i < recs.len() ==> (#[trigger] recs[i]).id == i + 1
    &&& forall|i: int|
        0 <= i < recs.len() ==> !((#[trigger] recs[i]).is_released && recs[i].is_cancelled)
    &&& forall|i: int|
        0 <= i < recs.len() ==> total_for(ents, (i + 1) as u64) == (
        #[trigger] recs[i]).current_amount.value()
    &&& keys_unique(ents)
    &&& forall|i: int|
        0 <= i < ents.len() ==> 1 <= (#[trigger] ents[i]).remittance_id <= recs.len()
            && ents[i].amount.value() > 0
    &&& forall|i: int|
        0 <= i < ents.len() && (#[trigger] ents[i]).refund_claimed ==> recs[ents[i].remittance_id
            - 1].is_cancelled
}

/// The whole escrow ledger.
pub struct Escrow {
    config: Config,
    next_id: u64,
    remittances: Vec<Remittance>,
    contributions: Vec<LedgerEntry>,
}

impl Escrow {
    /// The settings.
    pub closed spec fn settings(self) -> Config {
        self.config
    }

    /// The last id handed out; zero before the first.
    pub closed spec fn counter(self) -> u64 {
        self.next_id
    }

    /// The remittances, in the order of their ids.
    pub closed spec fn records(self) -> Seq<Remittance> {
        self.remittances@
    }

    /// The contribution ledger.
    pub closed spec fn entries(self) -> Seq<LedgerEntry> {
        self.contributions@
    }

    /// Whether two ledgers hold the same state.
    pub open spec fn same_state(self, other: Escrow) -> bool {
        &&& self.settings() == other.settings()
        &&& self.counter() == other.counter()
        &&& self.records() == other.records()
        &&& self.entries() == other.entries()
    }

    /// Whether a remittance has id `id`.
    pub open spec fn has(self, id: u64) -> bool {
        1 <= id <= self.records().len()
    }

    /// The remittance with id `id`.
    pub open spec fn record(self, id: u64) -> Remittance {
        self.records()[id - 1]
    }

    /// What `p` has given to remittance `id`, in total.
    pub open spec fn contribution(self, id: u64, p: Principal) -> nat {
        seq_amount(self.entries(), id, p)
    }

    /// Whether `p` has claimed the refund of remittance `id`.
    pub open spec fn refund_claimed(self, id: u64, p: Principal) -> bool {
        seq_claimed(self.entries(), id, p)
    }

    /// Everything the ledger records as given to remittance `id`.
    pub open spec fn total_contributed(self, id: u64) -> nat {
        total_for(self.entries(), id)
    }

    /// Everyone who has given to remittance `id`.
    pub open spec fn contributors(self, id: u64) -> Set<Principal> {
        Set::new(|p: Principal| seq_has(self.entries(), id, p))
    }

    /// The ledger's invariant.
    pub open spec fn wf(self) -> bool {
        parts_wf(self.settings(), self.counter(), self.records(), self.entries())
    }

    /// A ledger with no remittances, owned by `installer`, who also
    /// collects the fees; the fee starts at `DEFAULT_FEE_BPS` and the
    /// ledger unpaused.
    pub fn initialize_contract(installer: Principal) -> (r: Escrow)
        ensures
            r.wf(),
            r.settings() == (Config {
                owner: installer,
                fee_collector: installer,
                fee_bps: DEFAULT_FEE_BPS,
                paused: false,
            }),
            r.counter() == 0,
            r.records().len() == 0,
            r.entries().len() == 0,
    {
        Escrow {
            config: Config {
                owner: installer,
                fee_collector: installer,
                fee_bps: DEFAULT_FEE_BPS,
                paused: false,
            },
            next_id: 0,
            remittances: Vec::new(),
            contributions: Vec::new(),
        }
    }

    /// The remittance with id `id`; `RemittanceNotFound` if there is none.
    pub fn get_remittance(&self, id: u64) -> (r: Result<&Remittance, Error>)
        requires
            self.wf(),
        ensures
            match r {
                Ok(rec) => self.has(id) && *rec == self.record(id),
                Err(e) => !self.has(id) && e == Error::RemittanceNotFound,
            },
    {
        if id == 0 || id > self.next_id {
            return Err(Error::RemittanceNotFound);
        }
        let n = self.remittances.len();
        assert(id - 1 < n);
        Ok(&self.remittances[(id - 1) as usize])
    }

    /// Where the entry of `p` in remittance `id` stands, if there is one.
    fn find_entry(&self, id: u64, p: &Principal) -> (r: Option<usize>)
        ensures
            match r {
                Some(j) => j < self.entries().len() && key_is(self.entries()[j as int], id, *p),
                None => !seq_has(self.entries(), id, *p),
            },
    {
        let mut j: usize = 0;
        while j < self.contributions.len()
            invariant
                0 <= j <= self.contributions@.len(),
                forall|i: int| 0 <= i < j ==> !key_is(#[trigger] self.contributions@[i], id, *p),
            decreases self.contributions@.len() - j,
        {
            let e = &self.contributions[j];
            if e.remittance_id == id && e.contributor.same(p) {
                return Some(j);
            }
            j = j + 1;
        }
        None
    }

    /// What `contributor` has given to remittance `id`, in total; zero if
    /// nothing.
    pub fn get_contribution(&self, id: u64, contributor: &Principal) -> (r: Amount)
        requires
            self.wf(),
        ensures
            r.value() == self.contribution(id, *contributor),
    {
        match self.find_entry(id, contributor) {
            Some(j) => {
                proof {
                    lemma_entry_at(self.entries(), j as int, id, *contributor);
                }
                self.contributions[j].amount
            },
            None => Amount::zero(),
        }
    }

    /// Whether `contributor` has claimed the refund of remittance `id`.
    pub fn is_refund_claimed(&self, id: u64, contributor: &Principal) -> (r: bool)
        requires
            self.wf(),
        ensures
            r == self.refund_claimed(id, *contributor),
    {
        match self.find_entry(id, contributor) {
            Some(j) => {
                proof {
                    lemma_entry_at(self.entries(), j as int, id, *contributor);
                }
                self.contributions[j].refund_claimed
            },
            None => false,
        }
    }

    /// The platform fee in basis points.
    pub fn get_platform_fee(&self) -> (r: u64)
        ensures
            r == self.settings().fee_bps,
    {
        self.config.fee_bps
    }

    /// Why `caller` may not create a remittance with these terms, if they
    /// may not.
    pub open spec fn create_error(
        self,
        caller: Principal,
        recipient: Principal,
        target_amount: Amount,
        purpose: Seq<char>,
    ) -> Option<Error> {
        if self.settings().paused {
            Some(Error::ContractPaused)
        } else if recipient.is_zero_spec() || caller.is_zero_spec() {
            Some(Error::InvalidAccountHash)
        } else if target_amount.value() == 0 {
            Some(Error::InvalidTargetAmount)
        } else if !purpose_ok(purpose) {
            Some(Error::PurposeMaxLength)
        } else if self.counter() == u64::MAX {
            Some(Error::ArithmeticOverflow)
        } else {
            None
        }
    }

    /// Creates a remittance from `caller` to `recipient` and returns its id,
    /// the next in sequence.
    pub fn create_remittance(
        &mut self,
        caller: Principal,
        recipient: Principal,
        target_amount: Amount,
        purpose: String,
        created_at: u64,
    ) -> (r: Result<u64, Error>)
        requires
            old(self).wf(),
        ensures
            final(self).wf(),
            match r {
                Ok(id) => {
                    &&& old(self).create_error(caller, recipient, target_amount, purpose@) is None
                    &&& id == old(self).counter() + 1
                    &&& final(self).counter() == id
                    &&& final(self).records() == old(self).records().push(final(self).record(id))
                    &&& final(self).record(id).id == id
                    &&& final(self).record(id).creator == caller
                    &&& final(self).record(id).recipient == recipient
                    &&& final(self).record(id).target_amount == target_amount
                    &&& final(self).record(id).current_amount.value() == 0
                    &&& final(self).record(id).purpose == purpose
                    &&& final(self).record(id).created_at == created_at
                    &&& final(self).record(id).active()
                    &&& final(self).entries() == old(self).entries()
                    &&& final(self).settings() == old(self).settings()
                },
                Err(e) => old(self).create_error(caller, recipient, target_amount, purpose@)
                    == Some(e) && final(self).same_state(*old(self)),
            },
    {
        if self.config.paused {
            return Err(Error::ContractPaused);
        }
        validate_account_hash(&recipient)?;
        validate_account_hash(&caller)?;
        if target_amount.is_zero() {
            return Err(Error::InvalidTargetAmount);
        }
        validate_purpose(purpose.as_str())?;
        if self.next_id == u64::MAX {
            return Err(Error::ArithmeticOverflow);
        }
        let id = self.next_id + 1;
        let rec = Remittance::new(id, caller, recipient, target_amount, purpose, created_at);
        self.next_id = id;
        self.remittances.push(rec);
        proof {
            let ents = self.entries();
            assert forall|i: int| 0 <= i < ents.len() implies self.has(
                (#[trigger] ents[i]).remittance_id,
            ) && (ents[i].refund_claimed ==> self.record(ents[i].remittance_id).is_cancelled) by {
                assert(old(self).has(ents[i].remittance_id));
            }
            assert(total_for(ents, id) == 0) by {
                lemma_total_unused(ents, id);
            }
        }
        Ok(id)
    }
}

impl Escrow {
    /// Where remittance `id` stands; `RemittanceNotFound` if there is none.
    fn index_of(&self, id: u64) -> (r: Result<usize, Error>)
        requires
            self.wf(),
        ensures
            match r {
                Ok(i) => self.has(id) && i == id - 1,
                Err(e) => !self.has(id) && e == Error::RemittanceNotFound,
            },
    {
        if id == 0 || id > self.next_id {
            return Err(Error::RemittanceNotFound);
        }
        let n = self.remittances.len();
        assert(id - 1 < n);
        Ok((id - 1) as usize)
    }

    /// Why `caller` may not cancel remittance `id`, if they may not.
    pub open spec fn cancel_error(self, caller: Principal, id: u64) -> Option<Error> {
        if self.settings().paused {
            Some(Error::ContractPaused)
        } else if !self.has(id) {
            Some(Error::RemittanceNotFound)
        } else {
            self.record(id).cancel_error(caller)
        }
    }

    /// Cancels remittance `id`; only its creator may. Contributors then
    /// claim their refunds one by one.
    pub fn cancel_remittance(&mut self, caller: &Principal, id: u64) -> (r: Result<(), Error>)
        requires
            old(self).wf(),
        ensures
            final(self).wf(),
            match r {
                Ok(()) => {
                    &&& old(self).cancel_error(*caller, id) is None
                    &&& final(self).records() == old(self).records().update(
                        id - 1,
                        old(self).record(id).cancelled(),
                    )
                    &&& final(self).entries() == old(self).entries()
                    &&& final(self).settings() == old(self).settings()
                    &&& final(self).counter() == old(self).counter()
                },
                Err(e) => old(self).cancel_error(*caller, id) == Some(e) && final(self).same_state(
                    *old(self),
                ),
            },
    {
        if self.config.paused {
            return Err(Error::ContractPaused);
        }
        let i = self.index_of(id)?;
        let r = self.remittances[i].cancel(caller);
        proof {
            assert(r is Ok ==> self.records() =~= old(self).records().update(id - 1, old(self).record(id).cancelled()));
            assert(r is Err ==> self.records() =~= old(self).records());
        }
        r
    }
}

impl Escrow {
    /// Why `caller` may not release remittance `id`, if they may not.
    pub open spec fn release_error(self, caller: Principal, id: u64) -> Option<Error> {
        if self.settings().paused {
            Some(Error::ContractPaused)
        } else if !self.has(id) {
            Some(Error::RemittanceNotFound)
        } else {
            self.record(id).release_error(caller, self.settings().fee_bps as nat)
        }
    }

    /// Releases remittance `id` to its recipient, who alone may ask for it,
    /// once the target is met. The record is marked released here, before
    /// any funds move; the result says what to transfer: the fee to the fee
    /// collector, the payout to the recipient.
    pub fn release_funds(&mut self, caller: &Principal, id: u64) -> (r: Result<Release, Error>)
        requires
            old(self).wf(),
        ensures
            final(self).wf(),
            match r {
                Ok(rel) => {
                    &&& old(self).release_error(*caller, id) is None
                    &&& rel.fee.value() == fee_of(
                        old(self).record(id).current_amount.value(),
                        old(self).settings().fee_bps as nat,
                    )
                    &&& rel.payout.value() + rel.fee.value() == old(self).record(
                        id,
                    ).current_amount.value()
                    &&& final(self).records() == old(self).records().update(
                        id - 1,
                        old(self).record(id).released(),
                    )
                    &&& final(self).entries() == old(self).entries()
                    &&& final(self).settings() == old(self).settings()
                    &&& final(self).counter() == old(self).counter()
                },
                Err(e) => old(self).release_error(*caller, id) == Some(e) && final(self).same_state(*old(self)),
            },
    {
        if self.config.paused {
            return Err(Error::ContractPaused);
        }
        let i = self.index_of(id)?;
        let fee_bps = self.config.fee_bps;
        let r = self.remittances[i].release(caller, fee_bps);
        proof {
            assert(r is Ok ==> self.records() =~= old(self).records().update(
                id - 1,
                old(self).record(id).released(),
            ));
            assert(r is Err ==> self.records() =~= old(self).records());
            if r is Ok {
                let ents = self.entries();
                assert forall|k: int|
                    0 <= k < ents.len() && (#[trigger] ents[k]).refund_claimed implies self.record(
                        ents[k].remittance_id,
                    ).is_cancelled by {
                    assert(old(self).record(ents[k].remittance_id).is_cancelled);
                }
            }
        }
        r
    }

    /// Why `caller` may not contribute `amount` to remittance `id`, if they
    /// may not; `payment_received` says whether the amount reached escrow.
    pub open spec fn contribute_error(
        self,
        caller: Principal,
        id: u64,
        amount: Amount,
        payment_received: bool,
    ) -> Option<Error> {
        if self.settings().paused {
            Some(Error::ContractPaused)
        } else if amount.value() == 0 {
            Some(Error::InvalidContributionAmount)
        } else if !self.has(id) {
            Some(Error::RemittanceNotFound)
        } else if self.record(id).open_error() is Some {
            self.record(id).open_error()
        } else if !payment_received {
            Some(Error::TransferFailed)
        } else if self.record(id).current_amount.value() + amount.value() >= amount_bound() {
            Some(Error::ArithmeticOverflow)
        } else {
            None
        }
    }

    /// Whether remittance `id` would take `amount` from `caller`, up to the
    /// transfer of the funds into escrow, which comes next.
    pub fn check_contribution(&self, caller: &Principal, id: u64, amount: &Amount) -> (r: Result<
        (),
        Error,
    >)
        requires
            self.wf(),
        ensures
            match r {
                Ok(()) => self.contribute_error(*caller, id, *amount, false) == Some(
                    Error::TransferFailed,
                ),
                Err(e) => self.contribute_error(*caller, id, *amount, false) == Some(e)
                    && e != Error::TransferFailed,
            },
    {
        if self.config.paused {
            return Err(Error::ContractPaused);
        }
        validate_non_zero_amount(amount)?;
        let i = self.index_of(id)?;
        self.remittances[i].check_open()?;
        Ok(())
    }

    /// Records a contribution of `amount` from `caller` to remittance `id`,
    /// once the funds have reached escrow (`payment_received`): the
    /// remittance's gathered amount and the caller's ledger entry both grow
    /// by `amount`.
    pub fn contribute(
        &mut self,
        caller: &Principal,
        id: u64,
        amount: Amount,
        payment_received: bool,
    ) -> (r: Result<(), Error>)
        requires
            old(self).wf(),
        ensures
            final(self).wf(),
            match r {
                Ok(()) => {
                    &&& old(self).contribute_error(*caller, id, amount, payment_received) is None
                    &&& final(self).record(id).current_amount.value() == old(self).record(
                        id,
                    ).current_amount.value() + amount.value()
                    &&& final(self).records() == old(self).records().update(
                        id - 1,
                        old(self).record(id).with_current(final(self).record(id).current_amount),
                    )
                    &&& forall|q: u64, p: Principal|
                        #[trigger] final(self).contribution(q, p) == old(self).contribution(q, p)
                            + (if q == id && p == *caller {
                            amount.value()
                        } else {
                            0
                        })
                    &&& forall|q: u64, p: Principal|
                        #[trigger] final(self).refund_claimed(q, p) == old(self).refund_claimed(
                            q,
                            p,
                        )
                    &&& final(self).settings() == old(self).settings()
                    &&& final(self).counter() == old(self).counter()
                },
                Err(e) => old(self).contribute_error(*caller, id, amount, payment_received) == Some(
                    e,
                ) && final(self).same_state(*old(self)),
            },
    {
        if self.config.paused {
            return Err(Error::ContractPaused);
        }
        validate_non_zero_amount(&amount)?;
        let i = self.index_of(id)?;
        self.remittances[i].check_open()?;
        if !payment_received {
            return Err(Error::TransferFailed);
        }
        let found = self.find_entry(id, caller);
        let added = self.remittances[i].add_to_current(amount);
        if added.is_err() {
            assert(self.records() =~= old(self).records());
            return added;
        }
        let ghost s0 = self.contributions@;
        let ghost recs = self.records();
        assert(recs =~= old(self).records().update(
            id - 1,
            old(self).record(id).with_current(self.record(id).current_amount),
        ));
        match found {
            Some(j) => {
                let mut e = self.contributions[j];
                proof {
                    lemma_total_covers_entry(s0, j as int, id);
                    e.amount.lemma_bound();
                }
                let grown = match e.amount.checked_add(amount) {
                    Some(g) => g,
                    None => {
                        assert(false);
                        e.amount
                    },
                };
                e.amount = grown;
                self.contributions.set(j, e);
                proof {
                    assert forall|q: u64, p: Principal|
                        #![trigger seq_amount(self.entries(), q, p)]
                        #![trigger seq_claimed(self.entries(), q, p)]
                        seq_amount(self.entries(), q, p) == seq_amount(s0, q, p) + (if q == id && p
                            == *caller {
                            amount.value()
                        } else {
                            0
                        }) && seq_claimed(self.entries(), q, p) == seq_claimed(s0, q, p) by {
                        lemma_update_entry(s0, j as int, e, q, p);
                        lemma_entry_at(s0, j as int, id, *caller);
                    }
                    assert forall|k: int| 0 <= k < recs.len() implies total_for(
                        self.entries(),
                        (k + 1) as u64,
                    ) == (#[trigger] recs[k]).current_amount.value() by {
                        lemma_total_update(s0, j as int, e, (k + 1) as u64);
                    }
                }
            },
            None => {
                let e = LedgerEntry {
                    remittance_id: id,
                    contributor: *caller,
                    amount,
                    refund_claimed: false,
                };
                self.contributions.push(e);
                proof {
                    assert forall|q: u64, p: Principal|
                        #![trigger seq_amount(self.entries(), q, p)]
                        #![trigger seq_claimed(self.entries(), q, p)]
                        seq_amount(self.entries(), q, p) == seq_amount(s0, q, p) + (if q == id && p
                            == *caller {
                            amount.value()
                        } else {
                            0
                        }) && seq_claimed(self.entries(), q, p) == seq_claimed(s0, q, p) by {
                        lemma_push_entry(s0, e, q, p);
                    }
                    assert forall|k: int| 0 <= k < recs.len() implies total_for(
                        self.entries(),
                        (k + 1) as u64,
                    ) == (#[trigger] recs[k]).current_amount.value() by {
                        lemma_total_push(s0, e, (k + 1) as u64);
                    }
                }
            },
        }
        Ok(())
    }
}

impl Escrow {
    /// Why `caller` may not claim a refund from remittance `id`, if they may
    /// not.
    pub open spec fn claim_error(self, caller: Principal, id: u64) -> Option<Error> {
        if self.settings().paused {
            Some(Error::ContractPaused)
        } else if !self.has(id) {
            Some(Error::RemittanceNotFound)
        } else {
            self.record(id).refund_error(
                self.contribution(id, caller),
                self.refund_claimed(id, caller),
            )
        }
    }

    /// Claims the refund of `caller` from cancelled remittance `id`: all
    /// they gave. The claim is marked here, before any funds move; the
    /// result is the amount to transfer back to the caller. The ledger
    /// entry itself stays as it was.
    pub fn claim_refund(&mut self, caller: &Principal, id: u64) -> (r: Result<Amount, Error>)
        requires
            old(self).wf(),
        ensures
            final(self).wf(),
            match r {
                Ok(a) => {
                    &&& old(self).claim_error(*caller, id) is None
                    &&& a.value() == old(self).contribution(id, *caller)
                    &&& forall|q: u64, p: Principal|
                        #[trigger] final(self).contribution(q, p) == old(self).contribution(q, p)
                    &&& forall|q: u64, p: Principal|
                        #[trigger] final(self).refund_claimed(q, p) == (old(self).refund_claimed(
                            q,
                            p,
                        ) || (q == id && p == *caller))
                    &&& forall|q: u64| #[trigger]
                        final(self).total_contributed(q) == old(self).total_contributed(q)
                    &&& final(self).records() == old(self).records()
                    &&& final(self).settings() == old(self).settings()
                    &&& final(self).counter() == old(self).counter()
                },
                Err(e) => old(self).claim_error(*caller, id) == Some(e) && final(self).same_state(
                    *old(self),
                ),
            },
    {
        if self.config.paused {
            return Err(Error::ContractPaused);
        }
        let i = self.index_of(id)?;
        let ghost s0 = self.contributions@;
        match self.find_entry(id, caller) {
            None => {
                let r = self.remittances[i].refund_due(Amount::zero(), false);
                match r {
                    Ok(_) => {
                        assert(false);
                        Err(Error::NoContribution)
                    },
                    Err(e) => Err(e),
                }
            },
            Some(j) => {
                let mut e = self.contributions[j];
                proof {
                    lemma_entry_at(s0, j as int, id, *caller);
                }
                let amount = self.remittances[i].refund_due(e.amount, e.refund_claimed)?;
                e.refund_claimed = true;
                self.contributions.set(j, e);
                proof {
                    assert forall|q: u64, p: Principal|
                        #![trigger seq_amount(self.entries(), q, p)]
                        #![trigger seq_claimed(self.entries(), q, p)]
                        seq_amount(self.entries(), q, p) == seq_amount(s0, q, p) && seq_claimed(
                            self.entries(),
                            q,
                            p,
                        ) == (seq_claimed(s0, q, p) || (q == id && p == *caller)) by {
                        lemma_update_entry(s0, j as int, e, q, p);
                    }
                    assert forall|q: u64| #[trigger]
                        total_for(self.entries(), q) == total_for(s0, q) by {
                        lemma_total_update(s0, j as int, e, q);
                    }
                    let recs = self.records();
                    assert forall|k: int| 0 <= k < recs.len() implies total_for(
                        self.entries(),
                        (k + 1) as u64,
                    ) == (#[trigger] recs[k]).current_amount.value() by {
                        assert(total_for(self.entries(), (k + 1) as u64) == total_for(
                            s0,
                            (k + 1) as u64,
                        ));
                    }
                }
                Ok(amount)
            },
        }
    }

    /// Why `caller` may not change the settings, if they may not.
    pub open spec fn owner_error(self, caller: Principal) -> Option<Error> {
        if caller != self.settings().owner {
            Some(Error::Unauthorized)
        } else {
            None
        }
    }

    /// Why `caller` may not set the platform fee to `fee_bps`, if they may
    /// not.
    pub open spec fn fee_error(self, caller: Principal, fee_bps: u64) -> Option<Error> {
        if caller != self.settings().owner {
            Some(Error::Unauthorized)
        } else if fee_bps > MAX_FEE_BPS {
            Some(Error::FeeTooHigh)
        } else {
            None
        }
    }

    /// Sets the platform fee to `fee_bps` basis points; only the owner may,
    /// and only up to `MAX_FEE_BPS` (else `FeeTooHigh`, with the fee as it
    /// was).
    pub fn set_platform_fee(&mut self, caller: &Principal, fee_bps: u64) -> (r: Result<(), Error>)
        requires
            old(self).wf(),
        ensures
            final(self).wf(),
            match r {
                Ok(()) => {
                    &&& old(self).fee_error(*caller, fee_bps) is None
                    &&& final(self).settings() == (Config {
                        fee_bps,
                        ..old(self).settings()
                    })
                    &&& final(self).records() == old(self).records()
                    &&& final(self).entries() == old(self).entries()
                    &&& final(self).counter() == old(self).counter()
                },
                Err(e) => old(self).fee_error(*caller, fee_bps) == Some(e) && final(self).same_state(
                    *old(self),
                ),
            },
    {
        if !caller.same(&self.config.owner) {
            return Err(Error::Unauthorized);
        }
        if fee_bps > MAX_FEE_BPS {
            return Err(Error::FeeTooHigh);
        }
        self.config.fee_bps = fee_bps;
        Ok(())
    }

    /// Sets whether the ledger is paused; only the owner may.
    fn set_contract_paused(&mut self, caller: &Principal, paused: bool) -> (r: Result<(), Error>)
        requires
            old(self).wf(),
        ensures
            final(self).wf(),
            match r {
                Ok(()) => {
                    &&& old(self).owner_error(*caller) is None
                    &&& final(self).settings() == (Config { paused, ..old(self).settings() })
                    &&& final(self).records() == old(self).records()
                    &&& final(self).entries() == old(self).entries()
                    &&& final(self).counter() == old(self).counter()
                },
                Err(e) => old(self).owner_error(*caller) == Some(e) && final(self).same_state(
                    *old(self),
                ),
            },
    {
        if !caller.same(&self.config.owner) {
            return Err(Error::Unauthorized);
        }
        self.config.paused = paused;
        Ok(())
    }

    /// Pauses the ledger: creating, contributing, releasing, cancelling and
    /// claiming are refused until it is unpaused. Only the owner may.
    pub fn pause_contract(&mut self, caller: &Principal) -> (r: Result<(), Error>)
        requires
            old(self).wf(),
        ensures
            final(self).wf(),
            match r {
                Ok(()) => {
                    &&& old(self).owner_error(*caller) is None
                    &&& final(self).settings() == (Config { paused: true, ..old(self).settings() })
                    &&& final(self).records() == old(self).records()
                    &&& final(self).entries() == old(self).entries()
                    &&& final(self).counter() == old(self).counter()
                },
                Err(e) => old(self).owner_error(*caller) == Some(e) && final(self).same_state(
                    *old(self),
                ),
            },
    {
        self.set_contract_paused(caller, true)
    }

    /// Lifts a pause. Only the owner may.
    pub fn unpause_contract(&mut self, caller: &Principal) -> (r: Result<(), Error>)
        requires
            old(self).wf(),
        ensures
            final(self).wf(),
            match r {
                Ok(()) => {
                    &&& old(self).owner_error(*caller) is None
                    &&& final(self).settings() == (Config { paused: false, ..old(self).settings() })
                    &&& final(self).records() == old(self).records()
                    &&& final(self).entries() == old(self).entries()
                    &&& final(self).counter() == old(self).counter()
                },
                Err(e) => old(self).owner_error(*caller) == Some(e) && final(self).same_state(
                    *old(self),
                ),
            },
    {
        self.set_contract_paused(caller, false)
    }

    /// The owner of the ledger.
    pub fn get_contract_owner(&self) -> (r: Principal)
        ensures
            r == self.settings().owner,
    {
        self.config.owner
    }

    /// Where platform fees go.
    pub fn get_fee_collector(&self) -> (r: Principal)
        ensures
            r == self.settings().fee_collector,
    {
        self.config.fee_collector
    }

    /// Whether the ledger is paused.
    pub fn is_contract_paused(&self) -> (r: bool)
        ensures
            r == self.settings().paused,
    {
        self.config.paused
    }
}

impl Escrow {
    /// Everyone who has given to remittance `id`, each once, in the order
    /// of their first contribution.
    pub fn get_contributors(&self, id: u64) -> (r: Vec<Principal>)
        requires
            self.wf(),
        ensures
            forall|p: Principal| r@.contains(p) <==> self.contributors(id).contains(p),
            r@.no_duplicates(),
    {
        let mut r: Vec<Principal> = Vec::new();
        let mut j: usize = 0;
        let ghost s = self.entries();
        while j < self.contributions.len()
            invariant
                self.wf(),
                s == self.entries(),
                0 <= j <= s.len(),
                r@.no_duplicates(),
                forall|p: Principal|
                    r@.contains(p) <==> exists|i: int| 0 <= i < j && key_is(#[trigger] s[i], id, p),
            decreases s.len() - j,
        {
            let e = self.contributions[j];
            let ghost r0 = r@;
            if e.remittance_id == id {
                proof {
                    if r@.contains(e.contributor) {
                        let i = choose|i: int| 0 <= i < j && key_is(#[trigger] s[i], id, e.contributor);
                        assert(same_key(s[i], s[j as int]));
                    }
                }
                r.push(e.contributor);
                proof {
                    assert(r@ == r0.push(e.contributor));
                    assert forall|p: Principal| r@.contains(p) <==> exists|i: int|
                        0 <= i < j + 1 && key_is(#[trigger] s[i], id, p) by {
                        if p == e.contributor {
                            assert(r@[r@.len() - 1] == p);
                            assert(key_is(s[j as int], id, p));
                        } else if r0.contains(p) {
                            let k = choose|k: int| 0 <= k < r0.len() && r0[k] == p;
                            assert(r@[k] == p);
                        } else {
                            if r@.contains(p) {
                                let k = choose|k: int| 0 <= k < r@.len() && r@[k] == p;
                                assert(r0[k] == p);
                            }
                        }
                    }
                }
            } else {
                proof {
                    assert forall|p: Principal| r@.contains(p) <==> exists|i: int|
                        0 <= i < j + 1 && key_is(#[trigger] s[i], id, p) by {
                        if exists|i: int| 0 <= i < j + 1 && key_is(#[trigger] s[i], id, p) {
                            let i = choose|i: int| 0 <= i < j + 1 && key_is(#[trigger] s[i], id, p);
                            assert(i < j);
                        }
                    }
                }
            }
            j = j + 1;
        }
        proof {
            assert forall|p: Principal| r@.contains(p) <==> self.contributors(id).contains(p) by {
                if r@.contains(p) {
                    assert(seq_has(s, id, p));
                }
            }
        }
        r
    }

    /// The ids of the remittances that `p` created, in increasing order.
    pub fn remittances_created_by(&self, p: &Principal) -> (r: Vec<u64>)
        requires
            self.wf(),
        ensures
            forall|x: u64| r@.contains(x) <==> self.has(x) && self.record(x).creator == *p,
            forall|a: int, b: int| 0 <= a < b < r@.len() ==> r@[a] < r@[b],
    {
        let mut r: Vec<u64> = Vec::new();
        let mut i: usize = 0;
        while i < self.remittances.len()
            invariant
                self.wf(),
                0 <= i <= self.records().len(),
                forall|x: u64| r@.contains(x) <==> 1 <= x <= i && self.record(x).creator == *p,
                forall|a: int, b: int| 0 <= a < b < r@.len() ==> r@[a] < r@[b],
                forall|a: int| 0 <= a < r@.len() ==> r@[a] <= i,
            decreases self.records().len() - i,
        {
            let ghost r0 = r@;
            let matched = self.remittances[i].creator.same(p);
            if matched {
                let id = self.remittances[i].id;
                assert(id == i + 1);
                r.push(id);
            }
            proof {
                assert(matched ==> r@ == r0.push((i + 1) as u64));
                assert(!matched ==> r@ == r0);
                assert forall|x: u64|
                    r@.contains(x) <==> 1 <= x <= i + 1 && self.record(x).creator == *p by {
                    if r0.contains(x) {
                        let k = choose|k: int| 0 <= k < r0.len() && r0[k] == x;
                        assert(r@[k] == x);
                    }
                    if r@.contains(x) {
                        let k = choose|k: int| 0 <= k < r@.len() && r@[k] == x;
                        if k < r0.len() {
                            assert(r0[k] == x);
                        }
                    }
                    if matched && x == i + 1 {
                        assert(r@[r@.len() - 1] == x);
                    }
                }
            }
            i = i + 1;
        }
        r
    }

    /// The ids of the remittances addressed to `p`, in increasing order.
    pub fn remittances_incoming_to(&self, p: &Principal) -> (r: Vec<u64>)
        requires
            self.wf(),
        ensures
            forall|x: u64| r@.contains(x) <==> self.has(x) && self.record(x).recipient == *p,
            forall|a: int, b: int| 0 <= a < b < r@.len() ==> r@[a] < r@[b],
    {
        let mut r: Vec<u64> = Vec::new();
        let mut i: usize = 0;
        while i < self.remittances.len()
            invariant
                self.wf(),
                0 <= i <= self.records().len(),
                forall|x: u64| r@.contains(x) <==> 1 <= x <= i && self.record(x).recipient == *p,
                forall|a: int, b: int| 0 <= a < b < r@.len() ==> r@[a] < r@[b],
                forall|a: int| 0 <= a < r@.len() ==> r@[a] <= i,
            decreases self.records().len() - i,
        {
            let ghost r0 = r@;
            let matched = self.remittances[i].recipient.same(p);
            if matched {
                let id = self.remittances[i].id;
                assert(id == i + 1);
                r.push(id);
            }
            proof {
                assert(matched ==> r@ == r0.push((i + 1) as u64));
                assert(!matched ==> r@ == r0);
                assert forall|x: u64|
                    r@.contains(x) <==> 1 <= x <= i + 1 && self.record(x).recipient == *p by {
                    if r0.contains(x) {
                        let k = choose|k: int| 0 <= k < r0.len() && r0[k] == x;
                        assert(r@[k] == x);
                    }
                    if r@.contains(x) {
                        let k = choose|k: int| 0 <= k < r@.len() && r@[k] == x;
                        if k < r0.len() {
                            assert(r0[k] == x);
                        }
                    }
                    if matched && x == i + 1 {
                        assert(r@[r@.len() - 1] == x);
                    }
                }
            }
            i = i + 1;
        }
        r
    }
}

impl Escrow {
    /// The settings, for storing.
    pub fn config(&self) -> (r: &Config)
        ensures
            *r == self.settings(),
    {
        &self.config
    }

    /// The last id handed out, for storing.
    pub fn last_id(&self) -> (r: u64)
        ensures
            r == self.counter(),
    {
        self.next_id
    }

    /// The remittances in the order of their ids, for storing.
    pub fn remittances(&self) -> (r: &Vec<Remittance>)
        ensures
            r@ == self.records(),
    {
        &self.remittances
    }

    /// The contribution ledger, for storing.
    pub fn ledger_entries(&self) -> (r: &Vec<LedgerEntry>)
        ensures
            r@ == self.entries(),
    {
        &self.contributions
    }

    /// The sum of the first `n` entries of remittance `id`, or `None` where
    /// it does not fit in 512 bits.
    fn sum_entries(entries: &Vec<LedgerEntry>, id: u64) -> (r: Option<Amount>)
        ensures
            match r {
                Some(t) => t.value() == total_for(entries@, id),
                None => total_for(entries@, id) >= amount_bound(),
            },
    {
        let mut acc = Amount::zero();
        let mut j: usize = 0;
        while j < entries.len()
            invariant
                0 <= j <= entries@.len(),
                acc.value() == total_for(entries@.take(j as int), id),
            decreases entries@.len() - j,
        {
            let e = entries[j];
            proof {
                assert(entries@.take(j + 1).drop_last() =~= entries@.take(j as int));
            }
            if e.remittance_id == id {
                match acc.checked_add(e.amount) {
                    Some(t) => acc = t,
                    None => {
                        proof {
                            lemma_total_monotone(entries@, j + 1, id);
                        }
                        return None;
                    },
                }
            }
            j = j + 1;
        }
        assert(entries@.take(j as int) =~= entries@);
        Some(acc)
    }

    /// Rebuilds a ledger from its stored parts, provided they hold together:
    /// one record per id handed out, each at its place; no record both
    /// released and cancelled; a fee within its cap; one ledger entry per
    /// (remittance, contributor), each above zero and naming a remittance
    /// that exists; a claimed refund only on a cancelled remittance; and the
    /// entries of each remittance summing to its gathered amount. `None`
    /// where they do not.
    pub fn restore(
        config: Config,
        last_id: u64,
        remittances: Vec<Remittance>,
        entries: Vec<LedgerEntry>,
    ) -> (r: Option<Escrow>)
        ensures
            match r {
                Some(e) => e.wf() && e.settings() == config && e.counter() == last_id
                    && e.records() == remittances@ && e.entries() == entries@,
                None => !parts_wf(config, last_id, remittances@, entries@),
            },
    {
        if config.fee_bps > MAX_FEE_BPS {
            return None;
        }
        let n = remittances.len();
        if n as u64 != last_id {
            return None;
        }
        let mut i: usize = 0;
        while i < n
            invariant
                n == remittances@.len(),
                n == last_id,
                0 <= i <= n,
                forall|k: int| 0 <= k < i ==> (#[trigger] remittances@[k]).id == k + 1,
                forall|k: int|
                    0 <= k < i ==> !((#[trigger] remittances@[k]).is_released
                        && remittances@[k].is_cancelled),
                forall|k: int|
                    0 <= k < i ==> total_for(entries@, (k + 1) as u64) == (
                    #[trigger] remittances@[k]).current_amount.value(),
            decreases n - i,
        {
            let rec = &remittances[i];
            if rec.id != (i + 1) as u64 || (rec.is_released && rec.is_cancelled) {
                return None;
            }
            match Escrow::sum_entries(&entries, rec.id) {
                None => {
                    proof {
                        rec.current_amount.lemma_bound();
                    }
                    return None;
                },
                Some(t) => {
                    if !t.ge(&rec.current_amount) || !rec.current_amount.ge(&t) {
                        return None;
                    }
                },
            }
            i = i + 1;
        }
        let m = entries.len();
        let mut j: usize = 0;
        while j < m
            invariant
                m == entries@.len(),
                n == remittances@.len(),
                n == last_id,
                0 <= j <= m,
                forall|k: int|
                    0 <= k < j ==> 1 <= (#[trigger] entries@[k]).remittance_id <= n
                        && entries@[k].amount.value() > 0 && (entries@[k].refund_claimed
                        ==> remittances@[entries@[k].remittance_id - 1].is_cancelled),
                forall|a: int, b: int|
                    0 <= a < j && 0 <= b < j && a != b ==> !same_key(
                        #[trigger] entries@[a],
                        #[trigger] entries@[b],
                    ),
            decreases m - j,
        {
            let e = entries[j];
            if e.remittance_id == 0 || e.remittance_id > last_id || e.amount.is_zero() {
                return None;
            }
            let rid = (e.remittance_id - 1) as usize;
            if e.refund_claimed && !remittances[rid].is_cancelled {
                return None;
            }
            let mut k: usize = 0;
            while k < j
                invariant
                    m == entries@.len(),
                    0 <= k <= j < m,
                    e == entries@[j as int],
                    forall|a: int| 0 <= a < k ==> !same_key(#[trigger] entries@[a], e),
                decreases j - k,
            {
                let f = &entries[k];
                if f.remittance_id == e.remittance_id && f.contributor.same(&e.contributor) {
                    proof {
                        assert(same_key(entries@[k as int], entries@[j as int]));
                    }
                    return None;
                }
                k = k + 1;
            }
            j = j + 1;
        }
        let r = Escrow { config, next_id: last_id, remittances, contributions: entries };
        proof {
            let recs = r.records();
            assert forall|k: int| 0 <= k < recs.len() implies total_for(
                r.entries(),
                (k + 1) as u64,
            ) == (#[trigger] recs[k]).current_amount.value() by {
                assert(total_for(entries@, (k + 1) as u64) == remittances@[k].current_amount.value());
            }
        }
        Some(r)
    }
}

} // verus!
