//! Laws of the escrow ledger that relate its operations, proved over the
//! contracts of those operations.

use crate::amount::{amount_bound, Amount};
use crate::entries::{key_is, lemma_entry_at, seq_has};
use crate::errors::{Error, MAX_FEE_BPS};
use crate::ledger::Escrow;
use crate::principal::Principal;
use crate::utils::lemma_fee_at_most_amount;
use vstd::prelude::*;

verus! {

/// The contributors of a remittance are exactly those whose ledger entry
/// for it is above zero.
pub proof fn lemma_contributors_gave(e: Escrow, id: u64, p: Principal)
    requires
        e.wf(),
    ensures
        e.contributors(id).contains(p) <==> e.contribution(id, p) > 0,
{
    let s = e.entries();
    if seq_has(s, id, p) {
        let i = choose|i: int| 0 <= i < s.len() && key_is(#[trigger] s[i], id, p);
        lemma_entry_at(s, i, id, p);
    }
}

/// The contribution ledger always adds up: the entries of a remittance sum
/// to its gathered amount.
pub proof fn lemma_ledger_sums_to_current(e: Escrow, id: u64)
    requires
        e.wf(),
        e.has(id),
    ensures
        e.total_contributed(id) == e.record(id).current_amount.value(),
{
    let k = id - 1;
    assert(e.records()[k].id == k + 1);
}

/// Released and cancelled exclude each other, and both are final: on a
/// released or cancelled remittance every contribution, release and
/// cancellation fails, and where the caller is allowed and the ledger is not
/// paused, with the error that names the state reached.
pub proof fn lemma_terminal_states(
    e: Escrow,
    id: u64,
    caller: Principal,
    amount: Amount,
    payment_received: bool,
)
    requires
        e.wf(),
        e.has(id),
    ensures
        !(e.record(id).is_released && e.record(id).is_cancelled),
        !e.record(id).active() ==> {
            &&& e.contribute_error(caller, id, amount, payment_received) is Some
            &&& e.release_error(caller, id) is Some
            &&& e.cancel_error(caller, id) is Some
        },
        e.record(id).is_released && !e.settings().paused ==> {
            &&& amount.value() > 0 ==> e.contribute_error(caller, id, amount, payment_received)
                == Some(Error::AlreadyReleased)
            &&& e.release_error(e.record(id).recipient, id) == Some(Error::AlreadyReleased)
            &&& e.cancel_error(e.record(id).creator, id) == Some(Error::AlreadyReleased)
        },
        e.record(id).is_cancelled && !e.settings().paused ==> {
            &&& amount.value() > 0 ==> e.contribute_error(caller, id, amount, payment_received)
                == Some(Error::RemittanceCancelled)
            &&& e.release_error(e.record(id).recipient, id) == Some(Error::RemittanceCancelled)
            &&& e.cancel_error(e.record(id).creator, id) == Some(Error::RemittanceCancelled)
        },
{
    let k = id - 1;
    assert(!(e.records()[k].is_released && e.records()[k].is_cancelled));
}

/// The recipient's release of an unpaused ledger succeeds exactly when the
/// remittance is active and its target met, wherever the fee can be
/// computed in 512 bits.
pub proof fn lemma_release_iff_target_met(e: Escrow, id: u64)
    requires
        e.wf(),
        e.has(id),
        !e.settings().paused,
        e.record(id).current_amount.value() * e.settings().fee_bps < amount_bound(),
    ensures
        e.release_error(e.record(id).recipient, id) is None <==> (e.record(
            id,
        ).current_amount.value() >= e.record(id).target_amount.value() && e.record(id).active()),
{
    lemma_fee_at_most_amount(e.record(id).current_amount.value(), e.settings().fee_bps as nat);
}

/// A refund is claimed at most once: once marked, every further claim by
/// the same contributor fails, with `RefundAlreadyClaimed` on an unpaused
/// ledger. A contributor who gave nothing to a cancelled remittance gets
/// `NoContribution`.
pub proof fn lemma_refund_at_most_once(e: Escrow, id: u64, p: Principal)
    requires
        e.wf(),
        e.has(id),
    ensures
        e.refund_claimed(id, p) ==> e.claim_error(p, id) is Some,
        e.refund_claimed(id, p) && !e.settings().paused ==> e.claim_error(p, id) == Some(
            Error::RefundAlreadyClaimed,
        ),
        e.record(id).is_cancelled && !e.settings().paused && e.contribution(id, p) == 0
            ==> e.claim_error(p, id) == Some(Error::NoContribution),
{
    let s = e.entries();
    if e.refund_claimed(id, p) {
        let i = choose|i: int| 0 <= i < s.len() && key_is(#[trigger] s[i], id, p);
        lemma_entry_at(s, i, id, p);
    }
}

/// The platform fee stays within `[0, MAX_FEE_BPS]`.
pub proof fn lemma_fee_within_cap(e: Escrow)
    requires
        e.wf(),
    ensures
        e.settings().fee_bps <= MAX_FEE_BPS,
{
}

} // verus!
