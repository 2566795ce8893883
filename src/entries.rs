//! The contribution ledger: one entry per (remittance id, contributor),
//! holding the cumulative amount given and the refund marker.

use crate::amount::Amount;
use crate::principal::Principal;
use vstd::prelude::*;

verus! {

/// What one contributor has given to one remittance, in total, and whether
/// their refund has been claimed.
#[derive(Clone, Copy, Debug)]
pub struct LedgerEntry {
    pub remittance_id: u64,
    pub contributor: Principal,
    pub amount: Amount,
    pub refund_claimed: bool,
}

pub open spec fn key_is(e: LedgerEntry, id: u64, p: Principal) -> bool {
    e.remittance_id == id && e.contributor == p
}

pub open spec fn same_key(a: LedgerEntry, b: LedgerEntry) -> bool {
    key_is(a, b.remittance_id, b.contributor)
}

/// No two entries share a key.
pub open spec fn keys_unique(s: Seq<LedgerEntry>) -> bool {
    forall|i: int, j: int|
        0 <= i < s.len() && 0 <= j < s.len() && i != j ==> !same_key(#[trigger] s[i], #[trigger] s[j])
}

pub open spec fn seq_has(s: Seq<LedgerEntry>, id: u64, p: Principal) -> bool {
    exists|i: int| 0 <= i < s.len() && key_is(#[trigger] s[i], id, p)
}

pub open spec fn seq_entry(s: Seq<LedgerEntry>, id: u64, p: Principal) -> LedgerEntry {
    s[choose|i: int| 0 <= i < s.len() && key_is(#[trigger] s[i], id, p)]
}

/// What the entries record that `p` gave to remittance `id`.
pub open spec fn seq_amount(s: Seq<LedgerEntry>, id: u64, p: Principal) -> nat {
    if seq_has(s, id, p) {
        seq_entry(s, id, p).amount.value()
    } else {
        0
    }
}

/// Whether the entries mark the refund of `p` from remittance `id` claimed.
pub open spec fn seq_claimed(s: Seq<LedgerEntry>, id: u64, p: Principal) -> bool {
    seq_has(s, id, p) && seq_entry(s, id, p).refund_claimed
}

pub open spec fn share_of(e: LedgerEntry, id: u64) -> nat {
    if e.remittance_id == id {
        e.amount.value()
    } else {
        0
    }
}

/// The sum of all entries of remittance `id`.
pub open spec fn total_for(s: Seq<LedgerEntry>, id: u64) -> nat
    decreases s.len(),
{
    if s.len() == 0 {
        0
    } else {
        total_for(s.drop_last(), id) + share_of(s.last(), id)
    }
}

pub(crate) proof fn lemma_entry_at(s: Seq<LedgerEntry>, i: int, id: u64, p: Principal)
    requires
        keys_unique(s),
        0 <= i < s.len(),
        key_is(s[i], id, p),
    ensures
        seq_has(s, id, p),
        seq_entry(s, id, p) == s[i],
{
    assert(seq_has(s, id, p));
    let c = choose|c: int| 0 <= c < s.len() && key_is(#[trigger] s[c], id, p);
    if c != i {
        assert(same_key(s[c], s[i]));
    }
}

/// Replacing an entry by one with the same key changes what is recorded
/// under that key only.
pub(crate) proof fn lemma_update_entry(s: Seq<LedgerEntry>, j: int, e: LedgerEntry, id: u64, p: Principal)
    requires
        keys_unique(s),
        0 <= j < s.len(),
        same_key(e, s[j]),
    ensures
        keys_unique(s.update(j, e)),
        seq_amount(s.update(j, e), id, p) == (if key_is(e, id, p) {
            e.amount.value()
        } else {
            seq_amount(s, id, p)
        }),
        seq_claimed(s.update(j, e), id, p) == (if key_is(e, id, p) {
            e.refund_claimed
        } else {
            seq_claimed(s, id, p)
        }),
{
    let t = s.update(j, e);
    assert forall|a: int, b: int|
        0 <= a < t.len() && 0 <= b < t.len() && a != b implies !same_key(
        #[trigger] t[a],
        #[trigger] t[b],
    ) by {
        if a != j && b != j {
            assert(!same_key(s[a], s[b]));
        } else if a == j {
            assert(!same_key(s[j], s[b]));
        } else {
            assert(!same_key(s[a], s[j]));
        }
    }
    if key_is(e, id, p) {
        lemma_entry_at(t, j, id, p);
    } else if seq_has(s, id, p) {
        let i = choose|i: int| 0 <= i < s.len() && key_is(#[trigger] s[i], id, p);
        lemma_entry_at(s, i, id, p);
        lemma_entry_at(t, i, id, p);
    } else {
        assert(!seq_has(t, id, p)) by {
            if seq_has(t, id, p) {
                let i = choose|i: int| 0 <= i < t.len() && key_is(#[trigger] t[i], id, p);
                assert(key_is(s[i], id, p));
            }
        }
    }
}

/// Appending an entry under a new key records it under that key and
/// changes nothing else.
pub(crate) proof fn lemma_push_entry(s: Seq<LedgerEntry>, e: LedgerEntry, id: u64, p: Principal)
    requires
        keys_unique(s),
        !seq_has(s, e.remittance_id, e.contributor),
    ensures
        keys_unique(s.push(e)),
        seq_amount(s.push(e), id, p) == (if key_is(e, id, p) {
            e.amount.value()
        } else {
            seq_amount(s, id, p)
        }),
        seq_claimed(s.push(e), id, p) == (if key_is(e, id, p) {
            e.refund_claimed
        } else {
            seq_claimed(s, id, p)
        }),
{
    let t = s.push(e);
    assert forall|a: int, b: int|
        0 <= a < t.len() && 0 <= b < t.len() && a != b implies !same_key(
        #[trigger] t[a],
        #[trigger] t[b],
    ) by {
        if a < s.len() && b < s.len() {
            assert(!same_key(s[a], s[b]));
        } else if a == s.len() {
            assert(!key_is(s[b], e.remittance_id, e.contributor));
        } else {
            assert(!key_is(s[a], e.remittance_id, e.contributor));
        }
    }
    if key_is(e, id, p) {
        lemma_entry_at(t, s.len() as int, id, p);
    } else if seq_has(s, id, p) {
        let i = choose|i: int| 0 <= i < s.len() && key_is(#[trigger] s[i], id, p);
        lemma_entry_at(s, i, id, p);
        lemma_entry_at(t, i, id, p);
    } else {
        assert(!seq_has(t, id, p)) by {
            if seq_has(t, id, p) {
                let i = choose|i: int| 0 <= i < t.len() && key_is(#[trigger] t[i], id, p);
                assert(key_is(s[i], id, p));
            }
        }
    }
}

pub(crate) proof fn lemma_total_push(s: Seq<LedgerEntry>, e: LedgerEntry, id: u64)
    ensures
        total_for(s.push(e), id) == total_for(s, id) + share_of(e, id),
{
    assert(s.push(e).drop_last() =~= s);
}

pub(crate) proof fn lemma_total_update(s: Seq<LedgerEntry>, j: int, e: LedgerEntry, id: u64)
    requires
        0 <= j < s.len(),
    ensures
        total_for(s.update(j, e), id) + share_of(s[j], id) == total_for(s, id) + share_of(e, id),
    decreases s.len(),
{
    let t = s.update(j, e);
    if j == s.len() - 1 {
        assert(t.drop_last() =~= s.drop_last());
    } else {
        lemma_total_update(s.drop_last(), j, e, id);
        assert(t.drop_last() =~= s.drop_last().update(j, e));
    }
}

pub(crate) proof fn lemma_total_covers_entry(s: Seq<LedgerEntry>, j: int, id: u64)
    requires
        0 <= j < s.len(),
        s[j].remittance_id == id,
    ensures
        total_for(s, id) >= s[j].amount.value(),
    decreases s.len(),
{
    if j < s.len() - 1 {
        lemma_total_covers_entry(s.drop_last(), j, id);
    }
}

/// A prefix of the entries sums to no more than all of them.
pub(crate) proof fn lemma_total_monotone(s: Seq<LedgerEntry>, j: int, id: u64)
    requires
        0 <= j <= s.len(),
    ensures
        total_for(s.take(j), id) <= total_for(s, id),
    decreases s.len() - j,
{
    if j < s.len() {
        lemma_total_monotone(s, j + 1, id);
        assert(s.take(j + 1).drop_last() =~= s.take(j));
    } else {
        assert(s.take(j) =~= s);
    }
}

/// No entry names a remittance that does not exist yet.
pub(crate) proof fn lemma_total_unused(s: Seq<LedgerEntry>, id: u64)
    requires
        forall|i: int| 0 <= i < s.len() ==> (#[trigger] s[i]).remittance_id != id,
    ensures
        total_for(s, id) == 0,
    decreases s.len(),
{
    if s.len() > 0 {
        lemma_total_unused(s.drop_last(), id);
    }
}

} // verus!
