use casperflow::amount::Amount;
use casperflow::errors::{Error, DEFAULT_FEE_BPS, MAX_FEE_BPS};
use casperflow::ledger::Escrow;
use casperflow::principal::Principal;

fn acct(b: u8) -> Principal {
    Principal::new([b; 32])
}

fn amt(v: u64) -> Amount {
    Amount::from_u64(v)
}

const OWNER: u8 = 1;
const CREATOR: u8 = 2;
const RECIPIENT: u8 = 3;
const ALICE: u8 = 4;
const BOB: u8 = 5;
const MALLORY: u8 = 6;

fn ledger() -> Escrow {
    Escrow::initialize_contract(acct(OWNER))
}

fn create(e: &mut Escrow, target: u64) -> u64 {
    e.create_remittance(acct(CREATOR), acct(RECIPIENT), amt(target), "School fees".to_string(), 100)
        .unwrap()
}

fn give(e: &mut Escrow, who: u8, id: u64, amount: u64) -> Result<(), Error> {
    e.check_contribution(&acct(who), id, &amt(amount))?;
    e.contribute(&acct(who), id, amt(amount), true)
}

#[test]
fn test_complete_remittance_workflow() {
    let mut e = ledger();
    let id = create(&mut e, 1000);
    assert_eq!(id, 1);
    give(&mut e, ALICE, id, 400).unwrap();
    give(&mut e, BOB, id, 600).unwrap();
    let rel = e.release_funds(&acct(RECIPIENT), id).unwrap();
    assert_eq!(rel.fee, amt(5));
    assert_eq!(rel.payout, amt(995));
    let r = e.get_remittance(id).unwrap();
    assert!(r.is_released);
    assert!(!r.is_cancelled);
    assert_eq!(r.current_amount, amt(1000));
}

#[test]
fn test_cancel_and_refund_workflow() {
    let mut e = ledger();
    let id = create(&mut e, 1000);
    give(&mut e, ALICE, id, 100).unwrap();
    give(&mut e, BOB, id, 200).unwrap();
    e.cancel_remittance(&acct(CREATOR), id).unwrap();
    assert_eq!(e.claim_refund(&acct(ALICE), id), Ok(amt(100)));
    assert_eq!(e.claim_refund(&acct(BOB), id), Ok(amt(200)));
    assert!(e.is_refund_claimed(id, &acct(ALICE)));
    assert!(e.is_refund_claimed(id, &acct(BOB)));
    // the ledger keeps its history
    assert_eq!(e.get_contribution(id, &acct(ALICE)), amt(100));
}

#[test]
fn test_unauthorized_access() {
    let mut e = ledger();
    let id = create(&mut e, 1000);
    give(&mut e, ALICE, id, 1000).unwrap();
    assert!(matches!(e.release_funds(&acct(MALLORY), id), Err(Error::Unauthorized)));
    assert_eq!(e.cancel_remittance(&acct(MALLORY), id), Err(Error::Unauthorized));
    assert_eq!(e.set_platform_fee(&acct(MALLORY), 10), Err(Error::Unauthorized));
    assert_eq!(e.pause_contract(&acct(MALLORY)), Err(Error::Unauthorized));
    let r = e.get_remittance(id).unwrap();
    assert!(r.is_active());
}

#[test]
fn test_target_not_met_release_fails() {
    let mut e = ledger();
    let id = create(&mut e, 1000);
    give(&mut e, ALICE, id, 500).unwrap();
    assert!(matches!(e.release_funds(&acct(RECIPIENT), id), Err(Error::TargetNotMet)));
    assert!(e.get_remittance(id).unwrap().is_active());
}

#[test]
fn test_platform_fee_calculation() {
    let mut e = ledger();
    let id = create(&mut e, 10000);
    give(&mut e, ALICE, id, 10000).unwrap();
    let rel = e.release_funds(&acct(RECIPIENT), id).unwrap();
    assert_eq!(rel.fee, amt(50));
    assert_eq!(rel.payout, amt(9950));
    assert_eq!(e.get_fee_collector(), acct(OWNER));
}

#[test]
fn test_contract_pause_functionality() {
    let mut e = ledger();
    let id = create(&mut e, 1000);
    e.pause_contract(&acct(OWNER)).unwrap();
    assert!(e.is_contract_paused());
    assert_eq!(
        e.create_remittance(acct(CREATOR), acct(RECIPIENT), amt(1), "x".to_string(), 0),
        Err(Error::ContractPaused)
    );
    assert_eq!(give(&mut e, ALICE, id, 10), Err(Error::ContractPaused));
    assert!(matches!(e.release_funds(&acct(RECIPIENT), id), Err(Error::ContractPaused)));
    assert_eq!(e.cancel_remittance(&acct(CREATOR), id), Err(Error::ContractPaused));
    assert_eq!(e.claim_refund(&acct(ALICE), id), Err(Error::ContractPaused));
    e.unpause_contract(&acct(OWNER)).unwrap();
    assert!(!e.is_contract_paused());
    give(&mut e, ALICE, id, 10).unwrap();
    assert_eq!(e.get_contribution(id, &acct(ALICE)), amt(10));
}

#[test]
fn test_multiple_contributors() {
    let mut e = ledger();
    let id = create(&mut e, 5000);
    for who in 10u8..22 {
        give(&mut e, who, id, 100).unwrap();
        give(&mut e, who, id, who as u64).unwrap();
    }
    let mut total = 0u64;
    for who in 10u8..22 {
        assert_eq!(e.get_contribution(id, &acct(who)), amt(100 + who as u64));
        total += 100 + who as u64;
    }
    assert_eq!(e.get_remittance(id).unwrap().current_amount, amt(total));
}

#[test]
fn test_refund_double_claim_prevention() {
    let mut e = ledger();
    let id = create(&mut e, 1000);
    give(&mut e, ALICE, id, 300).unwrap();
    e.cancel_remittance(&acct(CREATOR), id).unwrap();
    assert_eq!(e.claim_refund(&acct(ALICE), id), Ok(amt(300)));
    assert_eq!(e.claim_refund(&acct(ALICE), id), Err(Error::RefundAlreadyClaimed));
}

#[test]
fn contributions_reach_target() {
    let mut e = ledger();
    let id = create(&mut e, 1000);
    give(&mut e, ALICE, id, 300).unwrap();
    give(&mut e, BOB, id, 700).unwrap();
    let r = e.get_remittance(id).unwrap();
    assert_eq!(r.current_amount, amt(1000));
    assert!(r.is_target_met());
    assert_eq!(r.progress_percentage(), 100);
}

#[test]
fn cancel_then_each_claims_once() {
    let mut e = ledger();
    let id = create(&mut e, 1000);
    give(&mut e, ALICE, id, 100).unwrap();
    give(&mut e, BOB, id, 200).unwrap();
    e.cancel_remittance(&acct(CREATOR), id).unwrap();
    assert_eq!(e.claim_refund(&acct(ALICE), id), Ok(amt(100)));
    assert_eq!(e.claim_refund(&acct(BOB), id), Ok(amt(200)));
    assert_eq!(e.claim_refund(&acct(ALICE), id), Err(Error::RefundAlreadyClaimed));
    assert_eq!(e.claim_refund(&acct(BOB), id), Err(Error::RefundAlreadyClaimed));
}

#[test]
fn purpose_of_257_characters_is_refused() {
    let mut e = ledger();
    let r = e.create_remittance(acct(CREATOR), acct(RECIPIENT), amt(10), "p".repeat(257), 0);
    assert_eq!(r, Err(Error::PurposeMaxLength));
    assert!(e.get_remittance(1).is_err());
    let r = e.create_remittance(acct(CREATOR), acct(RECIPIENT), amt(10), "   ".to_string(), 0);
    assert_eq!(r, Err(Error::PurposeMaxLength));
}

#[test]
fn zero_contribution_leaves_ledger_unchanged() {
    let mut e = ledger();
    let id = create(&mut e, 1000);
    give(&mut e, ALICE, id, 5).unwrap();
    assert_eq!(give(&mut e, ALICE, id, 0), Err(Error::InvalidContributionAmount));
    assert_eq!(e.contribute(&acct(ALICE), id, amt(0), true), Err(Error::InvalidContributionAmount));
    assert_eq!(e.get_contribution(id, &acct(ALICE)), amt(5));
    assert_eq!(e.get_remittance(id).unwrap().current_amount, amt(5));
}

#[test]
fn non_recipient_release_is_refused() {
    let mut e = ledger();
    let id = create(&mut e, 100);
    give(&mut e, ALICE, id, 100).unwrap();
    assert!(matches!(e.release_funds(&acct(CREATOR), id), Err(Error::Unauthorized)));
    let r = e.get_remittance(id).unwrap();
    assert!(!r.is_released);
    assert_eq!(r.current_amount, amt(100));
}

#[test]
fn terminal_states_refuse_further_changes() {
    let mut e = ledger();
    let id = create(&mut e, 100);
    give(&mut e, ALICE, id, 150).unwrap();
    e.release_funds(&acct(RECIPIENT), id).unwrap();
    assert_eq!(give(&mut e, BOB, id, 1), Err(Error::AlreadyReleased));
    assert!(matches!(e.release_funds(&acct(RECIPIENT), id), Err(Error::AlreadyReleased)));
    assert_eq!(e.cancel_remittance(&acct(CREATOR), id), Err(Error::AlreadyReleased));
    assert_eq!(e.claim_refund(&acct(ALICE), id), Err(Error::NotCancelled));

    let id2 = create(&mut e, 100);
    assert_eq!(id2, 2);
    e.cancel_remittance(&acct(CREATOR), id2).unwrap();
    assert_eq!(give(&mut e, BOB, id2, 1), Err(Error::RemittanceCancelled));
    assert!(matches!(e.release_funds(&acct(RECIPIENT), id2), Err(Error::RemittanceCancelled)));
    assert_eq!(e.cancel_remittance(&acct(CREATOR), id2), Err(Error::RemittanceCancelled));
    assert_eq!(e.claim_refund(&acct(BOB), id2), Err(Error::NoContribution));
}

#[test]
fn fee_updates_stay_within_cap() {
    let mut e = ledger();
    assert_eq!(e.get_platform_fee(), DEFAULT_FEE_BPS);
    assert_eq!(e.set_platform_fee(&acct(OWNER), MAX_FEE_BPS + 1), Err(Error::FeeTooHigh));
    assert_eq!(e.get_platform_fee(), DEFAULT_FEE_BPS);
    e.set_platform_fee(&acct(OWNER), MAX_FEE_BPS).unwrap();
    assert_eq!(e.get_platform_fee(), 500);
    e.set_platform_fee(&acct(OWNER), 0).unwrap();
    let id = create(&mut e, 10);
    give(&mut e, ALICE, id, 10).unwrap();
    let rel = e.release_funds(&acct(RECIPIENT), id).unwrap();
    assert_eq!(rel.fee, Amount::zero());
    assert_eq!(rel.payout, amt(10));
}

#[test]
fn creation_errors() {
    let mut e = ledger();
    let zero = Principal::new([0u8; 32]);
    assert_eq!(
        e.create_remittance(acct(CREATOR), zero, amt(1), "x".to_string(), 0),
        Err(Error::InvalidAccountHash)
    );
    assert_eq!(
        e.create_remittance(zero, acct(RECIPIENT), amt(1), "x".to_string(), 0),
        Err(Error::InvalidAccountHash)
    );
    assert_eq!(
        e.create_remittance(acct(CREATOR), acct(RECIPIENT), Amount::zero(), "x".to_string(), 0),
        Err(Error::InvalidTargetAmount)
    );
    // creator and recipient may be the same
    assert_eq!(
        e.create_remittance(acct(CREATOR), acct(CREATOR), amt(1), "self".to_string(), 7),
        Ok(1)
    );
    let r = e.get_remittance(1).unwrap();
    assert_eq!(r.purpose, "self");
    assert_eq!(r.created_at, 7);
    assert_eq!(e.get_contract_owner(), acct(OWNER));
}

#[test]
fn contribution_errors() {
    let mut e = ledger();
    assert_eq!(give(&mut e, ALICE, 1, 10), Err(Error::RemittanceNotFound));
    assert_eq!(e.get_remittance(0).err(), Some(Error::RemittanceNotFound));
    let id = create(&mut e, 1000);
    assert_eq!(e.contribute(&acct(ALICE), id, amt(10), false), Err(Error::TransferFailed));
    assert_eq!(e.get_contribution(id, &acct(ALICE)), Amount::zero());
    let max = Amount { words: [u64::MAX; 8] };
    give(&mut e, ALICE, id, 1).unwrap();
    assert_eq!(e.contribute(&acct(BOB), id, max, true), Err(Error::ArithmeticOverflow));
    assert_eq!(e.get_remittance(id).unwrap().current_amount, amt(1));
    assert_eq!(e.get_contribution(id, &acct(BOB)), Amount::zero());
}

#[test]
fn release_fee_overflow_is_reported() {
    let mut e = ledger();
    let id = create(&mut e, 1);
    let huge = Amount { words: [0, 0, 0, 0, 0, 0, 0, 1 << 63] };
    give(&mut e, ALICE, id, 0).unwrap_err();
    e.contribute(&acct(ALICE), id, huge, true).unwrap();
    assert!(matches!(e.release_funds(&acct(RECIPIENT), id), Err(Error::ArithmeticOverflow)));
    assert!(!e.get_remittance(id).unwrap().is_released);
}

#[test]
fn refund_requires_cancellation() {
    let mut e = ledger();
    let id = create(&mut e, 1000);
    give(&mut e, ALICE, id, 10).unwrap();
    assert_eq!(e.claim_refund(&acct(ALICE), id), Err(Error::NotCancelled));
    assert_eq!(e.claim_refund(&acct(ALICE), 9), Err(Error::RemittanceNotFound));
    assert!(!e.is_refund_claimed(id, &acct(ALICE)));
}

#[test]
fn contributors_are_listed_once_each() {
    let mut e = ledger();
    let id = create(&mut e, 1000);
    let other = create(&mut e, 1000);
    give(&mut e, ALICE, id, 10).unwrap();
    give(&mut e, BOB, id, 10).unwrap();
    give(&mut e, ALICE, id, 10).unwrap();
    give(&mut e, MALLORY, other, 10).unwrap();
    assert_eq!(e.get_contributors(id), vec![acct(ALICE), acct(BOB)]);
    assert_eq!(e.get_contributors(other), vec![acct(MALLORY)]);
    assert_eq!(e.get_contributors(99), Vec::<Principal>::new());
}

#[test]
fn indices_by_creator_and_recipient() {
    let mut e = ledger();
    let a = create(&mut e, 10);
    let b = e
        .create_remittance(acct(RECIPIENT), acct(ALICE), amt(5), "Gift".to_string(), 0)
        .unwrap();
    let c = create(&mut e, 20);
    assert_eq!(e.remittances_created_by(&acct(CREATOR)), vec![a, c]);
    assert_eq!(e.remittances_created_by(&acct(RECIPIENT)), vec![b]);
    assert_eq!(e.remittances_incoming_to(&acct(RECIPIENT)), vec![a, c]);
    assert_eq!(e.remittances_incoming_to(&acct(ALICE)), vec![b]);
    assert_eq!(e.remittances_incoming_to(&acct(BOB)), Vec::<u64>::new());
}

#[test]
fn restore_accepts_stored_parts_and_rejects_broken_ones() {
    let mut e = ledger();
    let id = create(&mut e, 1000);
    give(&mut e, ALICE, id, 300).unwrap();
    give(&mut e, BOB, id, 200).unwrap();
    let config = *e.config();
    let recs = e.remittances().clone();
    let ents = e.ledger_entries().clone();
    let back = Escrow::restore(config, e.last_id(), recs.clone(), ents.clone()).unwrap();
    assert_eq!(back.get_contribution(id, &acct(BOB)), amt(200));
    assert_eq!(back.get_remittance(id).unwrap().current_amount, amt(500));

    // a gathered amount that disagrees with the ledger
    let mut bad = recs.clone();
    bad[0].current_amount = amt(501);
    assert!(Escrow::restore(config, e.last_id(), bad, ents.clone()).is_none());
    // a counter that disagrees with the records
    assert!(Escrow::restore(config, 2, recs.clone(), ents.clone()).is_none());
    // two entries under one key
    let mut dup = ents.clone();
    dup[1].contributor = acct(ALICE);
    assert!(Escrow::restore(config, e.last_id(), recs.clone(), dup).is_none());
    // a fee above the cap
    let mut greedy = config;
    greedy.fee_bps = MAX_FEE_BPS + 1;
    assert!(Escrow::restore(greedy, e.last_id(), recs, ents).is_none());
}
