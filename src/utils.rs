//! Input validation and the platform fee.

use crate::amount::{amount_bound, Amount};
use crate::errors::{Error, MAX_PURPOSE_LENGTH};
use crate::principal::Principal;
use vstd::prelude::*;
use vstd::string::*;
use vstd::utf8::encode_utf8;

verus! {

/// Basis points in a whole: 10000 bps are 100%.
pub const BPS_DENOMINATOR: u64 = 10000;

/// The fee on `amount` at `bps` basis points, rounded down.
pub open spec fn fee_of(amount: nat, bps: nat) -> nat {
    amount * bps / 10000
}

/// Whether Unicode gives `c` the White_Space property.
pub uninterp spec fn is_whitespace_char(c: char) -> bool;

/// Whether the text is empty once whitespace is trimmed from both ends,
/// that is, whether every character in it is whitespace.
pub open spec fn is_blank(s: Seq<char>) -> bool {
    forall|i: int| 0 <= i < s.len() ==> is_whitespace_char(#[trigger] s[i])
}

/// The length of the text in bytes, as `str::len` reports it.
pub open spec fn byte_len(s: Seq<char>) -> usize {
    encode_utf8(s).len() as usize
}

/// Whether a purpose of this text is accepted: at most
/// `MAX_PURPOSE_LENGTH` bytes, and not blank.
pub open spec fn purpose_ok(s: Seq<char>) -> bool {
    byte_len(s) <= MAX_PURPOSE_LENGTH && !is_blank(s)
}

/// Relies on `char::is_whitespace`: the White_Space property of one
/// character, a function of the character alone.
#[verifier::external_body]
fn char_is_whitespace(c: char) -> (r: bool)
    ensures
        r == is_whitespace_char(c),
{
    c.is_whitespace()
}

/// Fails with `InvalidAccountHash` on the zero address.
pub fn validate_account_hash(account: &Principal) -> (r: Result<(), Error>)
    ensures
        r == (if account.is_zero_spec() {
            Err(Error::InvalidAccountHash)
        } else {
            Ok(())
        }),
{
    if account.is_zero() {
        return Err(Error::InvalidAccountHash);
    }
    Ok(())
}

/// Fails with `InvalidContributionAmount` on zero.
pub fn validate_non_zero_amount(amount: &Amount) -> (r: Result<(), Error>)
    ensures
        r == (if amount.value() == 0 {
            Err(Error::InvalidContributionAmount)
        } else {
            Ok(())
        }),
{
    if amount.is_zero() {
        return Err(Error::InvalidContributionAmount);
    }
    Ok(())
}

/// Fails with `PurposeMaxLength` where `s` holds more than `max_length`
/// bytes.
pub fn validate_string_length(s: &str, max_length: usize) -> (r: Result<(), Error>)
    ensures
        r == (if s.len() > max_length {
            Err(Error::PurposeMaxLength)
        } else {
            Ok(())
        }),
{
    if s.len() > max_length {
        return Err(Error::PurposeMaxLength);
    }
    Ok(())
}

/// Whether every character of `s` is whitespace.
pub fn is_blank_text(s: &str) -> (r: bool)
    ensures
        r == is_blank(s@),
{
    let n = s.unicode_len();
    let mut i: usize = 0;
    while i < n
        invariant
            n == s@.len(),
            0 <= i <= n,
            forall|j: int| 0 <= j < i ==> is_whitespace_char(#[trigger] s@[j]),
        decreases n - i,
    {
        let c = s.get_char(i);
        if !char_is_whitespace(c) {
            return false;
        }
        i = i + 1;
    }
    true
}

/// Checks a purpose: at most `MAX_PURPOSE_LENGTH` bytes, and not blank.
/// Both failures are `PurposeMaxLength`.
pub fn validate_purpose(s: &str) -> (r: Result<(), Error>)
    ensures
        r == (if purpose_ok(s@) {
            Ok(())
        } else {
            Err(Error::PurposeMaxLength)
        }),
{
    validate_string_length(s, MAX_PURPOSE_LENGTH)?;
    if is_blank_text(s) {
        return Err(Error::PurposeMaxLength);
    }
    Ok(())
}

/// The platform fee on `amount` at `fee_bps` basis points, rounded down.
/// Fails with `ArithmeticOverflow` where `amount * fee_bps` does not fit in
/// 512 bits.
pub fn calculate_fee(amount: &Amount, fee_bps: u64) -> (r: Result<Amount, Error>)
    ensures
        match r {
            Ok(fee) => amount.value() * fee_bps < amount_bound() && fee.value() == fee_of(
                amount.value(),
                fee_bps as nat,
            ),
            Err(e) => amount.value() * fee_bps >= amount_bound() && e == Error::ArithmeticOverflow,
        },
{
    let bps = Amount::from_u64(fee_bps);
    let denominator = Amount::from_u64(BPS_DENOMINATOR);
    match amount.checked_mul(bps) {
        None => Err(Error::ArithmeticOverflow),
        Some(product) => match product.checked_div(denominator) {
            None => Err(Error::ArithmeticOverflow),
            Some(fee) => {
                proof {
                    product.lemma_bound();
                }
                assert(fee.value() == fee_of(amount.value(), fee_bps as nat));
                Ok(fee)
            },
        },
    }
}

/// A fee of at most 100% is no more than the amount.
pub proof fn lemma_fee_at_most_amount(amount: nat, bps: nat)
    requires
        bps <= 10000,
    ensures
        fee_of(amount, bps) <= amount,
{
    assert(amount * bps <= amount * 10000) by (nonlinear_arith)
        requires
            bps <= 10000,
    ;
    assert(amount * bps / 10000 <= amount * 10000 / 10000) by (nonlinear_arith)
        requires
            amount * bps <= amount * 10000,
    ;
    assert(amount * 10000 / 10000 == amount) by (nonlinear_arith);
}

} // verus!
