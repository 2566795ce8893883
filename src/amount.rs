//! Token amounts of 512 bits, held as eight little-endian 64-bit words.
//!
//! The arithmetic is done by `casper_types::U512`, whose words are laid out
//! the same way; the functions here convert one for one.

use casper_types::U512;
use vstd::prelude::*;

verus! {

/// The radix of one word.
pub open spec fn word_radix() -> nat {
    0x1_0000_0000_0000_0000
}

/// `word_radix()` to the power `n`.
pub open spec fn radix_pow(n: nat) -> nat
    decreases n,
{
    if n == 0 {
        1
    } else {
        word_radix() * radix_pow((n - 1) as nat)
    }
}

/// The value of little-endian 64-bit words.
pub open spec fn words_value(w: Seq<u64>) -> nat
    decreases w.len(),
{
    if w.len() == 0 {
        0
    } else {
        w[0] as nat + word_radix() * words_value(w.drop_first())
    }
}

/// One more than the largest amount: 2^512.
pub open spec fn amount_bound() -> nat {
    radix_pow(8)
}

proof fn lemma_words_value_bound(w: Seq<u64>)
    ensures
        words_value(w) < radix_pow(w.len()),
    decreases w.len(),
{
    if w.len() > 0 {
        let rest = w.drop_first();
        lemma_words_value_bound(rest);
        let x = words_value(rest);
        let p = radix_pow(rest.len());
        assert(w.len() - 1 == rest.len());
        assert(word_radix() * x <= word_radix() * (p - 1)) by (nonlinear_arith)
            requires
                x <= p - 1,
        ;
        assert(word_radix() * (p - 1) == word_radix() * p - word_radix()) by (nonlinear_arith);
    }
}

/// An amount of motes, the smallest unit of the native token.
#[derive(Clone, Copy, Debug, PartialEq, Eq)]
pub struct Amount {
    pub words: [u64; 8],
}

impl Amount {
    /// The number the words stand for.
    pub open spec fn value(self) -> nat {
        words_value(self.words@)
    }

    pub proof fn lemma_bound(self)
        ensures
            self.value() < amount_bound(),
    {
        lemma_words_value_bound(self.words@);
    }

    /// The amount zero.
    pub fn zero() -> (r: Amount)
        ensures
            r.value() == 0,
    {
        Amount::from_u64(0)
    }

    /// The amount `v`.
    pub fn from_u64(v: u64) -> (r: Amount)
        ensures
            r.value() == v,
    {
        let r = Amount { words: [v, 0, 0, 0, 0, 0, 0, 0] };
        proof {
            reveal_with_fuel(words_value, 9);
        }
        r
    }

    /// Whether the amount is zero.
    pub fn is_zero(&self) -> (r: bool)
        ensures
            r == (self.value() == 0),
    {
        u512_is_zero(self)
    }

    /// Whether `self` is at least `other`.
    pub fn ge(&self, other: &Amount) -> (r: bool)
        ensures
            r == (self.value() >= other.value()),
    {
        u512_ge(self, other)
    }

    /// The sum, or `None` where it does not fit in 512 bits.
    pub fn checked_add(self, other: Amount) -> (r: Option<Amount>)
        ensures
            match r {
                Some(s) => s.value() == self.value() + other.value(),
                None => self.value() + other.value() >= amount_bound(),
            },
    {
        u512_checked_add(self, other)
    }

    /// The difference, or `None` where `other` is larger.
    pub fn checked_sub(self, other: Amount) -> (r: Option<Amount>)
        ensures
            match r {
                Some(d) => other.value() <= self.value() && d.value() == self.value()
                    - other.value(),
                None => other.value() > self.value(),
            },
    {
        u512_checked_sub(self, other)
    }

    /// The product, or `None` where it does not fit in 512 bits.
    pub fn checked_mul(self, other: Amount) -> (r: Option<Amount>)
        ensures
            match r {
                Some(p) => p.value() == self.value() * other.value(),
                None => self.value() * other.value() >= amount_bound(),
            },
    {
        u512_checked_mul(self, other)
    }

    /// The quotient rounded down, or `None` where `other` is zero.
    pub fn checked_div(self, other: Amount) -> (r: Option<Amount>)
        ensures
            match r {
                Some(q) => other.value() > 0 && q.value() == self.value() / other.value(),
                None => other.value() == 0,
            },
    {
        u512_checked_div(self, other)
    }
}

/// Relies on `U512::is_zero`: true exactly when every word is zero.
#[verifier::external_body]
fn u512_is_zero(a: &Amount) -> (r: bool)
    ensures
        r == (a.value() == 0),
{
    U512(a.words).is_zero()
}

/// Relies on `U512`'s `Ord`, which compares the words from the most
/// significant down: numeric order.
#[verifier::external_body]
fn u512_ge(a: &Amount, b: &Amount) -> (r: bool)
    ensures
        r == (a.value() >= b.value()),
{
    U512(a.words) >= U512(b.words)
}

/// Relies on `U512::checked_add`: the sum, `None` on overflow of 512 bits.
#[verifier::external_body]
fn u512_checked_add(a: Amount, b: Amount) -> (r: Option<Amount>)
    ensures
        match r {
            Some(s) => s.value() == a.value() + b.value(),
            None => a.value() + b.value() >= amount_bound(),
        },
{
    U512(a.words).checked_add(U512(b.words)).map(|s| Amount { words: s.0 })
}

/// Relies on `U512::checked_sub`: the difference, `None` where it would be
/// negative.
#[verifier::external_body]
fn u512_checked_sub(a: Amount, b: Amount) -> (r: Option<Amount>)
    ensures
        match r {
            Some(d) => b.value() <= a.value() && d.value() == a.value() - b.value(),
            None => b.value() > a.value(),
        },
{
    U512(a.words).checked_sub(U512(b.words)).map(|d| Amount { words: d.0 })
}

/// Relies on `U512::checked_mul`: the product, `None` on overflow of 512 bits.
#[verifier::external_body]
fn u512_checked_mul(a: Amount, b: Amount) -> (r: Option<Amount>)
    ensures
        match r {
            Some(p) => p.value() == a.value() * b.value(),
            None => a.value() * b.value() >= amount_bound(),
        },
{
    U512(a.words).checked_mul(U512(b.words)).map(|p| Amount { words: p.0 })
}

/// Relies on `U512::checked_div`: the quotient rounded down, `None` for a
/// zero divisor.
#[verifier::external_body]
fn u512_checked_div(a: Amount, b: Amount) -> (r: Option<Amount>)
    ensures
        match r {
            Some(q) => b.value() > 0 && q.value() == a.value() / b.value(),
            None => b.value() == 0,
        },
{
    U512(a.words).checked_div(U512(b.words)).map(|q| Amount { words: q.0 })
}

} // verus!
