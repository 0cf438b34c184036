//! A fractional fee on an amount of an asset: a share strictly below one,
//! applied by flooring multiplication. The result never exceeds the
//! amount it is taken from.
use vstd::prelude::*;

use vstd::arithmetic::div_mod::{lemma_div_is_ordered, lemma_div_multiples_vanish};
use vstd::arithmetic::mul::lemma_mul_inequality;

use crate::decimal::{mul_dec, spec_mul_dec, Decimal, DECIMAL_FRACTIONAL};
use crate::error::ProxyError;

verus! {

/// A fee share, kept strictly below one hundred percent.
#[derive(Clone, Copy, Debug, PartialEq, Eq, Structural)]
pub struct Fee {
    share: Decimal,
}

impl Fee {
    /// The share's atomics; strictly below one whole by construction.
    pub closed spec fn share_atomics(&self) -> u128 {
        self.share.0
    }

    /// Accepts the share; one hundred percent or more is refused.
    pub fn new(share: Decimal) -> (r: Result<Fee, ProxyError>)
        ensures
            r is Ok <==> share.0 < DECIMAL_FRACTIONAL,
            r matches Ok(f) ==> f.share_atomics() == share.0,
            r is Err ==> r == Err::<Fee, ProxyError>(ProxyError::InvalidFee),
    {
        if share.atomics() >= DECIMAL_FRACTIONAL {
            return Err(ProxyError::InvalidFee);
        }
        Ok(Fee { share })
    }

    /// The fee taken from `amount`: the floored share of it, never more
    /// than the amount itself.
    pub fn compute(&self, amount: u128) -> (r: u128)
        requires
            self.share_atomics() < DECIMAL_FRACTIONAL,
        ensures
            r == spec_mul_dec(amount, self.share_atomics()),
            r <= amount,
    {
        proof {
            lemma_mul_inequality(
                self.share.0 as int,
                DECIMAL_FRACTIONAL as int,
                amount as int,
            );
            vstd::arithmetic::mul::lemma_mul_is_commutative(amount as int, self.share.0 as int);
            vstd::arithmetic::mul::lemma_mul_is_commutative(
                amount as int,
                DECIMAL_FRACTIONAL as int,
            );
            lemma_div_is_ordered(
                (self.share.0 as int) * (amount as int),
                (DECIMAL_FRACTIONAL as int) * (amount as int),
                DECIMAL_FRACTIONAL as int,
            );
            lemma_div_multiples_vanish(amount as int, DECIMAL_FRACTIONAL as int);
            assert(spec_mul_dec(amount, self.share.0) <= amount);
        }
        match mul_dec(amount, self.share) {
            Some(v) => v,
            None => {
                proof {
                    assert(false);
                }
                0
            },
        }
    }

    pub fn share(&self) -> (r: Decimal)
        ensures
            r.0 == self.share_atomics(),
    {
        self.share
    }
}

} // verus!
