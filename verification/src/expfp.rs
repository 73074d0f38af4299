//! A fixed-point decaying exponential for the Poisson sampler.
//!
//! `exp_neg_micro(lambda)` approximates `e^(-lambda / 1_000_000)` in
//! the Q32 scale by multiplying precomputed factors `e^(-2^k
//! micro)`, one per set bit of the rate.  The result is pinned
//! exactly: it equals the bitwise product `exp_prod`, so it is one
//! for a zero rate, equals the table entry for each power-of-two
//! rate, and is zero beyond the factors' reach (where the true value
//! rounds to zero anyway).

use crate::spawner::Q32_ONE;
use vstd::prelude::*;

verus! {

/// `e^(-2^k / 1_000_000)` in Q32, for each bit of the rate.
pub open spec fn exp_bit_value(k: int) -> u64 {
    if k == 0 {
        4294963001
    } else if k == 1 {
        4294958706
    } else if k == 2 {
        4294950116
    } else if k == 3 {
        4294932936
    } else if k == 4 {
        4294898577
    } else if k == 5 {
        4294829859
    } else if k == 6 {
        4294692427
    } else if k == 7 {
        4294417575
    } else if k == 8 {
        4293867925
    } else if k == 9 {
        4292768836
    } else if k == 10 {
        4290571501
    } else if k == 11 {
        4286180204
    } else if k == 12 {
        4277411090
    } else if k == 13 {
        4259926646
    } else if k == 14 {
        4225171877
    } else if k == 15 {
        4156510670
    } else if k == 16 {
        4022517462
    } else if k == 17 {
        3767350393
    } else if k == 18 {
        3304548791
    } else if k == 19 {
        2542520574
    } else if k == 20 {
        1505112944
    } else if k == 21 {
        527446385
    } else if k == 22 {
        64773413
    } else if k == 23 {
        976863
    } else {
        222
    }
}

/// Bit `k` of the rate is set.
pub open spec fn rate_bit(lambda: u64, k: int) -> bool {
    lambda & (1u64 << (k as u64)) != 0
}

/// The Q32 product of the factors of the rate's low `k` bits,
/// flooring at each multiplication exactly as the computation does.
pub open spec fn exp_prod(lambda: u64, k: int) -> int
    decreases k,
{
    if k <= 0 {
        Q32_ONE as int
    } else {
        let rest = exp_prod(lambda, k - 1);
        if rate_bit(lambda, k - 1) {
            rest * exp_bit_value(k - 1) / (Q32_ONE as int)
        } else {
            rest
        }
    }
}

/// The factor table, as executable values.
fn exp_bit_factor(k: u32) -> (r: u64)
    requires
        k < 25,
    ensures
        r == exp_bit_value(k as int),
        r <= Q32_ONE,
{
    match k {
        0 => 4294963001,
        1 => 4294958706,
        2 => 4294950116,
        3 => 4294932936,
        4 => 4294898577,
        5 => 4294829859,
        6 => 4294692427,
        7 => 4294417575,
        8 => 4293867925,
        9 => 4292768836,
        10 => 4290571501,
        11 => 4286180204,
        12 => 4277411090,
        13 => 4259926646,
        14 => 4225171877,
        15 => 4156510670,
        16 => 4022517462,
        17 => 3767350393,
        18 => 3304548791,
        19 => 2542520574,
        20 => 1505112944,
        21 => 527446385,
        22 => 64773413,
        23 => 976863,
        _ => 222,
    }
}

/// `e^(-lambda / 1_000_000)` in Q32: exactly the bitwise product of
/// the precomputed factors over the rate's bits, and zero for rates
/// beyond their reach.
pub fn exp_neg_micro(lambda_micro: u64) -> (r: u64)
    ensures
        lambda_micro < 0x200_0000 ==> r == exp_prod(lambda_micro, 25),
        lambda_micro >= 0x200_0000 ==> r == 0,
        r <= Q32_ONE,
        lambda_micro == 0 ==> r == Q32_ONE,
{
    if lambda_micro >= 0x200_0000 {
        return 0;
    }
    let mut p: u64 = Q32_ONE;
    let mut k: u32 = 0;
    while k < 25
        invariant
            k <= 25,
            p <= Q32_ONE,
            p == exp_prod(lambda_micro, k as int),
            lambda_micro == 0 ==> p == Q32_ONE,
        decreases 25 - k,
    {
        if lambda_micro & (1u64 << k) != 0 {
            let f = exp_bit_factor(k);
            proof {
                assert((1u64 << k) == (1u64 << ((k as int) as u64))) by (bit_vector)
                    requires
                        k < 25,
                ;
                assert(rate_bit(lambda_micro, k as int));
                assert((p as int) * (f as int) <= (Q32_ONE as int) * (Q32_ONE as int))
                    by (nonlinear_arith)
                    requires
                        0 <= p <= Q32_ONE,
                        0 <= f <= Q32_ONE,
                ;
                vstd::arithmetic::div_mod::lemma_div_is_ordered(
                    (p as int) * (f as int),
                    (Q32_ONE as int) * (Q32_ONE as int),
                    Q32_ONE as int,
                );
                vstd::arithmetic::div_mod::lemma_div_by_multiple(Q32_ONE as int, Q32_ONE as int);
                assert(lambda_micro != 0) by (bit_vector)
                    requires
                        lambda_micro & (1u64 << k) != 0,
                ;
            }
            p = (((p as u128) * (f as u128)) / (Q32_ONE as u128)) as u64;
        } else {
            proof {
                assert((1u64 << k) == (1u64 << ((k as int) as u64))) by (bit_vector)
                    requires
                        k < 25,
                ;
                assert(!rate_bit(lambda_micro, k as int));
            }
        }
        k = k + 1;
    }
    p
}

} // verus!
