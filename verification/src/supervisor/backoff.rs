//! How long to wait before a failed server is started again.
use vstd::arithmetic::power2::{
    lemma2_to64, lemma_pow2_pos, lemma_pow2_strictly_increases, lemma_pow2_unfold, pow2,
};
use vstd::prelude::*;

verus! {

/// How many times the wait has doubled after so many failures in a row.
pub open spec fn doublings(failures: u32) -> nat {
    if failures <= 1 {
        0
    } else if failures > 21 {
        20
    } else {
        (failures - 1) as nat
    }
}

/// The wait in seconds: `min_secs`, doubled with every failure after the first,
/// up to `max_secs`; the floor wins over a lower ceiling, and the wait is never
/// below one second.
pub open spec fn backoff_secs(min_secs: u64, max_secs: u64, failures: u32) -> int {
    let grown = min_secs * pow2(doublings(failures));
    let ceiling = if max_secs > min_secs {
        max_secs as int
    } else {
        min_secs as int
    };
    let secs = if grown < ceiling {
        grown
    } else {
        ceiling
    };
    if secs < 1 {
        1
    } else {
        secs
    }
}

/// The wait in seconds before the start after `failures` failures in a row.
pub fn backoff(min_secs: u64, max_secs: u64, failures: u32) -> (r: u64)
    ensures
        r == backoff_secs(min_secs, max_secs, failures),
{
    let n: u32 = if failures <= 1 {
        0
    } else if failures > 21 {
        20
    } else {
        failures - 1
    };
    let mut factor: u128 = 1;
    let mut i: u32 = 0;
    proof {
        lemma2_to64();
    }
    while i < n
        invariant
            i <= n <= 20,
            factor == pow2(i as nat),
            pow2(20) == 0x100000,
        decreases n - i,
    {
        proof {
            lemma_pow2_unfold((i + 1) as nat);
            if i + 1 < 20 {
                lemma_pow2_strictly_increases((i + 1) as nat, 20);
            }
        }
        factor = factor * 2;
        i = i + 1;
    }
    proof {
        if n < 20 {
            lemma_pow2_strictly_increases(n as nat, 20);
        }
        assert(min_secs * factor <= 0xffff_ffff_ffff_ffffu64 * 0x100000) by (nonlinear_arith)
            requires
                min_secs <= 0xffff_ffff_ffff_ffffu64,
                factor <= 0x100000,
        ;
    }
    let grown: u128 = min_secs as u128 * factor;
    let ceiling: u64 = if max_secs > min_secs {
        max_secs
    } else {
        min_secs
    };
    let secs: u64 = if grown < ceiling as u128 {
        grown as u64
    } else {
        ceiling
    };
    if secs < 1 {
        1
    } else {
        secs
    }
}

/// The largest of floor, ceiling and one second.
pub open spec fn most_secs(min_secs: u64, max_secs: u64) -> u64 {
    if max_secs >= min_secs && max_secs >= 1 {
        max_secs
    } else if min_secs >= 1 {
        min_secs
    } else {
        1
    }
}

/// The wait never falls below the configured floor, nor below one second, and
/// never exceeds the larger of floor, ceiling and one second.
pub proof fn law_backoff_is_bounded(min_secs: u64, max_secs: u64, failures: u32)
    ensures
        backoff_secs(min_secs, max_secs, failures) >= 1,
        backoff_secs(min_secs, max_secs, failures) >= min_secs,
        backoff_secs(min_secs, max_secs, failures) <= most_secs(min_secs, max_secs),
{
    let p = pow2(doublings(failures));
    lemma_pow2_pos(doublings(failures));
    assert(min_secs * p >= min_secs) by (nonlinear_arith)
        requires
            p >= 1,
    ;
}

/// One more failure never shortens the wait.
pub proof fn law_backoff_grows(min_secs: u64, max_secs: u64, fewer: u32, more: u32)
    requires
        fewer <= more,
    ensures
        backoff_secs(min_secs, max_secs, fewer) <= backoff_secs(min_secs, max_secs, more),
{
    let a = doublings(fewer);
    let b = doublings(more);
    if a < b {
        lemma_pow2_strictly_increases(a, b);
    }
    assert(min_secs * pow2(a) <= min_secs * pow2(b)) by (nonlinear_arith)
        requires
            pow2(a) <= pow2(b),
    ;
}

/// Below the ceiling, each failure after the first doubles the wait.
pub proof fn law_backoff_doubles(min_secs: u64, max_secs: u64, failures: u32)
    requires
        1 <= failures <= 20,
        min_secs >= 1,
        2 * backoff_secs(min_secs, max_secs, failures) <= max_secs,
    ensures
        backoff_secs(min_secs, max_secs, (failures + 1) as u32) == 2 * backoff_secs(
            min_secs,
            max_secs,
            failures,
        ),
{
    let a = doublings(failures);
    lemma_pow2_unfold(a + 1);
    law_backoff_is_bounded(min_secs, max_secs, failures);
    let p = pow2(a);
    lemma_pow2_pos(a);
    assert(min_secs * (2 * p) == 2 * (min_secs * p)) by (nonlinear_arith);
    assert(min_secs * p >= 1) by (nonlinear_arith)
        requires
            min_secs >= 1,
            p >= 1,
    ;
}

/// The first failure waits for the floor.
pub proof fn law_first_backoff_is_the_floor(min_secs: u64, max_secs: u64)
    ensures
        backoff_secs(min_secs, max_secs, 1) == if min_secs < 1 {
            1
        } else {
            min_secs as int
        },
{
    lemma2_to64();
    assert(min_secs * pow2(0) == min_secs) by (nonlinear_arith)
        requires
            pow2(0) == 1,
    ;
}

} // verus!
