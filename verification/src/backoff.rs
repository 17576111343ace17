//! Waiting times between attempts: doubling delays with a ceiling.

use vstd::prelude::*;
use vstd::arithmetic::power2::lemma2_to64;
use vstd::arithmetic::power2::lemma_pow2_pos;
use vstd::arithmetic::power2::lemma_pow2_unfold;
use vstd::arithmetic::power2::pow2;

verus! {

/// The delay before attempt number `attempt` (counted from zero): `base`
/// doubled once per earlier attempt, and never more than `cap`.
pub open spec fn delay_spec(base: u64, cap: u64, attempt: nat) -> nat {
    let grown = base as nat * pow2(attempt);
    if grown <= cap as nat {
        grown
    } else {
        cap as nat
    }
}

/// Computes [`delay_spec`] without overflow, whatever the attempt number.
pub fn delay(base: u64, cap: u64, attempt: u32) -> (d: u64)
    ensures
        d as nat == delay_spec(base, cap, attempt as nat),
        d <= cap,
{
    if base >= cap {
        proof {
            lemma_pow2_pos(attempt as nat);
            assert(base as nat * pow2(attempt as nat) >= base as nat) by (nonlinear_arith)
                requires
                    pow2(attempt as nat) >= 1,
            ;
        }
        return cap;
    }
    let mut d: u64 = base;
    let mut i: u32 = 0;
    proof {
        lemma2_to64();
    }
    while i < attempt
        invariant
            i <= attempt,
            d < cap,
            d as nat == base as nat * pow2(i as nat),
        decreases attempt - i,
    {
        proof {
            lemma_pow2_unfold((i + 1) as nat);
            assert(base as nat * pow2((i + 1) as nat) == 2 * (base as nat * pow2(i as nat)))
                by (nonlinear_arith)
                requires
                    pow2((i + 1) as nat) == 2 * pow2(i as nat),
            ;
        }
        if d >= cap - d {
            proof {
                lemma_grows(base, (i + 1) as nat, attempt as nat);
            }
            return cap;
        }
        d = d + d;
        i = i + 1;
    }
    d
}

/// A doubled delay never shrinks as the attempt number grows.
pub proof fn lemma_grows(base: u64, i: nat, j: nat)
    requires
        i <= j,
    ensures
        base as nat * pow2(i) <= base as nat * pow2(j),
    decreases j - i,
{
    if i < j {
        lemma_grows(base, i, (j - 1) as nat);
        lemma_pow2_unfold(j);
        assert(base as nat * pow2(j) == 2 * (base as nat * pow2((j - 1) as nat)))
            by (nonlinear_arith)
            requires
                pow2(j) == 2 * pow2((j - 1) as nat),
        ;
    }
}

} // verus!
