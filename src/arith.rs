use vstd::prelude::*;

use vstd::arithmetic::div_mod::{lemma_fundamental_div_mod, lemma_fundamental_div_mod_converse};

verus! {

/// Adding `step` to a number whose quotient by `d` is `q` with remainder `rem`
/// moves the quotient by the quotient of `rem + step`, and leaves the remainder of `rem + step`.
pub proof fn lemma_carry_step(base: int, step: int, d: int, q: int, rem: int)
    requires
        d > 0,
        base == q * d + rem,
        0 <= rem < d,
        step >= 0,
    ensures
        (base + step) / d == q + (rem + step) / d,
        (base + step) % d == (rem + step) % d,
{
    let a = (rem + step) / d;
    let b = (rem + step) % d;
    lemma_fundamental_div_mod(rem + step, d);
    assert(0 <= b < d) by {
        vstd::arithmetic::div_mod::lemma_mod_pos_bound(rem + step, d);
    }
    assert(base + step == (q + a) * d + b) by (nonlinear_arith)
        requires
            base == q * d + rem,
            rem + step == d * a + b,
    ;
    lemma_fundamental_div_mod_converse(base + step, d, q + a, b);
}

} // verus!
