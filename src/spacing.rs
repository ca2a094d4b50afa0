use vstd::prelude::*;

use crate::alignment::MainAxisAlignment;
use crate::arith::lemma_carry_step;
use vstd::arithmetic::div_mod::{
    lemma_div_is_ordered,
    lemma_div_multiples_vanish,
    lemma_fundamental_div_mod,
    lemma_mod_pos_bound,
};
use vstd::arithmetic::mul::lemma_mul_inequality;

verus! {

// The gaps of a container with `n` children are numbered `0..=n`: gap `k < n` stands
// before child `k`, gap `n` after the last child. Each alignment gives every gap a weight
// (0, 1 or 2); gap `k` receives the rounded-down share of the slack that the weights up to
// and including `k` earn, less what the earlier gaps received. Every gap therefore gets
// its proportional part of the slack, and the parts add up to the slack exactly.
/// The summed weight of gaps `0..=k`.
pub open spec fn weight_upto(al: MainAxisAlignment, n: nat, k: int) -> nat {
    if k < 0 {
        0
    } else {
        match al {
            MainAxisAlignment::Start => if k >= n {
                1
            } else {
                0
            },
            MainAxisAlignment::End => 1,
            MainAxisAlignment::Center => ends_weight_upto(n, k),
            MainAxisAlignment::SpaceBetween => if n <= 1 {
                ends_weight_upto(n, k)
            } else if k >= n {
                (n - 1) as nat
            } else {
                k as nat
            },
            MainAxisAlignment::SpaceEvenly => (k + 1) as nat,
            MainAxisAlignment::SpaceAround => if n == 0 {
                1
            } else if k >= n {
                2 * n
            } else {
                (2 * k + 1) as nat
            },
        }
    }
}

/// Summed weight of gaps `0..=k` (for `k >= 0`) when only the two outer gaps carry weight.
pub open spec fn ends_weight_upto(n: nat, k: int) -> nat {
    if n == 0 {
        1
    } else if k >= n {
        2
    } else {
        1
    }
}

/// The weight of all `n + 1` gaps together.
pub open spec fn weight_total(al: MainAxisAlignment, n: nat) -> nat {
    weight_upto(al, n, n as int)
}

/// What gaps `0..=k` receive together out of `slack`.
pub open spec fn slack_upto(al: MainAxisAlignment, slack: nat, n: nat, k: int) -> nat {
    (weight_upto(al, n, k) * slack / weight_total(al, n)) as nat
}

/// The size of gap `k` for `n` children sharing `slack` cells under alignment `al`.
pub open spec fn gap_spec(al: MainAxisAlignment, slack: nat, n: nat, k: int) -> int {
    slack_upto(al, slack, n, k) - slack_upto(al, slack, n, k - 1)
}

/// The sum of the first `count` gaps.
pub open spec fn gaps_sum(al: MainAxisAlignment, slack: nat, n: nat, count: nat) -> int
    decreases count,
{
    if count == 0 {
        0
    } else {
        gaps_sum(al, slack, n, (count - 1) as nat) + gap_spec(al, slack, n, count - 1)
    }
}

proof fn lemma_weight_facts(al: MainAxisAlignment, n: nat, k: int)
    requires
        0 <= k <= n,
    ensures
        weight_total(al, n) >= 1,
        weight_total(al, n) <= 2 * n + 1,
        weight_upto(al, n, k - 1) <= weight_upto(al, n, k) <= weight_total(al, n),
        weight_upto(al, n, k) - weight_upto(al, n, k - 1) <= 2,
{
}

pub proof fn lemma_slack_upto_bounds(al: MainAxisAlignment, slack: nat, n: nat, k: int)
    requires
        0 <= k <= n,
    ensures
        0 <= slack_upto(al, slack, n, k - 1) <= slack_upto(al, slack, n, k) <= slack,
        slack_upto(al, slack, n, n as int) == slack,
        slack_upto(al, slack, n, -1) == 0,
{
    lemma_weight_facts(al, n, k);
    let t = weight_total(al, n) as int;
    let lo = weight_upto(al, n, k - 1) as int;
    let hi = weight_upto(al, n, k) as int;
    lemma_mul_inequality(lo, hi, slack as int);
    lemma_mul_inequality(hi, t, slack as int);
    lemma_div_is_ordered(lo * slack, hi * slack, t);
    lemma_div_is_ordered(hi * slack, t * slack, t);
    lemma_div_multiples_vanish(slack as int, t);
    assert(t * slack == slack * t) by (nonlinear_arith);
    assert(0 <= lo * slack) by (nonlinear_arith)
        requires
            0 <= lo,
    ;
    vstd::arithmetic::div_mod::lemma_div_pos_is_pos(lo * slack, t);
    assert(0 * (slack as int) == 0);
}

/// The gaps for `n` children number `n + 1`, none negative, and they add up to the slack
/// exactly; with at most one child, spreading the slack between children acts as centering.
pub proof fn lemma_gaps_sum_to_slack(al: MainAxisAlignment, slack: nat, n: nat)
    ensures
        gaps_sum(al, slack, n, n + 1) == slack,
        forall|k: int| 0 <= k <= n ==> 0 <= #[trigger] gap_spec(al, slack, n, k) <= slack,
        n <= 1 ==> forall|k: int|
            #![trigger gap_spec(MainAxisAlignment::SpaceBetween, slack, n, k)]
            gap_spec(MainAxisAlignment::SpaceBetween, slack, n, k) == gap_spec(
                MainAxisAlignment::Center,
                slack,
                n,
                k,
            ),
{
    lemma_gaps_sum_prefix(al, slack, n, n + 1);
    lemma_slack_upto_bounds(al, slack, n, n as int);
    assert forall|k: int| 0 <= k <= n implies 0 <= #[trigger] gap_spec(al, slack, n, k)
        <= slack by {
        lemma_slack_upto_bounds(al, slack, n, k);
    }
}

/// The shape of the gaps: `Start` leaves all the slack after the last child, `End` before
/// the first, `Center` splits it between both ends (the first end taking the smaller half),
/// and `SpaceBetween` with two or more children leaves none at the ends.
pub proof fn lemma_gap_shapes(slack: nat, n: nat, k: int)
    requires
        0 <= k <= n,
    ensures
        gap_spec(MainAxisAlignment::Start, slack, n, k) == if k == n {
            slack as int
        } else {
            0
        },
        gap_spec(MainAxisAlignment::End, slack, n, k) == if k == 0 {
            slack as int
        } else {
            0
        },
        n > 0 ==> gap_spec(MainAxisAlignment::Center, slack, n, k) == if k == 0 {
            (slack / 2) as int
        } else if k == n {
            slack - slack / 2
        } else {
            0
        },
        n >= 2 && (k == 0 || k == n) ==> gap_spec(MainAxisAlignment::SpaceBetween, slack, n, k)
            == 0,
{
    assert(0 * slack == 0) by (nonlinear_arith);
    assert(1 * slack == slack) by (nonlinear_arith);
    assert(2 * slack == slack * 2) by (nonlinear_arith);
    vstd::arithmetic::div_mod::lemma_div_by_multiple(slack as int, 2);
    vstd::arithmetic::div_mod::lemma_div_by_multiple(slack as int, 1);
    assert(slack * 1 == slack) by (nonlinear_arith);
    assert(0int / 1 == 0);
    if n >= 2 {
        let t = (n - 1) as int;
        assert((n - 1) * slack == t * slack);
        vstd::arithmetic::div_mod::lemma_div_by_multiple(slack as int, t);
        assert(t * slack == slack * t) by (nonlinear_arith);
    }
}

/// The first `count` gaps together receive what the weights up to gap `count - 1` earn.
pub proof fn lemma_gaps_sum_prefix(al: MainAxisAlignment, slack: nat, n: nat, count: nat)
    requires
        count <= n + 1,
    ensures
        gaps_sum(al, slack, n, count) == slack_upto(al, slack, n, count - 1),
    decreases count,
{
    if count == 0 {
        lemma_slack_upto_bounds(al, slack, n, 0);
    } else {
        lemma_gaps_sum_prefix(al, slack, n, (count - 1) as nat);
    }
}

/// The weight of gap `k`: the share of the slack it is entitled to.
fn gap_weight(al: MainAxisAlignment, n: usize, k: usize) -> (r: u128)
    requires
        k <= n,
    ensures
        r == weight_upto(al, n as nat, k as int) - weight_upto(al, n as nat, k - 1),
        r <= 2,
{
    match al {
        MainAxisAlignment::Start => if k == n {
            1
        } else {
            0
        },
        MainAxisAlignment::End => if k == 0 {
            1
        } else {
            0
        },
        MainAxisAlignment::Center => ends_gap_weight(n, k),
        MainAxisAlignment::SpaceBetween => if n <= 1 {
            ends_gap_weight(n, k)
        } else if k == 0 || k == n {
            0
        } else {
            1
        },
        MainAxisAlignment::SpaceEvenly => 1,
        MainAxisAlignment::SpaceAround => if n == 0 {
            1
        } else if k == 0 || k == n {
            1
        } else {
            2
        },
    }
}

fn ends_gap_weight(n: usize, k: usize) -> (r: u128)
    requires
        k <= n,
    ensures
        r == ends_weight_upto(n as nat, k as int) - (if k == 0 {
            0
        } else {
            ends_weight_upto(n as nat, k - 1)
        }),
{
    if k == 0 || k == n {
        1
    } else {
        0
    }
}

/// The weight of all the gaps together.
fn gap_weight_total(al: MainAxisAlignment, n: usize) -> (r: u128)
    ensures
        r == weight_total(al, n as nat),
        r >= 1,
{
    proof {
        lemma_weight_facts(al, n as nat, 0);
    }
    match al {
        MainAxisAlignment::Start => 1,
        MainAxisAlignment::End => 1,
        MainAxisAlignment::Center => if n == 0 {
            1
        } else {
            2
        },
        MainAxisAlignment::SpaceBetween => if n <= 1 {
            if n == 0 {
                1
            } else {
                2
            }
        } else {
            n as u128 - 1
        },
        MainAxisAlignment::SpaceEvenly => n as u128 + 1,
        MainAxisAlignment::SpaceAround => if n == 0 {
            1
        } else {
            2 * (n as u128)
        },
    }
}

/// A generator of the gaps that a main-axis alignment leaves before, between and after the
/// children of a container: first the gap before the first child, then the gap after each
/// child in turn.
pub struct Spacing {
    alignment: MainAxisAlignment,
    slack: usize,
    n: usize,
    index: usize,
    done: bool,
    total: u128,
    rem: u128,
}

impl Spacing {
    /// The alignment whose gaps this yields.
    pub closed spec fn alignment_spec(&self) -> MainAxisAlignment {
        self.alignment
    }

    /// The room shared out.
    pub closed spec fn slack_spec(&self) -> nat {
        self.slack as nat
    }

    /// The number of children.
    pub closed spec fn children_spec(&self) -> nat {
        self.n as nat
    }

    /// The number of gaps yielded so far.
    pub closed spec fn yielded(&self) -> nat {
        if self.done {
            self.n as nat + 1
        } else {
            self.index as nat
        }
    }

    pub closed spec fn wf(&self) -> bool {
        &&& self.index <= self.n
        &&& self.done ==> self.index == self.n
        &&& self.total == weight_total(self.alignment, self.n as nat)
        &&& self.rem == (weight_upto(self.alignment, self.n as nat, self.yielded() - 1)
            * self.slack) % (self.total as int)
    }

    /// A generator of the `n + 1` gaps that share out `slack` among `n` children.
    pub fn new(alignment: MainAxisAlignment, slack: usize, n: usize) -> (r: Spacing)
        ensures
            r.wf(),
            r.alignment_spec() == alignment,
            r.slack_spec() == slack,
            r.children_spec() == n,
            r.yielded() == 0,
    {
        let total = gap_weight_total(alignment, n);
        assert(weight_upto(alignment, n as nat, -1) * slack == 0) by (nonlinear_arith)
            requires
                weight_upto(alignment, n as nat, -1) == 0,
        ;
        Spacing { alignment, slack, n, index: 0, done: false, total, rem: 0 }
    }

    /// The next gap, or `None` once all `n + 1` gaps have been yielded.
    pub fn next(&mut self) -> (r: Option<usize>)
        requires
            old(self).wf(),
        ensures
            final(self).wf(),
            final(self).alignment_spec() == old(self).alignment_spec(),
            final(self).slack_spec() == old(self).slack_spec(),
            final(self).children_spec() == old(self).children_spec(),
            old(self).yielded() <= old(self).children_spec() ==> {
                &&& r == Some(
                    gap_spec(
                        old(self).alignment_spec(),
                        old(self).slack_spec(),
                        old(self).children_spec(),
                        old(self).yielded() as int,
                    ) as usize,
                )
                &&& final(self).yielded() == old(self).yielded() + 1
            },
            old(self).yielded() > old(self).children_spec() ==> r == None::<usize>
                && final(self).yielded() == old(self).yielded(),
    {
        if self.done {
            return None;
        }
        let k = self.index;
        let w = gap_weight(self.alignment, self.n, k);
        proof {
            let al = self.alignment;
            let n = self.n as nat;
            let t = self.total as int;
            let s = self.slack as int;
            let before = weight_upto(al, n, k - 1) * s;
            lemma_weight_facts(al, n, k as int);
            assert(0 <= before) by (nonlinear_arith)
                requires
                    weight_upto(al, n, k - 1) >= 0,
                    s >= 0,
                    before == weight_upto(al, n, k - 1) * s,
            ;
            lemma_fundamental_div_mod(before, t);
            lemma_mod_pos_bound(before, t);
            assert(w * s <= 2 * 0xffff_ffff_ffff_ffff) by (nonlinear_arith)
                requires
                    0 <= w <= 2,
                    0 <= s <= 0xffff_ffff_ffff_ffff,
            ;
            assert(weight_upto(al, n, k as int) * s == before + w * s) by (nonlinear_arith)
                requires
                    w == weight_upto(al, n, k as int) - weight_upto(al, n, k - 1),
                    before == weight_upto(al, n, k - 1) * s,
            ;
            assert(before == (before / t) * t + self.rem) by (nonlinear_arith)
                requires
                    before == t * (before / t) + (before % t),
                    self.rem == before % t,
            ;
            lemma_carry_step(before, w * s, t, before / t, self.rem as int);
            lemma_slack_upto_bounds(al, self.slack as nat, n, k as int);
        }
        let num = self.rem + w * (self.slack as u128);
        let g = num / self.total;
        let rem = num % self.total;
        if k == self.n {
            self.done = true;
        } else {
            self.index = k + 1;
        }
        self.rem = rem;
        Some(g as usize)
    }
}

/// All `n + 1` gaps that share out `slack` among `n` children under `alignment`.
pub fn gaps(alignment: MainAxisAlignment, slack: usize, n: usize) -> (r: Vec<usize>)
    requires
        n < usize::MAX,
    ensures
        r@.len() == n + 1,
        forall|k: int|
            0 <= k <= n ==> r@[k] == #[trigger] gap_spec(alignment, slack as nat, n as nat, k),
{
    let mut spacing = Spacing::new(alignment, slack, n);
    let mut out: Vec<usize> = Vec::new();
    while out.len() <= n
        invariant
            spacing.wf(),
            spacing.alignment_spec() == alignment,
            spacing.slack_spec() == slack,
            spacing.children_spec() == n,
            spacing.yielded() == out@.len(),
            out@.len() <= n + 1,
            forall|k: int|
                0 <= k < out@.len() ==> out@[k] == #[trigger] gap_spec(
                    alignment,
                    slack as nat,
                    n as nat,
                    k,
                ),
        decreases n + 1 - out@.len(),
    {
        assert(spacing.yielded() <= spacing.children_spec());
        proof {
            lemma_gaps_sum_to_slack(alignment, slack as nat, n as nat);
        }
        let next = spacing.next();
        if let Some(g) = next {
            out.push(g);
        }
    }
    out
}

} // verus!
