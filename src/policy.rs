//! The output policy: every valued output must reach a destination, and at
//! least 95% of the total value must go to whitelisted destinations, so that
//! at most 5% (change or fees) leaves for destinations off the whitelist. The
//! comparison is made in exact integer arithmetic.

use crate::decode::{outputs_view, Output, OutputView};
use crate::error::{Decision, RejectReason};
use crate::whitelist::Whitelist;
use vstd::prelude::*;

verus! {

/// An output all of whose destinations are approved.
pub open spec fn cleared(o: OutputView, wl: Set<Seq<char>>) -> bool {
    forall|j: int| 0 <= j < o.destinations.len() ==> wl.contains(#[trigger] o.destinations[j])
}

/// The value of the outputs that are cleared.
pub open spec fn whitelisted_value(outs: Seq<OutputView>, wl: Set<Seq<char>>) -> nat
    decreases outs.len(),
{
    if outs.len() == 0 {
        0
    } else {
        whitelisted_value(outs.drop_last(), wl) + if cleared(outs.last(), wl) {
            outs.last().amount
        } else {
            0
        }
    }
}

/// The value of the outputs that are not cleared: each is counted in full,
/// even where only one of its destinations is off the whitelist.
pub open spec fn non_whitelisted_value(outs: Seq<OutputView>, wl: Set<Seq<char>>) -> nat
    decreases outs.len(),
{
    if outs.len() == 0 {
        0
    } else {
        non_whitelisted_value(outs.drop_last(), wl) + if cleared(outs.last(), wl) {
            0
        } else {
            outs.last().amount
        }
    }
}

/// Some output pays a non-zero amount to no destination.
pub open spec fn has_unresolved(outs: Seq<OutputView>) -> bool {
    exists|i: int| 0 <= i < outs.len() && (#[trigger] outs[i]).destinations.len() == 0 && outs[i].amount > 0
}

/// The threshold, inclusive: the value off the whitelist is at most 5 parts
/// in 100 of the total.
pub open spec fn within_threshold(non_whitelisted: int, total: int) -> bool {
    100 * non_whitelisted <= 5 * total
}

/// The verdict of the policy on the outputs, against the whitelist.
pub open spec fn spec_decision(outs: Seq<OutputView>, wl: Set<Seq<char>>) -> Decision {
    let w = whitelisted_value(outs, wl);
    let x = non_whitelisted_value(outs, wl);
    if has_unresolved(outs) {
        Decision::Reject(RejectReason::UnresolvedDestination)
    } else if w + x == 0 {
        Decision::Reject(RejectReason::EmptyValueTransaction)
    } else if within_threshold(x as int, (w + x) as int) {
        Decision::Admit
    } else {
        Decision::Reject(
            RejectReason::ThresholdExceeded { non_whitelisted: x as u128, total: (w + x) as u128 },
        )
    }
}

/// Whether every destination of `o` is on the whitelist.
pub fn output_cleared(o: &Output, wl: &Whitelist) -> (r: bool)
    ensures
        r == cleared(o@, wl@),
{
    let n = o.destinations.len();
    let mut j: usize = 0;
    while j < n
        invariant
            j <= n,
            n == o.destinations@.len(),
            forall|k: int| 0 <= k < j ==> wl@.contains(#[trigger] o@.destinations[k]),
        decreases n - j,
    {
        if !wl.contains(&o.destinations[j]) {
            assert(!wl@.contains(o@.destinations[j as int]));
            return false;
        }
        j = j + 1;
    }
    true
}

/// Applies the policy to the outputs of a transaction.
pub fn evaluate_outputs(outputs: &Vec<Output>, wl: &Whitelist) -> (r: Decision)
    ensures
        r == spec_decision(outputs_view(outputs@), wl@),
{
    let ghost outs = outputs_view(outputs@);
    let n = outputs.len();
    let mut i: usize = 0;
    while i < n
        invariant
            i <= n,
            n == outputs@.len(),
            outs == outputs_view(outputs@),
            forall|j: int|
                0 <= j < i ==> !((#[trigger] outs[j]).destinations.len() == 0 && outs[j].amount > 0),
        decreases n - i,
    {
        if outputs[i].destinations.len() == 0 && outputs[i].amount > 0 {
            assert(outs[i as int] == outputs@[i as int]@);
            return Decision::Reject(RejectReason::UnresolvedDestination);
        }
        i = i + 1;
    }
    let mut w: u128 = 0;
    let mut x: u128 = 0;
    let mut i: usize = 0;
    proof {
        assert(outs.subrange(0, 0) =~= Seq::<OutputView>::empty());
    }
    while i < n
        invariant
            i <= n,
            n == outputs@.len(),
            n <= usize::MAX,
            outs == outputs_view(outputs@),
            w as nat == whitelisted_value(outs.subrange(0, i as int), wl@),
            x as nat == non_whitelisted_value(outs.subrange(0, i as int), wl@),
            w + x <= i * 0xffff_ffff_ffff_ffffnat,
        decreases n - i,
    {
        let o = &outputs[i];
        let c = output_cleared(o, wl);
        let a = o.amount as u128;
        proof {
            let pre = outs.subrange(0, i as int);
            let post = outs.subrange(0, i + 1);
            assert(post.drop_last() =~= pre);
            assert(post.last() == o@);
            let ii = i as nat;
            let m = 0xffff_ffff_ffff_ffffnat;
            assert(w + x + a <= (ii + 1) * m && (ii + 1) * m < 0x1_0000_0000_0000_0000_0000_0000_0000_0000nat) by (nonlinear_arith)
                requires
                    w + x <= ii * m,
                    a <= m,
                    ii < 0x1_0000_0000_0000_0000nat,
                    m == 0xffff_ffff_ffff_ffffnat,
            ;
        }
        if c {
            w = w + a;
        } else {
            x = x + a;
        }
        i = i + 1;
    }
    proof {
        assert(outs.subrange(0, n as int) =~= outs);
    }
    let total = w + x;
    if total == 0 {
        return Decision::Reject(RejectReason::EmptyValueTransaction);
    }
    let passes = if x > u128::MAX / 19 {
        assert(19 * x > u128::MAX);
        false
    } else {
        x * 19 <= w
    };
    assert(passes == within_threshold(x as int, total as int)) by (nonlinear_arith)
        requires
            total == w + x,
            x > u128::MAX / 19 ==> !passes,
            x > u128::MAX / 19 ==> 19 * x > u128::MAX,
            w <= u128::MAX,
            x <= u128::MAX / 19 ==> (passes == (x * 19 <= w)),
    ;
    if passes {
        Decision::Admit
    } else {
        Decision::Reject(RejectReason::ThresholdExceeded { non_whitelisted: x, total })
    }
}

proof fn lemma_all_cleared_value(outs: Seq<OutputView>, wl: Set<Seq<char>>)
    requires
        forall|i: int| 0 <= i < outs.len() ==> cleared(#[trigger] outs[i], wl),
    ensures
        non_whitelisted_value(outs, wl) == 0,
    decreases outs.len(),
{
    if outs.len() > 0 {
        let pre = outs.drop_last();
        assert forall|i: int| 0 <= i < pre.len() implies cleared(#[trigger] pre[i], wl) by {
            assert(pre[i] == outs[i]);
        }
        lemma_all_cleared_value(pre, wl);
    }
}

proof fn lemma_none_cleared_value(outs: Seq<OutputView>, wl: Set<Seq<char>>)
    requires
        forall|i: int| 0 <= i < outs.len() ==> !cleared(#[trigger] outs[i], wl),
    ensures
        whitelisted_value(outs, wl) == 0,
    decreases outs.len(),
{
    if outs.len() > 0 {
        let pre = outs.drop_last();
        assert forall|i: int| 0 <= i < pre.len() implies !cleared(#[trigger] pre[i], wl) by {
            assert(pre[i] == outs[i]);
        }
        lemma_none_cleared_value(pre, wl);
    }
}

/// An output that pays a non-zero amount to no destination has the
/// transaction refused, whatever the other outputs are.
pub proof fn lemma_unresolved_rejected(outs: Seq<OutputView>, wl: Set<Seq<char>>, i: int)
    requires
        0 <= i < outs.len(),
        outs[i].destinations.len() == 0,
        outs[i].amount > 0,
    ensures
        spec_decision(outs, wl) == Decision::Reject(RejectReason::UnresolvedDestination),
{
    assert(has_unresolved(outs));
}

/// A transaction of positive value whose destinations are all approved, and
/// that has no valued output without a destination, is admitted.
pub proof fn lemma_all_whitelisted_admitted(outs: Seq<OutputView>, wl: Set<Seq<char>>)
    requires
        forall|i: int| 0 <= i < outs.len() ==> cleared(#[trigger] outs[i], wl),
        !has_unresolved(outs),
        whitelisted_value(outs, wl) > 0,
    ensures
        spec_decision(outs, wl) == Decision::Admit,
{
    lemma_all_cleared_value(outs, wl);
}

/// A transaction none of whose outputs is cleared is refused: for exceeding
/// the threshold, or as empty where its value is zero.
pub proof fn lemma_none_whitelisted_rejected(outs: Seq<OutputView>, wl: Set<Seq<char>>)
    requires
        forall|i: int| 0 <= i < outs.len() ==> !cleared(#[trigger] outs[i], wl),
    ensures
        non_whitelisted_value(outs, wl) == 0 ==> spec_decision(outs, wl) == Decision::Reject(
            RejectReason::EmptyValueTransaction,
        ),
        non_whitelisted_value(outs, wl) > 0 ==> spec_decision(outs, wl) == Decision::Reject(
            RejectReason::ThresholdExceeded {
                non_whitelisted: non_whitelisted_value(outs, wl) as u128,
                total: non_whitelisted_value(outs, wl) as u128,
            },
        ),
{
    lemma_none_cleared_value(outs, wl);
    if has_unresolved(outs) {
        let i = choose|i: int|
            0 <= i < outs.len() && (#[trigger] outs[i]).destinations.len() == 0 && outs[i].amount > 0;
        assert(cleared(outs[i], wl));
    }
}

} // verus!
