//! Uniform random choice of one candidate action from a matched rule.

use vstd::prelude::*;
use rand::Rng;
use crate::rules::Action;
use crate::rules::Rule;

verus! {

/// Relies on `rand::Rng::gen_range` over the half-open range `0..n`: it
/// returns a uniformly sampled value of that range, and the range is
/// non-empty since `n > 0`, so the call does not panic. Nothing more is
/// assumed of the value: it is fresh randomness on every call.
#[verifier::external_body]
fn random_below(n: usize) -> (r: usize)
    requires
        n > 0,
    ensures
        r < n,
{
    rand::thread_rng().gen_range(0..n)
}

/// The action of `rule` at position `i`.
pub fn select_at(rule: &Rule, i: usize) -> (a: &Action)
    requires
        i < rule.actions@.len(),
    ensures
        *a == rule.actions@[i as int],
{
    &rule.actions[i]
}

/// Chooses uniformly at random one action from the rule's candidates. A
/// rule with exactly one action always yields that action; each call draws
/// independent randomness.
pub fn select(rule: &Rule) -> (a: &Action)
    requires
        rule.actions@.len() > 0,
    ensures
        exists|i: int| 0 <= i < rule.actions@.len() && *a == rule.actions@[i],
        rule.actions@.len() == 1 ==> *a == rule.actions@[0],
{
    let i = random_below(rule.actions.len());
    let a = select_at(rule, i);
    assert(*a == rule.actions@[i as int]);
    a
}

} // verus!
