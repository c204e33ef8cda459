//! The two evaluation strategies over a rule set: the element-wise reference
//! evaluator walks the boolean row predicate by predicate, while the mask
//! evaluator tests the row's bitset encoding with two AND/compare operations
//! per term. Both share the same two-level short-circuit structure: terms of
//! a rule are tried in order until one matches, and rules are tried in order
//! until one fails.

use vstd::prelude::*;

use crate::model::Rule;
use crate::model::Term;
use crate::model::rules_mask_sat;
use crate::model::rules_sat;
use crate::model::rules_wf;

verus! {

/// How many rules the short-circuiting scan examines: every rule up to and
/// including the first unsatisfied one, or all of them when every rule is
/// satisfied.
pub open spec fn rules_examined(rules: Seq<Rule>, row: Seq<bool>) -> int
    decreases rules.len(),
{
    if rules.len() == 0 {
        0
    } else if rules[0].sat(row) {
        1 + rules_examined(rules.drop_first(), row)
    } else {
        1
    }
}

/// The mask-level counterpart of `rules_examined`.
pub open spec fn rules_mask_examined(rules: Seq<Rule>, state: u64) -> int
    decreases rules.len(),
{
    if rules.len() == 0 {
        0
    } else if rules[0].mask_sat(state) {
        1 + rules_mask_examined(rules.drop_first(), state)
    } else {
        1
    }
}

proof fn lemma_examined_prefix(rules: Seq<Rule>, row: Seq<bool>, i: int)
    requires
        0 <= i <= rules.len(),
        forall|j: int| 0 <= j < i ==> (#[trigger] rules[j]).sat(row),
    ensures
        rules_examined(rules, row) == i + rules_examined(rules.skip(i), row),
    decreases i,
{
    if i > 0 {
        assert(rules[0].sat(row));
        assert forall|j: int| 0 <= j < i - 1 implies (#[trigger] rules.drop_first()[j]).sat(row)
            by {
            assert(rules.drop_first()[j] == rules[j + 1]);
        }
        lemma_examined_prefix(rules.drop_first(), row, i - 1);
        assert(rules.drop_first().skip(i - 1) =~= rules.skip(i));
    } else {
        assert(rules.skip(0) =~= rules);
    }
}

proof fn lemma_mask_examined_prefix(rules: Seq<Rule>, state: u64, i: int)
    requires
        0 <= i <= rules.len(),
        forall|j: int| 0 <= j < i ==> (#[trigger] rules[j]).mask_sat(state),
    ensures
        rules_mask_examined(rules, state) == i + rules_mask_examined(rules.skip(i), state),
    decreases i,
{
    if i > 0 {
        assert(rules[0].mask_sat(state));
        assert forall|j: int| 0 <= j < i - 1 implies (#[trigger] rules.drop_first()[j]).mask_sat(
            state) by {
            assert(rules.drop_first()[j] == rules[j + 1]);
        }
        lemma_mask_examined_prefix(rules.drop_first(), state, i - 1);
        assert(rules.drop_first().skip(i - 1) =~= rules.skip(i));
    } else {
        assert(rules.skip(0) =~= rules);
    }
}

/// Element-wise match test of a single term against a boolean row.
pub fn term_matches_row(t: &Term, row: &Vec<bool>) -> (r: bool)
    requires
        forall|k: int| 0 <= k < t.req_idx@.len() ==> (t.req_idx@[k] as int) < row@.len(),
        forall|k: int| 0 <= k < t.forb_idx@.len() ==> (t.forb_idx@[k] as int) < row@.len(),
    ensures
        r == t.matches(row@),
{
    let nr = t.req_idx.len();
    for k in 0..nr
        invariant
            nr == t.req_idx@.len(),
            forall|j: int| 0 <= j < t.req_idx@.len() ==> (t.req_idx@[j] as int) < row@.len(),
            forall|j: int| 0 <= j < k ==> row@[t.req_idx@[j] as int],
    {
        if !row[t.req_idx[k] as usize] {
            return false;
        }
    }
    let nf = t.forb_idx.len();
    for k in 0..nf
        invariant
            nf == t.forb_idx@.len(),
            forall|j: int| 0 <= j < t.forb_idx@.len() ==> (t.forb_idx@[j] as int) < row@.len(),
            forall|j: int| 0 <= j < t.req_idx@.len() ==> row@[t.req_idx@[j] as int],
            forall|j: int| 0 <= j < k ==> !row@[t.forb_idx@[j] as int],
    {
        if row[t.forb_idx[k] as usize] {
            return false;
        }
    }
    true
}

/// Mask match test of a single term: two ANDs and two compares.
pub fn term_matches_state(t: &Term, state: u64) -> (r: bool)
    ensures
        r == t.mask_matches(state),
{
    (state & t.req_mask) == t.req_mask && (state & t.forb_mask) == 0
}

/// Element-wise satisfaction of one rule: scans the terms in order and stops
/// at the first match.
pub fn rule_sat_row(rule: &Rule, row: &Vec<bool>) -> (r: bool)
    requires
        rule.wf(row@.len() as nat),
    ensures
        r == rule.sat(row@),
{
    let n = rule.terms.len();
    for t in 0..n
        invariant
            n == rule.terms@.len(),
            rule.wf(row@.len() as nat),
            forall|j: int| 0 <= j < t ==> !(#[trigger] rule.terms@[j]).matches(row@),
    {
        if term_matches_row(&rule.terms[t], row) {
            return true;
        }
    }
    false
}

/// Mask satisfaction of one rule: scans the terms in order and stops at the
/// first match.
pub fn rule_sat_state(rule: &Rule, state: u64) -> (r: bool)
    ensures
        r == rule.mask_sat(state),
{
    let n = rule.terms.len();
    for t in 0..n
        invariant
            n == rule.terms@.len(),
            forall|j: int| 0 <= j < t ==> !(#[trigger] rule.terms@[j]).mask_matches(state),
    {
        if term_matches_state(&rule.terms[t], state) {
            return true;
        }
    }
    false
}

/// The element-wise (reference) evaluator: returns whether every rule is
/// satisfied by the boolean row, trying rules in order and stopping at the
/// first unsatisfied one.
pub fn eval_rules_naive(rules: &Vec<Rule>, row: &Vec<bool>) -> (r: bool)
    requires
        rules_wf(rules@, row@.len() as nat),
    ensures
        r == rules_sat(rules@, row@),
{
    let n = rules.len();
    for i in 0..n
        invariant
            n == rules@.len(),
            rules_wf(rules@, row@.len() as nat),
            forall|j: int| 0 <= j < i ==> (#[trigger] rules@[j]).sat(row@),
    {
        if !rule_sat_row(&rules[i], row) {
            return false;
        }
    }
    true
}

/// The mask evaluator: returns whether every rule's mask test accepts the
/// state word, trying rules in order and stopping at the first unsatisfied
/// one.
pub fn eval_rules_mask(rules: &Vec<Rule>, state: u64) -> (r: bool)
    ensures
        r == rules_mask_sat(rules@, state),
{
    let n = rules.len();
    for i in 0..n
        invariant
            n == rules@.len(),
            forall|j: int| 0 <= j < i ==> (#[trigger] rules@[j]).mask_sat(state),
    {
        if !rule_sat_state(&rules[i], state) {
            return false;
        }
    }
    true
}

/// The element-wise evaluator instrumented with an evaluation count: the
/// second component is the number of rules examined before the scan stopped,
/// witnessing the short-circuit across rules.
pub fn eval_rules_naive_counted(rules: &Vec<Rule>, row: &Vec<bool>) -> (res: (bool, usize))
    requires
        rules_wf(rules@, row@.len() as nat),
    ensures
        res.0 == rules_sat(rules@, row@),
        res.1 == rules_examined(rules@, row@),
{
    let n = rules.len();
    let mut i: usize = 0;
    while i < n
        invariant
            n == rules@.len(),
            0 <= i <= n,
            rules_wf(rules@, row@.len() as nat),
            forall|j: int| 0 <= j < i ==> (#[trigger] rules@[j]).sat(row@),
        decreases n - i,
    {
        if !rule_sat_row(&rules[i], row) {
            proof {
                lemma_examined_prefix(rules@, row@, i as int);
                assert(rules@.skip(i as int)[0] == rules@[i as int]);
            }
            return (false, i + 1);
        }
        i += 1;
    }
    proof {
        lemma_examined_prefix(rules@, row@, n as int);
        assert(rules@.skip(n as int) =~= Seq::<Rule>::empty());
    }
    (true, n)
}

/// The mask evaluator instrumented with an evaluation count, with the same
/// contract as the element-wise counted evaluator but over the mask tests.
pub fn eval_rules_mask_counted(rules: &Vec<Rule>, state: u64) -> (res: (bool, usize))
    ensures
        res.0 == rules_mask_sat(rules@, state),
        res.1 == rules_mask_examined(rules@, state),
{
    let n = rules.len();
    let mut i: usize = 0;
    while i < n
        invariant
            n == rules@.len(),
            0 <= i <= n,
            forall|j: int| 0 <= j < i ==> (#[trigger] rules@[j]).mask_sat(state),
        decreases n - i,
    {
        if !rule_sat_state(&rules[i], state) {
            proof {
                lemma_mask_examined_prefix(rules@, state, i as int);
                assert(rules@.skip(i as int)[0] == rules@[i as int]);
            }
            return (false, i + 1);
        }
        i += 1;
    }
    proof {
        lemma_mask_examined_prefix(rules@, state, n as int);
        assert(rules@.skip(n as int) =~= Seq::<Rule>::empty());
    }
    (true, n)
}

} // verus!
