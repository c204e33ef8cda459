//! The rule model: a term is a conjunction of required-true and forbidden
//! predicates, a rule a disjunction of terms, a rule set a conjunction of
//! rules. Each term carries both an index-list form (for the element-wise
//! evaluator) and a precomputed mask form (for the bitwise evaluator),
//! computed eagerly at construction time.

use vstd::prelude::*;

use crate::bits::MASK_WIDTH;
use crate::bits::bit_at;
use crate::bits::encodes;
use crate::bits::lemma_and_or_mask;
use crate::bits::lemma_and_single_bit;
use crate::bits::lemma_and_zero;

verus! {

/// The mask with exactly the bits at the positions listed in `idx` set.
pub open spec fn mask_of(idx: Seq<u8>) -> u64
    decreases idx.len(),
{
    if idx.len() == 0 {
        0u64
    } else {
        mask_of(idx.drop_last()) | (1u64 << (idx.last() as u64))
    }
}

/// A conjunction of required-true predicates and forbidden (required-false)
/// predicates, in both index-list and mask form.
#[derive(Clone, Debug)]
pub struct Term {
    pub req_mask: u64,
    pub forb_mask: u64,
    pub req_idx: Vec<u8>,
    pub forb_idx: Vec<u8>,
}

/// A disjunction of terms.
#[derive(Clone, Debug)]
pub struct Rule {
    pub terms: Vec<Term>,
}

impl Term {
    /// Well-formed for a predicate space of `n` predicates: every index is
    /// in range and each mask is exactly the mask of its index list.
    pub open spec fn wf(self, n: nat) -> bool {
        &&& n <= MASK_WIDTH
        &&& forall|k: int| 0 <= k < self.req_idx@.len() ==> (self.req_idx@[k] as nat) < n
        &&& forall|k: int| 0 <= k < self.forb_idx@.len() ==> (self.forb_idx@[k] as nat) < n
        &&& self.req_mask == mask_of(self.req_idx@)
        &&& self.forb_mask == mask_of(self.forb_idx@)
    }

    /// The term matches a row of predicate values: every required predicate
    /// is true and no forbidden predicate is true.
    pub open spec fn matches(self, row: Seq<bool>) -> bool {
        &&& forall|k: int| 0 <= k < self.req_idx@.len() ==> row[self.req_idx@[k] as int]
        &&& forall|k: int| 0 <= k < self.forb_idx@.len() ==> !row[self.forb_idx@[k] as int]
    }

    /// The mask form of the match test: all required bits present in the
    /// state word, no forbidden bit present.
    pub open spec fn mask_matches(self, state: u64) -> bool {
        (state & self.req_mask) == self.req_mask && (state & self.forb_mask) == 0
    }

    /// Builds a term from a required index list and a forbidden index list,
    /// computing both masks eagerly.
    pub fn new(req_idx: Vec<u8>, forb_idx: Vec<u8>) -> (t: Term)
        requires
            forall|k: int| 0 <= k < req_idx@.len() ==> req_idx@[k] < 64,
            forall|k: int| 0 <= k < forb_idx@.len() ==> forb_idx@[k] < 64,
        ensures
            t.req_idx == req_idx,
            t.forb_idx == forb_idx,
            t.req_mask == mask_of(req_idx@),
            t.forb_mask == mask_of(forb_idx@),
    {
        let req_mask = mask_from_indices(&req_idx);
        let forb_mask = mask_from_indices(&forb_idx);
        Term { req_mask, forb_mask, req_idx, forb_idx }
    }
}

impl Rule {
    /// Every term of the rule is well-formed for `n` predicates.
    pub open spec fn wf(self, n: nat) -> bool {
        forall|t: int| 0 <= t < self.terms@.len() ==> (#[trigger] self.terms@[t]).wf(n)
    }

    /// The rule is satisfied by a row: at least one term matches.
    pub open spec fn sat(self, row: Seq<bool>) -> bool {
        exists|t: int| 0 <= t < self.terms@.len() && (#[trigger] self.terms@[t]).matches(row)
    }

    /// The mask form: at least one term's masks accept the state word.
    pub open spec fn mask_sat(self, state: u64) -> bool {
        exists|t: int|
            0 <= t < self.terms@.len() && (#[trigger] self.terms@[t]).mask_matches(state)
    }
}

/// Every rule of the set is well-formed for `n` predicates.
pub open spec fn rules_wf(rules: Seq<Rule>, n: nat) -> bool {
    forall|r: int| 0 <= r < rules.len() ==> (#[trigger] rules[r]).wf(n)
}

/// The rule set is satisfied by a row: every rule is satisfied.
pub open spec fn rules_sat(rules: Seq<Rule>, row: Seq<bool>) -> bool {
    forall|r: int| 0 <= r < rules.len() ==> (#[trigger] rules[r]).sat(row)
}

/// The mask form: every rule accepts the state word.
pub open spec fn rules_mask_sat(rules: Seq<Rule>, state: u64) -> bool {
    forall|r: int| 0 <= r < rules.len() ==> (#[trigger] rules[r]).mask_sat(state)
}

/// Folds an index list into its mask.
pub fn mask_from_indices(idx: &Vec<u8>) -> (m: u64)
    requires
        forall|k: int| 0 <= k < idx@.len() ==> idx@[k] < 64,
    ensures
        m == mask_of(idx@),
{
    let mut m: u64 = 0;
    let n = idx.len();
    for k in 0..n
        invariant
            n == idx@.len(),
            forall|j: int| 0 <= j < idx@.len() ==> idx@[j] < 64,
            m == mask_of(idx@.take(k as int)),
    {
        proof {
            assert(idx@.take(k + 1).drop_last() =~= idx@.take(k as int));
            assert(idx@.take(k + 1).last() == idx@[k as int]);
        }
        m = m | (1u64 << (idx[k] as u64));
    }
    proof {
        assert(idx@.take(n as int) =~= idx@);
    }
    m
}

/// For a state word that encodes a row, the "all required bits present" test
/// against the mask of an index list agrees with the element-wise test that
/// every listed predicate is true in the row.
pub proof fn lemma_req_mask_iff(state: u64, row: Seq<bool>, idx: Seq<u8>)
    requires
        encodes(state, row),
        forall|k: int| 0 <= k < idx.len() ==> (idx[k] as int) < row.len(),
    ensures
        ((state & mask_of(idx)) == mask_of(idx)) == (forall|k: int|
            0 <= k < idx.len() ==> row[idx[k] as int]),
    decreases idx.len(),
{
    if idx.len() == 0 {
        lemma_and_zero(state);
    } else {
        let rest = idx.drop_last();
        let i = idx.last();
        lemma_req_mask_iff(state, row, rest);
        lemma_and_or_mask(state, mask_of(rest), 1u64 << (i as u64));
        lemma_and_single_bit(state, i as u64);
        assert(bit_at(state, i as u64) == row[i as int]);
        if (state & mask_of(idx)) == mask_of(idx) {
            assert forall|k: int| 0 <= k < idx.len() implies row[idx[k] as int] by {
                if k < idx.len() - 1 {
                    assert(rest[k] == idx[k]);
                }
            }
        }
        if forall|k: int| 0 <= k < idx.len() ==> row[idx[k] as int] {
            assert forall|k: int| 0 <= k < rest.len() implies row[rest[k] as int] by {
                assert(rest[k] == idx[k]);
            }
            assert(row[i as int]);
        }
    }
}

/// For a state word that encodes a row, the "no forbidden bit present" test
/// against the mask of an index list agrees with the element-wise test that
/// no listed predicate is true in the row.
pub proof fn lemma_forb_mask_iff(state: u64, row: Seq<bool>, idx: Seq<u8>)
    requires
        encodes(state, row),
        forall|k: int| 0 <= k < idx.len() ==> (idx[k] as int) < row.len(),
    ensures
        ((state & mask_of(idx)) == 0) == (forall|k: int|
            0 <= k < idx.len() ==> !row[idx[k] as int]),
    decreases idx.len(),
{
    if idx.len() == 0 {
        lemma_and_zero(state);
    } else {
        let rest = idx.drop_last();
        let i = idx.last();
        lemma_forb_mask_iff(state, row, rest);
        lemma_and_or_mask(state, mask_of(rest), 1u64 << (i as u64));
        lemma_and_single_bit(state, i as u64);
        assert(bit_at(state, i as u64) == row[i as int]);
        if (state & mask_of(idx)) == 0 {
            assert forall|k: int| 0 <= k < idx.len() implies !row[idx[k] as int] by {
                if k < idx.len() - 1 {
                    assert(rest[k] == idx[k]);
                }
            }
        }
        if forall|k: int| 0 <= k < idx.len() ==> !row[idx[k] as int] {
            assert forall|k: int| 0 <= k < rest.len() implies !row[rest[k] as int] by {
                assert(rest[k] == idx[k]);
            }
            assert(!row[i as int]);
        }
    }
}

/// A term with an empty required list matches a row exactly when no
/// forbidden predicate is true in it, regardless of any other predicate's
/// value.
pub proof fn lemma_empty_required_term(t: Term, row: Seq<bool>)
    requires
        t.req_idx@.len() == 0,
    ensures
        t.matches(row) == (forall|k: int|
            0 <= k < t.forb_idx@.len() ==> !row[t.forb_idx@[k] as int]),
{
}

/// A term that both demands and forbids the same predicate is legal and
/// simply never matches, whatever the row holds.
pub proof fn lemma_overlapping_term_never_matches(t: Term, row: Seq<bool>, j: u8)
    requires
        t.req_idx@.contains(j),
        t.forb_idx@.contains(j),
    ensures
        !t.matches(row),
{
    if t.matches(row) {
        let k1 = choose|k: int| 0 <= k < t.req_idx@.len() && t.req_idx@[k] == j;
        let k2 = choose|k: int| 0 <= k < t.forb_idx@.len() && t.forb_idx@[k] == j;
        assert(row[t.req_idx@[k1] as int]);
        assert(!row[t.forb_idx@[k2] as int]);
    }
}

/// Flipping a currently-false forbidden predicate to true turns a matching
/// term into a non-matching one.
pub proof fn lemma_forbidden_flip(t: Term, row: Seq<bool>, j: u8)
    requires
        (j as int) < row.len(),
        t.forb_idx@.contains(j),
        t.matches(row),
    ensures
        !t.matches(row.update(j as int, true)),
{
    let k = choose|k: int| 0 <= k < t.forb_idx@.len() && t.forb_idx@[k] == j;
    assert(row.update(j as int, true)[t.forb_idx@[k] as int]);
}

/// Flipping a predicate that the term does not reference, in either list,
/// leaves the term's match value unchanged.
pub proof fn lemma_unreferenced_flip(t: Term, row: Seq<bool>, j: u8, b: bool)
    requires
        (j as int) < row.len(),
        forall|k: int| 0 <= k < t.req_idx@.len() ==> (t.req_idx@[k] as int) < row.len(),
        forall|k: int| 0 <= k < t.forb_idx@.len() ==> (t.forb_idx@[k] as int) < row.len(),
        !t.req_idx@.contains(j),
        !t.forb_idx@.contains(j),
    ensures
        t.matches(row.update(j as int, b)) == t.matches(row),
{
    let flipped = row.update(j as int, b);
    assert forall|k: int| 0 <= k < t.req_idx@.len() implies flipped[t.req_idx@[k] as int] == row[
    t.req_idx@[k] as int] by {
        assert(t.req_idx@[k] != j);
    }
    assert forall|k: int| 0 <= k < t.forb_idx@.len() implies flipped[t.forb_idx@[k] as int]
        == row[t.forb_idx@[k] as int] by {
        assert(t.forb_idx@[k] != j);
    }
}

/// For a well-formed term and a state word that encodes a row, the mask form
/// of the match test agrees with the element-wise form.
pub proof fn lemma_term_agree(t: Term, row: Seq<bool>, state: u64)
    requires
        t.wf(row.len() as nat),
        encodes(state, row),
    ensures
        t.mask_matches(state) == t.matches(row),
{
    lemma_req_mask_iff(state, row, t.req_idx@);
    lemma_forb_mask_iff(state, row, t.forb_idx@);
}

/// For a well-formed rule and a state word that encodes a row, the mask form
/// of rule satisfaction agrees with the element-wise form.
pub proof fn lemma_rule_agree(rule: Rule, row: Seq<bool>, state: u64)
    requires
        rule.wf(row.len() as nat),
        encodes(state, row),
    ensures
        rule.mask_sat(state) == rule.sat(row),
{
    assert forall|t: int| 0 <= t < rule.terms@.len() implies (#[trigger] rule.terms@[t])
        .mask_matches(state) == rule.terms@[t].matches(row) by {
        lemma_term_agree(rule.terms@[t], row, state);
    }
}

/// Equivalence of the two evaluation strategies, stated at the level of the
/// mathematical model: for any well-formed rule set and any event row, the
/// mask-level satisfaction of the row's bitset encoding agrees with the
/// element-wise satisfaction of the row itself.
pub proof fn lemma_evaluators_agree(rules: Seq<Rule>, row: Seq<bool>, state: u64)
    requires
        rules_wf(rules, row.len() as nat),
        encodes(state, row),
    ensures
        rules_mask_sat(rules, state) == rules_sat(rules, row),
{
    assert forall|r: int| 0 <= r < rules.len() implies (#[trigger] rules[r]).mask_sat(state)
        == rules[r].sat(row) by {
        lemma_rule_agree(rules[r], row, state);
    }
}

} // verus!
