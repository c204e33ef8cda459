//! Synthetic rule generation for demonstration and differential testing:
//! builds a rule set of pseudo-random terms over the demo predicate space.
//! The randomness comes from the `rand` crate behind trusted wrappers; every
//! contract here states only what holds of every possible outcome, and the
//! construction logic around the wrappers is verified.

use vstd::prelude::*;

use crate::model::Rule;
use crate::model::Term;
use crate::model::rules_wf;

verus! {

/// Number of base predicates in the demo configuration (at most
/// `MASK_WIDTH`, since the state word is a single `u64`).
pub const N_PRED: usize = 32;

/// Number of rules in a generated rule set.
pub const N_RULES: usize = 64;

/// Fewest terms in a generated rule.
pub const TERMS_MIN: usize = 2;

/// Most terms in a generated rule.
pub const TERMS_MAX: usize = 4;

/// Fewest required predicates in a generated term.
pub const REQ_MIN: usize = 3;

/// Most required predicates in a generated term.
pub const REQ_MAX: usize = 6;

/// Most forbidden predicates in a generated term.
pub const FORB_MAX: usize = 2;

#[verifier::external_type_specification]
#[verifier::external_body]
pub struct ExSmallRng(rand::rngs::SmallRng);

/// Relies on rand's `Rng::random_range` over the range `lo..=hi`: the result
/// lies in the range. The call panics on an empty range, which `lo <= hi`
/// rules out.
#[verifier::external_body]
fn random_in(rng: &mut rand::rngs::SmallRng, lo: usize, hi: usize) -> (r: usize)
    requires
        lo <= hi,
    ensures
        lo <= r <= hi,
{
    rand::Rng::random_range(rng, lo..=hi)
}

/// Relies on `rand::seq::index::sample`: exactly `k` distinct indices drawn
/// from `0..n`, returned in random order. The call panics when `k > n`,
/// which the precondition rules out.
#[verifier::external_body]
fn sample_index_set(rng: &mut rand::rngs::SmallRng, n: usize, k: usize) -> (r: Vec<usize>)
    requires
        k <= n,
    ensures
        r@.len() == k,
        forall|i: int| 0 <= i < r@.len() ==> r@[i] < n,
        r@.no_duplicates(),
{
    rand::seq::index::sample(rng, n, k).into_vec()
}

/// Whether a byte occurs in a vector.
fn contains_u8(v: &Vec<u8>, x: u8) -> (r: bool)
    ensures
        r == v@.contains(x),
{
    let n = v.len();
    for i in 0..n
        invariant
            n == v@.len(),
            forall|j: int| 0 <= j < i ==> v@[j] != x,
    {
        if v[i] == x {
            return true;
        }
    }
    false
}

/// The shape that generation gives every term: bounded, duplicate-free index
/// lists with the required and forbidden sets disjoint.
pub open spec fn generated_term(t: Term) -> bool {
    &&& REQ_MIN <= t.req_idx@.len() <= REQ_MAX
    &&& t.forb_idx@.len() <= FORB_MAX
    &&& t.req_idx@.no_duplicates()
    &&& t.forb_idx@.no_duplicates()
    &&& forall|i: int, j: int|
        0 <= i < t.req_idx@.len() && 0 <= j < t.forb_idx@.len() ==> t.req_idx@[i]
            != t.forb_idx@[j]
}

/// Draws `k` distinct predicate indices from the demo space.
pub fn sample_distinct(rng: &mut rand::rngs::SmallRng, k: usize) -> (r: Vec<u8>)
    requires
        k <= N_PRED,
    ensures
        r@.len() == k,
        forall|i: int| 0 <= i < r@.len() ==> (r@[i] as usize) < N_PRED,
        r@.no_duplicates(),
{
    if k == 0 {
        return Vec::new();
    }
    let picks = sample_index_set(rng, N_PRED, k);
    let mut out: Vec<u8> = Vec::new();
    let n = picks.len();
    for i in 0..n
        invariant
            n == picks@.len(),
            out@.len() == i,
            forall|j: int| 0 <= j < picks@.len() ==> picks@[j] < N_PRED,
            picks@.no_duplicates(),
            forall|j: int| 0 <= j < i ==> out@[j] == picks@[j] as u8,
    {
        out.push(picks[i] as u8);
    }
    proof {
        assert forall|i: int, j: int| 0 <= i < out@.len() && 0 <= j < out@.len() && i != j
            implies out@[i] != out@[j] by {
            assert(picks@[i] != picks@[j]);
            assert(picks@[i] < 256 && picks@[j] < 256);
        }
    }
    out
}

/// How many of the indices `0..n` are free, that is, not in `exclude`.
pub open spec fn free_count(exclude: Seq<u8>, n: int) -> nat
    decreases n,
{
    if n <= 0 {
        0
    } else {
        free_count(exclude, n - 1) + (if exclude.contains((n - 1) as u8) {
            0nat
        } else {
            1nat
        })
    }
}

/// How many predicate indices of the demo space are not in `exclude`: the
/// pool the exclusion sampler draws from.
pub open spec fn pool_size(exclude: Seq<u8>) -> nat {
    free_count(exclude, N_PRED as int)
}

/// Draws distinct predicate indices from the demo space, avoiding every
/// index in `exclude`: exactly `k` of them, or the whole remaining pool when
/// it holds fewer than `k`.
pub fn sample_distinct_excluding(rng: &mut rand::rngs::SmallRng, k: usize, exclude: &Vec<u8>) -> (r:
    Vec<u8>)
    ensures
        r@.len() == if k as nat <= pool_size(exclude@) {
            k as nat
        } else {
            pool_size(exclude@)
        },
        forall|i: int| 0 <= i < r@.len() ==> (r@[i] as usize) < N_PRED,
        forall|i: int| 0 <= i < r@.len() ==> !exclude@.contains(r@[i]),
        r@.no_duplicates(),
{
    if k == 0 {
        return Vec::new();
    }
    let mut pool: Vec<u8> = Vec::new();
    for i in 0..N_PRED
        invariant
            pool@.len() == free_count(exclude@, i as int),
            forall|p: int| 0 <= p < pool@.len() ==> (pool@[p] as usize) < i,
            forall|p: int| 0 <= p < pool@.len() ==> !exclude@.contains(pool@[p]),
            pool@.no_duplicates(),
    {
        if !contains_u8(exclude, i as u8) {
            pool.push(i as u8);
        }
    }
    let mut out: Vec<u8> = Vec::new();
    let mut c: usize = 0;
    while c < k && pool.len() > 0
        invariant
            c <= k,
            out@.len() == c,
            out@.len() + pool@.len() == pool_size(exclude@),
            out@.no_duplicates(),
            pool@.no_duplicates(),
            forall|i: int| 0 <= i < out@.len() ==> (out@[i] as usize) < N_PRED,
            forall|i: int| 0 <= i < out@.len() ==> !exclude@.contains(out@[i]),
            forall|p: int| 0 <= p < pool@.len() ==> (pool@[p] as usize) < N_PRED,
            forall|p: int| 0 <= p < pool@.len() ==> !exclude@.contains(pool@[p]),
            forall|i: int, p: int|
                0 <= i < out@.len() && 0 <= p < pool@.len() ==> out@[i] != pool@[p],
        decreases k - c,
    {
        let idx = random_in(rng, 0, pool.len() - 1);
        let ghost p0 = pool@;
        let v = pool.swap_remove(idx);
        proof {
            assert forall|p: int| 0 <= p < pool@.len() implies #[trigger] pool@[p] == (if p
                == idx as int {
                p0[p0.len() - 1]
            } else {
                p0[p]
            }) by {}
            assert forall|p1: int, p2: int|
                0 <= p1 < pool@.len() && 0 <= p2 < pool@.len() && p1 != p2 implies pool@[p1]
                != pool@[p2] by {}
            assert forall|p: int| 0 <= p < pool@.len() implies pool@[p] != v by {}
        }
        out.push(v);
        c += 1;
    }
    out
}

/// Generates one rule: a random number of terms, each over distinct required
/// indices and distinct forbidden indices disjoint from them, with the mask
/// forms computed at construction.
pub fn gen_rule(rng: &mut rand::rngs::SmallRng) -> (rule: Rule)
    ensures
        rule.wf(N_PRED as nat),
        TERMS_MIN <= rule.terms@.len() <= TERMS_MAX,
        forall|t: int| 0 <= t < rule.terms@.len() ==> generated_term(#[trigger] rule.terms@[t]),
{
    let n_terms = random_in(rng, TERMS_MIN, TERMS_MAX);
    let mut terms: Vec<Term> = Vec::new();
    for i in 0..n_terms
        invariant
            TERMS_MIN <= n_terms <= TERMS_MAX,
            terms@.len() == i,
            forall|t: int| 0 <= t < i ==> (#[trigger] terms@[t]).wf(N_PRED as nat),
            forall|t: int| 0 <= t < i ==> generated_term(#[trigger] terms@[t]),
    {
        let k_req = random_in(rng, REQ_MIN, REQ_MAX);
        let k_forb = random_in(rng, 0, FORB_MAX);
        let req_idx = sample_distinct(rng, k_req);
        let forb_idx = sample_distinct_excluding(rng, k_forb, &req_idx);
        proof {
            assert forall|a: int, b: int|
                0 <= a < req_idx@.len() && 0 <= b < forb_idx@.len() implies req_idx@[a]
                != forb_idx@[b] by {
                assert(!req_idx@.contains(forb_idx@[b]));
            }
        }
        let t = Term::new(req_idx, forb_idx);
        terms.push(t);
    }
    Rule { terms }
}

/// Generates the demo rule set: `N_RULES` rules, every one well-formed for
/// the demo predicate space.
pub fn gen_rules(rng: &mut rand::rngs::SmallRng) -> (rules: Vec<Rule>)
    ensures
        rules@.len() == N_RULES,
        rules_wf(rules@, N_PRED as nat),
        forall|r: int, t: int|
            0 <= r < rules@.len() && 0 <= t < rules@[r].terms@.len() ==> generated_term(
                #[trigger] rules@[r].terms@[t]),
{
    let mut rules: Vec<Rule> = Vec::new();
    for i in 0..N_RULES
        invariant
            rules@.len() == i,
            rules_wf(rules@, N_PRED as nat),
            forall|r: int, t: int|
                0 <= r < rules@.len() && 0 <= t < rules@[r].terms@.len() ==> generated_term(
                    #[trigger] rules@[r].terms@[t]),
    {
        let rule = gen_rule(rng);
        rules.push(rule);
    }
    rules
}

} // verus!
