use logicbits::bits::to_bits;
use logicbits::eval::eval_rules_mask;
use logicbits::eval::eval_rules_naive;
use logicbits::model::Rule;
use logicbits::model::Term;
use logicbits::synth::N_PRED;
use logicbits::synth::N_RULES;
use logicbits::synth::gen_rules;
use logicbits::synth::sample_distinct_excluding;
use rand::SeedableRng;
use rand::rngs::SmallRng;

/// A deterministic, well-spread row of predicate values.
fn pseudo_row(seed: u64, n: usize) -> Vec<bool> {
    let mut x = seed.wrapping_mul(0x9E3779B97F4A7C15).wrapping_add(1);
    (0..n)
        .map(|_| {
            x ^= x << 13;
            x ^= x >> 7;
            x ^= x << 17;
            x & 1 == 1
        })
        .collect()
}

#[test]
fn generated_rules_have_the_promised_shape() {
    let mut rng = SmallRng::seed_from_u64(0xB17B17);
    let rules = gen_rules(&mut rng);
    assert_eq!(rules.len(), N_RULES);
    for rule in &rules {
        assert!((2..=4).contains(&rule.terms.len()));
        for t in &rule.terms {
            assert!((3..=6).contains(&t.req_idx.len()));
            assert!(t.forb_idx.len() <= 2);
            for &i in t.req_idx.iter().chain(t.forb_idx.iter()) {
                assert!((i as usize) < N_PRED);
            }
            for &f in &t.forb_idx {
                assert!(!t.req_idx.contains(&f));
            }
        }
    }
}

#[test]
fn exclusion_sampler_length_is_min_of_k_and_pool() {
    let mut rng = SmallRng::seed_from_u64(7);

    // Excluding indices 0..30 leaves a pool of exactly {30, 31}: asking for
    // five yields the whole pool.
    let exclude: Vec<u8> = (0u8..30).collect();
    let r = sample_distinct_excluding(&mut rng, 5, &exclude);
    assert_eq!(r.len(), 2);
    let mut sorted = r.clone();
    sorted.sort();
    assert_eq!(sorted, vec![30, 31]);

    // A pool of 29 free indices covers a request of four exactly.
    let exclude2: Vec<u8> = vec![1, 2, 3];
    let r2 = sample_distinct_excluding(&mut rng, 4, &exclude2);
    assert_eq!(r2.len(), 4);
    for &v in &r2 {
        assert!((v as usize) < N_PRED);
        assert!(!exclude2.contains(&v));
    }

    // Asking for nothing yields nothing.
    assert!(sample_distinct_excluding(&mut rng, 0, &exclude2).is_empty());
}

#[test]
fn evaluators_agree_on_generated_rules() {
    let mut rng = SmallRng::seed_from_u64(0xB17B17);
    let rules = gen_rules(&mut rng);
    let mut matched = 0usize;
    for seed in 0..2000u64 {
        let row = pseudo_row(seed, N_PRED);
        let naive = eval_rules_naive(&rules, &row);
        let mask = eval_rules_mask(&rules, to_bits(&row));
        assert_eq!(naive, mask, "evaluators disagree on row seed {seed}");
        if naive {
            matched += 1;
        }
    }
    // The agreement above is the point; the count only pins determinism.
    assert_eq!(matched, {
        let mut again = 0usize;
        let mut rng = SmallRng::seed_from_u64(0xB17B17);
        let rules = gen_rules(&mut rng);
        for seed in 0..2000u64 {
            let row = pseudo_row(seed, N_PRED);
            if eval_rules_naive(&rules, &row) {
                again += 1;
            }
        }
        again
    });
}

#[test]
fn evaluators_agree_exhaustively_on_small_space() {
    // Every rule set over 4 predicates we build by hand, every one of the 16
    // rows.
    let rules = vec![
        Rule {
            terms: vec![Term::new(vec![0, 1], vec![]), Term::new(vec![2], vec![3])],
        },
        Rule { terms: vec![Term::new(vec![], vec![3])] },
        Rule {
            terms: vec![Term::new(vec![1], vec![0]), Term::new(vec![0], vec![])],
        },
    ];
    for bits in 0u64..16 {
        let row: Vec<bool> = (0..4).map(|i| (bits >> i) & 1 == 1).collect();
        let s = to_bits(&row);
        assert_eq!(s, bits);
        assert_eq!(
            eval_rules_naive(&rules, &row),
            eval_rules_mask(&rules, s),
            "disagreement on row {bits:04b}"
        );
    }
}
