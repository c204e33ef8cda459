use logicbits::bits::to_bits;
use logicbits::eval::eval_rules_mask;
use logicbits::eval::eval_rules_naive;
use logicbits::eval::term_matches_row;
use logicbits::eval::term_matches_state;
use logicbits::model::Rule;
use logicbits::model::Term;

fn term(req: Vec<u8>, forb: Vec<u8>) -> Term {
    Term::new(req, forb)
}

#[test]
fn round_trip_bits() {
    let row = vec![true, true, false, false];
    let s = to_bits(&row);
    assert_eq!(s, 0b0011);
    for (i, &b) in row.iter().enumerate() {
        assert_eq!((s >> i) & 1 == 1, b);
    }
    for i in row.len()..64 {
        assert_eq!((s >> i) & 1, 0);
    }
}

#[test]
fn round_trip_bits_empty_and_full() {
    let empty: Vec<bool> = vec![];
    assert_eq!(to_bits(&empty), 0);

    let full = vec![true; 64];
    assert_eq!(to_bits(&full), u64::MAX);

    let alternating: Vec<bool> = (0..32).map(|i| i % 2 == 0).collect();
    let s = to_bits(&alternating);
    for (i, &b) in alternating.iter().enumerate() {
        assert_eq!((s >> i) & 1 == 1, b, "bit {i}");
    }
}

#[test]
fn term_masks_computed_eagerly() {
    let t = term(vec![0, 1], vec![3]);
    assert_eq!(t.req_mask, 0b0011);
    assert_eq!(t.forb_mask, 0b1000);
}

#[test]
fn single_rule_scenario() {
    // One rule, one term: required {0, 1}, nothing forbidden.
    let rules = vec![Rule { terms: vec![term(vec![0, 1], vec![])] }];
    let row = vec![true, true, false, false];
    let s = to_bits(&row);
    assert_eq!(s, 0b0011);
    assert!(eval_rules_naive(&rules, &row));
    assert!(eval_rules_mask(&rules, s));

    let row2 = vec![true, false, false, false];
    assert!(!eval_rules_naive(&rules, &row2));
    assert!(!eval_rules_mask(&rules, to_bits(&row2)));
}

#[test]
fn forbidden_bit_fails_rule() {
    // Rule A: required {0}, forbidden {2}. Rule B: required {1}.
    let rules = vec![
        Rule { terms: vec![term(vec![0], vec![2])] },
        Rule { terms: vec![term(vec![1], vec![])] },
    ];
    // Event bits 0101: predicates 0 and 2 set.
    let row = vec![true, false, true, false];
    let s = to_bits(&row);
    assert_eq!(s, 0b0101);
    assert!(!eval_rules_naive(&rules, &row));
    assert!(!eval_rules_mask(&rules, s));
}

#[test]
fn empty_required_matches_unless_forbidden() {
    let t = term(vec![], vec![2]);
    // No forbidden predicate true: matches whatever the other values are.
    assert!(term_matches_row(&t, &vec![false, false, false, false]));
    assert!(term_matches_row(&t, &vec![true, true, false, true]));
    // The forbidden predicate true: never matches.
    assert!(!term_matches_row(&t, &vec![true, true, true, true]));
    assert!(!term_matches_row(&t, &vec![false, false, true, false]));
}

#[test]
fn forbidden_flip_breaks_match_unreferenced_flip_does_not() {
    let t = term(vec![0], vec![2]);
    let row = vec![true, false, false, false];
    assert!(term_matches_row(&t, &row));

    // Flipping the currently-false forbidden predicate 2 breaks the match.
    let mut flipped = row.clone();
    flipped[2] = true;
    assert!(!term_matches_row(&t, &flipped));

    // Flipping a predicate the term does not reference changes nothing.
    let mut other = row.clone();
    other[3] = true;
    assert!(term_matches_row(&t, &other));
    other[3] = false;
    other[1] = true;
    assert!(term_matches_row(&t, &other));
}

#[test]
fn overlapping_required_and_forbidden_is_always_false() {
    // A degenerate term demanding and forbidding predicate 0: legal, never
    // matches.
    let t = term(vec![0], vec![0]);
    assert!(!term_matches_row(&t, &vec![true, true]));
    assert!(!term_matches_row(&t, &vec![false, true]));
    assert!(!term_matches_state(&t, 0b01));
    assert!(!term_matches_state(&t, 0b00));
}

#[test]
fn empty_rule_set_matches_everything() {
    let rules: Vec<Rule> = vec![];
    assert!(eval_rules_naive(&rules, &vec![false, true]));
    assert!(eval_rules_mask(&rules, 0));
}

#[test]
fn rule_with_no_terms_matches_nothing() {
    let rules = vec![Rule { terms: vec![] }];
    assert!(!eval_rules_naive(&rules, &vec![true, true]));
    assert!(!eval_rules_mask(&rules, u64::MAX));
}
