use logicbits::bits::to_bits;
use logicbits::eval::eval_rules_mask_counted;
use logicbits::eval::eval_rules_naive_counted;
use logicbits::model::Rule;
use logicbits::model::Term;

fn three_rules() -> Vec<Rule> {
    vec![
        Rule { terms: vec![Term::new(vec![0], vec![])] },
        Rule { terms: vec![Term::new(vec![1], vec![])] },
        Rule { terms: vec![Term::new(vec![2], vec![])] },
    ]
}

#[test]
fn failing_middle_rule_stops_the_scan() {
    let rules = three_rules();
    // Predicate 1 is false: rule 2 fails, rule 3 must never be examined.
    let row = vec![true, false, true, false];
    let (sat, examined) = eval_rules_naive_counted(&rules, &row);
    assert!(!sat);
    assert_eq!(examined, 2);

    let (sat_m, examined_m) = eval_rules_mask_counted(&rules, to_bits(&row));
    assert!(!sat_m);
    assert_eq!(examined_m, 2);
}

#[test]
fn passing_rule_set_examines_every_rule() {
    let rules = three_rules();
    let row = vec![true, true, true, false];
    let (sat, examined) = eval_rules_naive_counted(&rules, &row);
    assert!(sat);
    assert_eq!(examined, 3);

    let (sat_m, examined_m) = eval_rules_mask_counted(&rules, to_bits(&row));
    assert!(sat_m);
    assert_eq!(examined_m, 3);
}

#[test]
fn failing_first_rule_examines_only_it() {
    let rules = three_rules();
    let row = vec![false, true, true, false];
    let (sat, examined) = eval_rules_naive_counted(&rules, &row);
    assert!(!sat);
    assert_eq!(examined, 1);

    let (sat_m, examined_m) = eval_rules_mask_counted(&rules, to_bits(&row));
    assert!(!sat_m);
    assert_eq!(examined_m, 1);
}
