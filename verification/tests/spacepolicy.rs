use logicbits::events::Event;
use logicbits::events::FieldAttr;
use logicbits::events::event_row;
use logicbits::events::space_from_attrs;
use logicbits::bits::to_bits;
use logicbits::eval::term_matches_state;
use logicbits::policy::PolicySpec;
use logicbits::policy::compile_policy;
use logicbits::space::PredicateSpace;

fn owned(names: &[&str]) -> Vec<String> {
    names.iter().map(|s| s.to_string()).collect()
}

fn demo_attrs() -> Vec<FieldAttr> {
    vec![
        FieldAttr::Diner { eq: "acme".to_string(), pred: "DINER_ACME".to_string() },
        FieldAttr::Kitchen { pred: "BIG_GROUP".to_string() },
        FieldAttr::Serve { pred_ns: "NO_SERVE".to_string() },
        FieldAttr::Largeness {
            pred_prefix: "LRGNSS_ORDER_".to_string(),
            heat: vec![100, 200, 600],
        },
    ]
}

#[test]
fn lookup_finds_each_name_once() {
    let space = PredicateSpace::new(owned(&["A", "B", "C"])).unwrap();
    assert_eq!(space.width(), 3);
    assert_eq!(space.lookup("A"), Some(0));
    assert_eq!(space.lookup("B"), Some(1));
    assert_eq!(space.lookup("C"), Some(2));
    assert_eq!(space.lookup("D"), None);
    assert_eq!(space.pred_mask_by_name("C"), Some(0b100));
    assert_eq!(space.pred_mask_by_name("D"), None);
}

#[test]
fn lookup_returns_the_lowest_index_of_a_repeated_name() {
    let space = PredicateSpace::new(owned(&["A", "B", "A"])).unwrap();
    assert_eq!(space.lookup("A"), Some(0));
}

#[test]
fn too_many_predicates_is_a_configuration_error() {
    let names: Vec<String> = (0..65).map(|i| format!("P{i}")).collect();
    let err = PredicateSpace::new(names).unwrap_err();
    assert_eq!(err.count, 65);

    let at_limit: Vec<String> = (0..64).map(|i| format!("P{i}")).collect();
    assert!(PredicateSpace::new(at_limit).is_ok());
}

#[test]
fn oversized_schema_is_rejected() {
    let attrs = vec![FieldAttr::Largeness {
        pred_prefix: "P_".to_string(),
        heat: (0..65).collect(),
    }];
    let err = space_from_attrs(&attrs).unwrap_err();
    assert_eq!(err.count, 65);
}

#[test]
fn policy_compiles_to_a_term_with_masks() {
    let space = PredicateSpace::new(owned(&["A", "B", "C", "D"])).unwrap();
    let policy = PolicySpec {
        name: "p".to_string(),
        all: owned(&["A", "C"]),
        none: owned(&["D"]),
    };
    let t = compile_policy(&space, &policy).unwrap();
    assert_eq!(t.req_idx, vec![0, 2]);
    assert_eq!(t.forb_idx, vec![3]);
    assert_eq!(t.req_mask, 0b0101);
    assert_eq!(t.forb_mask, 0b1000);
}

#[test]
fn unresolved_names_are_all_reported() {
    let space = PredicateSpace::new(owned(&["A", "B"])).unwrap();
    let policy = PolicySpec {
        name: "p".to_string(),
        all: owned(&["A", "X", "Y"]),
        none: owned(&["Z", "B"]),
    };
    let err = compile_policy(&space, &policy).unwrap_err();
    assert_eq!(err.unresolved, owned(&["X", "Y", "Z"]));
}

#[test]
fn demo_schema_binds_the_documented_names() {
    let space = space_from_attrs(&demo_attrs()).unwrap();
    assert_eq!(space.width(), 6);
    assert_eq!(space.lookup("DINER_ACME"), Some(0));
    assert_eq!(space.lookup("BIG_GROUP"), Some(1));
    assert_eq!(space.lookup("NO_SERVE"), Some(2));
    assert_eq!(space.lookup("LRGNSS_ORDER_100"), Some(3));
    assert_eq!(space.lookup("LRGNSS_ORDER_200"), Some(4));
    assert_eq!(space.lookup("LRGNSS_ORDER_600"), Some(5));
    assert_eq!(space.lookup("LRGNSS_ORDER_50"), None);
}

#[test]
fn event_bits_follow_the_schema() {
    let e = Event { diner: "acme", big_group: false, serve: 200, heat: 230 };
    let bits = e.to_bits();
    // DINER_ACME, LRGNSS_ORDER_100 and LRGNSS_ORDER_200 hold.
    assert_eq!(bits, 0b011001);

    // The generic row derivation agrees with the event's own encoding.
    let row = event_row(&demo_attrs(), &e);
    assert_eq!(to_bits(&row), bits);

    let served_none = Event { diner: "other", big_group: true, serve: 0, heat: 99 };
    assert_eq!(served_none.to_bits(), 0b000110);
}

#[test]
fn compiled_policy_matches_the_event() {
    let space = space_from_attrs(&demo_attrs()).unwrap();
    let policy = PolicySpec {
        name: "heat_warn".to_string(),
        all: owned(&["DINER_ACME", "LRGNSS_ORDER_200"]),
        none: owned(&["BIG_GROUP"]),
    };
    let t = compile_policy(&space, &policy).unwrap();

    let e = Event { diner: "acme", big_group: false, serve: 200, heat: 230 };
    assert!(term_matches_state(&t, e.to_bits()));

    let big = Event { diner: "acme", big_group: true, serve: 200, heat: 230 };
    assert!(!term_matches_state(&t, big.to_bits()));

    let cool = Event { diner: "acme", big_group: false, serve: 200, heat: 150 };
    assert!(!term_matches_state(&t, cool.to_bits()));
}
