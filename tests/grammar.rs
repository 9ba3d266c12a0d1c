use boltzmann::grammar::{alts_are_weighted, btree_spec, find_rule, is_weighted, Elem, Rule, RHS, SCALE};

#[test]
fn btree_spec_binds_three_symbols() {
    let g = btree_spec();
    assert_eq!(g.len(), 3);
    assert_eq!(find_rule(&g, &"btree".to_string()), Some(0));
    assert_eq!(find_rule(&g, &"node".to_string()), Some(1));
    assert_eq!(find_rule(&g, &"tip".to_string()), Some(2));
    assert_eq!(find_rule(&g, &"leaf".to_string()), None);
    assert!(!g[0].1.build);
    assert!(g[1].1.build && g[2].1.build);
    assert!(matches!(&g[1].1.rhs, RHS::Prod(v) if v.len() == 3));
    assert!(matches!(&g[2].1.rhs, RHS::Elem(Elem::One)));
}

#[test]
fn later_binding_wins() {
    let mut g = btree_spec();
    g.push(("tip".to_string(), Rule { build: false, rhs: RHS::Elem(Elem::Z) }));
    assert_eq!(find_rule(&g, &"tip".to_string()), Some(3));
}

#[test]
fn unweighted_grammar_is_not_ready() {
    assert!(!is_weighted(&btree_spec()));
}

#[test]
fn weighted_grammar_is_ready() {
    let mut g = btree_spec();
    g[0].1.rhs = RHS::Sum(vec![
        (Elem::Ref("tip".to_string()), SCALE / 2),
        (Elem::Ref("node".to_string()), SCALE),
    ]);
    assert!(is_weighted(&g));
}

#[test]
fn unbound_reference_is_not_ready() {
    let mut g = btree_spec();
    g[0].1.rhs = RHS::Sum(vec![
        (Elem::Ref("tip".to_string()), SCALE / 2),
        (Elem::Ref("leaf".to_string()), SCALE),
    ]);
    assert!(!is_weighted(&g));
}

#[test]
fn weights_must_rise_to_one() {
    let a = |w: u64| (Elem::Z, w);
    assert!(alts_are_weighted(&vec![a(3), a(3), a(SCALE)]));
    assert!(alts_are_weighted(&vec![a(SCALE)]));
    assert!(!alts_are_weighted(&vec![]));
    assert!(!alts_are_weighted(&vec![a(5), a(4), a(SCALE)]));
    assert!(!alts_are_weighted(&vec![a(5), a(SCALE - 1)]));
}
