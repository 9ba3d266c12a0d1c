use boltzmann::grammar::{btree_spec, Elem, Spec, RHS, SCALE};
use boltzmann::randgen::{make_rng, next_size, search_size, weighted_choice, RandGen};
use rand::Rng;

/// The cumulative weight `p` as a threshold on 53-bit draws.
fn threshold(p: f64) -> u64 {
    (p * SCALE as f64) as u64
}

/// The binary-tree grammar weighted at its singularity: the union's first
/// cumulative weight there is 0.5005001577170423.
fn weighted_btree() -> Spec {
    let mut g = btree_spec();
    g[0].1.rhs = RHS::Sum(vec![
        (Elem::Ref("tip".to_string()), threshold(0.5005001577170423)),
        (Elem::Ref("node".to_string()), threshold(1.0)),
    ]);
    g
}

#[test]
fn test_choose() {
    let mut rng = make_rng(42);
    let elems = vec![
        (Elem::Ref(":one".to_string()), threshold(0.5)),
        (Elem::Ref(":two".to_string()), threshold(0.8)),
        (Elem::Ref(":one".to_string()), threshold(1.0)),
    ];
    let elem1 = weighted_choice(&mut rng, &elems);
    assert!(match elem1 {
        Elem::Ref(_) => true,
        _ => false,
    });
}

#[test]
fn test_serialize() {
    let mut rng = make_rng(42);
    let mut rng2 = rng.clone();
    let serialized = serde_json::to_string(&rng).unwrap();
    let x: f64 = rng.gen();
    let y: f64 = rng.gen();
    assert!(x != y);
    let mut deserialized: RandGen = serde_json::from_str(&serialized).unwrap();
    let z: f64 = deserialized.gen();
    assert_eq!(x, z);
    let u: f64 = rng2.gen();
    assert_eq!(x, u);
    let v: f64 = rng2.gen();
    assert_eq!(y, v);
}

#[test]
fn test_next_size() {
    let mut rng = make_rng(42);
    let btspec = weighted_btree();
    for expected in [0u64, 0, 410, 0, 1, 13, 0] {
        match next_size(&mut rng, &btspec, "btree", 1000) {
            None => assert!(false),
            Some(size) => assert_eq!(size, expected),
        };
    }
}

#[test]
fn test_search_size() {
    let rng = make_rng(42);
    let btspec = weighted_btree();
    match search_size(&rng, &btspec, "btree", 1000, 10000, 1000) {
        None => assert!(false),
        Some((size, mut rng)) => {
            assert_eq!(size, 1621);
            match next_size(&mut rng, &btspec, "btree", 10000) {
                None => assert!(false),
                Some(size) => assert_eq!(size, 1621),
            };
        }
    };
}
