use evolve::config::{ConfigError, MutationRate};
use evolve::dna_string::DnaString;
use evolve::genotype::Dna;
use evolve::rng::new_rng;

fn dna(genes: &str, target: &str) -> DnaString {
    DnaString::from_bytes(genes.as_bytes().to_vec(), target.as_bytes().to_vec()).unwrap()
}

fn is_ascii_alnum(b: u8) -> bool {
    (65..=90).contains(&b) || (97..=122).contains(&b) || (48..=57).contains(&b)
}

#[test]
fn from_bytes_rejects_empty_target() {
    let r = DnaString::from_bytes(Vec::new(), Vec::new());
    assert_eq!(r.unwrap_err(), ConfigError::EmptyTarget);
}

#[test]
fn from_bytes_rejects_shape_mismatch() {
    let r = DnaString::from_bytes(b"ABC".to_vec(), b"AB".to_vec());
    assert_eq!(r.unwrap_err(), ConfigError::ShapeMismatch);
}

#[test]
fn random_for_target_rejects_empty_target() {
    let mut rng = new_rng();
    let r = DnaString::random_for_target(Vec::new(), &mut rng);
    assert_eq!(r.unwrap_err(), ConfigError::EmptyTarget);
}

#[test]
fn random_for_target_draws_symbols_of_the_domain() {
    let mut rng = new_rng();
    let d = DnaString::random_for_target(b"Target123".to_vec(), &mut rng).unwrap();
    assert_eq!(d.bytes().len(), 9);
    assert_eq!(d.target_bytes().as_slice(), b"Target123");
    assert!(d.bytes().iter().all(|&b| is_ascii_alnum(b)));
}

#[test]
fn fitness_counts_matching_positions() {
    assert_eq!(dna("AB", "AB").fitness(), 2);
    assert_eq!(dna("XY", "AB").fitness(), 0);
    assert_eq!(dna("AX", "AB").fitness(), 1);
    assert_eq!(dna("Target123", "Target123").fitness(), 9);
    assert_eq!(dna("TargetXYZ", "Target123").fitness(), 6);
    assert_eq!(dna("AB", "AB").fitness_scale(), 2);
}

#[test]
fn fitness_stays_in_range() {
    let mut rng = new_rng();
    let rate = MutationRate::new(1, 2).unwrap();
    for _ in 0..50 {
        let d = DnaString::random_for_target(b"Target123".to_vec(), &mut rng).unwrap();
        assert!(d.fitness() <= d.fitness_scale());
        let other = d.random(&mut rng);
        let mut child = d.crossover(&other);
        assert!(child.fitness() <= child.fitness_scale());
        child.mutate(&mut rng, &rate);
        assert!(child.fitness() <= child.fitness_scale());
    }
}

#[test]
fn crossover_splices_at_the_midpoint() {
    // Even length: the child takes the first half from the left parent.
    let child = dna("ABCD", "QRST").crossover(&dna("WXYZ", "QRST"));
    assert_eq!(child.bytes().as_slice(), b"ABYZ");
    // Odd length: integer division puts the boundary unit in the right half.
    let child = dna("ABC", "QRS").crossover(&dna("XYZ", "QRS"));
    assert_eq!(child.bytes().as_slice(), b"AYZ");
    // Length one: the child is the right parent.
    let child = dna("A", "Q").crossover(&dna("Z", "Q"));
    assert_eq!(child.bytes().as_slice(), b"Z");
}

#[test]
fn crossover_of_identical_parents_is_identical() {
    let a = dna("Hello1", "Wor1dX");
    let b = dna("Hello1", "Wor1dX");
    let child = a.crossover(&b);
    assert_eq!(child.bytes().as_slice(), b"Hello1");
    assert_eq!(child.target_bytes().as_slice(), b"Wor1dX");
}

#[test]
fn mutation_rate_zero_changes_nothing() {
    let mut rng = new_rng();
    let rate = MutationRate::new(0, 1).unwrap();
    let mut d = dna("Hello1", "Target");
    for _ in 0..20 {
        d.mutate(&mut rng, &rate);
        assert_eq!(d.bytes().as_slice(), b"Hello1");
        assert_eq!(d.target_bytes().as_slice(), b"Target");
    }
}

#[test]
fn mutation_rate_one_replaces_every_unit() {
    let mut rng = new_rng();
    let rate = MutationRate::new(1, 1).unwrap();
    let original = b"########";
    let trials: usize = 200;
    let mut matches_original = [0usize; 8];
    let mut seen = vec![std::collections::HashSet::new(); 8];
    for _ in 0..trials {
        let mut d = DnaString::from_bytes(original.to_vec(), b"Target12".to_vec()).unwrap();
        d.mutate(&mut rng, &rate);
        for (pos, &b) in d.bytes().iter().enumerate() {
            // Every unit was freshly drawn from the symbol domain.
            assert!(is_ascii_alnum(b));
            if b == original[pos] {
                matches_original[pos] += 1;
            }
            seen[pos].insert(b);
        }
    }
    for pos in 0..8 {
        // '#' is outside the domain, so a fresh draw never reproduces it.
        assert_eq!(matches_original[pos], 0);
        // The draws vary: far more than one value shows up per position.
        assert!(seen[pos].len() >= 5);
    }
}

#[test]
fn duplicate_copies_the_genotype() {
    let d = dna("AX", "AB");
    let copy = d.duplicate();
    assert_eq!(copy.bytes().as_slice(), b"AX");
    assert_eq!(copy.target_bytes().as_slice(), b"AB");
    assert_eq!(copy.fitness(), d.fitness());
}

#[test]
fn compatible_requires_one_target_and_shape() {
    assert!(dna("AX", "AB").compatible(&dna("ZZ", "AB")));
    assert!(!dna("AX", "AB").compatible(&dna("AX", "XY")));
    assert!(!dna("AX", "AB").compatible(&dna("AXY", "ABC")));
}
