use evolve::config::{ConfigError, MutationRate};
use evolve::dna_string::DnaString;
use evolve::genotype::Dna;
use evolve::population::{Population, StepError};

fn dna(genes: &str, target: &str) -> DnaString {
    DnaString::from_bytes(genes.as_bytes().to_vec(), target.as_bytes().to_vec()).unwrap()
}

fn seeded(genes: &[&str], target: &str, num: u64, den: u64) -> Population<DnaString> {
    let members: Vec<DnaString> = genes.iter().map(|g| dna(g, target)).collect();
    Population::from_members(members, MutationRate::new(num, den).unwrap()).unwrap()
}

#[test]
fn new_rejects_zero_size() {
    let proto = dna("AB", "AB");
    let rate = MutationRate::new(0, 1).unwrap();
    let r = Population::new(&proto, 0, rate);
    assert_eq!(r.unwrap_err(), ConfigError::ZeroPopulationSize);
}

#[test]
fn new_fills_the_population_with_random_members() {
    let proto = dna("XX", "AB");
    let rate = MutationRate::new(1, 100).unwrap();
    let p = Population::new(&proto, 10, rate).unwrap();
    assert_eq!(p.len(), 10);
    assert_eq!(p.pool_len(), 0);
    assert_eq!(p.mutation_rate().numerator(), 1);
    assert_eq!(p.mutation_rate().denominator(), 100);
    for i in 0..10 {
        let m = p.member(i);
        assert_eq!(m.target_bytes().as_slice(), b"AB");
        assert_eq!(m.bytes().len(), 2);
    }
}

#[test]
fn from_members_rejects_an_empty_collection() {
    let rate = MutationRate::new(0, 1).unwrap();
    let r = Population::<DnaString>::from_members(Vec::new(), rate);
    assert_eq!(r.unwrap_err(), ConfigError::ZeroPopulationSize);
}

#[test]
fn from_members_rejects_mixed_shapes() {
    let rate = MutationRate::new(0, 1).unwrap();
    let members = vec![dna("AB", "AB"), dna("XYZ", "ABC")];
    let r = Population::from_members(members, rate);
    assert_eq!(r.unwrap_err(), ConfigError::ShapeMismatch);
}

#[test]
fn select_keeps_population_and_pool_at_size_n() {
    let mut p = seeded(&["AB", "XY", "AB", "XX"], "AB", 0, 1);
    for _ in 0..5 {
        p.select();
        assert_eq!(p.len(), 4);
        assert_eq!(p.pool_len(), 4);
    }
}

#[test]
fn select_survives_an_all_zero_fitness_population() {
    // Every member scores zero: selection falls back to uniform weights
    // and still fills the pool.
    let mut p = seeded(&["XY", "YX", "ZZ"], "AB", 0, 1);
    p.select();
    assert_eq!(p.len(), 3);
    assert_eq!(p.pool_len(), 3);
    for i in 0..3 {
        assert_eq!(p.pool_member(i).fitness(), 0);
    }
}

#[test]
fn select_gives_zero_weight_to_zero_fitness_members() {
    // Target "AB", members "AB","XY","AB","XX": the zero-fitness members
    // get zero weight mass, so the pool holds only exact matches.
    let mut p = seeded(&["AB", "XY", "AB", "XX"], "AB", 0, 1);
    p.select();
    assert_eq!(p.pool_len(), 4);
    for i in 0..4 {
        let m = p.pool_member(i);
        assert_eq!(m.bytes().as_slice(), b"AB");
        assert_eq!(m.fitness(), 2);
    }
    // The driver would terminate at once: best is an exact match.
    let best = p.best();
    assert_eq!(best.bytes().as_slice(), b"AB");
    assert_eq!(best.fitness(), best.fitness_scale());
}

#[test]
fn generate_before_select_is_refused() {
    let mut p = seeded(&["AB", "XY"], "AB", 0, 1);
    assert_eq!(p.generate().unwrap_err(), StepError::PoolNotReady);
    // Nothing changed: the members are still the seeds.
    assert_eq!(p.member(0).bytes().as_slice(), b"AB");
    assert_eq!(p.member(1).bytes().as_slice(), b"XY");
    assert_eq!(p.pool_len(), 0);
}

#[test]
fn generate_replaces_the_population_with_offspring() {
    let mut p = seeded(&["AB", "AX", "XB", "XX"], "AB", 1, 10);
    for _ in 0..10 {
        p.select();
        p.generate().unwrap();
        assert_eq!(p.len(), 4);
        assert_eq!(p.pool_len(), 4);
        for i in 0..4 {
            let m = p.member(i);
            assert_eq!(m.target_bytes().as_slice(), b"AB");
            assert_eq!(m.bytes().len(), 2);
            assert!(m.fitness() <= m.fitness_scale());
        }
    }
}

#[test]
fn best_returns_a_maximal_member() {
    let p = seeded(&["AX", "AB", "XX"], "AB", 0, 1);
    let best = p.best();
    assert_eq!(best.bytes().as_slice(), b"AB");
    assert_eq!(best.fitness(), 2);
}

#[test]
fn best_breaks_ties_toward_the_highest_index() {
    // "AX" and "XB" both score 1; the later one wins the tie.
    let p = seeded(&["AX", "XB", "XX"], "AB", 0, 1);
    assert_eq!(p.best().bytes().as_slice(), b"XB");
    // A tie of exact matches also favors the last.
    let p = seeded(&["AB", "AB"], "AB", 0, 1);
    assert_eq!(p.best().fitness(), 2);
}

#[test]
fn single_member_population_never_changes_at_rate_zero() {
    // N = 1: crossover combines the only pool slot with itself, and at
    // mutation rate zero the child is that genotype unchanged, so the
    // population is the same after every generation. The driver would
    // terminate only if the seed already matched the target.
    let mut p = seeded(&["QRST"], "Targ", 0, 1);
    for _ in 0..10 {
        p.select();
        p.generate().unwrap();
        assert_eq!(p.len(), 1);
        assert_eq!(p.member(0).bytes().as_slice(), b"QRST");
    }
    assert!(p.best().fitness() < p.best().fitness_scale());
    // A seed that already matches terminates the driver at once.
    let mut p = seeded(&["Targ"], "Targ", 0, 1);
    p.select();
    p.generate().unwrap();
    let best = p.best();
    assert_eq!(best.bytes().as_slice(), b"Targ");
    assert_eq!(best.fitness(), best.fitness_scale());
}

#[test]
fn mutation_rate_zero_population_preserves_gene_material() {
    // With rate 0 every member of each new generation is spliced out of
    // pool parents, so only seed symbols can appear at each position.
    let mut p = seeded(&["AB", "CD"], "AB", 0, 1);
    for _ in 0..10 {
        p.select();
        p.generate().unwrap();
        for i in 0..2 {
            let m = p.member(i);
            let g = m.bytes();
            assert!(g[0] == b'A' || g[0] == b'C');
            assert!(g[1] == b'B' || g[1] == b'D');
        }
    }
}

#[test]
fn evolution_reaches_a_short_target() {
    // End to end: with a positive mutation rate the engine finds a short
    // target in a bounded number of generations almost surely.
    let proto = dna("AAA", "GA1");
    let rate = MutationRate::new(5, 100).unwrap();
    let mut p = Population::new(&proto, 50, rate).unwrap();
    let mut found = false;
    for _ in 0..5000 {
        p.select();
        p.generate().unwrap();
        let best = p.best();
        if best.fitness() == best.fitness_scale() {
            assert_eq!(best.bytes().as_slice(), b"GA1");
            found = true;
            break;
        }
    }
    assert!(found);
}
