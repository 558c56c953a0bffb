//! A fixed-length symbol-sequence genotype, scored against a fixed target
//! sequence: fitness is the exact ratio of matching positions.

use vstd::prelude::*;
use vstd::pervasive::VecAdditionalExecFns;

use crate::config::{ConfigError, MutationRate};
use crate::genotype::Dna;
use crate::rng::{is_alnum, rand_alnum, rand_below};

verus! {

/// How many of the first `n` positions of `g` match `t`.
pub open spec fn match_count(g: Seq<u8>, t: Seq<u8>, n: int) -> int
    decreases n,
{
    if n <= 0 {
        0
    } else {
        match_count(g, t, n - 1) + if g[n - 1] == t[n - 1] {
            1int
        } else {
            0int
        }
    }
}

/// The match count over `n` positions lies between `0` and `n`.
pub proof fn lemma_match_count_bounds(g: Seq<u8>, t: Seq<u8>, n: int)
    requires
        0 <= n,
    ensures
        0 <= match_count(g, t, n) <= n,
    decreases n,
{
    if n > 0 {
        lemma_match_count_bounds(g, t, n - 1);
    }
}

/// The match count over `n` positions is exactly `n` when, and only when,
/// every one of those positions matches.
pub proof fn lemma_match_count_exact(g: Seq<u8>, t: Seq<u8>, n: int)
    requires
        0 <= n,
    ensures
        match_count(g, t, n) == n <==> (forall|i: int| 0 <= i < n ==> g[i] == t[i]),
    decreases n,
{
    if n > 0 {
        lemma_match_count_exact(g, t, n - 1);
        lemma_match_count_bounds(g, t, n - 1);
    }
}

/// One candidate symbol sequence (`genes`) and the sequence it is scored
/// against (`target`); well-formedness keeps the two the same, nonzero,
/// length.
#[derive(Debug)]
pub struct DnaString {
    genes: Vec<u8>,
    target: Vec<u8>,
}

/// Copies a byte vector element by element.
fn copy_bytes(v: &Vec<u8>) -> (r: Vec<u8>)
    ensures
        r@ == v@,
{
    let mut r: Vec<u8> = Vec::new();
    for i in 0..v.len()
        invariant
            r@.len() == i,
            forall|k: int| 0 <= k < i ==> r@[k] == v@[k],
    {
        r.push(v[i]);
    }
    proof {
        assert(r@ =~= v@);
    }
    r
}

/// Compares two byte vectors element by element.
fn eq_bytes(a: &Vec<u8>, b: &Vec<u8>) -> (r: bool)
    ensures
        r == (a@ == b@),
{
    if a.len() != b.len() {
        return false;
    }
    for i in 0..a.len()
        invariant
            a@.len() == b@.len(),
            forall|k: int| 0 <= k < i ==> a@[k] == b@[k],
    {
        if a[i] != b[i] {
            return false;
        }
    }
    proof {
        assert(a@ =~= b@);
    }
    true
}

/// Draws `n` fresh random symbols.
fn random_genes(n: usize, rng: &mut rand::rngs::ThreadRng) -> (r: Vec<u8>)
    ensures
        r@.len() == n,
        forall|i: int| 0 <= i < n ==> is_alnum(r@[i]),
{
    let mut r: Vec<u8> = Vec::new();
    for i in 0..n
        invariant
            r@.len() == i,
            forall|k: int| 0 <= k < i ==> is_alnum(r@[k]),
    {
        let b = rand_alnum(rng);
        r.push(b);
    }
    r
}

impl DnaString {
    /// The symbol sequence of this candidate.
    pub closed spec fn genes(&self) -> Seq<u8> {
        self.genes@
    }

    /// The sequence the candidate is scored against.
    pub closed spec fn target(&self) -> Seq<u8> {
        self.target@
    }

    /// Builds a genotype from explicit symbols; rejects an empty target and
    /// a shape mismatch, never truncates or pads.
    pub fn from_bytes(genes: Vec<u8>, target: Vec<u8>) -> (r: Result<DnaString, ConfigError>)
        ensures
            r is Ok <==> (target@.len() >= 1 && genes@.len() == target@.len()),
            r matches Ok(d) ==> d.wf() && d.genes() == genes@ && d.target() == target@,
            target@.len() == 0 ==> r == Err::<DnaString, ConfigError>(ConfigError::EmptyTarget),
            target@.len() >= 1 && genes@.len() != target@.len() ==> r == Err::<
                DnaString,
                ConfigError,
            >(ConfigError::ShapeMismatch),
    {
        if target.len() == 0 {
            return Err(ConfigError::EmptyTarget);
        }
        if genes.len() != target.len() {
            return Err(ConfigError::ShapeMismatch);
        }
        Ok(DnaString { genes, target })
    }

    /// Builds a uniformly random genotype for the given target; rejects an
    /// empty target.
    pub fn random_for_target(target: Vec<u8>, rng: &mut rand::rngs::ThreadRng) -> (r: Result<
        DnaString,
        ConfigError,
    >)
        ensures
            r is Ok <==> target@.len() >= 1,
            r matches Ok(d) ==> d.wf() && d.target() == target@ && forall|i: int|
                0 <= i < d.genes().len() ==> is_alnum(d.genes()[i]),
            target@.len() == 0 ==> r == Err::<DnaString, ConfigError>(ConfigError::EmptyTarget),
    {
        if target.len() == 0 {
            return Err(ConfigError::EmptyTarget);
        }
        let genes = random_genes(target.len(), rng);
        Ok(DnaString { genes, target })
    }

    /// The symbols, for observation.
    pub fn bytes(&self) -> (r: &Vec<u8>)
        ensures
            r@ == self.genes(),
    {
        &self.genes
    }

    /// The target, for observation.
    pub fn target_bytes(&self) -> (r: &Vec<u8>)
        ensures
            r@ == self.target(),
    {
        &self.target
    }

    /// Fitness reaches the score of an exact match when, and only when, the
    /// symbols equal the target.
    pub proof fn lemma_perfect_fitness(&self)
        requires
            self.wf(),
        ensures
            self.fitness_of() == self.max_fitness() <==> self.genes() == self.target(),
    {
        lemma_match_count_exact(self.genes(), self.target(), self.genes().len() as int);
        if forall|i: int| 0 <= i < self.genes().len() ==> self.genes()[i] == self.target()[i] {
            assert(self.genes() =~= self.target());
        }
    }
}

impl Dna for DnaString {
    open spec fn wf(&self) -> bool {
        self.target().len() >= 1 && self.genes().len() == self.target().len()
    }

    open spec fn compat(&self, other: &Self) -> bool {
        self.target() == other.target() && self.genes().len() == other.genes().len()
    }

    open spec fn same(&self, other: &Self) -> bool {
        self.genes() == other.genes() && self.target() == other.target()
    }

    open spec fn fitness_of(&self) -> int {
        match_count(self.genes(), self.target(), self.genes().len() as int)
    }

    open spec fn max_fitness(&self) -> int {
        self.target().len() as int
    }

    open spec fn is_crossover_of(&self, a: &Self, b: &Self) -> bool {
        &&& self.target() == a.target()
        &&& self.genes() == a.genes().subrange(0, a.genes().len() as int / 2) + b.genes().subrange(
            a.genes().len() as int / 2,
            b.genes().len() as int,
        )
    }

    open spec fn is_mutation_of(&self, orig: &Self, rate: MutationRate) -> bool {
        &&& self.target() == orig.target()
        &&& self.genes().len() == orig.genes().len()
        &&& forall|i: int|
            0 <= i < self.genes().len() ==> #[trigger] self.genes()[i] == orig.genes()[i]
                || is_alnum(self.genes()[i])
        &&& (rate.num() == 0 ==> self.genes() == orig.genes())
        &&& (rate.num() == rate.den() ==> forall|i: int|
            0 <= i < self.genes().len() ==> is_alnum(#[trigger] self.genes()[i]))
    }

    proof fn lemma_fitness_in_range(&self) {
        lemma_match_count_bounds(self.genes(), self.target(), self.genes().len() as int);
    }

    proof fn lemma_compat_refl(&self) {
    }

    proof fn lemma_compat_sym(&self, other: &Self) {
    }

    proof fn lemma_compat_trans(&self, b: &Self, c: &Self) {
    }

    proof fn lemma_same_refl(&self) {
    }

    proof fn lemma_same_trans(&self, b: &Self, c: &Self) {
    }

    proof fn lemma_same_fitness(&self, other: &Self) {
    }

    fn random(&self, rng: &mut rand::rngs::ThreadRng) -> (r: Self) {
        let genes = random_genes(self.target.len(), rng);
        let target = copy_bytes(&self.target);
        DnaString { genes, target }
    }

    fn fitness(&self) -> (r: u64) {
        let n = self.genes.len();
        let mut count: u64 = 0;
        for i in 0..n
            invariant
                self.wf(),
                n == self.genes().len(),
                count <= i,
                count as int == match_count(self.genes(), self.target(), i as int),
        {
            if self.genes[i] == self.target[i] {
                count = count + 1;
            }
        }
        count
    }

    fn fitness_scale(&self) -> (r: u64) {
        self.target.len() as u64
    }

    fn duplicate(&self) -> (r: Self) {
        let genes = copy_bytes(&self.genes);
        let target = copy_bytes(&self.target);
        DnaString { genes, target }
    }

    fn compatible(&self, other: &Self) -> (r: bool) {
        eq_bytes(&self.target, &other.target) && self.genes.len() == other.genes.len()
    }

    fn valid(&self) -> (r: bool) {
        self.target.len() >= 1 && self.genes.len() == self.target.len()
    }

    fn crossover(&self, other: &Self) -> (r: Self) {
        let n = self.genes.len();
        let half = n / 2;
        let mut genes: Vec<u8> = Vec::new();
        for i in 0..half
            invariant
                half == n / 2,
                n == self.genes().len(),
                genes@.len() == i,
                forall|k: int| 0 <= k < i ==> genes@[k] == self.genes()[k],
        {
            genes.push(self.genes[i]);
        }
        for i in half..n
            invariant
                half == n / 2,
                n == self.genes().len(),
                n == other.genes().len(),
                genes@.len() == i,
                forall|k: int| 0 <= k < half ==> genes@[k] == self.genes()[k],
                forall|k: int| half <= k < i ==> genes@[k] == other.genes()[k],
        {
            genes.push(other.genes[i]);
        }
        let target = copy_bytes(&self.target);
        let child = DnaString { genes, target };
        proof {
            assert(child.genes() =~= self.genes().subrange(0, n as int / 2) + other.genes()
                .subrange(n as int / 2, n as int));
            if self.same(other) {
                assert(child.genes() =~= self.genes());
            }
        }
        child
    }

    fn mutate(&mut self, rng: &mut rand::rngs::ThreadRng, rate: &MutationRate) {
        let n = self.genes.len();
        let num = rate.numerator();
        let den = rate.denominator();
        for i in 0..n
            invariant
                rate.wf(),
                num as int == rate.num(),
                den as int == rate.den(),
                n == self.genes().len(),
                self.genes().len() == old(self).genes().len(),
                self.target() == old(self).target(),
                old(self).wf(),
                forall|k: int|
                    0 <= k < i ==> #[trigger] self.genes()[k] == old(self).genes()[k] || is_alnum(
                        self.genes()[k],
                    ),
                forall|k: int| i <= k < n ==> self.genes()[k] == old(self).genes()[k],
                num == 0 ==> self.genes() == old(self).genes(),
                num == den ==> forall|k: int| 0 <= k < i ==> is_alnum(#[trigger] self.genes()[k]),
        {
            let draw = rand_below(rng, den as u128);
            if draw < num as u128 {
                let fresh_symbol = rand_alnum(rng);
                self.genes.set(i, fresh_symbol);
            }
        }
    }
}

} // verus!
