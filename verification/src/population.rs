//! The population lifecycle: a fixed-size collection of genotypes and a
//! same-size mating pool, advanced one generation at a time by
//! fitness-proportionate selection, pairwise recombination and mutation.

use vstd::prelude::*;
use vstd::pervasive::VecAdditionalExecFns;

use crate::config::{ConfigError, MutationRate};
use crate::genotype::{is_offspring, Dna};
use crate::rng::{new_rng, rand_below};

verus! {

/// Why a generation step was refused.
#[derive(Clone, Copy, Debug, PartialEq, Eq, Structural)]
pub enum StepError {
    /// `generate` was called before any `select`: the mating pool is empty.
    PoolNotReady,
}

/// The sum of the fitness of the first `k` genotypes of `s`.
pub open spec fn fitness_sum<T: Dna>(s: Seq<T>, k: int) -> int
    decreases k,
{
    if k <= 0 {
        0
    } else {
        fitness_sum(s, k - 1) + s[k - 1].fitness_of()
    }
}

/// The total fitness of a collection of genotypes.
pub open spec fn total_fitness<T: Dna>(s: Seq<T>) -> int {
    fitness_sum(s, s.len() as int)
}

/// `child` could be the offspring of two `pool` parents at distinct
/// positions (when the pool holds more than one), mutated at `rate`.
pub open spec fn offspring_slot<T: Dna>(child: T, pool: Seq<T>, rate: MutationRate) -> bool {
    exists|a: int, b: int|
        #![trigger pool[a], pool[b]]
        (0 <= a < pool.len() && 0 <= b < pool.len() && (pool.len() > 1 ==> a != b)
            && is_offspring(child, pool[a], pool[b], rate))
}

/// Every member of `members` could be the offspring of two `pool` parents
/// at distinct positions (when the pool holds more than one), mutated at
/// `rate`.
pub open spec fn offspring_of_pool<T: Dna>(members: Seq<T>, pool: Seq<T>, rate: MutationRate) -> bool {
    forall|i: int|
        #![trigger members[i]]
        0 <= i < members.len() ==> offspring_slot(members[i], pool, rate)
}

/// The sum of the first `k` selection weights of `s`.
pub open spec fn prefix_weight(s: Seq<u64>, k: int) -> int
    decreases k,
{
    if k <= 0 {
        0
    } else {
        prefix_weight(s, k - 1) + s[k - 1]
    }
}

/// A prefix of weights sums to a nonnegative value.
pub proof fn lemma_prefix_weight_nonneg(s: Seq<u64>, k: int)
    ensures
        0 <= prefix_weight(s, k),
    decreases k,
{
    if k > 0 {
        lemma_prefix_weight_nonneg(s, k - 1);
    }
}

/// Weight prefix sums grow with the prefix.
pub proof fn lemma_prefix_weight_mono(s: Seq<u64>, i: int, j: int)
    requires
        i <= j,
    ensures
        prefix_weight(s, i) <= prefix_weight(s, j),
    decreases j,
{
    if i < j && j > 0 {
        lemma_prefix_weight_mono(s, i, j - 1);
    }
}

/// When the first `k` weights are the fitness values of the first `k`
/// genotypes, the two prefix sums agree.
pub proof fn lemma_prefix_weight_is_fitness_sum<T: Dna>(s: Seq<T>, w: Seq<u64>, k: int)
    requires
        forall|m: int| 0 <= m < k ==> w[m] as int == (#[trigger] s[m]).fitness_of(),
    ensures
        prefix_weight(w, k) == fitness_sum(s, k),
    decreases k,
{
    if k > 0 {
        lemma_prefix_weight_is_fitness_sum(s, w, k - 1);
    }
}

/// Every weight prefix sum is bounded by the prefix length times the largest
/// machine weight.
pub proof fn lemma_prefix_weight_bound(s: Seq<u64>, k: int)
    requires
        0 <= k,
    ensures
        prefix_weight(s, k) <= k * 18446744073709551615,
    decreases k,
{
    if k > 0 {
        lemma_prefix_weight_bound(s, k - 1);
    }
}

/// Finds the slot that the draw `x` lands in on the cumulative weight line:
/// the unique `idx` with `prefix_weight(idx) <= x < prefix_weight(idx + 1)`.
/// A zero-weight slot has an empty interval and is never returned.
fn pick_weighted(weights: &Vec<u64>, x: u128) -> (idx: usize)
    requires
        1 <= weights@.len(),
        x < prefix_weight(weights@, weights@.len() as int),
        prefix_weight(weights@, weights@.len() as int) <= u128::MAX,
    ensures
        idx < weights@.len(),
        weights@[idx as int] > 0,
        prefix_weight(weights@, idx as int) <= x < prefix_weight(weights@, idx as int + 1),
{
    let n = weights.len();
    let mut acc: u128 = 0;
    for i in 0..n
        invariant
            n == weights@.len(),
            x < prefix_weight(weights@, n as int),
            prefix_weight(weights@, n as int) <= u128::MAX,
            acc as int == prefix_weight(weights@, i as int),
            prefix_weight(weights@, i as int) <= x,
    {
        proof {
            lemma_prefix_weight_mono(weights@, i as int + 1, n as int);
            lemma_prefix_weight_nonneg(weights@, i as int);
        }
        let next = acc + weights[i] as u128;
        if x < next {
            return i;
        }
        acc = next;
    }
    // The draw lies below the total weight, so some slot took it in.
    proof {
        assert(false);
    }
    0
}

/// A fixed-size collection of genotypes, its same-size mating pool, the
/// per-unit mutation rate, and the one randomness source the population owns.
#[derive(Debug)]
pub struct Population<T: Dna> {
    population: Vec<T>,
    mating_pool: Vec<T>,
    mutation_rate: MutationRate,
    rng: rand::rngs::ThreadRng,
}

impl<T: Dna> Population<T> {
    /// The current generation of genotypes.
    pub closed spec fn members(&self) -> Seq<T> {
        self.population@
    }

    /// The mating pool: the fitness-weighted resampling drawn by the last
    /// `select`, empty before the first.
    pub closed spec fn pool(&self) -> Seq<T> {
        self.mating_pool@
    }

    /// The configured per-unit mutation rate.
    pub closed spec fn rate(&self) -> MutationRate {
        self.mutation_rate
    }

    /// The population invariant: at least one member, a valid rate, every
    /// held genotype well formed, all of one shape and target, and a pool
    /// that is either empty or exactly population-sized.
    pub open spec fn wf(&self) -> bool {
        &&& 1 <= self.members().len()
        &&& self.rate().wf()
        &&& forall|i: int| 0 <= i < self.members().len() ==> (#[trigger] self.members()[i]).wf()
        &&& forall|i: int, j: int|
            0 <= i < self.members().len() && 0 <= j < self.members().len()
                ==> #[trigger] self.members()[i].compat(&self.members()[j])
        &&& (self.pool().len() == 0 || self.pool().len() == self.members().len())
        &&& forall|i: int| 0 <= i < self.pool().len() ==> (#[trigger] self.pool()[i]).wf()
        &&& forall|i: int, j: int|
            0 <= i < self.pool().len() && 0 <= j < self.members().len()
                ==> #[trigger] self.pool()[i].compat(&self.members()[j])
        &&& forall|i: int, j: int|
            0 <= i < self.pool().len() && 0 <= j < self.pool().len()
                ==> #[trigger] self.pool()[i].compat(&self.pool()[j])
    }

    /// Builds a population of `size` uniformly random genotypes of the
    /// prototype's shape and target, with an empty mating pool; a zero size
    /// is rejected.
    pub fn new(prototype: &T, size: usize, rate: MutationRate) -> (r: Result<
        Population<T>,
        ConfigError,
    >)
        requires
            prototype.wf(),
            rate.wf(),
        ensures
            r is Ok <==> 1 <= size,
            size == 0 ==> r == Err::<Population<T>, ConfigError>(ConfigError::ZeroPopulationSize),
            r matches Ok(p) ==> p.wf() && p.members().len() == size && p.pool().len() == 0
                && p.rate() == rate && forall|i: int|
                0 <= i < size ==> (#[trigger] p.members()[i]).compat(prototype),
    {
        if size == 0 {
            return Err(ConfigError::ZeroPopulationSize);
        }
        let mut rng = new_rng();
        let mut population: Vec<T> = Vec::new();
        for i in 0..size
            invariant
                prototype.wf(),
                population@.len() == i,
                forall|k: int| 0 <= k < i ==> (#[trigger] population@[k]).wf(),
                forall|k: int| 0 <= k < i ==> (#[trigger] population@[k]).compat(prototype),
        {
            let g = prototype.random(&mut rng);
            population.push(g);
        }
        proof {
            assert forall|i: int, j: int|
                0 <= i < population@.len() && 0 <= j < population@.len() implies #[trigger] population@[i].compat(
                &population@[j],
            ) by {
                population@[j].lemma_compat_sym(prototype);
                population@[i].lemma_compat_trans(prototype, &population@[j]);
            }
        }
        Ok(Population { population, mating_pool: Vec::new(), mutation_rate: rate, rng })
    }

    /// Builds a population from explicitly supplied genotypes, with an empty
    /// mating pool; rejects an empty collection, and any member that is
    /// malformed or of another shape or target than the rest.
    pub fn from_members(members: Vec<T>, rate: MutationRate) -> (r: Result<
        Population<T>,
        ConfigError,
    >)
        requires
            rate.wf(),
        ensures
            r is Ok <==> (1 <= members@.len() && (forall|i: int|
                0 <= i < members@.len() ==> (#[trigger] members@[i]).wf()) && (forall|i: int, j: int|
                0 <= i < members@.len() && 0 <= j < members@.len()
                    ==> #[trigger] members@[i].compat(&members@[j]))),
            r matches Ok(p) ==> p.wf() && p.members() == members@ && p.pool().len() == 0
                && p.rate() == rate,
            members@.len() == 0 ==> r == Err::<Population<T>, ConfigError>(
                ConfigError::ZeroPopulationSize,
            ),
            r is Err && members@.len() >= 1 ==> r == Err::<Population<T>, ConfigError>(
                ConfigError::ShapeMismatch,
            ),
    {
        let n = members.len();
        if n == 0 {
            return Err(ConfigError::ZeroPopulationSize);
        }
        for i in 0..n
            invariant
                n == members@.len(),
                forall|k: int| 0 <= k < i ==> (#[trigger] members@[k]).wf(),
        {
            if !members[i].valid() {
                return Err(ConfigError::ShapeMismatch);
            }
        }
        for i in 0..n
            invariant
                n == members@.len(),
                forall|k: int| 0 <= k < n ==> (#[trigger] members@[k]).wf(),
                forall|k: int| 0 <= k < i ==> members@[0].compat(&#[trigger] members@[k]),
        {
            if !members[0].compatible(&members[i]) {
                return Err(ConfigError::ShapeMismatch);
            }
        }
        proof {
            assert forall|i: int, j: int|
                0 <= i < members@.len() && 0 <= j < members@.len() implies #[trigger] members@[i].compat(
                &members@[j],
            ) by {
                members@[0].lemma_compat_sym(&members@[i]);
                members@[i].lemma_compat_trans(&members@[0], &members@[j]);
            }
        }
        Ok(Population { population: members, mating_pool: Vec::new(), mutation_rate: rate, rng: new_rng() })
    }

    /// One roulette-wheel selection step: rebuilds the mating pool from
    /// scratch as `N` independent fitness-weighted draws, with replacement,
    /// from the current population. A genotype of zero fitness gets zero
    /// weight, so when any fitness is positive it is never drawn; when every
    /// fitness is zero the draws fall back to uniform weights, and selection
    /// still fills the pool.
    pub fn select(&mut self)
        requires
            old(self).wf(),
        ensures
            final(self).wf(),
            final(self).members() == old(self).members(),
            final(self).rate() == old(self).rate(),
            final(self).pool().len() == old(self).members().len(),
            forall|j: int|
                #![trigger final(self).pool()[j]]
                0 <= j < final(self).pool().len() ==> exists|i: int|
                    #![trigger old(self).members()[i]]
                    (0 <= i < old(self).members().len() && final(self).pool()[j].same(
                        &old(self).members()[i],
                    ) && final(self).pool()[j].fitness_of() == old(self).members()[i].fitness_of()),
            total_fitness(old(self).members()) > 0 ==> forall|j: int|
                0 <= j < final(self).pool().len() ==> (#[trigger] final(self).pool()[j]).fitness_of()
                    > 0,
    {
        let n = self.population.len();
        let mut weights: Vec<u64> = Vec::new();
        for i in 0..n
            invariant
                self.population@ == old(self).population@,
                self.mating_pool@ == old(self).mating_pool@,
                self.mutation_rate == old(self).mutation_rate,
                self.wf(),
                n == self.population@.len(),
                weights@.len() == i,
                forall|k: int|
                    0 <= k < i ==> weights@[k] as int == (#[trigger] self.population@[k]).fitness_of(),
        {
            let f = self.population[i].fitness();
            weights.push(f);
        }
        let mut total: u128 = 0;
        for i in 0..n
            invariant
                self.population@ == old(self).population@,
                self.mating_pool@ == old(self).mating_pool@,
                self.mutation_rate == old(self).mutation_rate,
                self.wf(),
                n == self.population@.len(),
                n == weights@.len(),
                forall|k: int|
                    0 <= k < n ==> weights@[k] as int == (#[trigger] self.population@[k]).fitness_of(),
                total as int == prefix_weight(weights@, i as int),
        {
            proof {
                lemma_prefix_weight_bound(weights@, i as int + 1);
            }
            total = total + weights[i] as u128;
        }
        proof {
            lemma_prefix_weight_is_fitness_sum(self.population@, weights@, n as int);
        }
        let mut pool: Vec<T> = Vec::new();
        let ghost mut picks: Seq<int> = Seq::<int>::empty();
        if total == 0 {
            for j in 0..n
                invariant
                    self.population@ == old(self).population@,
                    self.mating_pool@ == old(self).mating_pool@,
                    self.mutation_rate == old(self).mutation_rate,
                    self.wf(),
                    n == self.population@.len(),
                    pool@.len() == j,
                    picks.len() == j,
                    forall|k: int| 0 <= k < j ==> 0 <= #[trigger] picks[k] < n,
                    forall|k: int|
                        #![trigger pool@[k]]
                        0 <= k < j ==> pool@[k].wf() && pool@[k].same(&self.population@[picks[k]])
                            && pool@[k].fitness_of() == self.population@[picks[k]].fitness_of(),
                    forall|k: int, m: int|
                        0 <= k < j && 0 <= m < n ==> #[trigger] pool@[k].compat(
                            &self.population@[m],
                        ),
            {
                let idx = rand_below(&mut self.rng, n as u128) as usize;
                let c = self.population[idx].duplicate();
                proof {
                    assert forall|m: int| 0 <= m < n implies c.compat(&self.population@[m]) by {
                        c.lemma_compat_trans(&self.population@[idx as int], &self.population@[m]);
                    }
                    picks = picks.push(idx as int);
                }
                pool.push(c);
            }
        } else {
            for j in 0..n
                invariant
                    self.population@ == old(self).population@,
                    self.mating_pool@ == old(self).mating_pool@,
                    self.mutation_rate == old(self).mutation_rate,
                    self.wf(),
                    n == self.population@.len(),
                    n == weights@.len(),
                    forall|k: int|
                        0 <= k < n ==> weights@[k] as int == (
                        #[trigger] self.population@[k]).fitness_of(),
                    1 <= total,
                    total as int == prefix_weight(weights@, n as int),
                    pool@.len() == j,
                    picks.len() == j,
                    forall|k: int| 0 <= k < j ==> 0 <= #[trigger] picks[k] < n,
                    forall|k: int|
                        #![trigger pool@[k]]
                        0 <= k < j ==> pool@[k].wf() && pool@[k].same(&self.population@[picks[k]])
                            && pool@[k].fitness_of() == self.population@[picks[k]].fitness_of()
                            && pool@[k].fitness_of() > 0,
                    forall|k: int, m: int|
                        0 <= k < j && 0 <= m < n ==> #[trigger] pool@[k].compat(
                            &self.population@[m],
                        ),
            {
                let x = rand_below(&mut self.rng, total);
                let idx = pick_weighted(&weights, x);
                let c = self.population[idx].duplicate();
                proof {
                    assert forall|m: int| 0 <= m < n implies c.compat(&self.population@[m]) by {
                        c.lemma_compat_trans(&self.population@[idx as int], &self.population@[m]);
                    }
                    picks = picks.push(idx as int);
                }
                pool.push(c);
            }
        }
        self.mating_pool = pool;
        proof {
            assert forall|k: int, l: int|
                0 <= k < self.mating_pool@.len() && 0 <= l
                    < self.mating_pool@.len() implies #[trigger] self.mating_pool@[k].compat(
                &self.mating_pool@[l],
            ) by {
                self.mating_pool@[l].lemma_compat_sym(&self.population@[0]);
                self.mating_pool@[k].lemma_compat_trans(
                    &self.population@[0],
                    &self.mating_pool@[l],
                );
            }
            assert forall|j2: int| #![trigger self.mating_pool@[j2]]
                0 <= j2 < self.mating_pool@.len() implies exists|i: int|
                #![trigger self.population@[i]]
                (0 <= i < self.population@.len() && self.mating_pool@[j2].same(
                    &self.population@[i],
                ) && self.mating_pool@[j2].fitness_of() == self.population@[i].fitness_of()) by {
                let i0 = picks[j2];
                assert(0 <= i0 < self.population@.len() && self.mating_pool@[j2].same(
                    &self.population@[i0],
                ) && self.mating_pool@[j2].fitness_of() == self.population@[i0].fitness_of());
            }
        }
    }

    /// One reproduction step: fills every population slot with a child made
    /// by crossing two mating-pool parents, drawn at distinct positions
    /// whenever the pool holds more than one, and mutating the child at the
    /// configured rate. The prior generation is fully replaced; the call is
    /// refused, with nothing changed, before the first selection, while the
    /// mating pool is still empty.
    pub fn generate(&mut self) -> (r: Result<(), StepError>)
        requires
            old(self).wf(),
        ensures
            final(self).wf(),
            final(self).rate() == old(self).rate(),
            final(self).pool() == old(self).pool(),
            final(self).members().len() == old(self).members().len(),
            old(self).pool().len() == 0 ==> r == Err::<(), StepError>(StepError::PoolNotReady)
                && final(self).members() == old(self).members(),
            old(self).pool().len() >= 1 ==> r == Ok::<(), StepError>(()),
            r is Ok ==> offspring_of_pool(final(self).members(), old(self).pool(), old(self).rate()),
            old(self).members().len() == 1 && old(self).pool().len() == 1 && old(
                self,
            ).rate().num() == 0 ==> final(self).members()[0].same(&old(self).pool()[0]),
    {
        if self.mating_pool.len() == 0 {
            return Err(StepError::PoolNotReady);
        }
        let n = self.population.len();
        let ghost mut pa: Seq<int> = Seq::<int>::empty();
        let ghost mut pb: Seq<int> = Seq::<int>::empty();
        for i in 0..n
            invariant
                old(self).wf(),
                self.mating_pool@ == old(self).mating_pool@,
                self.mutation_rate == old(self).mutation_rate,
                n == old(self).population@.len(),
                self.population@.len() == n,
                1 <= n,
                self.mating_pool@.len() == n,
                pa.len() == i,
                pb.len() == i,
                forall|k: int| 0 <= k < i ==> 0 <= #[trigger] pa[k] < n,
                forall|k: int| 0 <= k < i ==> 0 <= #[trigger] pb[k] < n,
                forall|k: int| #![trigger pa[k]] 0 <= k < i && n > 1 ==> pa[k] != pb[k],
                forall|k: int|
                    #![trigger self.population@[k]]
                    0 <= k < i ==> self.population@[k].wf() && is_offspring(
                        self.population@[k],
                        self.mating_pool@[pa[k]],
                        self.mating_pool@[pb[k]],
                        self.mutation_rate,
                    ) && (n == 1 && self.mutation_rate.num() == 0
                        ==> self.population@[k].same(&self.mating_pool@[0])),
                forall|k: int, m: int|
                    0 <= k < i && 0 <= m < n ==> #[trigger] self.population@[k].compat(
                        &self.mating_pool@[m],
                    ),
                forall|k: int| i <= k < n ==> self.population@[k] == old(self).population@[k],
        {
            let a = rand_below(&mut self.rng, n as u128) as usize;
            let b = if n == 1 {
                a
            } else {
                let t = rand_below(&mut self.rng, (n - 1) as u128) as usize;
                if t >= a {
                    t + 1
                } else {
                    t
                }
            };
            let mut child = self.mating_pool[a].crossover(&self.mating_pool[b]);
            let ghost before_mutation = child;
            child.mutate(&mut self.rng, &self.mutation_rate);
            proof {
                pa = pa.push(a as int);
                pb = pb.push(b as int);
                assert(before_mutation.is_crossover_of(
                    &self.mating_pool@[a as int],
                    &self.mating_pool@[b as int],
                ) && child.is_mutation_of(&before_mutation, self.mutation_rate));
                assert(is_offspring(
                    child,
                    self.mating_pool@[a as int],
                    self.mating_pool@[b as int],
                    self.mutation_rate,
                ));
                if n == 1 && self.mutation_rate.num() == 0 {
                    self.mating_pool@[0].lemma_same_refl();
                    assert(before_mutation.same(&self.mating_pool@[0]));
                    child.lemma_same_trans(&before_mutation, &self.mating_pool@[0]);
                }
                assert forall|m: int| 0 <= m < n implies child.compat(&self.mating_pool@[m]) by {
                    child.lemma_compat_trans(&before_mutation, &self.mating_pool@[a as int]);
                    child.lemma_compat_trans(&self.mating_pool@[a as int], &self.mating_pool@[m]);
                }
            }
            self.population.set(i, child);
        }
        proof {
            assert(old(self).pool() == self.mating_pool@);
            assert forall|i2: int| #![trigger self.population@[i2]]
                0 <= i2 < self.population@.len() implies offspring_slot(
                self.population@[i2],
                old(self).pool(),
                old(self).rate(),
            ) by {
                let a0 = pa[i2];
                let b0 = pb[i2];
                assert(0 <= a0 < old(self).pool().len() && 0 <= b0 < old(self).pool().len() && (
                old(self).pool().len() > 1 ==> a0 != b0) && is_offspring(
                    self.population@[i2],
                    old(self).pool()[a0],
                    old(self).pool()[b0],
                    old(self).rate(),
                ));
            }
            assert(offspring_of_pool(self.population@, old(self).pool(), old(self).rate()));
            assert forall|k: int, l: int|
                0 <= k < self.population@.len() && 0 <= l
                    < self.population@.len() implies #[trigger] self.population@[k].compat(
                &self.population@[l],
            ) by {
                self.population@[l].lemma_compat_sym(&self.mating_pool@[0]);
                self.population@[k].lemma_compat_trans(
                    &self.mating_pool@[0],
                    &self.population@[l],
                );
            }
            assert forall|k: int, m: int|
                0 <= k < self.mating_pool@.len() && 0 <= m
                    < self.population@.len() implies #[trigger] self.mating_pool@[k].compat(
                &self.population@[m],
            ) by {
                self.population@[m].lemma_compat_sym(&self.mating_pool@[k]);
            }
        }
        Ok(())
    }

    /// A copy of the genotype with the maximum fitness in the current
    /// population; a tie favors the highest index (best-so-far is updated on
    /// greater-or-equal while scanning in index order).
    pub fn best(&self) -> (r: T)
        requires
            self.wf(),
        ensures
            r.wf(),
            exists|i: int|
                #![trigger self.members()[i]]
                (0 <= i < self.members().len() && r.same(&self.members()[i]) && r.fitness_of()
                    == self.members()[i].fitness_of() && (forall|j: int|
                    0 <= j < self.members().len() ==> (#[trigger] self.members()[j]).fitness_of()
                        <= self.members()[i].fitness_of()) && (forall|j: int|
                    i < j < self.members().len() ==> (#[trigger] self.members()[j]).fitness_of()
                        < self.members()[i].fitness_of())),
    {
        let n = self.population.len();
        let mut best_i: usize = 0;
        let mut best_f: u64 = self.population[0].fitness();
        for i in 1..n
            invariant
                self.wf(),
                n == self.population@.len(),
                (best_i as int) < i,
                i <= n,
                best_f as int == self.population@[best_i as int].fitness_of(),
                forall|j: int|
                    0 <= j < i ==> (#[trigger] self.population@[j]).fitness_of() <= best_f as int,
                forall|j: int|
                    best_i < j < i ==> (#[trigger] self.population@[j]).fitness_of() < best_f as int,
        {
            let f = self.population[i].fitness();
            if f >= best_f {
                best_f = f;
                best_i = i;
            }
        }
        let r = self.population[best_i].duplicate();
        proof {
            let gi = best_i as int;
            assert(0 <= gi < self.population@.len() && r.same(&self.population@[gi])
                && r.fitness_of() == self.population@[gi].fitness_of() && (forall|j: int|
                0 <= j < self.population@.len() ==> (#[trigger] self.population@[j]).fitness_of()
                    <= self.population@[gi].fitness_of()) && (forall|j: int|
                gi < j < self.population@.len() ==> (#[trigger] self.population@[j]).fitness_of()
                    < self.population@[gi].fitness_of()));
        }
        r
    }

    /// The number of genotypes in the population.
    pub fn len(&self) -> (r: usize)
        ensures
            r as int == self.members().len(),
    {
        self.population.len()
    }

    /// The number of genotypes in the mating pool.
    pub fn pool_len(&self) -> (r: usize)
        ensures
            r as int == self.pool().len(),
    {
        self.mating_pool.len()
    }

    /// The configured mutation rate.
    pub fn mutation_rate(&self) -> (r: MutationRate)
        ensures
            r == self.rate(),
    {
        self.mutation_rate
    }

    /// A copy of the population member at `i`.
    pub fn member(&self, i: usize) -> (r: T)
        requires
            self.wf(),
            (i as int) < self.members().len(),
        ensures
            r.wf(),
            r.same(&self.members()[i as int]),
            r.fitness_of() == self.members()[i as int].fitness_of(),
    {
        self.population[i].duplicate()
    }

    /// A copy of the mating-pool member at `i`.
    pub fn pool_member(&self, i: usize) -> (r: T)
        requires
            self.wf(),
            (i as int) < self.pool().len(),
        ensures
            r.wf(),
            r.same(&self.pool()[i as int]),
            r.fitness_of() == self.pool()[i as int].fitness_of(),
    {
        self.mating_pool[i].duplicate()
    }
}

} // verus!

