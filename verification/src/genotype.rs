//! The genotype capability contract: random initialization, fitness
//! evaluation, recombination and mutation, stated over a handful of
//! specification functions that every representation must supply.

use vstd::prelude::*;

use crate::config::MutationRate;

verus! {

/// One candidate solution's encoded representation.
///
/// Fitness is an exact rational `fitness_of / max_fitness`: `max_fitness`
/// is the score of a perfect match, so the ratio always lies in `[0, 1]`
/// (the `lemma_fitness_in_range` obligation). `compat` relates genotypes of
/// one shape and one target — the only ones that may be recombined.
pub trait Dna: Sized {
    /// The representation is well formed (fixed shape, nonempty target).
    spec fn wf(&self) -> bool;

    /// The two representations share one shape and one target.
    spec fn compat(&self, other: &Self) -> bool;

    /// The two representations carry the same value.
    spec fn same(&self, other: &Self) -> bool;

    /// The fitness numerator: how much of the target is matched.
    spec fn fitness_of(&self) -> int;

    /// The fitness denominator: the score of an exact match.
    spec fn max_fitness(&self) -> int;

    /// `self` could be the child of a crossover of `a` with `b`.
    spec fn is_crossover_of(&self, a: &Self, b: &Self) -> bool;

    /// `self` could be the outcome of one mutation pass over `orig`
    /// at the given rate.
    spec fn is_mutation_of(&self, orig: &Self, rate: MutationRate) -> bool;

    /// Fitness of a well-formed genotype lies between zero and the score
    /// of an exact match.
    proof fn lemma_fitness_in_range(&self)
        requires
            self.wf(),
        ensures
            0 <= self.fitness_of() <= self.max_fitness(),
    ;

    /// Shape compatibility is reflexive.
    proof fn lemma_compat_refl(&self)
        ensures
            self.compat(self),
    ;

    /// Shape compatibility is symmetric.
    proof fn lemma_compat_sym(&self, other: &Self)
        requires
            self.compat(other),
        ensures
            other.compat(self),
    ;

    /// Shape compatibility is transitive.
    proof fn lemma_compat_trans(&self, b: &Self, c: &Self)
        requires
            self.compat(b),
            b.compat(c),
        ensures
            self.compat(c),
    ;

    /// Value equality is reflexive.
    proof fn lemma_same_refl(&self)
        ensures
            self.same(self),
    ;

    /// Value equality is transitive.
    proof fn lemma_same_trans(&self, b: &Self, c: &Self)
        requires
            self.same(b),
            b.same(c),
        ensures
            self.same(c),
    ;

    /// Equal values score equal fitness.
    proof fn lemma_same_fitness(&self, other: &Self)
        requires
            self.same(other),
        ensures
            self.fitness_of() == other.fitness_of(),
    ;

    /// Produces a uniformly random instance of the same shape and target
    /// as `self`, using the supplied randomness source.
    fn random(&self, rng: &mut rand::rngs::ThreadRng) -> (r: Self)
        requires
            self.wf(),
        ensures
            r.wf(),
            r.compat(self),
    ;

    /// The fitness numerator, as a machine integer; deterministic for a
    /// fixed state.
    fn fitness(&self) -> (r: u64)
        requires
            self.wf(),
        ensures
            r as int == self.fitness_of(),
    ;

    /// The fitness denominator, as a machine integer.
    fn fitness_scale(&self) -> (r: u64)
        requires
            self.wf(),
        ensures
            r as int == self.max_fitness(),
    ;

    /// An exact copy of the genotype.
    fn duplicate(&self) -> (r: Self)
        requires
            self.wf(),
        ensures
            r.wf(),
            r.same(self),
            r.compat(self),
            r.fitness_of() == self.fitness_of(),
    ;

    /// Decides shape compatibility.
    fn compatible(&self, other: &Self) -> (r: bool)
        ensures
            r == self.compat(other),
    ;

    /// Decides well-formedness.
    fn valid(&self) -> (r: bool)
        ensures
            r == self.wf(),
    ;

    /// Combines two genotypes of one shape into one child; two identical
    /// parents yield a child identical to both.
    fn crossover(&self, other: &Self) -> (r: Self)
        requires
            self.wf(),
            other.wf(),
            self.compat(other),
        ensures
            r.wf(),
            r.compat(self),
            r.is_crossover_of(self, other),
            self.same(other) ==> r.same(self),
    ;

    /// Replaces every unit independently with probability `rate` by a fresh
    /// random symbol; at rate zero the genotype is left unchanged.
    fn mutate(&mut self, rng: &mut rand::rngs::ThreadRng, rate: &MutationRate)
        requires
            old(self).wf(),
            rate.wf(),
        ensures
            final(self).wf(),
            final(self).compat(old(self)),
            final(self).is_mutation_of(old(self), *rate),
            rate.num() == 0 ==> final(self).same(old(self)),
    ;
}

/// `child` could come out of one reproduction step over parents `a` and `b`:
/// a crossover of the two, followed by one mutation pass at the given rate.
pub open spec fn is_offspring<T: Dna>(child: T, a: T, b: T, rate: MutationRate) -> bool {
    exists|m: T| m.is_crossover_of(&a, &b) && child.is_mutation_of(&m, rate)
}

} // verus!
