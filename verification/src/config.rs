//! Configuration values that the engine validates once, at construction.

use vstd::prelude::*;

verus! {

/// Why a configuration or a cross-genotype operation was rejected.
#[derive(Clone, Copy, Debug, PartialEq, Eq, Structural)]
pub enum ConfigError {
    /// A population must hold at least one genotype.
    ZeroPopulationSize,
    /// A mutation rate must be a probability: denominator nonzero,
    /// numerator at most the denominator.
    RateOutOfRange,
    /// A genotype target must hold at least one symbol.
    EmptyTarget,
    /// Genotypes brought together must share one shape and one target.
    ShapeMismatch,
}

/// The per-unit mutation probability, held as the exact rational `num / den`.
/// Validity (`wf`) pins it inside `[0, 1]`: `1 <= den` and `num <= den`.
#[derive(Clone, Copy, Debug)]
pub struct MutationRate {
    num: u64,
    den: u64,
}

impl MutationRate {
    /// The numerator of the probability.
    pub closed spec fn num(&self) -> int {
        self.num as int
    }

    /// The denominator of the probability.
    pub closed spec fn den(&self) -> int {
        self.den as int
    }

    /// The rate is a probability in `[0, 1]`.
    pub open spec fn wf(&self) -> bool {
        1 <= self.den() && 0 <= self.num() <= self.den()
    }

    /// Validates the rational `num / den` as a probability; rejects anything
    /// outside `[0, 1]`, never clamps.
    pub fn new(num: u64, den: u64) -> (r: Result<MutationRate, ConfigError>)
        ensures
            r is Ok <==> (1 <= den && num <= den),
            r matches Ok(rate) ==> rate.wf() && rate.num() == num && rate.den() == den,
            !(1 <= den && num <= den) ==> r == Err::<MutationRate, ConfigError>(
                ConfigError::RateOutOfRange,
            ),
    {
        if 1 <= den && num <= den {
            Ok(MutationRate { num, den })
        } else {
            Err(ConfigError::RateOutOfRange)
        }
    }

    /// The numerator, as a machine integer.
    pub fn numerator(&self) -> (r: u64)
        ensures
            r as int == self.num(),
    {
        self.num
    }

    /// The denominator, as a machine integer.
    pub fn denominator(&self) -> (r: u64)
        ensures
            r as int == self.den(),
    {
        self.den
    }
}

} // verus!
