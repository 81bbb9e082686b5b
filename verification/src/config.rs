//! The immutable simulation parameters, fixed for the duration of a run.

use vstd::prelude::*;

use crate::game::generate_ring_offsets;
use crate::game::ring_offsets;

verus! {

/// An exact probability, written as the fraction `num / den`.
///
/// Probabilities are kept as integer fractions so that the degenerate cases
/// are exact: `num == 0` never fires and `num == den` always fires.
#[derive(Debug, Clone, Copy, PartialEq, Eq, Structural)]
pub struct Ratio {
    pub num: u32,
    pub den: u32,
}

impl Ratio {
    /// A valid probability: a denominator of zero or a numerator above the
    /// denominator would not describe one.
    pub open spec fn wf(self) -> bool {
        0 < self.den && self.num <= self.den
    }
}

/// The simulation parameters. Immutable once built; the neighborhood offsets
/// are computed once from the radius and shared read-only by every tick.
#[derive(Debug, Clone)]
pub struct Config {
    pub w: usize,
    pub h: usize,
    pub population: usize,
    pub fps: usize,
    pub offsets: Vec<(isize, isize)>,
    pub cluster_size: usize,
    pub cluster_density: Ratio,
    pub info: bool,
    pub reproduction: usize,
    pub overpopulation: usize,
    pub underpopulation: usize,
    pub survivability: usize,
    pub age: usize,
    pub mutation: Ratio,
    pub resistence: usize,
    pub aging_rate: usize,
    pub predetor_rate: Ratio,
}

impl Config {
    /// Machine limits that every configuration must meet: the probabilities
    /// are valid fractions, a hungry predator's age cannot overflow, and the
    /// grid's cell count fits the machine word.
    pub open spec fn wf(self) -> bool {
        &&& self.cluster_density.wf()
        &&& self.mutation.wf()
        &&& self.predetor_rate.wf()
        &&& self.age + self.aging_rate <= usize::MAX
        &&& self.w * self.h <= usize::MAX
    }

    /// Builds a configuration, computing the neighborhood offsets from the
    /// given radius.
    pub fn new(
        w: usize,
        h: usize,
        population: usize,
        fps: usize,
        radius: usize,
        cluster_size: usize,
        cluster_density: Ratio,
        info: bool,
        reproduction: usize,
        overpopulation: usize,
        underpopulation: usize,
        survivability: usize,
        age: usize,
        mutation: Ratio,
        resistence: usize,
        aging_rate: usize,
        predetor_rate: Ratio,
    ) -> (c: Config)
        requires
            radius < isize::MAX,
            cluster_density.wf(),
            mutation.wf(),
            predetor_rate.wf(),
            age + aging_rate <= usize::MAX,
            w * h <= usize::MAX,
        ensures
            c.wf(),
            c.w == w,
            c.h == h,
            c.population == population,
            c.fps == fps,
            c.offsets@ == ring_offsets(radius as int),
            c.cluster_size == cluster_size,
            c.cluster_density == cluster_density,
            c.info == info,
            c.reproduction == reproduction,
            c.overpopulation == overpopulation,
            c.underpopulation == underpopulation,
            c.survivability == survivability,
            c.age == age,
            c.mutation == mutation,
            c.resistence == resistence,
            c.aging_rate == aging_rate,
            c.predetor_rate == predetor_rate,
    {
        let offsets = generate_ring_offsets(radius as isize);
        Config {
            w,
            h,
            population,
            fps,
            offsets,
            cluster_size,
            cluster_density,
            info,
            reproduction,
            overpopulation,
            underpopulation,
            survivability,
            age,
            mutation,
            resistence,
            aging_rate,
            predetor_rate,
        }
    }
}

impl Default for Config {
    /// The default knobs: a 470 x 110 grid, population 2000, 24 fps, radius 5,
    /// cluster size 50 with density 7/10, reproduction 3, overpopulation 4,
    /// underpopulation 1, survivability 2, maximum age 100, mutation 1/100,
    /// resistance 2, aging rate 1 and predator rate 1/100.
    fn default() -> (c: Config)
        ensures
            c.wf(),
            c.w == 470usize,
            c.h == 110usize,
            c.population == 2000usize,
            c.fps == 24usize,
            c.offsets@ == ring_offsets(5),
            c.cluster_size == 50usize,
            c.cluster_density == (Ratio { num: 7u32, den: 10u32 }),
            c.info == false,
            c.reproduction == 3usize,
            c.overpopulation == 4usize,
            c.underpopulation == 1usize,
            c.survivability == 2usize,
            c.age == 100usize,
            c.mutation == (Ratio { num: 1u32, den: 100u32 }),
            c.resistence == 2usize,
            c.aging_rate == 1usize,
            c.predetor_rate == (Ratio { num: 1u32, den: 100u32 }),
    {
        let offsets = generate_ring_offsets(5);
        Config {
            w: 470,
            h: 110,
            population: 2000,
            fps: 24,
            offsets,
            cluster_size: 50,
            cluster_density: Ratio { num: 7, den: 10 },
            info: false,
            reproduction: 3,
            overpopulation: 4,
            underpopulation: 1,
            survivability: 2,
            age: 100,
            mutation: Ratio { num: 1, den: 100 },
            resistence: 2,
            aging_rate: 1,
            predetor_rate: Ratio { num: 1, den: 100 },
        }
    }
}

} // verus!
