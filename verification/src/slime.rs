use vstd::prelude::*;
use crate::functions::Functions;
use crate::member::{sort_ascending, sorted_ascending, Member};
use crate::swarm::{MultiSwarm, Swarm};
use crate::vector::VectorN;

verus! {

/// One mold of a slime-mould-algorithm run: a position, the weight that
/// scales its exploitation moves, and the fitness at the current position.
/// Fitness, coordinates and weight are order keys (see `vector`); the caller
/// computes the movement and weight arithmetic and hands the results back.
pub struct Slime {
    pub position: VectorN,
    pub weight: u64,
    pub function_value: u64,
}

impl Member for Slime {
    open spec fn fitness(&self) -> u64 {
        self.function_value
    }

    open spec fn position(&self) -> Seq<u64> {
        self.position@
    }

    fn fitness_key(&self) -> (k: u64) {
        self.function_value
    }

    fn position_point(&self) -> (p: VectorN) {
        self.position.duplicate()
    }
}

/// One entry of a fitness ranking: the fitness key of the member standing at
/// `index` in the population it was ranked from.
#[derive(Clone, Copy, Debug, PartialEq, Eq, Structural)]
pub struct RankEntry {
    pub key: u64,
    pub index: usize,
}

impl Member for RankEntry {
    open spec fn fitness(&self) -> u64 {
        self.key
    }

    open spec fn position(&self) -> Seq<u64> {
        Seq::empty()
    }

    fn fitness_key(&self) -> (k: u64) {
        self.key
    }

    fn position_point(&self) -> (p: VectorN) {
        let coordinates: Vec<u64> = Vec::new();
        VectorN::new(coordinates)
    }
}

/// One rank entry per population index, in population order.
pub open spec fn rank_entries(s: Seq<Slime>) -> Seq<RankEntry> {
    Seq::new(s.len(), |i: int| RankEntry { key: s[i].fitness(), index: i as usize })
}

/// A mold after its weight was replaced: position and fitness stay put.
pub open spec fn reweighted(pre: Slime, post: Slime, w: u64) -> bool {
    &&& post.position@ == pre.position@
    &&& post.function_value == pre.function_value
    &&& post.weight == w
}

/// The SMA parameters: the re-seed probability `z` and the exploitation
/// radius `a` (both order keys the caller interprets) and the total
/// iteration count the run was set up for.
#[derive(Clone, Copy, Debug, PartialEq, Eq, Structural)]
pub struct SmaParameters {
    pub z_parameter: u64,
    pub a_parameter: u64,
    pub iteration_count: usize,
}

/// A single slime-mould population with its best-found tracking.
pub type WorldState = Swarm<Slime, SmaParameters>;

/// A family of slime-mould populations with periodic migration.
pub type MultiSwarmWorldState = MultiSwarm<Slime, SmaParameters>;

/// The half-split of the weight rule: a member in the better half of the
/// ascending ranking (rank below half the population size) receives the
/// raised weight, every other member the lowered one.
pub fn in_better_half(rank: usize, population_size: usize) -> (b: bool)
    ensures
        b == (rank < population_size / 2),
{
    rank < population_size / 2
}

impl Swarm<Slime, SmaParameters> {
    /// Set a slime-mould swarm up around an initial population.
    pub fn new(
        population: Vec<Slime>,
        bounds: (u64, u64),
        iteration_count: usize,
        function: Functions,
        z_parameter: u64,
        a_parameter: u64,
    ) -> (w: WorldState)
        requires
            population@.len() > 0,
            bounds.0 < bounds.1,
        ensures
            w.population@ == population@,
            w.function == function,
            w.bounds == bounds,
            w.config == (SmaParameters { z_parameter, a_parameter, iteration_count }),
            crate::swarm::exact_best(w.best_solution_value, w.best_solution@, population@),
    {
        Swarm::assemble(
            population,
            function,
            bounds,
            SmaParameters { z_parameter, a_parameter, iteration_count },
        )
    }

    /// Store the exploitation radius for the coming iteration, recomputed by
    /// the caller from iteration progress; nothing else moves.
    pub fn recalculate_a(&mut self, a_parameter: u64)
        ensures
            final(self).config == (SmaParameters {
                z_parameter: old(self).config.z_parameter,
                a_parameter,
                iteration_count: old(self).config.iteration_count,
            }),
            final(self).population@ == old(self).population@,
            final(self).bounds == old(self).bounds,
            final(self).function == old(self).function,
            final(self).best_solution@ == old(self).best_solution@,
            final(self).best_solution_value == old(self).best_solution_value,
    {
        self.config = SmaParameters {
            z_parameter: self.config.z_parameter,
            a_parameter,
            iteration_count: self.config.iteration_count,
        };
    }

    /// The population ranked ascending by fitness, best first: exactly one
    /// entry per population index, in some order that sorts the keys.
    pub fn ranking(&self) -> (r: Vec<RankEntry>)
        ensures
            r@.len() == self.population@.len(),
            sorted_ascending(r@),
            r@.to_multiset() == rank_entries(self.population@).to_multiset(),
    {
        let n = self.population.len();
        let mut entries: Vec<RankEntry> = Vec::new();
        let mut i: usize = 0;
        while i < n
            invariant
                i <= n,
                n == self.population@.len(),
                entries@.len() == i,
                forall|k: int|
                    0 <= k < i ==> entries@[k] == (RankEntry {
                        key: self.population@[k].fitness(),
                        index: k as usize,
                    }),
            decreases n - i,
        {
            entries.push(RankEntry { key: self.population[i].fitness_key(), index: i });
            i = i + 1;
        }
        proof {
            assert(entries@ =~= rank_entries(self.population@));
        }
        sort_ascending(entries)
    }

    /// Install caller-computed weights, one per member by population index;
    /// positions, fitness values and everything swarm-level stay put.
    pub fn set_weights(&mut self, weights: Vec<u64>)
        requires
            weights@.len() == old(self).population@.len(),
        ensures
            final(self).population@.len() == old(self).population@.len(),
            forall|k: int|
                0 <= k < old(self).population@.len() ==> reweighted(
                    old(self).population@[k],
                    final(self).population@[k],
                    weights@[k],
                ),
            final(self).bounds == old(self).bounds,
            final(self).function == old(self).function,
            final(self).config == old(self).config,
            final(self).best_solution@ == old(self).best_solution@,
            final(self).best_solution_value == old(self).best_solution_value,
    {
        let n = self.population.len();
        let mut i: usize = 0;
        while i < n
            invariant
                i <= n,
                n == self.population@.len(),
                n == old(self).population@.len(),
                n == weights@.len(),
                self.bounds == old(self).bounds,
                self.function == old(self).function,
                self.config == old(self).config,
                self.best_solution@ == old(self).best_solution@,
                self.best_solution_value == old(self).best_solution_value,
                forall|k: int|
                    0 <= k < i ==> reweighted(
                        old(self).population@[k],
                        #[trigger] self.population@[k],
                        weights@[k],
                    ),
                forall|k: int| i <= k < n ==> self.population@[k] == old(self).population@[k],
            decreases n - i,
        {
            let position = self.population[i].position.duplicate();
            let function_value = self.population[i].fitness_key();
            self.population[i] = Slime { position, weight: weights[i], function_value };
            i = i + 1;
        }
    }
}

} // verus!
