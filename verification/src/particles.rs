use vstd::prelude::*;
use crate::functions::Functions;
use crate::member::Member;
use crate::swarm::{MultiSwarm, Swarm};
use crate::vector::VectorN;

verus! {

/// One particle of a particle-swarm optimization run: a position, the
/// velocity it moved with, the best position it personally visited with the
/// fitness recorded there, and the fitness at the current position. Fitness
/// values and coordinates are order keys (see `vector`); the caller computes
/// the movement arithmetic and hands the moved particle back.
pub struct Particle {
    pub coordinates: VectorN,
    pub current_speed: VectorN,
    pub best_found_solution: VectorN,
    pub best_found_solution_value: u64,
    pub function_value: u64,
}

impl Member for Particle {
    open spec fn fitness(&self) -> u64 {
        self.function_value
    }

    open spec fn position(&self) -> Seq<u64> {
        self.coordinates@
    }

    fn fitness_key(&self) -> (k: u64) {
        self.function_value
    }

    fn position_point(&self) -> (p: VectorN) {
        self.coordinates.duplicate()
    }
}

/// The particle after its personal-best tracking absorbed the current
/// position: a strictly better current fitness replaces the personal best,
/// a tie or worse leaves it alone; position, velocity and fitness stay put.
pub open spec fn personal_best_absorbed(pre: Particle, post: Particle) -> bool {
    &&& post.coordinates@ == pre.coordinates@
    &&& post.current_speed@ == pre.current_speed@
    &&& post.function_value == pre.function_value
    &&& (pre.function_value < pre.best_found_solution_value ==> post.best_found_solution_value
        == pre.function_value && post.best_found_solution@ == pre.coordinates@)
    &&& (pre.function_value >= pre.best_found_solution_value ==> post.best_found_solution_value
        == pre.best_found_solution_value && post.best_found_solution@ == pre.best_found_solution@)
}

/// The three PSO movement-rule coefficients, as order keys the caller
/// interprets; the library only stores and returns them.
#[derive(Clone, Copy, Debug, PartialEq, Eq, Structural)]
pub struct PsoCoefficients {
    pub social: u64,
    pub cognitive: u64,
    pub inertia: u64,
}

/// A single particle-swarm population with its best-found tracking.
pub type WorldState = Swarm<Particle, PsoCoefficients>;

/// A family of particle swarms with periodic migration.
pub type MultiSwarmWorldState = MultiSwarm<Particle, PsoCoefficients>;

impl Swarm<Particle, PsoCoefficients> {
    /// Set a particle swarm up around an initial population.
    pub fn new(
        particles: Vec<Particle>,
        function: Functions,
        bounds: (u64, u64),
        social_coefficient: u64,
        cognitive_coefficient: u64,
        inertia_coefficient: u64,
    ) -> (w: WorldState)
        requires
            particles@.len() > 0,
            bounds.0 < bounds.1,
        ensures
            w.population@ == particles@,
            w.function == function,
            w.bounds == bounds,
            w.config == (PsoCoefficients {
                social: social_coefficient,
                cognitive: cognitive_coefficient,
                inertia: inertia_coefficient,
            }),
            crate::swarm::exact_best(w.best_solution_value, w.best_solution@, particles@),
    {
        Swarm::assemble(
            particles,
            function,
            bounds,
            PsoCoefficients {
                social: social_coefficient,
                cognitive: cognitive_coefficient,
                inertia: inertia_coefficient,
            },
        )
    }

    /// Replace the movement coefficients; nothing else moves.
    pub fn set_coeffs(
        &mut self,
        social_coefficient: u64,
        cognitive_coefficient: u64,
        inertia_coefficient: u64,
    )
        ensures
            final(self).config == (PsoCoefficients {
                social: social_coefficient,
                cognitive: cognitive_coefficient,
                inertia: inertia_coefficient,
            }),
            final(self).population@ == old(self).population@,
            final(self).bounds == old(self).bounds,
            final(self).function == old(self).function,
            final(self).best_solution@ == old(self).best_solution@,
            final(self).best_solution_value == old(self).best_solution_value,
    {
        self.config = PsoCoefficients {
            social: social_coefficient,
            cognitive: cognitive_coefficient,
            inertia: inertia_coefficient,
        };
    }

    /// The coefficients, in the order `set_coeffs` takes them.
    pub fn get_coeffs(&self) -> (r: (u64, u64, u64))
        ensures
            r.0 == self.config.social,
            r.1 == self.config.cognitive,
            r.2 == self.config.inertia,
    {
        (self.config.social, self.config.cognitive, self.config.inertia)
    }

    /// Fold every particle's current position into its personal-best
    /// tracking; swarm-level state does not move.
    pub fn absorb_personal_bests(&mut self)
        ensures
            final(self).population@.len() == old(self).population@.len(),
            forall|k: int|
                0 <= k < old(self).population@.len() ==> personal_best_absorbed(
                    old(self).population@[k],
                    final(self).population@[k],
                ),
            final(self).bounds == old(self).bounds,
            final(self).function == old(self).function,
            final(self).config == old(self).config,
            final(self).best_solution@ == old(self).best_solution@,
            final(self).best_solution_value == old(self).best_solution_value,
    {
        let n = self.population.len();
        let mut i: usize = 0;
        while i < n
            invariant
                i <= n,
                n == self.population@.len(),
                n == old(self).population@.len(),
                self.bounds == old(self).bounds,
                self.function == old(self).function,
                self.config == old(self).config,
                self.best_solution@ == old(self).best_solution@,
                self.best_solution_value == old(self).best_solution_value,
                forall|k: int|
                    0 <= k < i ==> personal_best_absorbed(
                        old(self).population@[k],
                        #[trigger] self.population@[k],
                    ),
                forall|k: int| i <= k < n ==> self.population@[k] == old(self).population@[k],
            decreases n - i,
        {
            let fit = self.population[i].fitness_key();
            if fit < self.population[i].best_found_solution_value {
                let coordinates = self.population[i].coordinates.duplicate();
                let current_speed = self.population[i].current_speed.duplicate();
                let best_found_solution = self.population[i].coordinates.duplicate();
                self.population[i] = Particle {
                    coordinates,
                    current_speed,
                    best_found_solution,
                    best_found_solution_value: fit,
                    function_value: fit,
                };
            }
            i = i + 1;
        }
    }

    /// One full iteration, once the caller has moved every particle by the
    /// movement rule: the moved population replaces the old one, the swarm
    /// best absorbs it without ever regressing, and each particle's
    /// personal-best tracking absorbs its own outcome.
    pub fn do_iteration(&mut self, moved: Vec<Particle>)
        requires
            moved@.len() == old(self).population@.len(),
        ensures
            final(self).population@.len() == old(self).population@.len(),
            forall|k: int|
                0 <= k < moved@.len() ==> personal_best_absorbed(
                    moved@[k],
                    final(self).population@[k],
                ),
            final(self).bounds == old(self).bounds,
            final(self).function == old(self).function,
            final(self).config == old(self).config,
            final(self).best_solution_value <= old(self).best_solution_value,
            crate::member::fitness_lower_bound(final(self).best_solution_value, moved@),
            crate::swarm::best_kept_or_attained(
                old(self).best_solution_value,
                old(self).best_solution@,
                final(self).best_solution_value,
                final(self).best_solution@,
                moved@,
            ),
    {
        self.advance(moved);
        self.absorb_personal_bests();
    }
}

} // verus!
