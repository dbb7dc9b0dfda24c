use slimes::functions::Functions;
use slimes::particles::{Particle, WorldState};
use slimes::vector::VectorN;

fn key(x: f64) -> u64 {
    let b = x.to_bits();
    if b & (1u64 << 63) != 0 {
        !b
    } else {
        b | (1u64 << 63)
    }
}

fn particle(coords: &[f64], value: f64) -> Particle {
    let keys: Vec<u64> = coords.iter().map(|x| key(*x)).collect();
    let position = VectorN::new(keys);
    Particle {
        coordinates: position.duplicate(),
        current_speed: VectorN::new(vec![key(0.0); coords.len()]),
        best_found_solution: position,
        best_found_solution_value: key(value),
        function_value: key(value),
    }
}

fn world(values: &[f64]) -> WorldState {
    let particles: Vec<Particle> = values
        .iter()
        .enumerate()
        .map(|(i, v)| particle(&[i as f64, -(i as f64)], *v))
        .collect();
    WorldState::new(particles, Functions::Rastrigin, (key(-5.12), key(5.12)), key(0.5), key(0.6), (key(0.9)))
}

#[test]
fn new_world_tracks_the_population_minimum() {
    let w = world(&[4.0, 1.5, 9.0]);
    assert_eq!(w.best_solution_value, key(1.5));
    assert_eq!(w.best_solution.coordinates, vec![key(1.0), key(-1.0)]);
}

#[test]
fn best_value_never_regresses_across_iterations() {
    let mut w = world(&[4.0, 1.5, 9.0]);
    let mut previous = w.best_solution_value;

    // A sequence of moves whose outcomes get worse, then better.
    for values in [[8.0, 8.0, 8.0], [2.0, 3.0, 4.0], [0.25, 6.0, 6.0], [5.0, 5.0, 5.0]] {
        let moved: Vec<Particle> = values
            .iter()
            .enumerate()
            .map(|(i, v)| particle(&[*v, i as f64], *v))
            .collect();
        w.do_iteration(moved);
        assert!(w.best_solution_value <= previous);
        previous = w.best_solution_value;
    }
    assert_eq!(w.best_solution_value, key(0.25));
}

#[test]
fn personal_best_absorbs_only_strict_improvements() {
    let mut w = world(&[4.0, 1.5]);
    let mut moved_better = particle(&[7.0, 7.0], 0.5);
    moved_better.best_found_solution_value = key(4.0);
    let mut moved_tied = particle(&[8.0, 8.0], 1.5);
    moved_tied.best_found_solution = VectorN::new(vec![key(1.0), key(-1.0)]);
    moved_tied.best_found_solution_value = key(1.5);

    w.do_iteration(vec![moved_better, moved_tied]);

    // A strictly better outcome replaced the personal best.
    assert_eq!(w.population[0].best_found_solution_value, key(0.5));
    assert_eq!(w.population[0].best_found_solution.coordinates, vec![key(7.0), key(7.0)]);
    // A tie left the personal best alone.
    assert_eq!(w.population[1].best_found_solution_value, key(1.5));
    assert_eq!(w.population[1].best_found_solution.coordinates, vec![key(1.0), key(-1.0)]);
}

#[test]
fn reset_keeps_size_and_bounds_and_configuration() {
    let mut w = world(&[4.0, 1.5, 9.0]);
    w.do_iteration(vec![
        particle(&[1.0, 1.0], 2.0),
        particle(&[2.0, 2.0], 3.0),
        particle(&[3.0, 3.0], 0.5),
    ]);
    let bounds_before = w.bounds;
    let coeffs_before = w.get_coeffs();

    let fresh = vec![
        particle(&[0.5, 0.5], 6.0),
        particle(&[1.5, 1.5], 2.5),
        particle(&[2.5, 2.5], 8.0),
    ];
    w.reset(fresh);

    assert_eq!(w.population.len(), 3);
    assert_eq!(w.bounds, bounds_before);
    assert_eq!(w.get_coeffs(), coeffs_before);
    // Best tracking was rebuilt from scratch: the earlier 0.5 is gone.
    assert_eq!(w.best_solution_value, key(2.5));
}

#[test]
fn set_coeffs_round_trips() {
    let mut w = world(&[4.0]);
    w.set_coeffs(key(0.1), key(0.2), key(0.3));
    assert_eq!(w.get_coeffs(), (key(0.1), key(0.2), key(0.3)));
}
