use slimes::functions::Functions;
use slimes::particles::{MultiSwarmWorldState, Particle, WorldState};
use slimes::vector::VectorN;

fn key(x: f64) -> u64 {
    let b = x.to_bits();
    if b & (1u64 << 63) != 0 {
        !b
    } else {
        b | (1u64 << 63)
    }
}

fn particle(value: f64) -> Particle {
    let position = VectorN::new(vec![key(value)]);
    Particle {
        coordinates: position.duplicate(),
        current_speed: VectorN::new(vec![key(0.0)]),
        best_found_solution: position,
        best_found_solution_value: key(value),
        function_value: key(value),
    }
}

fn world(values: &[f64]) -> WorldState {
    let particles: Vec<Particle> = values.iter().map(|v| particle(*v)).collect();
    WorldState::new(particles, Functions::Ackley, (key(-32.0), key(32.0)), key(0.5), key(0.6), key(0.9))
}

fn fitness_keys(w: &WorldState) -> Vec<u64> {
    let mut keys: Vec<u64> = w.population.iter().map(|p| p.function_value).collect();
    keys.sort();
    keys
}

#[test]
fn multi_swarm_tracks_minimum_over_swarms() {
    let multi = MultiSwarmWorldState::new(vec![world(&[4.0, 6.0]), world(&[3.5, 9.0])], key(0.0));
    assert_eq!(multi.best_solution_value, key(3.5));
}

#[test]
fn declined_migration_changes_nothing() {
    // The caller found the two best values within the threshold and decides
    // against migrating: the pair must be left exactly as it was.
    let mut multi =
        MultiSwarmWorldState::new(vec![world(&[4.0, 6.0]), world(&[3.5, 9.0])], key(10.0));
    let before_first = fitness_keys(&multi.swarms[0]);
    let before_second = fitness_keys(&multi.swarms[1]);
    let best_before = multi.best_solution_value;

    multi.migration_step(0, 1, None);

    assert_eq!(fitness_keys(&multi.swarms[0]), before_first);
    assert_eq!(fitness_keys(&multi.swarms[1]), before_second);
    assert_eq!(multi.best_solution_value, best_before);
    assert_eq!(multi.swarms[0].population.len(), 2);
    assert_eq!(multi.swarms[1].population.len(), 2);
}

#[test]
fn migration_conserves_the_total_population() {
    let mut multi = MultiSwarmWorldState::new(
        vec![world(&[1.0, 5.0, 3.0, 7.0]), world(&[2.0, 8.0, 6.0, 4.0])],
        key(0.0),
    );
    let mut combined_before = fitness_keys(&multi.swarms[0]);
    combined_before.extend(fitness_keys(&multi.swarms[1]));
    combined_before.sort();

    multi.migration_step(0, 1, Some(2));

    let mut combined_after = fitness_keys(&multi.swarms[0]);
    combined_after.extend(fitness_keys(&multi.swarms[1]));
    combined_after.sort();

    assert_eq!(combined_before, combined_after);
    assert_eq!(multi.swarms[0].population.len(), 4);
    assert_eq!(multi.swarms[1].population.len(), 4);
}

#[test]
fn migration_pools_the_best_into_the_second_swarm() {
    let mut multi = MultiSwarmWorldState::new(
        vec![world(&[1.0, 5.0, 3.0, 7.0]), world(&[2.0, 8.0, 6.0, 4.0])],
        key(0.0),
    );

    multi.migration_step(0, 1, Some(2));

    // The first swarm's two best (1, 3) moved out and the second's two worst
    // (8, 6) moved in; the second swarm kept its better half (2, 4) and
    // received the first's best (1, 3).
    assert_eq!(fitness_keys(&multi.swarms[0]), vec![key(5.0), key(6.0), key(7.0), key(8.0)]);
    assert_eq!(fitness_keys(&multi.swarms[1]), vec![key(1.0), key(2.0), key(3.0), key(4.0)]);
}

#[test]
fn migration_never_regresses_swarm_bests() {
    let mut multi = MultiSwarmWorldState::new(
        vec![world(&[1.0, 5.0, 3.0, 7.0]), world(&[2.0, 8.0, 6.0, 4.0])],
        key(0.0),
    );
    let best_first = multi.swarms[0].best_solution_value;
    let best_second = multi.swarms[1].best_solution_value;

    multi.migration_step(0, 1, Some(1));

    assert!(multi.swarms[0].best_solution_value <= best_first);
    assert!(multi.swarms[1].best_solution_value <= best_second);
}

#[test]
fn multi_swarm_reset_keeps_shape_and_configuration() {
    let mut multi =
        MultiSwarmWorldState::new(vec![world(&[4.0, 6.0]), world(&[3.5, 9.0])], key(1.25));
    multi.migration_step(0, 1, Some(1));

    multi.reset(vec![
        vec![particle(5.5), particle(2.0)],
        vec![particle(3.0), particle(4.5)],
    ]);

    assert_eq!(multi.swarms.len(), 2);
    assert_eq!(multi.migration_threshold, key(1.25));
    assert_eq!(multi.swarms[0].population.len(), 2);
    assert_eq!(multi.swarms[1].population.len(), 2);
    assert_eq!(multi.swarms[0].bounds, (key(-32.0), key(32.0)));
    assert_eq!(multi.swarms[1].bounds, (key(-32.0), key(32.0)));
    assert_eq!(multi.best_solution_value, key(2.0));
}

#[test]
fn migration_pass_with_unreachable_threshold_changes_nothing() {
    // The decider declines every pair, as it would with the threshold above
    // any possible difference: a full pass has no effect at all.
    let mut multi = MultiSwarmWorldState::new(
        vec![world(&[4.0, 6.0]), world(&[3.5, 9.0]), world(&[1.0, 2.0])],
        key(1.0e308),
    );
    let before: Vec<Vec<u64>> = multi.swarms.iter().map(fitness_keys).collect();
    let best_before = multi.best_solution_value;

    multi.do_migration_pass(|_bv_first, _bv_second, _n_first, _n_second| None);

    let after: Vec<Vec<u64>> = multi.swarms.iter().map(fitness_keys).collect();
    assert_eq!(before, after);
    assert_eq!(multi.best_solution_value, best_before);
}

#[test]
fn migration_pass_conserves_members_across_all_pairs() {
    let mut multi = MultiSwarmWorldState::new(
        vec![world(&[1.0, 5.0, 3.0]), world(&[2.0, 8.0, 6.0]), world(&[4.0, 9.0, 7.0])],
        key(0.0),
    );
    let mut combined_before: Vec<u64> =
        multi.swarms.iter().flat_map(|w| fitness_keys(w)).collect();
    combined_before.sort();

    // Exchange one member for every pair whose recorded bests differ.
    multi.do_migration_pass(|bv_first, bv_second, _n_first, _n_second| {
        if bv_first != bv_second {
            Some(1)
        } else {
            None
        }
    });

    let mut combined_after: Vec<u64> = multi.swarms.iter().flat_map(|w| fitness_keys(w)).collect();
    combined_after.sort();
    assert_eq!(combined_before, combined_after);
    for w in &multi.swarms {
        assert_eq!(w.population.len(), 3);
        assert_eq!(w.bounds, (key(-32.0), key(32.0)));
    }
}

#[test]
fn global_best_update_is_monotone() {
    let mut multi =
        MultiSwarmWorldState::new(vec![world(&[4.0, 6.0]), world(&[3.5, 9.0])], key(0.0));
    let before = multi.best_solution_value;
    multi.update_best_solutions();
    assert!(multi.best_solution_value <= before);
    assert_eq!(multi.best_solution_value, key(3.5));
}
