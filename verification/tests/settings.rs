use flock_lab::simulation::cpu_simulation::{MAX_NEIGHBORS, MAX_OBSTACLES};
use flock_lab::simulation::species::MAX_SPECIES_AGENTS;
use flock_lab::simulation::{
    default_interactions, fit_trails, push_bounded, AgentSlot, SimulationSettings, SpatialHash,
    SpeciesDefinition,
};

fn species(agent_count: usize, trail_length: usize, enabled: bool) -> SpeciesDefinition<()> {
    SpeciesDefinition {
        name: "s".to_string(),
        enabled,
        agent_count,
        trail_length,
        shape_id: 0,
        tuning: (),
    }
}

fn settings(list: Vec<SpeciesDefinition<()>>) -> SimulationSettings<(), ()> {
    SimulationSettings::with_defaults((), list)
}

#[test]
fn settings_validation_clamps_unsafe_values() {
    let mut settings = settings(vec![species(10, 20, true), species(5, 5, true)]);
    settings.trail_length = 9_999;
    settings.max_neighbors = 0;
    settings.species[0].agent_count = 999_999;
    let settings = settings.validated();

    assert_eq!(settings.trail_length, 96);
    assert_eq!(settings.max_neighbors, 1);
    assert_eq!(settings.species[0].agent_count, 40_000);
}

#[test]
fn defaults_are_the_built_in_counts() {
    let s = settings(vec![]);
    assert_eq!(s.obstacle_count, 10);
    assert_eq!(s.trail_length, 24);
    assert_eq!(s.max_neighbors, 64);
    assert!(s.use_spatial_hash);
    assert!(!s.pause);
    assert_eq!(s.interactions, default_interactions());
}

#[test]
fn validation_keeps_at_most_eight_species_and_clamps_counts() {
    let list = (0..11).map(|i| species(i * 10_000, 200, true)).collect();
    let mut s = settings(list);
    s.obstacle_count = 1_000;
    s.max_neighbors = 9_999;
    let s = s.validated();
    assert_eq!(s.species.len(), 8);
    assert_eq!(s.obstacle_count, MAX_OBSTACLES);
    assert_eq!(s.max_neighbors, MAX_NEIGHBORS);
    assert_eq!(s.species[3].agent_count, 30_000);
    assert_eq!(s.species[7].agent_count, MAX_SPECIES_AGENTS);
    assert!(s.species.iter().all(|sp| sp.trail_length == 96));
    // Validating again changes nothing.
    let again = s.clone().validated();
    assert_eq!(again.species.len(), 8);
    assert_eq!(again.obstacle_count, s.obstacle_count);
    assert_eq!(again.max_neighbors, s.max_neighbors);
}

#[test]
fn agent_count_sums_enabled_species() {
    let s = settings(vec![species(10, 1, true), species(7, 1, false), species(5, 1, true)]);
    assert_eq!(s.agent_count(), 15);
    assert_eq!(settings(vec![]).agent_count(), 0);
}

#[test]
fn species_index_falls_back_to_first() {
    let s = settings(vec![species(1, 1, true), species(1, 1, true)]);
    assert_eq!(s.species_index(1), 1);
    assert_eq!(s.species_index(2), 0);
    assert_eq!(s.species_index(u32::MAX), 0);
}

#[test]
fn trail_limit_takes_the_shorter_length() {
    let mut s = settings(vec![species(1, 10, true), species(1, 40, true), species(1, 0, true)]);
    s.trail_length = 24;
    assert_eq!(s.trail_limit(0), 10);
    assert_eq!(s.trail_limit(1), 24);
    assert_eq!(s.trail_limit(2), 1);
    assert_eq!(s.trail_limit(9), 24);
}

#[test]
fn push_bounded_drops_oldest_points() {
    assert_eq!(push_bounded(&vec![1, 2, 3], 4, 3), vec![2, 3, 4]);
    assert_eq!(push_bounded(&vec![1, 2, 3], 4, 10), vec![1, 2, 3, 4]);
    assert_eq!(push_bounded(&vec![1, 2, 3, 4, 5], 6, 1), vec![6]);
    assert_eq!(push_bounded(&Vec::new(), 6, 1), vec![6]);
}

#[test]
fn update_trails_appends_and_trims() {
    let mut s = settings(vec![species(2, 2, true), species(1, 50, true)]);
    s.trail_length = 3;
    let mut trails = vec![vec![1, 2], vec![7, 8, 9], vec![5]];
    s.update_trails(&mut trails, &[3, 10], &[0, 1]);
    assert_eq!(trails, vec![vec![2, 3], vec![8, 9, 10], vec![5]]);

    s.trail_length = 0;
    s.update_trails(&mut trails, &[3, 10], &[0, 1]);
    assert!(trails.iter().all(|t| t.is_empty()));
    assert_eq!(trails.len(), 3);
}

#[test]
fn fit_trails_matches_agents() {
    let mut trails = vec![vec![1, 2], vec![], vec![9]];
    fit_trails(&mut trails, &[10, 20]);
    assert_eq!(trails, vec![vec![1, 2], vec![20]]);
    fit_trails(&mut trails, &[10, 20, 30, 40]);
    assert_eq!(trails, vec![vec![1, 2], vec![20], vec![30], vec![40]]);
}

#[test]
fn population_keeps_existing_agents_then_spawns() {
    let s = settings(vec![species(2, 1, true), species(3, 1, false), species(2, 1, true)]);
    // agents: species 0, 2, 0, 0, 1, 2, 2, 2
    let ids = [0, 2, 0, 0, 1, 2, 2, 2];
    let slots = s.resize_agents_for_species(&ids);
    assert_eq!(
        slots,
        vec![AgentSlot::Keep(0), AgentSlot::Keep(2), AgentSlot::Keep(1), AgentSlot::Keep(5)]
    );
    let grown = settings(vec![species(3, 1, true)]).resize_agents_for_species(&[0, 5]);
    assert_eq!(grown, vec![AgentSlot::Keep(0), AgentSlot::Spawn(0), AgentSlot::Spawn(0)]);
    assert_eq!(s.agent_count(), slots.len());
}

#[test]
fn neighbor_candidates_with_and_without_grid() {
    let mut s = settings(vec![species(1, 1, true)]);
    s.max_neighbors = 2;
    let mut hash = SpatialHash::new();
    for i in 0..5 {
        hash.insert(i, [0, 0, 0]);
    }
    assert_eq!(s.neighbor_candidates(&hash, [0, 0, 0], 1, 5), vec![0, 1]);
    s.use_spatial_hash = false;
    // Without the grid every agent is a candidate; the limit applies later.
    assert_eq!(s.neighbor_candidates(&hash, [0, 0, 0], 1, 5), vec![0, 1, 2, 3, 4]);
    assert_eq!(s.neighbor_candidates(&hash, [0, 0, 0], 1, 2), vec![0, 1]);
    s.max_neighbors = 64;
    let all = s.neighbor_candidates(&hash, [0, 0, 0], 1, 100);
    assert_eq!(all.len(), 100);
    assert_eq!(all[99], 99);
}

#[test]
fn validated_population_is_bounded() {
    let list = (0..12).map(|_| species(usize::MAX / 16, 1, true)).collect();
    let s = settings(list).validated();
    assert_eq!(s.agent_count(), 8 * MAX_SPECIES_AGENTS);
}
