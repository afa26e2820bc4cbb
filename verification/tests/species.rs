use flock_lab::simulation::species::MAX_SPECIES_AGENTS;
use flock_lab::simulation::InterSpeciesRule as R;
use flock_lab::simulation::{
    built_in_species, default_interactions, gpu_interaction_array, InterSpeciesRule, SpeciesDefinition,
    SpeciesPreset, MAX_SPECIES,
};

fn species(name: &str, agent_count: usize, trail_length: usize) -> SpeciesDefinition<()> {
    SpeciesDefinition {
        name: name.to_string(),
        enabled: true,
        agent_count,
        trail_length,
        shape_id: 0,
        tuning: (),
    }
}

#[test]
fn rule_codes_are_one_to_five() {
    assert_eq!(InterSpeciesRule::Attract.as_i32(), 1);
    assert_eq!(InterSpeciesRule::Repel.as_i32(), 2);
    assert_eq!(InterSpeciesRule::Hunt.as_i32(), 3);
    assert_eq!(InterSpeciesRule::Ignore.as_i32(), 4);
    assert_eq!(InterSpeciesRule::Orbit.as_i32(), 5);
}

#[test]
fn default_interactions_table() {
    let rules = default_interactions();
    let expected = [
        [R::Attract, R::Attract, R::Repel, R::Ignore, R::Attract, R::Ignore, R::Ignore, R::Ignore],
        [R::Orbit, R::Attract, R::Repel, R::Ignore, R::Ignore, R::Ignore, R::Ignore, R::Ignore],
        [R::Hunt, R::Hunt, R::Attract, R::Hunt, R::Ignore, R::Ignore, R::Ignore, R::Ignore],
        [R::Ignore, R::Ignore, R::Repel, R::Attract, R::Orbit, R::Ignore, R::Ignore, R::Ignore],
        [R::Attract, R::Attract, R::Ignore, R::Ignore, R::Attract, R::Ignore, R::Ignore, R::Ignore],
        [R::Ignore, R::Ignore, R::Ignore, R::Ignore, R::Ignore, R::Attract, R::Ignore, R::Ignore],
        [R::Ignore, R::Ignore, R::Ignore, R::Ignore, R::Ignore, R::Ignore, R::Attract, R::Ignore],
        [R::Ignore, R::Ignore, R::Ignore, R::Ignore, R::Ignore, R::Ignore, R::Ignore, R::Attract],
    ];
    assert_eq!(rules, expected);
}

#[test]
fn gpu_interaction_array_encodes_each_rule() {
    let rules = default_interactions();
    let codes = gpu_interaction_array(&rules);
    for y in 0..MAX_SPECIES {
        for x in 0..MAX_SPECIES {
            assert_eq!(codes[y][x], rules[y][x].as_i32());
        }
    }
    assert_eq!(codes[2][0], 3);
    assert_eq!(codes[1][0], 5);
    assert_eq!(codes[7][0], 4);
}

#[test]
fn species_validation_clamps_counts() {
    let big = species("big", 999_999, 500).validated();
    assert_eq!(big.agent_count, MAX_SPECIES_AGENTS);
    assert_eq!(big.trail_length, 96);
    assert_eq!(big.name, "big");
    let small = species("small", 12, 0).validated();
    assert_eq!(small.agent_count, 12);
    assert_eq!(small.trail_length, 0);
}

#[test]
fn built_in_species_counts() {
    let list = built_in_species([1u8, 2, 3, 4, 5]);
    let names: Vec<&str> = list.iter().map(|s| s.name.as_str()).collect();
    assert_eq!(names, vec!["Swarm", "Gliders", "Predators", "Drifters", "Leaders"]);
    let counts: Vec<usize> = list.iter().map(|s| s.agent_count).collect();
    assert_eq!(counts, vec![2_400, 760, 18, 420, 12]);
    let trails: Vec<usize> = list.iter().map(|s| s.trail_length).collect();
    assert_eq!(trails, vec![20, 26, 32, 40, 34]);
    for (i, s) in list.iter().enumerate() {
        assert!(s.enabled);
        assert_eq!(s.shape_id, i as u32);
        assert_eq!(s.tuning, i as u8 + 1);
    }
}

#[test]
fn built_in_preset_is_aurora_lab() {
    let presets = SpeciesPreset::built_in(vec![species("a", 1, 1)]);
    assert_eq!(presets.len(), 1);
    assert_eq!(presets[0].name, "Aurora Lab");
    assert_eq!(presets[0].species.len(), 1);
    assert_eq!(presets[0].interactions, default_interactions());
}
