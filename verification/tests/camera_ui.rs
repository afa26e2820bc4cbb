use flock_lab::window::{should_exit, WindowSignal};
use flock_lab::camera::{CameraKey, CameraMode, KeyResponse, MovementKeys};
use flock_lab::renderer::{dart_indices, ring_sample_indices};
use flock_lab::simulation::{SimulationSettings, SpeciesDefinition, SpeciesPreset};
use flock_lab::ui::{apply_default_preset, UiAction, UiState};

fn species(name: &str) -> SpeciesDefinition<()> {
    SpeciesDefinition { name: name.to_string(), enabled: true, agent_count: 1, trail_length: 1, shape_id: 0, tuning: () }
}

#[test]
fn camera_mode_toggles() {
    assert_eq!(CameraMode::Orbit.toggled(), CameraMode::Fly);
    assert_eq!(CameraMode::Fly.toggled(), CameraMode::Orbit);
}

#[test]
fn movement_keys_follow_presses() {
    let mut keys = MovementKeys::default();
    assert_eq!(keys.apply_key(CameraKey::W, true), KeyResponse::Handled);
    assert!(keys.forward);
    assert_eq!(keys.apply_key(CameraKey::ShiftRight, true), KeyResponse::Handled);
    assert!(keys.fast);
    assert_eq!(keys.apply_key(CameraKey::W, false), KeyResponse::Handled);
    assert!(!keys.forward);
    assert_eq!(keys.apply_key(CameraKey::Tab, true), KeyResponse::ToggleMode);
    assert_eq!(keys.apply_key(CameraKey::Tab, false), KeyResponse::Ignored);
    assert_eq!(keys.apply_key(CameraKey::Other, true), KeyResponse::Ignored);
    assert_eq!(keys.apply_key(CameraKey::Q, true), KeyResponse::Handled);
    assert!(keys.down && !keys.up && keys.fast);
}

#[test]
fn ui_defaults() {
    let state = UiState::default();
    assert!(state.prefer_gpu && state.show_trails && state.show_bounds);
    assert!(!state.show_neighbor_radius && !state.show_spatial_grid);
    let action = UiAction::default();
    assert!(!action.reset && !action.randomize && !action.apply_default_preset);
}

#[test]
fn default_preset_replaces_species() {
    let mut settings: SimulationSettings<(), ()> = SimulationSettings::with_defaults((), vec![species("old")]);
    settings.trail_length = 5;
    settings.interactions[0][0] = flock_lab::simulation::InterSpeciesRule::Hunt;
    apply_default_preset(&mut settings, SpeciesPreset::built_in(vec![species("a"), species("b")]));
    assert_eq!(settings.species.len(), 2);
    assert_eq!(settings.species[1].name, "b");
    assert_eq!(settings.interactions, flock_lab::simulation::default_interactions());
    assert_eq!(settings.trail_length, 5);
    apply_default_preset(&mut settings, Vec::new());
    assert_eq!(settings.species.len(), 2);
}

#[test]
fn dart_triangles_use_seven_vertices() {
    let indices = dart_indices();
    assert_eq!(indices, [0, 1, 3, 0, 3, 2, 0, 4, 1, 0, 2, 4, 1, 5, 3, 2, 3, 6, 1, 4, 5, 2, 6, 4]);
    assert!(indices.iter().all(|&i| i < 7));
}

#[test]
fn ring_samples_spread_over_agents() {
    assert_eq!(ring_sample_indices(0), Vec::<usize>::new());
    assert_eq!(ring_sample_indices(5), vec![0, 1, 2, 3, 4]);
    assert_eq!(ring_sample_indices(36), (0..18).map(|k| k * 2).collect::<Vec<_>>());
    assert_eq!(ring_sample_indices(40).len(), 18);
    assert_eq!(ring_sample_indices(40)[17], 34);
    let expected: Vec<usize> = (0..40).step_by((40 / 18usize).max(1)).take(18).collect();
    assert_eq!(ring_sample_indices(40), expected);
}

#[test]
fn press_then_release_restores_keys() {
    for key in [CameraKey::W, CameraKey::S, CameraKey::A, CameraKey::D, CameraKey::E, CameraKey::Q, CameraKey::ShiftLeft, CameraKey::Tab, CameraKey::Other] {
        let mut keys = MovementKeys::default();
        keys.apply_key(key, true);
        keys.apply_key(key, false);
        assert_eq!(keys, MovementKeys::default());
    }
}

#[test]
fn window_closes_on_close_or_escape() {
    assert!(should_exit(WindowSignal::CloseRequested));
    assert!(should_exit(WindowSignal::Key { pressed: true, escape: true }));
    assert!(!should_exit(WindowSignal::Key { pressed: false, escape: true }));
    assert!(!should_exit(WindowSignal::Key { pressed: true, escape: false }));
    assert!(!should_exit(WindowSignal::Other));
}
