use flock_lab::simulation::gpu_simulation::{
    div_ceil, fill_species_slots, grid_dimensions, next_power_of_two, padded_agents, param_counts,
    param_grid,
};
use flock_lab::simulation::{ComputeDispatch, GpuFrameState, SimulationBackend, SimulationSettings, SpeciesDefinition};

#[test]
fn backend_labels() {
    assert_eq!(SimulationBackend::Cpu.label(), "CPU spatial hash");
    assert_eq!(SimulationBackend::Gpu.label(), "GPU compute");
}

#[test]
fn div_ceil_rounds_up() {
    assert_eq!(div_ceil(0, 128), 0);
    assert_eq!(div_ceil(1, 128), 1);
    assert_eq!(div_ceil(128, 128), 1);
    assert_eq!(div_ceil(129, 128), 2);
    assert_eq!(div_ceil(3_610, 128), 29);
}

#[test]
fn grid_dimensions_clamp_and_cube() {
    assert_eq!(grid_dimensions(0), (4, 64));
    assert_eq!(grid_dimensions(18), (18, 5_832));
    assert_eq!(grid_dimensions(64), (64, 262_144));
    assert_eq!(grid_dimensions(1_000), (64, 262_144));
}

#[test]
fn next_power_of_two_values() {
    assert_eq!(next_power_of_two(0), 1);
    assert_eq!(next_power_of_two(1), 1);
    assert_eq!(next_power_of_two(3), 4);
    assert_eq!(next_power_of_two(3_610), 4_096);
    assert_eq!(next_power_of_two(4_096), 4_096);
}

#[test]
fn padding_repeats_first_agent() {
    assert_eq!(padded_agents(&[5, 6, 7], 5, 0), vec![5, 6, 7, 5, 5]);
    assert_eq!(padded_agents(&[], 3, 9), vec![9, 9, 9]);
    assert_eq!(padded_agents(&[5, 6, 7], 2, 0), vec![5, 6]);
}

#[test]
fn species_slots_fill_with_disabled() {
    assert_eq!(fill_species_slots(&[1, 2, 3], 0), [1, 2, 3, 0, 0, 0, 0, 0]);
    let many: Vec<u32> = (1..=10).collect();
    assert_eq!(fill_species_slots(&many, 0), [1, 2, 3, 4, 5, 6, 7, 8]);
}

#[test]
fn shader_params() {
    let species = (0..9)
        .map(|_| SpeciesDefinition {
            name: String::new(),
            enabled: true,
            agent_count: 1,
            trail_length: 1,
            shape_id: 0,
            tuning: (),
        })
        .collect();
    let mut settings = SimulationSettings::with_defaults((), species);
    settings.use_spatial_hash = false;
    assert_eq!(param_counts(&settings, 3_610), [3_610, 8, 64, 0]);
    assert_eq!(param_grid(18, 7), [18, 5_832, 64, 7]);
}

#[test]
fn new_state_starts_on_first_buffer() {
    let state = GpuFrameState::new(3_610, 18);
    assert_eq!(state.source_index, 0);
    assert_eq!(state.agent_capacity, 4_096);
    assert_eq!(state.agent_count(), 3_610);
    assert_eq!(state.grid_resolution, 18);
    assert_eq!(state.total_cells, 5_832);
    assert!(!state.pending_swap);
    assert_eq!(GpuFrameState::new(0, 0).agent_capacity, 1);
}

#[test]
fn frames_ping_pong_between_buffers() {
    let mut state = GpuFrameState::new(300, 18);
    let dispatch = state.begin_update(false);
    assert_eq!(
        dispatch,
        Some(ComputeDispatch { source_index: 0, agent_workgroups: 3, cell_workgroups: 46, frame_index: 0 })
    );
    assert_eq!(state.render_index(), 1);
    state.finish_frame();
    assert_eq!(state.source_index, 1);
    assert_eq!(state.render_index(), 1);
    state.finish_frame();
    assert_eq!(state.source_index, 1);
    let second = state.begin_update(false).unwrap();
    assert_eq!(second.source_index, 1);
    assert_eq!(second.frame_index, 1);
    assert_eq!(state.render_index(), 0);
    state.finish_frame();
    assert_eq!(state.source_index, 0);
}

#[test]
fn paused_or_empty_frames_dispatch_nothing() {
    let mut state = GpuFrameState::new(300, 18);
    assert_eq!(state.begin_update(true), None);
    assert!(!state.pending_swap);
    let mut empty = GpuFrameState::new(0, 18);
    assert_eq!(empty.begin_update(false), None);
}

#[test]
fn reseed_grows_buffers_and_settles() {
    let mut state = GpuFrameState::new(100, 18);
    state.begin_update(false);
    assert!(state.needs_reseed(200, 18));
    let plan = state.reseed(200, 18);
    assert!(plan.reallocate_agents);
    assert!(!plan.rebuild_grid);
    assert!(plan.rebuild_bind_groups());
    assert_eq!(state.agent_capacity, 256);
    assert_eq!(state.source_index, 0);
    assert!(!state.pending_swap);
    assert!(!state.needs_reseed(200, 18));

    let plan = state.reseed(50, 30);
    assert!(!plan.reallocate_agents);
    assert!(plan.rebuild_grid);
    assert_eq!(state.agent_capacity, 256);
    assert_eq!(state.grid_resolution, 30);
    assert!(!state.needs_reseed(50, 30));
    let plan = state.reseed(50, 30);
    assert!(!plan.rebuild_bind_groups());
}
