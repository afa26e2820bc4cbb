use crate::simulation::cpu_simulation::SimulationSettings;
use crate::simulation::species::SpeciesPreset;
use vstd::prelude::*;

verus! {

/// Which panels and overlays the user has switched on.
#[derive(Debug, Clone, Copy, PartialEq, Eq, Structural)]
pub struct UiState {
    pub prefer_gpu: bool,
    pub show_trails: bool,
    pub show_neighbor_radius: bool,
    pub show_bounds: bool,
    pub show_spatial_grid: bool,
}

impl Default for UiState {
    /// GPU preferred, trails and bounds shown, the neighbour and grid
    /// overlays hidden.
    fn default() -> (state: Self)
        ensures
            state.prefer_gpu,
            state.show_trails,
            !state.show_neighbor_radius,
            state.show_bounds,
            !state.show_spatial_grid,
    {
        UiState {
            prefer_gpu: true,
            show_trails: true,
            show_neighbor_radius: false,
            show_bounds: true,
            show_spatial_grid: false,
        }
    }
}

/// What the user asked for during one frame of the control panel.
#[derive(Debug, Clone, Copy, PartialEq, Eq, Structural)]
pub struct UiAction {
    pub reset: bool,
    pub randomize: bool,
    pub apply_default_preset: bool,
}

impl Default for UiAction {
    /// Nothing asked for.
    fn default() -> (action: Self)
        ensures
            !action.reset,
            !action.randomize,
            !action.apply_default_preset,
    {
        UiAction { reset: false, randomize: false, apply_default_preset: false }
    }
}

/// Loads the first of `presets` (the built-in ones) into `settings`: its
/// species and interaction table replace the current ones. With no preset the
/// settings stay as they are.
pub fn apply_default_preset<G, T>(settings: &mut SimulationSettings<G, T>, presets: Vec<SpeciesPreset<T>>)
    ensures
        presets@.len() > 0 ==> final(settings).species@ == presets@[0].species@
            && final(settings).interactions == presets@[0].interactions,
        presets@.len() == 0 ==> final(settings).species@ == old(settings).species@
            && final(settings).interactions == old(settings).interactions,
        final(settings).obstacle_count == old(settings).obstacle_count,
        final(settings).trail_length == old(settings).trail_length,
        final(settings).max_neighbors == old(settings).max_neighbors,
        final(settings).use_spatial_hash == old(settings).use_spatial_hash,
        final(settings).pause == old(settings).pause,
        final(settings).tuning == old(settings).tuning,
{
    let mut presets = presets;
    if presets.len() > 0 {
        let preset = presets.remove(0);
        settings.species = preset.species;
        settings.interactions = preset.interactions;
    }
}

} // verus!
