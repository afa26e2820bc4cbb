pub mod cpu_simulation;
pub mod gpu_simulation;
pub mod spatial_hash;
pub mod species;

pub use cpu_simulation::{fit_trails, push_bounded, AgentSlot, SimulationSettings};
pub use gpu_simulation::{ComputeDispatch, GpuFrameState, ReseedPlan, SimulationBackend};
pub use spatial_hash::SpatialHash;
pub use species::{
    built_in_species,
    default_interactions, gpu_interaction_array, InterSpeciesRule, SpeciesDefinition, SpeciesPreset,
    MAX_SPECIES,
};
