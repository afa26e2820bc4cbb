use crate::simulation::cpu_simulation::SimulationSettings;
use crate::simulation::species::{min_usize, MAX_SPECIES};
use vstd::prelude::*;

verus! {

/// Agents one compute workgroup updates.
pub const WORKGROUP_SIZE: u32 = 128;
/// Agents one grid cell can list on the GPU.
pub const MAX_CELL_AGENTS: u32 = 64;
/// Fewest cells along each axis of the GPU grid.
pub const MIN_GRID_RESOLUTION: u32 = 4;
/// Most cells along each axis of the GPU grid.
pub const MAX_GRID_RESOLUTION: u32 = 64;

/// Where the flock is simulated.
#[derive(Debug, Clone, Copy, PartialEq, Eq, Structural)]
pub enum SimulationBackend {
    Cpu,
    Gpu,
}

impl SimulationBackend {
    pub fn label(self) -> (text: &'static str)
        ensures
            self == SimulationBackend::Cpu ==> text@ == "CPU spatial hash"@,
            self == SimulationBackend::Gpu ==> text@ == "GPU compute"@,
    {
        match self {
            SimulationBackend::Cpu => "CPU spatial hash",
            SimulationBackend::Gpu => "GPU compute",
        }
    }
}

/// `value / divisor`, rounded up.
pub fn div_ceil(value: u32, divisor: u32) -> (quotient: u32)
    requires
        divisor > 0,
        value + divisor <= u32::MAX,
    ensures
        quotient == (value + divisor - 1) / (divisor as int),
{
    (value + divisor - 1) / divisor
}

/// Rounding up covers every item with the fewest groups: `quotient` groups of
/// `divisor` hold all `value` items, and one group fewer would not.
pub proof fn lemma_div_ceil_covers(value: u32, divisor: u32, quotient: u32)
    requires
        divisor > 0,
        quotient == (value + divisor - 1) / (divisor as int),
    ensures
        quotient * divisor >= value,
        quotient == 0 || (quotient - 1) * divisor < value,
{
    let d = divisor as int;
    let t = value + d - 1;
    assert(t == d * (t / d) + t % d) by (nonlinear_arith)
        requires
            d > 0,
    ;
    assert(0 <= t % d < d) by (nonlinear_arith)
        requires
            d > 0,
    ;
    assert(quotient * d == d * (t / d)) by (nonlinear_arith)
        requires
            quotient == t / d,
    ;
    assert((quotient - 1) * d == quotient * d - d) by (nonlinear_arith);
}

/// The side and cell count of the GPU grid for a space `cells_across` cells
/// wide: the side is clamped to `MIN_GRID_RESOLUTION..=MAX_GRID_RESOLUTION`
/// and the grid is a cube.
pub open spec fn grid_side(cells_across: u32) -> u32 {
    if cells_across < MIN_GRID_RESOLUTION {
        MIN_GRID_RESOLUTION
    } else if cells_across > MAX_GRID_RESOLUTION {
        MAX_GRID_RESOLUTION
    } else {
        cells_across
    }
}

pub fn grid_dimensions(cells_across: u32) -> (dims: (u32, u32))
    ensures
        dims.0 == grid_side(cells_across),
        dims.1 == dims.0 * dims.0 * dims.0,
        MIN_GRID_RESOLUTION <= dims.0 <= MAX_GRID_RESOLUTION,
{
    let resolution = if cells_across < MIN_GRID_RESOLUTION {
        MIN_GRID_RESOLUTION
    } else if cells_across > MAX_GRID_RESOLUTION {
        MAX_GRID_RESOLUTION
    } else {
        cells_across
    };
    assert(resolution * resolution <= 4096) by (nonlinear_arith)
        requires
            resolution <= 64,
    ;
    assert(resolution * resolution * resolution <= 262144) by (nonlinear_arith)
        requires
            resolution <= 64,
            resolution * resolution <= 4096,
    ;
    (resolution, resolution * resolution * resolution)
}

/// `p` is a power of two.
pub open spec fn is_power_of_two(p: nat) -> bool
    decreases p,
{
    if p == 1 {
        true
    } else if p < 2 || p % 2 != 0 {
        false
    } else {
        is_power_of_two(p / 2)
    }
}

/// The smallest power of two that is at least `n` (one for zero).
pub fn next_power_of_two(n: usize) -> (p: usize)
    requires
        n <= usize::MAX / 2 + 1,
    ensures
        is_power_of_two(p as nat),
        p >= n,
        p == 1 || p / 2 < n,
{
    let mut p: usize = 1;
    while p < n
        invariant
            is_power_of_two(p as nat),
            p >= 1,
            p == 1 || p / 2 < n,
            n <= usize::MAX / 2 + 1,
        decreases usize::MAX - p,
    {
        assert((2 * p) as nat / 2 == p as nat);
        assert((2 * p) as nat % 2 == 0);
        p = p * 2;
    }
    p
}


/// The first `capacity` agents of `agents`, padded when short with copies of
/// the first agent, or of `placeholder` when there is none.
pub open spec fn padded<A>(agents: Seq<A>, capacity: nat, placeholder: A) -> Seq<A> {
    let fill = if agents.len() > 0 {
        agents[0]
    } else {
        placeholder
    };
    Seq::new(capacity, |i: int| if i < agents.len() { agents[i] } else { fill })
}

pub fn padded_agents<A: Copy>(agents: &[A], capacity: usize, placeholder: A) -> (out: Vec<A>)
    ensures
        out@ == padded(agents@, capacity as nat, placeholder),
{
    let fill = if agents.len() > 0 {
        agents[0]
    } else {
        placeholder
    };
    let mut out: Vec<A> = Vec::new();
    let mut i: usize = 0;
    while i < capacity
        invariant
            i <= capacity,
            out@ == padded(agents@, i as nat, placeholder),
            fill == (if agents@.len() > 0 {
                agents@[0]
            } else {
                placeholder
            }),
        decreases capacity - i,
    {
        if i < agents.len() {
            out.push(agents[i]);
        } else {
            out.push(fill);
        }
        i = i + 1;
        assert(out@ =~= padded(agents@, i as nat, placeholder));
    }
    out
}

/// One slot per species the GPU knows: the first `MAX_SPECIES` entries of
/// `species`, then `disabled` in every slot left over.
pub fn fill_species_slots<S: Copy>(species: &[S], disabled: S) -> (slots: [S; MAX_SPECIES])
    ensures
        forall|i: int|
            0 <= i < MAX_SPECIES ==> #[trigger] slots[i] == if i < species@.len() {
                species@[i]
            } else {
                disabled
            },
{
    let mut slots = [disabled; MAX_SPECIES];
    let mut i: usize = 0;
    while i < MAX_SPECIES
        invariant
            i <= MAX_SPECIES,
            forall|j: int|
                0 <= j < MAX_SPECIES ==> #[trigger] slots[j] == if j < i && j < species@.len() {
                    species@[j]
                } else {
                    disabled
                },
        decreases MAX_SPECIES - i,
    {
        if i < species.len() {
            slots[i] = species[i];
        }
        i = i + 1;
    }
    slots
}

/// The counts the compute shader reads: agents, species (at most
/// `MAX_SPECIES`), the neighbour limit, and whether the grid is used (1) or
/// not (0); each count as a `u32`, cut to its low 32 bits.
pub fn param_counts<G, T>(settings: &SimulationSettings<G, T>, agent_count: usize) -> (counts: [u32; 4])
    ensures
        counts[0] == agent_count as u32,
        counts[1] == min_usize(settings.species@.len() as usize, MAX_SPECIES) as u32,
        counts[2] == settings.max_neighbors as u32,
        counts[3] == if settings.use_spatial_hash {
            1u32
        } else {
            0u32
        },
{
    let species = if settings.species.len() < MAX_SPECIES {
        settings.species.len()
    } else {
        MAX_SPECIES
    };
    [
        #[verifier::truncate] (agent_count as u32),
        species as u32,
        #[verifier::truncate] (settings.max_neighbors as u32),
        if settings.use_spatial_hash {
            1
        } else {
            0
        },
    ]
}

/// The grid description the compute shader reads: side, cell count, agents
/// per cell, and the frame number.
pub fn param_grid(cells_across: u32, frame_index: u32) -> (grid: [u32; 4])
    ensures
        grid[0] == grid_side(cells_across),
        grid[1] == grid[0] * grid[0] * grid[0],
        grid[2] == MAX_CELL_AGENTS,
        grid[3] == frame_index,
{
    let (resolution, total_cells) = grid_dimensions(cells_across);
    [resolution, total_cells, MAX_CELL_AGENTS, frame_index]
}


/// `n` agents can be handed to the GPU: their workgroup count fits in `u32`
/// and a power-of-two capacity for them fits in `usize`.
pub open spec fn gpu_agents_fit(n: usize) -> bool {
    n + WORKGROUP_SIZE <= u32::MAX && n <= usize::MAX / 2 + 1
}

pub open spec fn at_least_one(n: usize) -> usize {
    if n < 1 {
        1
    } else {
        n
    }
}

/// `capacity` is the smallest power of two that holds `n` agents (and at
/// least one).
pub open spec fn capacity_for(n: usize, capacity: usize) -> bool {
    &&& is_power_of_two(capacity as nat)
    &&& capacity >= at_least_one(n)
    &&& (capacity == 1 || capacity / 2 < at_least_one(n))
}

/// What the GPU must redo after a reseed.
#[derive(Debug, Clone, Copy, PartialEq, Eq, Structural)]
pub struct ReseedPlan {
    /// The grid side changed: allocate new grid buffers.
    pub rebuild_grid: bool,
    /// The agents outgrew their buffers: allocate larger ones. Otherwise the
    /// agents are written into both existing buffers.
    pub reallocate_agents: bool,
}

impl ReseedPlan {
    /// The bind groups name the buffers, so they are rebuilt whenever a
    /// buffer is replaced.
    pub fn rebuild_bind_groups(&self) -> (rebuild: bool)
        ensures
            rebuild == (self.rebuild_grid || self.reallocate_agents),
    {
        self.rebuild_grid || self.reallocate_agents
    }
}

/// One compute step to record: which buffer pair to bind, how many workgroups
/// to dispatch over agents and over grid cells, and the frame number.
#[derive(Debug, Clone, Copy, PartialEq, Eq, Structural)]
pub struct ComputeDispatch {
    pub source_index: usize,
    pub agent_workgroups: u32,
    pub cell_workgroups: u32,
    pub frame_index: u32,
}

/// The bookkeeping of the GPU simulation: two agent buffers used in turn
/// (read `source_index`, write the other), their capacity, the agent count,
/// the grid size, the frame number, and whether a written buffer is waiting
/// to become the next source.
#[derive(Debug, Clone, Copy, PartialEq, Eq, Structural)]
pub struct GpuFrameState {
    pub source_index: usize,
    pub agent_capacity: usize,
    pub agent_count: usize,
    pub grid_resolution: u32,
    pub total_cells: u32,
    pub frame_index: u32,
    pub pending_swap: bool,
}

impl GpuFrameState {
    pub open spec fn wf(self) -> bool {
        &&& self.source_index < 2
        &&& self.agent_capacity >= at_least_one(self.agent_count)
        &&& is_power_of_two(self.agent_capacity as nat)
        &&& MIN_GRID_RESOLUTION <= self.grid_resolution <= MAX_GRID_RESOLUTION
        &&& self.total_cells == self.grid_resolution * self.grid_resolution * self.grid_resolution
        &&& gpu_agents_fit(self.agent_count)
    }

    /// The buffer written this frame: the one that is not the source.
    pub open spec fn destination_spec(self) -> usize {
        (1 - self.source_index) as usize
    }

    /// The buffer to draw: the freshly written one while a swap is pending,
    /// the source otherwise.
    pub open spec fn render_spec(self) -> usize {
        if self.pending_swap {
            self.destination_spec()
        } else {
            self.source_index
        }
    }

    /// The state after a compute step was recorded.
    pub open spec fn dispatched(self) -> Self {
        GpuFrameState {
            pending_swap: true,
            frame_index: (if self.frame_index == u32::MAX {
                0
            } else {
                self.frame_index + 1
            }) as u32,
            ..self
        }
    }

    /// The state after the frame was drawn: a pending written buffer becomes
    /// the source.
    pub open spec fn finished(self) -> Self {
        if self.pending_swap {
            GpuFrameState { source_index: self.destination_spec(), pending_swap: false, ..self }
        } else {
            self
        }
    }

    /// Whether the GPU must be reseeded for `agent_count` agents in a space
    /// `cells_across` cells wide.
    pub open spec fn needs_reseed_spec(self, agent_count: usize, cells_across: u32) -> bool {
        self.agent_count != agent_count || self.agent_capacity < at_least_one(agent_count)
            || self.grid_resolution != grid_side(cells_across)
    }

    pub fn new(agent_count: usize, cells_across: u32) -> (state: Self)
        requires
            gpu_agents_fit(agent_count),
        ensures
            state.wf(),
            state.source_index == 0,
            capacity_for(agent_count, state.agent_capacity),
            state.agent_count == agent_count,
            state.grid_resolution == grid_side(cells_across),
            state.frame_index == 0,
            !state.pending_swap,
    {
        let (grid_resolution, total_cells) = grid_dimensions(cells_across);
        let agent_capacity = next_power_of_two(if agent_count < 1 {
            1
        } else {
            agent_count
        });
        GpuFrameState {
            source_index: 0,
            agent_capacity,
            agent_count,
            grid_resolution,
            total_cells,
            frame_index: 0,
            pending_swap: false,
        }
    }

    pub fn agent_count(&self) -> (count: usize)
        ensures
            count == self.agent_count,
    {
        self.agent_count
    }

    pub fn destination_index(&self) -> (index: usize)
        requires
            self.wf(),
        ensures
            index == self.destination_spec(),
            index < 2,
            index != self.source_index,
    {
        1 - self.source_index
    }

    /// The index of the agent buffer to draw from.
    pub fn render_index(&self) -> (index: usize)
        requires
            self.wf(),
        ensures
            index == self.render_spec(),
            index < 2,
    {
        if self.pending_swap {
            self.destination_index()
        } else {
            self.source_index
        }
    }

    pub fn needs_reseed(&self, agent_count: usize, cells_across: u32) -> (needed: bool)
        ensures
            needed == self.needs_reseed_spec(agent_count, cells_across),
    {
        let (grid_resolution, _) = grid_dimensions(cells_across);
        self.agent_count != agent_count || self.agent_capacity < (if agent_count < 1 {
            1
        } else {
            agent_count
        }) || self.grid_resolution != grid_resolution
    }

    /// Takes `agent_count` fresh agents in a space `cells_across` cells wide:
    /// the grid is resized when its side changes, the agent buffers grow to
    /// the smallest fitting power of two when the agents outgrow them, and
    /// reading starts again from the first buffer.
    pub fn reseed(&mut self, agent_count: usize, cells_across: u32) -> (plan: ReseedPlan)
        requires
            old(self).wf(),
            gpu_agents_fit(agent_count),
        ensures
            final(self).wf(),
            plan.rebuild_grid == (grid_side(cells_across) != old(self).grid_resolution),
            plan.reallocate_agents == (at_least_one(agent_count) > old(self).agent_capacity),
            final(self).grid_resolution == grid_side(cells_across),
            plan.reallocate_agents ==> capacity_for(agent_count, final(self).agent_capacity),
            !plan.reallocate_agents ==> final(self).agent_capacity == old(self).agent_capacity,
            final(self).agent_count == agent_count,
            final(self).source_index == 0,
            !final(self).pending_swap,
            final(self).frame_index == old(self).frame_index,
    {
        let (grid_resolution, total_cells) = grid_dimensions(cells_across);
        let needed = if agent_count < 1 {
            1
        } else {
            agent_count
        };
        let rebuild_grid = grid_resolution != self.grid_resolution;
        let reallocate_agents = needed > self.agent_capacity;
        if rebuild_grid {
            self.grid_resolution = grid_resolution;
            self.total_cells = total_cells;
        }
        if reallocate_agents {
            self.agent_capacity = next_power_of_two(needed);
        }
        self.source_index = 0;
        self.agent_count = agent_count;
        self.pending_swap = false;
        ReseedPlan { rebuild_grid, reallocate_agents }
    }

    /// Decides whether this frame runs a compute step. Paused or empty
    /// simulations do not; otherwise the step reads the source buffer, covers
    /// every agent and every grid cell with workgroups, and leaves its output
    /// pending as the next source.
    pub fn begin_update(&mut self, pause: bool) -> (dispatch: Option<ComputeDispatch>)
        requires
            old(self).wf(),
        ensures
            final(self).wf(),
            (pause || old(self).agent_count == 0) ==> dispatch is None && *final(self) == *old(self),
            !(pause || old(self).agent_count == 0) ==> {
                &&& *final(self) == old(self).dispatched()
                &&& dispatch == Some(
                    ComputeDispatch {
                        source_index: old(self).source_index,
                        agent_workgroups: ((old(self).agent_count + WORKGROUP_SIZE - 1)
                            / (WORKGROUP_SIZE as int)) as u32,
                        cell_workgroups: ((old(self).total_cells + WORKGROUP_SIZE - 1)
                            / (WORKGROUP_SIZE as int)) as u32,
                        frame_index: old(self).frame_index,
                    },
                )
            },
    {
        if pause || self.agent_count == 0 {
            return None;
        }
        assert(self.grid_resolution * self.grid_resolution <= 4096) by (nonlinear_arith)
            requires
                self.grid_resolution <= 64,
        ;
        assert(self.total_cells <= 262144) by (nonlinear_arith)
            requires
                self.grid_resolution <= 64,
                self.grid_resolution * self.grid_resolution <= 4096,
                self.total_cells == self.grid_resolution * self.grid_resolution * self.grid_resolution,
        ;
        let dispatch = ComputeDispatch {
            source_index: self.source_index,
            agent_workgroups: div_ceil(self.agent_count as u32, WORKGROUP_SIZE),
            cell_workgroups: div_ceil(self.total_cells, WORKGROUP_SIZE),
            frame_index: self.frame_index,
        };
        self.pending_swap = true;
        self.frame_index = self.frame_index.wrapping_add(1);
        Some(dispatch)
    }

    /// After drawing, the freshly written buffer becomes the next source.
    pub fn finish_frame(&mut self)
        requires
            old(self).wf(),
        ensures
            final(self).wf(),
            *final(self) == old(self).finished(),
    {
        if self.pending_swap {
            self.source_index = self.destination_index();
            self.pending_swap = false;
        }
    }
}

/// After a reseed the GPU matches the agents and the grid it was reseeded
/// for, so asking again with the same values asks for no reseed.
pub proof fn lemma_reseed_settles(before: GpuFrameState, after: GpuFrameState, plan: ReseedPlan, agent_count: usize, cells_across: u32)
    requires
        before.wf(),
        after.wf(),
        after.grid_resolution == grid_side(cells_across),
        plan.reallocate_agents == (at_least_one(agent_count) > before.agent_capacity),
        plan.reallocate_agents ==> capacity_for(agent_count, after.agent_capacity),
        !plan.reallocate_agents ==> after.agent_capacity == before.agent_capacity,
        after.agent_count == agent_count,
    ensures
        !after.needs_reseed_spec(agent_count, cells_across),
{
}

/// A reseed is needed exactly when the GPU holds a different number of agents
/// than asked for, when its agent buffers are too small for them (counting at
/// least one agent), or when its grid side differs from the one the space
/// asks for; a different agent count alone is always enough.
pub proof fn lemma_needs_reseed_cases(state: GpuFrameState, agent_count: usize, cells_across: u32)
    ensures
        state.agent_count != agent_count ==> state.needs_reseed_spec(agent_count, cells_across),
        state.agent_capacity < agent_count ==> state.needs_reseed_spec(agent_count, cells_across),
        state.agent_capacity == 0 ==> state.needs_reseed_spec(agent_count, cells_across),
        (cells_across <= MAX_GRID_RESOLUTION && MIN_GRID_RESOLUTION <= cells_across
            && state.grid_resolution != cells_across) ==> state.needs_reseed_spec(agent_count, cells_across),
        (state.agent_count == agent_count && state.agent_capacity >= agent_count && state.agent_capacity >= 1
            && state.grid_resolution == (if cells_across < MIN_GRID_RESOLUTION {
            MIN_GRID_RESOLUTION
        } else if cells_across > MAX_GRID_RESOLUTION {
            MAX_GRID_RESOLUTION
        } else {
            cells_across
        })) ==> !state.needs_reseed_spec(agent_count, cells_across),
{
}

/// The buffers are used in turn: a compute step writes the buffer that is not
/// the source, that buffer is what gets drawn, and finishing the frame makes
/// it the next source; finishing again changes nothing, and two full frames
/// return to the first source.
pub proof fn lemma_ping_pong(state: GpuFrameState)
    requires
        state.wf(),
    ensures
        state.dispatched().render_spec() == state.destination_spec(),
        state.dispatched().finished().source_index == state.destination_spec(),
        state.dispatched().finished().render_spec() == state.dispatched().render_spec(),
        state.finished().finished() == state.finished(),
        state.dispatched().finished().dispatched().finished().source_index == state.source_index,
{
}

} // verus!
