use crate::simulation::spatial_hash::{cell_of, first_at_most, neighbourhood, query_fits, SpatialHash};
use crate::simulation::species::{
    default_interactions, default_rule, min_usize, InteractionTable, SpeciesDefinition, MAX_SPECIES,
    MAX_SPECIES_AGENTS, MAX_TRAIL_LENGTH,
};
use vstd::prelude::*;

verus! {

/// Most obstacles a validated simulation keeps.
pub const MAX_OBSTACLES: usize = 128;
/// Fewest neighbours an agent may consider after validation.
pub const MIN_NEIGHBORS: usize = 1;
/// Most neighbours an agent may consider after validation.
pub const MAX_NEIGHBORS: usize = 512;

/// The counts and switches of a simulation, with its species and their
/// interaction table. `tuning` holds the remaining global parameters (speeds,
/// strengths, radii, bounds), which this crate carries along without reading.
#[derive(Debug, Clone)]
pub struct SimulationSettings<G, T> {
    pub obstacle_count: usize,
    pub trail_length: usize,
    pub max_neighbors: usize,
    pub use_spatial_hash: bool,
    pub pause: bool,
    pub species: Vec<SpeciesDefinition<T>>,
    pub interactions: InteractionTable,
    pub tuning: G,
}

/// The number of agents of the enabled species among `species`.
pub open spec fn total_agents<T>(species: Seq<SpeciesDefinition<T>>) -> nat
    decreases species.len(),
{
    if species.len() == 0 {
        0
    } else {
        total_agents(species.drop_last()) + if species.last().enabled {
            species.last().agent_count as nat
        } else {
            0
        }
    }
}

/// One entry of a rebuilt population: an existing agent kept by its index, or
/// a new agent to be spawned for a species.
#[derive(Debug, Clone, Copy, PartialEq, Eq, Structural)]
pub enum AgentSlot {
    Keep(usize),
    Spawn(u32),
}

/// The indices below `upto` of the agents of species `s`, in order.
pub open spec fn agents_of(ids: Seq<u32>, s: u32, upto: int) -> Seq<usize>
    decreases upto,
{
    if upto <= 0 {
        Seq::empty()
    } else {
        let rest = agents_of(ids, s, upto - 1);
        if ids[upto - 1] == s {
            rest.push((upto - 1) as usize)
        } else {
            rest
        }
    }
}

pub open spec fn keep_slots(indices: Seq<usize>) -> Seq<AgentSlot> {
    indices.map_values(|i: usize| AgentSlot::Keep(i))
}

pub open spec fn spawn_slots(s: u32, n: nat) -> Seq<AgentSlot> {
    Seq::new(n, |k: int| AgentSlot::Spawn(s))
}

/// The slots of species `s` wanting `count` agents: its first existing agents,
/// up to `count` of them, then as many new ones as are still missing.
pub open spec fn species_slots(ids: Seq<u32>, s: u32, count: nat) -> Seq<AgentSlot> {
    let kept = agents_of(ids, s, ids.len() as int);
    let k = if kept.len() <= count {
        kept.len()
    } else {
        count
    };
    keep_slots(kept.take(k as int)) + spawn_slots(s, (count - k) as nat)
}

/// The rebuilt population for the first `n` species, species by species;
/// disabled species get no slots.
pub open spec fn population_slots<T>(ids: Seq<u32>, species: Seq<SpeciesDefinition<T>>, n: int) -> Seq<
    AgentSlot,
>
    decreases n,
{
    if n <= 0 {
        Seq::empty()
    } else {
        population_slots(ids, species, n - 1) + if species[n - 1].enabled {
            species_slots(ids, (n - 1) as u32, species[n - 1].agent_count as nat)
        } else {
            Seq::empty()
        }
    }
}

/// `trail` with `point` appended, then cut from the front to at most `limit`
/// points.
pub open spec fn bounded_push<P>(trail: Seq<P>, point: P, limit: nat) -> Seq<P> {
    let pushed = trail.push(point);
    if pushed.len() > limit {
        pushed.skip(pushed.len() - limit)
    } else {
        pushed
    }
}

pub open spec fn clamp_usize(v: usize, lo: usize, hi: usize) -> usize {
    if v < lo {
        lo
    } else if v > hi {
        hi
    } else {
        v
    }
}

impl<G, T> SimulationSettings<G, T> {
    /// `res` is these settings validated: every count clamped to its supported
    /// range, at most the first `MAX_SPECIES` species kept, each of them
    /// validated, and everything else unchanged.
    pub open spec fn validates_to(self, res: Self) -> bool {
        &&& res.obstacle_count == min_usize(self.obstacle_count, MAX_OBSTACLES)
        &&& res.trail_length == min_usize(self.trail_length, MAX_TRAIL_LENGTH)
        &&& res.max_neighbors == clamp_usize(self.max_neighbors, MIN_NEIGHBORS, MAX_NEIGHBORS)
        &&& res.use_spatial_hash == self.use_spatial_hash
        &&& res.pause == self.pause
        &&& res.species@.len() == min_usize(self.species@.len() as usize, MAX_SPECIES)
        &&& forall|i: int|
            0 <= i < res.species@.len() ==> #[trigger] res.species@[i] == self.species@[i].validated_spec()
        &&& res.interactions == self.interactions
        &&& res.tuning == self.tuning
    }

    /// Every count lies in its supported range and there are at most
    /// `MAX_SPECIES` species.
    pub open spec fn within_limits(self) -> bool {
        &&& self.obstacle_count <= MAX_OBSTACLES
        &&& self.trail_length <= MAX_TRAIL_LENGTH
        &&& MIN_NEIGHBORS <= self.max_neighbors <= MAX_NEIGHBORS
        &&& self.species@.len() <= MAX_SPECIES
        &&& forall|i: int|
            0 <= i < self.species@.len() ==> #[trigger] self.species@[i].agent_count <= MAX_SPECIES_AGENTS
                && self.species@[i].trail_length <= MAX_TRAIL_LENGTH
    }

    /// The built-in counts and switches around the given tuning and species:
    /// 10 obstacles, trails of 24, at most 64 neighbours, the spatial grid on,
    /// not paused, and the built-in interaction table.
    pub fn with_defaults(tuning: G, species: Vec<SpeciesDefinition<T>>) -> (settings: Self)
        ensures
            settings.obstacle_count == 10,
            settings.trail_length == 24,
            settings.max_neighbors == 64,
            settings.use_spatial_hash,
            !settings.pause,
            settings.species@ == species@,
            forall|i: int, j: int|
                0 <= i < MAX_SPECIES && 0 <= j < MAX_SPECIES ==> #[trigger] settings.interactions[i][j]
                    == default_rule(i, j),
            settings.tuning == tuning,
    {
        SimulationSettings {
            obstacle_count: 10,
            trail_length: 24,
            max_neighbors: 64,
            use_spatial_hash: true,
            pause: false,
            species,
            interactions: default_interactions(),
            tuning,
        }
    }

    /// The settings with every count clamped to its supported range, and at
    /// most the first `MAX_SPECIES` species kept, each of them validated.
    pub fn validated(self) -> (res: Self)
        ensures
            self.validates_to(res),
    {
        let SimulationSettings {
            obstacle_count,
            trail_length,
            max_neighbors,
            use_spatial_hash,
            pause,
            species,
            interactions,
            tuning,
        } = self;
        let mut rest = species;
        rest.truncate(MAX_SPECIES);
        let ghost kept = rest@;
        let mut validated: Vec<SpeciesDefinition<T>> = Vec::new();
        while rest.len() > 0
            invariant
                validated@.len() + rest@.len() == kept.len(),
                rest@ == kept.subrange(validated@.len() as int, kept.len() as int),
                forall|i: int|
                    0 <= i < validated@.len() ==> #[trigger] validated@[i] == kept[i].validated_spec(),
            decreases rest@.len(),
        {
            let next = rest.remove(0);
            validated.push(next.validated());
        }
        SimulationSettings {
            obstacle_count: if obstacle_count > MAX_OBSTACLES {
                MAX_OBSTACLES
            } else {
                obstacle_count
            },
            trail_length: if trail_length > MAX_TRAIL_LENGTH {
                MAX_TRAIL_LENGTH
            } else {
                trail_length
            },
            max_neighbors: if max_neighbors < MIN_NEIGHBORS {
                MIN_NEIGHBORS
            } else if max_neighbors > MAX_NEIGHBORS {
                MAX_NEIGHBORS
            } else {
                max_neighbors
            },
            use_spatial_hash,
            pause,
            species: validated,
            interactions,
            tuning,
        }
    }

    /// The longest trail an agent of species `id` keeps: the smaller of the
    /// global and the species' trail length (the global one alone for an
    /// unknown species), but at least one point.
    pub open spec fn trail_limit_spec(self, id: u32) -> usize {
        let species_len = if (id as int) < self.species@.len() {
            self.species@[id as int].trail_length
        } else {
            self.trail_length
        };
        let shorter = min_usize(self.trail_length, species_len);
        if shorter < 1 {
            1
        } else {
            shorter
        }
    }

    pub fn trail_limit(&self, id: u32) -> (limit: usize)
        ensures
            limit == self.trail_limit_spec(id),
    {
        let species_len = if (id as usize) < self.species.len() {
            self.species[id as usize].trail_length
        } else {
            self.trail_length
        };
        let shorter = if self.trail_length <= species_len {
            self.trail_length
        } else {
            species_len
        };
        if shorter < 1 {
            1
        } else {
            shorter
        }
    }

    /// The species an agent with id `id` follows: its own, or the first one
    /// when `id` names no species.
    pub fn species_index(&self, id: u32) -> (index: usize)
        requires
            self.species@.len() > 0,
        ensures
            index == if (id as int) < self.species@.len() {
                id as usize
            } else {
                0
            },
    {
        if (id as usize) < self.species.len() {
            id as usize
        } else {
            0
        }
    }

    /// The agents an agent at `origin` considers: with the spatial grid, the
    /// indices near `origin`, at most `max_neighbors` of them; without it,
    /// every agent index (a naive all-pairs scan; the neighbour limit then
    /// applies to the neighbours actually counted).
    pub fn neighbor_candidates(
        &self,
        hash: &SpatialHash,
        origin: [i32; 3],
        cell_radius: i32,
        agent_count: usize,
    ) -> (candidates: Vec<usize>)
        requires
            self.use_spatial_hash ==> query_fits(origin, cell_radius),
        ensures
            self.use_spatial_hash ==> candidates@ == first_at_most(
                neighbourhood(hash@, cell_of(origin), cell_radius as int),
                self.max_neighbors,
            ),
            !self.use_spatial_hash ==> candidates@ == Seq::new(agent_count as nat, |i: int| i as usize),
    {
        if self.use_spatial_hash {
            hash.nearby_indices_limited(origin, cell_radius, self.max_neighbors)
        } else {
            let limit = agent_count;
            let mut out: Vec<usize> = Vec::new();
            let mut i: usize = 0;
            while i < limit
                invariant
                    i <= limit,
                    out@ == Seq::new(i as nat, |k: int| k as usize),
                decreases limit - i,
            {
                out.push(i);
                i = i + 1;
                assert(out@ =~= Seq::new(i as nat, |k: int| k as usize));
            }
            assert(out@ =~= Seq::new(limit as nat, |k: int| k as usize));
            out
        }
    }

    /// The rebuilt population for agents whose species are `species_ids`:
    /// for each enabled species in order, its first existing agents (at most
    /// its count of them), then new agents for the rest of its count.
    pub fn resize_agents_for_species(&self, species_ids: &[u32]) -> (slots: Vec<AgentSlot>)
        requires
            self.species@.len() <= u32::MAX,
        ensures
            slots@ == population_slots(species_ids@, self.species@, self.species@.len() as int),
    {
        let ghost ids = species_ids@;
        let mut slots: Vec<AgentSlot> = Vec::new();
        let mut s: usize = 0;
        while s < self.species.len()
            invariant
                s <= self.species@.len(),
                self.species@.len() <= u32::MAX,
                ids == species_ids@,
                slots@ == population_slots(ids, self.species@, s as int),
            decreases self.species@.len() - s,
        {
            let ghost base = slots@;
            if self.species[s].enabled {
                let count = self.species[s].agent_count;
                let sid = s as u32;
                let mut kept: usize = 0;
                let mut i: usize = 0;
                while i < species_ids.len()
                    invariant
                        i <= species_ids@.len(),
                        ids == species_ids@,
                        kept == min_usize(agents_of(ids, sid, i as int).len() as usize, count),
                        agents_of(ids, sid, i as int).len() <= i,
                        slots@ == base + keep_slots(agents_of(ids, sid, i as int).take(kept as int)),
                    decreases species_ids@.len() - i,
                {
                    let ghost before = agents_of(ids, sid, i as int);
                    if species_ids[i] == sid && kept < count {
                        slots.push(AgentSlot::Keep(i));
                        kept = kept + 1;
                        assert(agents_of(ids, sid, i + 1) == before.push(i));
                        assert(before.push(i).take(kept as int) =~= before.push(i));
                        assert(before.take(kept - 1) =~= before);
                        assert(keep_slots(before.push(i)) =~= keep_slots(before).push(AgentSlot::Keep(i)));
                    } else if species_ids[i] == sid {
                        assert(agents_of(ids, sid, i + 1) == before.push(i));
                        assert(before.push(i).take(kept as int) =~= before.take(kept as int));
                    }
                    i = i + 1;
                }
                let ghost all = agents_of(ids, sid, ids.len() as int);
                let ghost k = kept;
                assert(slots@ =~= base + keep_slots(all.take(k as int)) + spawn_slots(sid, (kept - k) as nat));
                while kept < count
                    invariant
                        k <= kept <= count,
                        slots@ == base + keep_slots(all.take(k as int)) + spawn_slots(sid, (kept - k) as nat),
                    decreases count - kept,
                {
                    slots.push(AgentSlot::Spawn(sid));
                    kept = kept + 1;
                    assert(slots@ =~= base + keep_slots(all.take(k as int)) + spawn_slots(sid, (kept - k) as nat));
                }
                assert(species_slots(ids, sid, count as nat) =~= keep_slots(all.take(k as int)) + spawn_slots(
                    sid,
                    (count - k) as nat,
                ));
                assert(slots@ =~= population_slots(ids, self.species@, s as int + 1));
            } else {
                assert(slots@ =~= population_slots(ids, self.species@, s as int + 1));
            }
            s = s + 1;
        }
        slots
    }

    /// Records one step of every agent's trail: each trail gets its agent's
    /// position and is then cut from the front to the agent's trail limit;
    /// with a global trail length of zero every trail is emptied instead.
    /// Trails beyond the last agent are left as they are.
    pub fn update_trails<P: Copy>(&self, trails: &mut Vec<Vec<P>>, positions: &[P], species_ids: &[u32])
        requires
            positions@.len() == species_ids@.len(),
        ensures
            final(trails)@.len() == old(trails)@.len(),
            forall|i: int|
                0 <= i < final(trails)@.len() ==> #[trigger] final(trails)@[i]@ == if self.trail_length
                    == 0 {
                    Seq::empty()
                } else if i < positions@.len() {
                    bounded_push(
                        old(trails)@[i]@,
                        positions@[i],
                        self.trail_limit_spec(species_ids@[i]) as nat,
                    )
                } else {
                    old(trails)@[i]@
                },
    {
        let ghost start = trails@;
        let mut i: usize = 0;
        while i < trails.len()
            invariant
                i <= trails@.len(),
                trails@.len() == start.len(),
                positions@.len() == species_ids@.len(),
                forall|j: int| i <= j < trails@.len() ==> #[trigger] trails@[j] == start[j],
                forall|j: int|
                    0 <= j < i ==> #[trigger] trails@[j]@ == if self.trail_length == 0 {
                        Seq::empty()
                    } else if j < positions@.len() {
                        bounded_push(
                            start[j]@,
                            positions@[j],
                            self.trail_limit_spec(species_ids@[j]) as nat,
                        )
                    } else {
                        start[j]@
                    },
            decreases start.len() - i,
        {
            if self.trail_length == 0 {
                trails.set(i, Vec::new());
            } else if i < positions.len() {
                let limit = self.trail_limit(species_ids[i]);
                let next = push_bounded(&trails[i], positions[i], limit);
                trails.set(i, next);
            }
            i = i + 1;
        }
    }

    /// The number of agents of the enabled species.
    pub fn agent_count(&self) -> (count: usize)
        requires
            total_agents(self.species@) <= usize::MAX,
        ensures
            count == total_agents(self.species@),
    {
        let mut total: usize = 0;
        let mut i: usize = 0;
        while i < self.species.len()
            invariant
                i <= self.species@.len(),
                total == total_agents(self.species@.take(i as int)),
                total_agents(self.species@) <= usize::MAX,
            decreases self.species@.len() - i,
        {
            proof {
                assert(self.species@.take(i + 1).drop_last() =~= self.species@.take(i as int));
                lemma_total_agents_prefix(self.species@, i as int + 1);
            }
            if self.species[i].enabled {
                total = total + self.species[i].agent_count;
            }
            i = i + 1;
        }
        assert(self.species@.take(self.species@.len() as int) =~= self.species@);
        total
    }
}

/// `trail` with `point` appended, cut from the front to at most `limit` points.
pub fn push_bounded<P: Copy>(trail: &Vec<P>, point: P, limit: usize) -> (next: Vec<P>)
    requires
        limit >= 1,
    ensures
        next@ == bounded_push(trail@, point, limit as nat),
{
    let first = if trail.len() >= limit {
        trail.len() - (limit - 1)
    } else {
        0
    };
    let mut next: Vec<P> = Vec::new();
    let mut k = first;
    while k < trail.len()
        invariant
            first <= k <= trail@.len(),
            next@ == trail@.subrange(first as int, k as int),
        decreases trail@.len() - k,
    {
        next.push(trail[k]);
        k = k + 1;
        assert(next@ =~= trail@.subrange(first as int, k as int));
    }
    next.push(point);
    assert(next@ =~= bounded_push(trail@, point, limit as nat));
    next
}

/// Fits the trails to the agents after the population changed: there is one
/// trail per position, trails beyond the last agent are dropped, and every
/// trail that would be empty starts at its agent's position.
pub fn fit_trails<P: Copy>(trails: &mut Vec<Vec<P>>, positions: &[P])
    ensures
        final(trails)@.len() == positions@.len(),
        forall|i: int|
            0 <= i < positions@.len() ==> #[trigger] final(trails)@[i]@ == if i < old(trails)@.len()
                && old(trails)@[i]@.len() > 0 {
                old(trails)@[i]@
            } else {
                seq![positions@[i]]
            },
{
    let ghost start = trails@;
    trails.truncate(positions.len());
    while trails.len() < positions.len()
        invariant
            trails@.len() <= positions@.len(),
            trails@.len() >= start.len() || trails@.len() == positions@.len(),
            forall|j: int|
                0 <= j < trails@.len() ==> #[trigger] trails@[j]@ == if j < start.len() {
                    start[j]@
                } else {
                    Seq::<P>::empty()
                },
        decreases positions@.len() - trails@.len(),
    {
        trails.push(Vec::new());
    }
    let mut i: usize = 0;
    while i < trails.len()
        invariant
            i <= trails@.len(),
            trails@.len() == positions@.len(),
            forall|j: int|
                i <= j < trails@.len() ==> #[trigger] trails@[j]@ == if j < start.len() {
                    start[j]@
                } else {
                    Seq::<P>::empty()
                },
            forall|j: int|
                0 <= j < i ==> #[trigger] trails@[j]@ == if j < start.len() && start[j]@.len() > 0 {
                    start[j]@
                } else {
                    seq![positions@[j]]
                },
        decreases positions@.len() - i,
    {
        if trails[i].len() == 0 {
            let mut fresh: Vec<P> = Vec::new();
            fresh.push(positions[i]);
            trails.set(i, fresh);
        }
        i = i + 1;
    }
}

/// A bounded push keeps at most `limit` points, ends at the new point, and
/// keeps the newest points of the old trail in order.
pub proof fn lemma_bounded_push<P>(trail: Seq<P>, point: P, limit: nat)
    requires
        limit >= 1,
    ensures
        bounded_push(trail, point, limit).len() <= limit,
        bounded_push(trail, point, limit).len() == if trail.len() + 1 <= limit {
            trail.len() + 1
        } else {
            limit
        },
        bounded_push(trail, point, limit).last() == point,
        bounded_push(trail, point, limit).drop_last() == trail.skip(
            trail.len() - (bounded_push(trail, point, limit).len() - 1),
        ),
{
    let b = bounded_push(trail, point, limit);
    assert(b.drop_last() =~= trail.skip(trail.len() - (b.len() - 1)));
}

proof fn lemma_agents_of_members(ids: Seq<u32>, s: u32, upto: int)
    requires
        upto <= ids.len(),
        ids.len() <= usize::MAX,
    ensures
        agents_of(ids, s, upto).len() <= if upto < 0 {
            0
        } else {
            upto
        },
        forall|k: int|
            0 <= k < agents_of(ids, s, upto).len() ==> #[trigger] agents_of(ids, s, upto)[k] < upto
                && ids[agents_of(ids, s, upto)[k] as int] == s,
        forall|k1: int, k2: int|
            0 <= k1 < k2 < agents_of(ids, s, upto).len() ==> #[trigger] agents_of(ids, s, upto)[k1]
                < #[trigger] agents_of(ids, s, upto)[k2],
    decreases upto,
{
    if upto > 0 {
        lemma_agents_of_members(ids, s, upto - 1);
        let rest = agents_of(ids, s, upto - 1);
        if ids[upto - 1] == s {
            let all = rest.push((upto - 1) as usize);
            assert(all == agents_of(ids, s, upto));
            assert forall|k: int| 0 <= k < all.len() implies #[trigger] all[k] < upto && ids[all[k] as int]
                == s by {
                if k < rest.len() {
                    assert(all[k] == rest[k]);
                }
            }
            assert forall|k1: int, k2: int| 0 <= k1 < k2 < all.len() implies #[trigger] all[k1]
                < #[trigger] all[k2] by {
                assert(all[k1] == rest[k1]);
                if k2 < rest.len() {
                    assert(all[k2] == rest[k2]);
                }
            }
        }
    }
}

proof fn lemma_agents_of_complete(ids: Seq<u32>, s: u32, upto: int, i: int)
    requires
        0 <= i < upto <= ids.len(),
        ids.len() <= usize::MAX,
        ids[i] == s,
    ensures
        agents_of(ids, s, upto).contains(i as usize),
    decreases upto,
{
    let rest = agents_of(ids, s, upto - 1);
    if i < upto - 1 {
        lemma_agents_of_complete(ids, s, upto - 1, i);
        let k = choose|k: int| 0 <= k < rest.len() && rest[k] == i as usize;
        if ids[upto - 1] == s {
            assert(agents_of(ids, s, upto)[k] == i as usize);
        }
    } else {
        assert(agents_of(ids, s, upto) == rest.push(i as usize));
        assert(agents_of(ids, s, upto)[rest.len() as int] == i as usize);
    }
}

/// The slots one species gets: exactly `count` of them; existing agents come
/// first, in increasing index order, and are agents of that species; new
/// agents are of that species; the kept agents are the species' earliest ones
/// (no agent of the species is skipped in favour of a later one); and a new
/// agent is spawned only when every existing agent of the species is kept.
pub proof fn lemma_species_slots(ids: Seq<u32>, s: u32, count: nat)
    requires
        ids.len() <= usize::MAX,
    ensures
        species_slots(ids, s, count).len() == count,
        forall|j: int|
            0 <= j < count ==> match #[trigger] species_slots(ids, s, count)[j] {
                AgentSlot::Keep(i) => i < ids.len() && ids[i as int] == s,
                AgentSlot::Spawn(t) => t == s,
            },
        forall|j1: int, j2: int|
            0 <= j1 < j2 < count && #[trigger] species_slots(ids, s, count)[j2] is Keep
                ==> #[trigger] species_slots(ids, s, count)[j1] is Keep,
        forall|j1: int, j2: int|
            #![trigger species_slots(ids, s, count)[j1], species_slots(ids, s, count)[j2]]
            0 <= j1 < j2 < count && species_slots(ids, s, count)[j2] is Keep
                ==> species_slots(ids, s, count)[j1]->Keep_0 < species_slots(
                ids,
                s,
                count,
            )[j2]->Keep_0,
        forall|j: int, earlier: int|
            0 <= j < count && #[trigger] species_slots(ids, s, count)[j] is Keep && 0 <= earlier
                < species_slots(ids, s, count)[j]->Keep_0 && #[trigger] ids[earlier] == s ==> exists|j2: int|
                0 <= j2 < j && #[trigger] species_slots(ids, s, count)[j2] == AgentSlot::Keep(
                    earlier as usize,
                ),
        forall|j: int, i: int|
            0 <= j < count && #[trigger] species_slots(ids, s, count)[j] is Spawn && 0 <= i < ids.len()
                && #[trigger] ids[i] == s ==> exists|j2: int|
                0 <= j2 < count && #[trigger] species_slots(ids, s, count)[j2] == AgentSlot::Keep(
                    i as usize,
                ),
{
    let all = agents_of(ids, s, ids.len() as int);
    lemma_agents_of_members(ids, s, ids.len() as int);
    let k = if all.len() <= count {
        all.len()
    } else {
        count
    };
    let b = species_slots(ids, s, count);
    assert forall|j: int| 0 <= j < count implies (j < k ==> #[trigger] b[j] == AgentSlot::Keep(all[j]))
        && (j >= k ==> b[j] == AgentSlot::Spawn(s)) by {
        if j < k {
            assert(b[j] == keep_slots(all.take(k as int))[j]);
        } else {
            assert(b[j] == spawn_slots(s, (count - k) as nat)[j - k]);
        }
    }
    assert forall|j1: int, j2: int|
        #![trigger b[j1], b[j2]]
        0 <= j1 < j2 < count && b[j2] is Keep implies b[j1]->Keep_0 < b[j2]->Keep_0 by {
        assert(j2 < k);
        assert(all[j1] < all[j2]);
    }
    assert forall|j: int, earlier: int|
        0 <= j < count && #[trigger] b[j] is Keep && 0 <= earlier < b[j]->Keep_0 && #[trigger] ids[earlier]
            == s implies exists|j2: int| 0 <= j2 < j && #[trigger] b[j2] == AgentSlot::Keep(earlier as usize) by {
        assert(j < k);
        lemma_agents_of_complete(ids, s, ids.len() as int, earlier);
        let m = choose|m: int| 0 <= m < all.len() && all[m] == earlier as usize;
        if m >= j {
            if m > j {
                assert(all[j] < all[m]);
            }
            assert(false);
        }
        assert(b[m] == AgentSlot::Keep(all[m]));
    }
    assert forall|j: int, i: int|
        0 <= j < count && #[trigger] b[j] is Spawn && 0 <= i < ids.len() && #[trigger] ids[i]
            == s implies exists|j2: int| 0 <= j2 < count && #[trigger] b[j2] == AgentSlot::Keep(i as usize) by {
        assert(j >= k);
        assert(k == all.len());
        lemma_agents_of_complete(ids, s, ids.len() as int, i);
        let m = choose|m: int| 0 <= m < all.len() && all[m] == i as usize;
        assert(b[m] == AgentSlot::Keep(all[m]));
    }
}

/// A rebuilt population holds exactly as many slots as the enabled species
/// want agents; every kept agent exists and belongs to an enabled species, and
/// every spawned agent is for an enabled species.
pub proof fn lemma_population_slots<T>(ids: Seq<u32>, species: Seq<SpeciesDefinition<T>>, n: int)
    requires
        0 <= n <= species.len(),
        species.len() <= u32::MAX,
        ids.len() <= usize::MAX,
    ensures
        population_slots(ids, species, n).len() == total_agents(species.take(n)),
        forall|k: int|
            0 <= k < population_slots(ids, species, n).len() ==> match #[trigger] population_slots(
                ids,
                species,
                n,
            )[k] {
                AgentSlot::Keep(i) => i < ids.len() && (ids[i as int] as int) < n && species[ids[i as int] as int].enabled,
                AgentSlot::Spawn(s) => (s as int) < n && species[s as int].enabled,
            },
    decreases n,
{
    if n > 0 {
        lemma_population_slots(ids, species, n - 1);
        assert(species.take(n).drop_last() =~= species.take(n - 1));
        let prev = population_slots(ids, species, n - 1);
        let sid = (n - 1) as u32;
        if species[n - 1].enabled {
            let count = species[n - 1].agent_count as nat;
            let all = agents_of(ids, sid, ids.len() as int);
            lemma_agents_of_members(ids, sid, ids.len() as int);
            let block = species_slots(ids, sid, count);
            let k = if all.len() <= count {
                all.len()
            } else {
                count
            };
            assert(block.len() == count);
            let whole = population_slots(ids, species, n);
            assert(whole == prev + block);
            assert forall|j: int| 0 <= j < whole.len() implies match #[trigger] whole[j] {
                AgentSlot::Keep(i) => i < ids.len() && (ids[i as int] as int) < n && species[ids[i as int] as int].enabled,
                AgentSlot::Spawn(s) => (s as int) < n && species[s as int].enabled,
            } by {
                if j >= prev.len() {
                    let b = j - prev.len();
                    if b < k {
                        assert(block[b] == AgentSlot::Keep(all[b]));
                        assert(all[b] < ids.len());
                        assert(ids[all[b] as int] == sid);
                    } else {
                        assert(block[b] == AgentSlot::Spawn(sid));
                    }
                } else {
                    assert(whole[j] == prev[j]);
                }
            }
        } else {
            let whole = population_slots(ids, species, n);
            assert(whole =~= prev);
        }
    }
}

/// Validation always lands within the limits, and settings already within the
/// limits are left as they are; so validating twice is validating once.
pub proof fn lemma_validation_limits<G, T>(
    settings: SimulationSettings<G, T>,
    res: SimulationSettings<G, T>,
)
    requires
        settings.validates_to(res),
    ensures
        res.within_limits(),
        settings.within_limits() ==> res.obstacle_count == settings.obstacle_count
            && res.trail_length == settings.trail_length && res.max_neighbors
            == settings.max_neighbors && res.species@ == settings.species@,
        forall|again: SimulationSettings<G, T>|
            #[trigger] res.validates_to(again) ==> again.obstacle_count == res.obstacle_count
                && again.trail_length == res.trail_length && again.max_neighbors == res.max_neighbors
                && again.species@ == res.species@ && again.use_spatial_hash == res.use_spatial_hash
                && again.pause == res.pause && again.interactions == res.interactions && again.tuning
                == res.tuning,
{
    if settings.within_limits() {
        assert(res.species@ =~= settings.species@);
    }
    assert forall|again: SimulationSettings<G, T>| #[trigger] res.validates_to(again) implies again.species@
        == res.species@ by {
        assert(again.species@ =~= res.species@);
    }
}

/// Validation touches only counts and the species list: the pause switch,
/// the grid switch, the interaction table and the tuning come out exactly as
/// they went in, whatever the settings were.
pub proof fn lemma_validation_keeps_switches<G, T>(
    settings: SimulationSettings<G, T>,
    res: SimulationSettings<G, T>,
)
    requires
        settings.validates_to(res),
    ensures
        res.pause == settings.pause,
        res.use_spatial_hash == settings.use_spatial_hash,
        res.interactions == settings.interactions,
        res.tuning == settings.tuning,
        forall|i: int|
            0 <= i < res.species@.len() ==> #[trigger] res.species@[i].name == settings.species@[i].name
                && res.species@[i].enabled == settings.species@[i].enabled && res.species@[i].shape_id
                == settings.species@[i].shape_id && res.species@[i].tuning == settings.species@[i].tuning,
{
}

/// Settings within the limits hold at most `MAX_SPECIES * MAX_SPECIES_AGENTS`
/// agents, so their agent count always fits.
pub proof fn lemma_total_agents_bounded<G, T>(settings: SimulationSettings<G, T>)
    requires
        settings.within_limits(),
    ensures
        total_agents(settings.species@) <= MAX_SPECIES * MAX_SPECIES_AGENTS,
{
    lemma_total_agents_at_most(settings.species@);
}

proof fn lemma_total_agents_at_most<T>(species: Seq<SpeciesDefinition<T>>)
    requires
        forall|i: int| 0 <= i < species.len() ==> #[trigger] species[i].agent_count <= MAX_SPECIES_AGENTS,
    ensures
        total_agents(species) <= species.len() * MAX_SPECIES_AGENTS,
    decreases species.len(),
{
    if species.len() > 0 {
        let rest = species.drop_last();
        assert forall|i: int| 0 <= i < rest.len() implies #[trigger] rest[i].agent_count
            <= MAX_SPECIES_AGENTS by {
            assert(rest[i] == species[i]);
        }
        lemma_total_agents_at_most(rest);
        assert(species[species.len() - 1].agent_count <= MAX_SPECIES_AGENTS);
    }
}

proof fn lemma_total_agents_prefix<T>(species: Seq<SpeciesDefinition<T>>, n: int)
    requires
        0 <= n <= species.len(),
    ensures
        total_agents(species.take(n)) <= total_agents(species),
    decreases species.len(),
{
    if n < species.len() {
        assert(species.drop_last().take(n) =~= species.take(n));
        lemma_total_agents_prefix(species.drop_last(), n);
    } else {
        assert(species.take(n) =~= species);
    }
}

} // verus!
