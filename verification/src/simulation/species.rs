use vstd::prelude::*;

verus! {

/// Number of species slots the simulation and the GPU buffers hold.
pub const MAX_SPECIES: usize = 8;

/// How an agent of one species reacts to a neighbour of another.
#[derive(Debug, Clone, Copy, PartialEq, Eq, Structural)]
pub enum InterSpeciesRule {
    Attract,
    Repel,
    Hunt,
    Ignore,
    Orbit,
}

/// The integer code of a rule, as the compute shader reads it.
pub open spec fn rule_code(rule: InterSpeciesRule) -> i32 {
    match rule {
        InterSpeciesRule::Attract => 1,
        InterSpeciesRule::Repel => 2,
        InterSpeciesRule::Hunt => 3,
        InterSpeciesRule::Ignore => 4,
        InterSpeciesRule::Orbit => 5,
    }
}

impl InterSpeciesRule {
    pub fn as_i32(self) -> (code: i32)
        ensures
            code == rule_code(self),
    {
        match self {
            InterSpeciesRule::Attract => 1,
            InterSpeciesRule::Repel => 2,
            InterSpeciesRule::Hunt => 3,
            InterSpeciesRule::Ignore => 4,
            InterSpeciesRule::Orbit => 5,
        }
    }
}

/// Distinct rules get distinct codes, and every code lies in `1..=5`, so the
/// shader can tell every rule apart.
pub proof fn lemma_rule_code_injective(a: InterSpeciesRule, b: InterSpeciesRule)
    ensures
        1 <= rule_code(a) <= 5,
        rule_code(a) == rule_code(b) <==> a == b,
{
}

pub type InteractionTable = [[InterSpeciesRule; MAX_SPECIES]; MAX_SPECIES];

/// The built-in rule of species `i` towards species `j`.
pub open spec fn default_rule(i: int, j: int) -> InterSpeciesRule {
    if i == 0 && (j == 1 || j == 4) {
        InterSpeciesRule::Attract
    } else if i == 0 && j == 2 {
        InterSpeciesRule::Repel
    } else if i == 1 && j == 0 {
        InterSpeciesRule::Orbit
    } else if i == 1 && j == 2 {
        InterSpeciesRule::Repel
    } else if i == 2 && (j == 0 || j == 1 || j == 3) {
        InterSpeciesRule::Hunt
    } else if i == 3 && j == 2 {
        InterSpeciesRule::Repel
    } else if i == 3 && j == 4 {
        InterSpeciesRule::Orbit
    } else if i == 4 && (j == 0 || j == 1) {
        InterSpeciesRule::Attract
    } else if i == j {
        InterSpeciesRule::Attract
    } else {
        InterSpeciesRule::Ignore
    }
}

pub fn default_interactions() -> (rules: InteractionTable)
    ensures
        forall|i: int, j: int|
            0 <= i < MAX_SPECIES && 0 <= j < MAX_SPECIES ==> #[trigger] rules[i][j] == default_rule(i, j),
{
    let mut rules = [[InterSpeciesRule::Ignore; MAX_SPECIES]; MAX_SPECIES];
    let mut i: usize = 0;
    while i < MAX_SPECIES
        invariant
            i <= MAX_SPECIES,
            forall|a: int, b: int|
                0 <= a < MAX_SPECIES && 0 <= b < MAX_SPECIES ==> #[trigger] rules[a][b] == (if a == b
                    && a < i { InterSpeciesRule::Attract } else { InterSpeciesRule::Ignore }),
        decreases MAX_SPECIES - i,
    {
        rules[i][i] = InterSpeciesRule::Attract;
        i = i + 1;
    }

    let swarm: usize = 0;
    let gliders: usize = 1;
    let predators: usize = 2;
    let drifters: usize = 3;
    let leaders: usize = 4;

    rules[swarm][gliders] = InterSpeciesRule::Attract;
    rules[swarm][predators] = InterSpeciesRule::Repel;
    rules[swarm][leaders] = InterSpeciesRule::Attract;
    rules[gliders][swarm] = InterSpeciesRule::Orbit;
    rules[gliders][predators] = InterSpeciesRule::Repel;
    rules[predators][swarm] = InterSpeciesRule::Hunt;
    rules[predators][gliders] = InterSpeciesRule::Hunt;
    rules[predators][drifters] = InterSpeciesRule::Hunt;
    rules[drifters][predators] = InterSpeciesRule::Repel;
    rules[drifters][leaders] = InterSpeciesRule::Orbit;
    rules[leaders][swarm] = InterSpeciesRule::Attract;
    rules[leaders][gliders] = InterSpeciesRule::Attract;

    rules
}


/// The table as the compute shader reads it: each rule replaced by its code.
pub fn gpu_interaction_array(rules: &InteractionTable) -> (codes: [[i32; MAX_SPECIES]; MAX_SPECIES])
    ensures
        forall|y: int, x: int|
            0 <= y < MAX_SPECIES && 0 <= x < MAX_SPECIES ==> #[trigger] codes[y][x] == rule_code(
                rules[y][x],
            ),
{
    let mut output = [[InterSpeciesRule::Ignore.as_i32(); MAX_SPECIES]; MAX_SPECIES];
    let mut y: usize = 0;
    while y < MAX_SPECIES
        invariant
            y <= MAX_SPECIES,
            forall|a: int, b: int|
                0 <= a < y && 0 <= b < MAX_SPECIES ==> #[trigger] output[a][b] == rule_code(rules[a][b]),
        decreases MAX_SPECIES - y,
    {
        let mut x: usize = 0;
        while x < MAX_SPECIES
            invariant
                x <= MAX_SPECIES,
                y < MAX_SPECIES,
                forall|a: int, b: int|
                    0 <= a < y && 0 <= b < MAX_SPECIES ==> #[trigger] output[a][b] == rule_code(rules[a][b]),
                forall|b: int| 0 <= b < x ==> #[trigger] output[y as int][b] == rule_code(rules[y as int][b]),
            decreases MAX_SPECIES - x,
        {
            output[y][x] = rules[y][x].as_i32();
            x = x + 1;
        }
        y = y + 1;
    }
    output
}

/// Most agents a species may hold after validation.
pub const MAX_SPECIES_AGENTS: usize = 40_000;
/// Longest trail a species may keep after validation.
pub const MAX_TRAIL_LENGTH: usize = 96;

/// One species: its name, whether it takes part, how many agents it has, how
/// long its trails are, which shape it is drawn with, and `tuning`, the
/// remaining per-species parameters (speeds, forces, weights, colour), which
/// this crate carries along without reading.
#[derive(Debug, Clone)]
pub struct SpeciesDefinition<T> {
    pub name: String,
    pub enabled: bool,
    pub agent_count: usize,
    pub trail_length: usize,
    pub shape_id: u32,
    pub tuning: T,
}

pub open spec fn min_usize(a: usize, b: usize) -> usize {
    if a <= b { a } else { b }
}

impl<T> SpeciesDefinition<T> {
    /// The species with its counts clamped to the supported ranges.
    pub open spec fn validated_spec(self) -> Self {
        SpeciesDefinition {
            agent_count: min_usize(self.agent_count, MAX_SPECIES_AGENTS),
            trail_length: min_usize(self.trail_length, MAX_TRAIL_LENGTH),
            ..self
        }
    }

    pub fn validated(self) -> (res: Self)
        ensures
            res == self.validated_spec(),
    {
        let mut s = self;
        if s.agent_count > MAX_SPECIES_AGENTS {
            s.agent_count = MAX_SPECIES_AGENTS;
        }
        if s.trail_length > MAX_TRAIL_LENGTH {
            s.trail_length = MAX_TRAIL_LENGTH;
        }
        s
    }
}

/// The built-in species, each with the given tuning: Swarm (2400 agents,
/// trails of 20, shape 0), Gliders (760, 26, 1), Predators (18, 32, 2),
/// Drifters (420, 40, 3) and Leaders (12, 34, 4), all enabled.
pub fn built_in_species<T: Copy>(tunings: [T; 5]) -> (species: Vec<SpeciesDefinition<T>>)
    ensures
        species@.len() == 5,
        species@[0].name@ == "Swarm"@ && species@[0].agent_count == 2_400 && species@[0].trail_length == 20,
        species@[1].name@ == "Gliders"@ && species@[1].agent_count == 760 && species@[1].trail_length == 26,
        species@[2].name@ == "Predators"@ && species@[2].agent_count == 18 && species@[2].trail_length == 32,
        species@[3].name@ == "Drifters"@ && species@[3].agent_count == 420 && species@[3].trail_length == 40,
        species@[4].name@ == "Leaders"@ && species@[4].agent_count == 12 && species@[4].trail_length == 34,
        forall|i: int|
            0 <= i < 5 ==> #[trigger] species@[i].enabled && species@[i].shape_id == i && species@[i].tuning
                == tunings[i],
{
    let mut species: Vec<SpeciesDefinition<T>> = Vec::new();
    species.push(SpeciesDefinition {
        name: String::from_str("Swarm"),
        enabled: true,
        agent_count: 2_400,
        trail_length: 20,
        shape_id: 0,
        tuning: tunings[0],
    });
    species.push(SpeciesDefinition {
        name: String::from_str("Gliders"),
        enabled: true,
        agent_count: 760,
        trail_length: 26,
        shape_id: 1,
        tuning: tunings[1],
    });
    species.push(SpeciesDefinition {
        name: String::from_str("Predators"),
        enabled: true,
        agent_count: 18,
        trail_length: 32,
        shape_id: 2,
        tuning: tunings[2],
    });
    species.push(SpeciesDefinition {
        name: String::from_str("Drifters"),
        enabled: true,
        agent_count: 420,
        trail_length: 40,
        shape_id: 3,
        tuning: tunings[3],
    });
    species.push(SpeciesDefinition {
        name: String::from_str("Leaders"),
        enabled: true,
        agent_count: 12,
        trail_length: 34,
        shape_id: 4,
        tuning: tunings[4],
    });
    species
}

/// A named set of species with their interaction table.
#[derive(Debug, Clone)]
pub struct SpeciesPreset<T> {
    pub name: &'static str,
    pub species: Vec<SpeciesDefinition<T>>,
    pub interactions: InteractionTable,
}

impl<T> SpeciesPreset<T> {
    /// The built-in presets: one, "Aurora Lab", holding `species` with the
    /// built-in interaction table.
    pub fn built_in(species: Vec<SpeciesDefinition<T>>) -> (presets: Vec<Self>)
        ensures
            presets@.len() == 1,
            presets@[0].name@ == "Aurora Lab"@,
            presets@[0].species@ == species@,
            forall|i: int, j: int|
                0 <= i < MAX_SPECIES && 0 <= j < MAX_SPECIES ==> #[trigger] presets@[0].interactions[i][j]
                    == default_rule(i, j),
    {
        let mut presets: Vec<Self> = Vec::new();
        presets.push(
            SpeciesPreset { name: "Aurora Lab", species, interactions: default_interactions() },
        );
        presets
    }
}

} // verus!
