use vstd::prelude::*;

verus! {

/// The vertices of the dart shape every agent is drawn with.
pub const DART_VERTEX_COUNT: u16 = 7;
/// How many agents at most get neighbour-radius rings.
pub const RING_SAMPLES: usize = 18;

/// The triangles of the dart shape, three vertex indices each.
pub fn dart_indices() -> (indices: [u16; 24])
    ensures
        indices@ == seq![
            0u16, 1, 3, 0, 3, 2, 0, 4, 1, 0, 2, 4, 1, 5, 3, 2, 3, 6, 1, 4, 5, 2, 6, 4,
        ],
        forall|i: int| 0 <= i < 24 ==> #[trigger] indices[i] < DART_VERTEX_COUNT,
{
    let indices: [u16; 24] = [0, 1, 3, 0, 3, 2, 0, 4, 1, 0, 2, 4, 1, 5, 3, 2, 3, 6, 1, 4, 5, 2, 6, 4];
    assert(indices@ =~= seq![0u16, 1, 3, 0, 3, 2, 0, 4, 1, 0, 2, 4, 1, 5, 3, 2, 3, 6, 1, 4, 5, 2, 6, 4]);
    indices
}

/// The agents that get neighbour-radius rings: every `step`-th agent from the
/// first, where `step` spreads `RING_SAMPLES` samples over the agents (and is
/// at least one), at most `RING_SAMPLES` of them.
pub fn ring_sample_indices(agent_count: usize) -> (samples: Vec<usize>)
    ensures
        ({
            let step = if agent_count / RING_SAMPLES < 1 {
                1
            } else {
                agent_count / RING_SAMPLES
            };
            &&& samples@.len() <= RING_SAMPLES
            &&& forall|k: int| 0 <= k < samples@.len() ==> #[trigger] samples@[k] == k * step
            &&& forall|k: int| 0 <= k < samples@.len() ==> #[trigger] samples@[k] < agent_count
            &&& (samples@.len() == RING_SAMPLES || samples@.len() * step >= agent_count)
        }),
{
    let step = if agent_count / RING_SAMPLES < 1 {
        1
    } else {
        agent_count / RING_SAMPLES
    };
    let mut samples: Vec<usize> = Vec::new();
    let mut index: usize = 0;
    let mut done = agent_count == 0;
    while !done && samples.len() < RING_SAMPLES
        invariant
            step >= 1,
            samples@.len() <= RING_SAMPLES,
            done ==> samples@.len() * step >= agent_count,
            !done ==> index == samples@.len() * step && index < agent_count,
            forall|k: int| 0 <= k < samples@.len() ==> #[trigger] samples@[k] == k * step,
            forall|k: int| 0 <= k < samples@.len() ==> #[trigger] samples@[k] < agent_count,
        decreases RING_SAMPLES - samples@.len(),
    {
        samples.push(index);
        assert((samples@.len() - 1) * step + step == samples@.len() * step) by (nonlinear_arith);
        if agent_count - index <= step {
            done = true;
        } else {
            index = index + step;
        }
    }
    samples
}

} // verus!
