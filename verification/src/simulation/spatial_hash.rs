use std::collections::HashMap;
use vstd::prelude::*;

verus! {

broadcast use vstd::std_specs::hash::group_hash_axioms;

/// A grid cell in the model: three integer coordinates.
pub type CellCoord = (int, int, int);

pub open spec fn in_i32(v: int) -> bool {
    i32::MIN <= v <= i32::MAX
}

pub open spec fn valid_cell(c: CellCoord) -> bool {
    in_i32(c.0) && in_i32(c.1) && in_i32(c.2)
}

/// The model coordinates of an executable cell.
pub open spec fn cell_of(cell: [i32; 3]) -> CellCoord {
    (cell[0] as int, cell[1] as int, cell[2] as int)
}

/// The integer under which a cell is stored: its three coordinates, each
/// shifted into `0..2^32`, written as the digits of one base-`2^32` number.
pub open spec fn key_of(c: CellCoord) -> int {
    (c.0 + 0x8000_0000) * 0x1_0000_0000_0000_0000 + (c.1 + 0x8000_0000) * 0x1_0000_0000 + (c.2
        + 0x8000_0000)
}

proof fn lemma_key_bounds(c: CellCoord)
    requires
        valid_cell(c),
    ensures
        0 <= key_of(c) < 0x1_0000_0000_0000_0000_0000_0000,
{
}

proof fn lemma_key_injective(a: CellCoord, b: CellCoord)
    requires
        valid_cell(a),
        valid_cell(b),
        key_of(a) == key_of(b),
    ensures
        a == b,
{
    let (ax, ay, az) = (a.0 + 0x8000_0000, a.1 + 0x8000_0000, a.2 + 0x8000_0000);
    let (bx, by, bz) = (b.0 + 0x8000_0000, b.1 + 0x8000_0000, b.2 + 0x8000_0000);
    if ax != bx {
        assert(ax < bx || bx < ax);
        if ax < bx {
            assert(key_of(a) < key_of(b));
        } else {
            assert(key_of(b) < key_of(a));
        }
    }
    if ay != by {
        if ay < by {
            assert(key_of(a) < key_of(b));
        } else {
            assert(key_of(b) < key_of(a));
        }
    }
}

fn cell_key(cell: [i32; 3]) -> (key: u128)
    ensures
        key as int == key_of(cell_of(cell)),
{
    let x = (cell[0] as i64 + 0x8000_0000i64) as u128;
    let y = (cell[1] as i64 + 0x8000_0000i64) as u128;
    let z = (cell[2] as i64 + 0x8000_0000i64) as u128;
    x * 0x1_0000_0000_0000_0000u128 + y * 0x1_0000_0000u128 + z
}


/// What a cell holds in a model map: its indices, or nothing if it is absent.
pub open spec fn contents(m: Map<CellCoord, Seq<usize>>, c: CellCoord) -> Seq<usize> {
    if m.contains_key(c) {
        m[c]
    } else {
        Seq::empty()
    }
}

/// The model after inserting `entries` one after another into an empty grid.
pub open spec fn inserted_all(entries: Seq<(usize, [i32; 3])>) -> Map<CellCoord, Seq<usize>>
    decreases entries.len(),
{
    if entries.len() == 0 {
        Map::empty()
    } else {
        let m = inserted_all(entries.drop_last());
        let (index, cell) = entries.last();
        m.insert(cell_of(cell), contents(m, cell_of(cell)).push(index))
    }
}

/// The indices of the entries that lie in cell `c`, in the order of `entries`.
pub open spec fn indices_in_cell(entries: Seq<(usize, [i32; 3])>, c: CellCoord) -> Seq<usize>
    decreases entries.len(),
{
    if entries.len() == 0 {
        Seq::empty()
    } else {
        let rest = indices_in_cell(entries.drop_last(), c);
        if cell_of(entries.last().1) == c {
            rest.push(entries.last().0)
        } else {
            rest
        }
    }
}

/// The indices stored in the cells `(x, y, z)` with `z` in `z_lo..z_hi`, cell by cell.
pub open spec fn gather_z(m: Map<CellCoord, Seq<usize>>, x: int, y: int, z_lo: int, z_hi: int) -> Seq<
    usize,
>
    decreases z_hi - z_lo,
{
    if z_hi <= z_lo {
        Seq::empty()
    } else {
        gather_z(m, x, y, z_lo, z_hi - 1) + contents(m, (x, y, z_hi - 1))
    }
}

/// The indices stored in the cells of column `x` with `y` in `y_lo..y_hi` and
/// `z` in `z_lo..z_hi`, in `(y, z)` order.
pub open spec fn gather_y(
    m: Map<CellCoord, Seq<usize>>,
    x: int,
    y_lo: int,
    y_hi: int,
    z_lo: int,
    z_hi: int,
) -> Seq<usize>
    decreases y_hi - y_lo,
{
    if y_hi <= y_lo {
        Seq::empty()
    } else {
        gather_y(m, x, y_lo, y_hi - 1, z_lo, z_hi) + gather_z(m, x, y_hi - 1, z_lo, z_hi)
    }
}

/// The indices stored in the box of cells `x_lo..x_hi` by `y_lo..y_hi` by
/// `z_lo..z_hi`, in `(x, y, z)` order.
pub open spec fn gather_x(
    m: Map<CellCoord, Seq<usize>>,
    x_lo: int,
    x_hi: int,
    y_lo: int,
    y_hi: int,
    z_lo: int,
    z_hi: int,
) -> Seq<usize>
    decreases x_hi - x_lo,
{
    if x_hi <= x_lo {
        Seq::empty()
    } else {
        gather_x(m, x_lo, x_hi - 1, y_lo, y_hi, z_lo, z_hi) + gather_y(
            m,
            x_hi - 1,
            y_lo,
            y_hi,
            z_lo,
            z_hi,
        )
    }
}

/// Every index stored within `r` cells of `origin` along each axis, cell by
/// cell in `(x, y, z)` order.
pub open spec fn neighbourhood(m: Map<CellCoord, Seq<usize>>, origin: CellCoord, r: int) -> Seq<
    usize,
> {
    gather_x(m, origin.0 - r, origin.0 + r + 1, origin.1 - r, origin.1 + r + 1, origin.2 - r, origin.2 + r + 1)
}

/// At most `limit` elements: the first ones of `s`.
pub open spec fn first_at_most(s: Seq<usize>, limit: usize) -> Seq<usize> {
    if s.len() <= limit {
        s
    } else {
        s.take(limit as int)
    }
}

/// The cells within `r` of `origin` can be queried without leaving `i32`.
pub open spec fn query_fits(origin: [i32; 3], r: i32) -> bool {
    r >= 0 ==> (forall|k: int|
        0 <= k < 3 ==> i32::MIN <= #[trigger] origin[k] - r && origin[k] + r <= i32::MAX)
}

/// The hash of a cell: each coordinate sign-extended to 64 bits, multiplied
/// (modulo 2^64) by its own prime, the three products combined by xor.
pub open spec fn cell_hash(cell: [i32; 3]) -> u64 {
    wrapped_product(cell[0], 73_856_093) ^ wrapped_product(cell[1], 19_349_663) ^ wrapped_product(
        cell[2],
        83_492_791,
    )
}

/// `v` sign-extended to 64 bits, times `prime`, modulo 2^64.
pub open spec fn wrapped_product(v: i32, prime: u64) -> u64 {
    (((#[verifier::truncate] (v as i64 as u64)) as nat * prime as nat) % 0x1_0000_0000_0000_0000) as u64
}

/// Some cell within `r` of `origin` along every axis holds `j`.
pub open spec fn stored_near(m: Map<CellCoord, Seq<usize>>, origin: CellCoord, r: int, j: usize) -> bool {
    exists|x: int, y: int, z: int|
        origin.0 - r <= x <= origin.0 + r && origin.1 - r <= y <= origin.1 + r && origin.2 - r <= z
            <= origin.2 + r && #[trigger] contents(m, (x, y, z)).contains(j)
}

proof fn lemma_gather_z_contains(m: Map<CellCoord, Seq<usize>>, x: int, y: int, z_lo: int, z_hi: int, j: usize)
    ensures
        gather_z(m, x, y, z_lo, z_hi).contains(j) <==> exists|z: int|
            z_lo <= z < z_hi && #[trigger] contents(m, (x, y, z)).contains(j),
    decreases z_hi - z_lo,
{
    broadcast use vstd::seq_lib::group_seq_properties;

    if z_hi > z_lo {
        lemma_gather_z_contains(m, x, y, z_lo, z_hi - 1, j);
        if contents(m, (x, y, z_hi - 1)).contains(j) {
            assert(gather_z(m, x, y, z_lo, z_hi).contains(j));
        }
    }
}

proof fn lemma_gather_y_contains(
    m: Map<CellCoord, Seq<usize>>,
    x: int,
    y_lo: int,
    y_hi: int,
    z_lo: int,
    z_hi: int,
    j: usize,
)
    ensures
        gather_y(m, x, y_lo, y_hi, z_lo, z_hi).contains(j) <==> exists|y: int, z: int|
            y_lo <= y < y_hi && z_lo <= z < z_hi && #[trigger] contents(m, (x, y, z)).contains(j),
    decreases y_hi - y_lo,
{
    broadcast use vstd::seq_lib::group_seq_properties;

    if y_hi > y_lo {
        lemma_gather_y_contains(m, x, y_lo, y_hi - 1, z_lo, z_hi, j);
        lemma_gather_z_contains(m, x, y_hi - 1, z_lo, z_hi, j);
        if gather_y(m, x, y_lo, y_hi, z_lo, z_hi).contains(j) {
            if !gather_y(m, x, y_lo, y_hi - 1, z_lo, z_hi).contains(j) {
                let z = choose|z: int| z_lo <= z < z_hi && #[trigger] contents(m, (x, y_hi - 1, z)).contains(j);
                assert(contents(m, (x, y_hi - 1, z)).contains(j));
            }
        }
        if exists|y: int, z: int|
            y_lo <= y < y_hi && z_lo <= z < z_hi && #[trigger] contents(m, (x, y, z)).contains(j) {
            let (y, z) = choose|y: int, z: int|
                y_lo <= y < y_hi && z_lo <= z < z_hi && #[trigger] contents(m, (x, y, z)).contains(j);
            if y == y_hi - 1 {
                assert(gather_z(m, x, y_hi - 1, z_lo, z_hi).contains(j));
            } else {
                assert(gather_y(m, x, y_lo, y_hi - 1, z_lo, z_hi).contains(j));
            }
        }
    }
}

proof fn lemma_gather_x_contains(
    m: Map<CellCoord, Seq<usize>>,
    x_lo: int,
    x_hi: int,
    y_lo: int,
    y_hi: int,
    z_lo: int,
    z_hi: int,
    j: usize,
)
    ensures
        gather_x(m, x_lo, x_hi, y_lo, y_hi, z_lo, z_hi).contains(j) <==> exists|x: int, y: int, z: int|
            x_lo <= x < x_hi && y_lo <= y < y_hi && z_lo <= z < z_hi && #[trigger] contents(
                m,
                (x, y, z),
            ).contains(j),
    decreases x_hi - x_lo,
{
    broadcast use vstd::seq_lib::group_seq_properties;

    if x_hi > x_lo {
        lemma_gather_x_contains(m, x_lo, x_hi - 1, y_lo, y_hi, z_lo, z_hi, j);
        lemma_gather_y_contains(m, x_hi - 1, y_lo, y_hi, z_lo, z_hi, j);
        if gather_x(m, x_lo, x_hi, y_lo, y_hi, z_lo, z_hi).contains(j) {
            if !gather_x(m, x_lo, x_hi - 1, y_lo, y_hi, z_lo, z_hi).contains(j) {
                let (y, z) = choose|y: int, z: int|
                    y_lo <= y < y_hi && z_lo <= z < z_hi && #[trigger] contents(m, (x_hi - 1, y, z)).contains(j);
                assert(contents(m, (x_hi - 1, y, z)).contains(j));
            }
        }
        if exists|x: int, y: int, z: int|
            x_lo <= x < x_hi && y_lo <= y < y_hi && z_lo <= z < z_hi && #[trigger] contents(
                m,
                (x, y, z),
            ).contains(j) {
            let (x, y, z) = choose|x: int, y: int, z: int|
                x_lo <= x < x_hi && y_lo <= y < y_hi && z_lo <= z < z_hi && #[trigger] contents(
                    m,
                    (x, y, z),
                ).contains(j);
            if x == x_hi - 1 {
                assert(gather_y(m, x_hi - 1, y_lo, y_hi, z_lo, z_hi).contains(j));
            } else {
                assert(gather_x(m, x_lo, x_hi - 1, y_lo, y_hi, z_lo, z_hi).contains(j));
            }
        }
    }
}

/// A neighbourhood query misses nothing and invents nothing: an index is in
/// the neighbourhood of `origin` exactly when some cell within `r` cells of
/// `origin` along every axis holds it.
pub proof fn lemma_neighbourhood_members(m: Map<CellCoord, Seq<usize>>, origin: CellCoord, r: int, j: usize)
    ensures
        neighbourhood(m, origin, r).contains(j) <==> stored_near(m, origin, r, j),
{
    lemma_gather_x_contains(
        m,
        origin.0 - r,
        origin.0 + r + 1,
        origin.1 - r,
        origin.1 + r + 1,
        origin.2 - r,
        origin.2 + r + 1,
        j,
    );
}

/// What is written can be read back: after an index is inserted into a cell,
/// every query that reaches that cell finds it, and no index stored before is
/// lost from any query.
pub proof fn lemma_insert_then_query(
    m: Map<CellCoord, Seq<usize>>,
    index: usize,
    cell: CellCoord,
    origin: CellCoord,
    r: int,
    j: usize,
)
    requires
        origin.0 - r <= cell.0 <= origin.0 + r,
        origin.1 - r <= cell.1 <= origin.1 + r,
        origin.2 - r <= cell.2 <= origin.2 + r,
    ensures
        neighbourhood(m.insert(cell, contents(m, cell).push(index)), origin, r).contains(index),
        neighbourhood(m, origin, r).contains(j) ==> neighbourhood(
            m.insert(cell, contents(m, cell).push(index)),
            origin,
            r,
        ).contains(j),
{
    broadcast use vstd::seq_lib::group_seq_properties;

    let after = m.insert(cell, contents(m, cell).push(index));
    lemma_neighbourhood_members(after, origin, r, index);
    assert(contents(after, (cell.0, cell.1, cell.2)).contains(index));
    lemma_neighbourhood_members(m, origin, r, j);
    lemma_neighbourhood_members(after, origin, r, j);
    if neighbourhood(m, origin, r).contains(j) {
        let (x, y, z) = choose|x: int, y: int, z: int|
            origin.0 - r <= x <= origin.0 + r && origin.1 - r <= y <= origin.1 + r && origin.2 - r <= z
                <= origin.2 + r && #[trigger] contents(m, (x, y, z)).contains(j);
        if (x, y, z) == cell {
            assert(contents(after, (x, y, z)) == contents(m, cell).push(index));
        } else {
            assert(contents(after, (x, y, z)) == contents(m, (x, y, z)));
        }
        assert(contents(after, (x, y, z)).contains(j));
    }
}

/// A limited query returns the first `limit` results of the full query, or
/// all of them when there are fewer.
pub proof fn lemma_first_at_most(s: Seq<usize>, limit: usize)
    ensures
        first_at_most(s, limit).len() == if s.len() <= limit {
            s.len()
        } else {
            limit as nat
        },
        forall|k: int| 0 <= k < first_at_most(s, limit).len() ==> #[trigger] first_at_most(s, limit)[k] == s[k],
{
}

/// Rebuilding from a list of entries leaves each cell holding exactly the
/// indices of the entries placed in it, in the order they were listed.
pub proof fn lemma_rebuild_cell_contents(entries: Seq<(usize, [i32; 3])>, c: CellCoord)
    ensures
        contents(inserted_all(entries), c) == indices_in_cell(entries, c),
    decreases entries.len(),
{
    if entries.len() > 0 {
        lemma_rebuild_cell_contents(entries.drop_last(), c);
    }
}

/// A uniform grid over space: each occupied cell lists the indices inserted
/// into it, in insertion order.
#[derive(Debug)]
pub struct SpatialHash {
    cells: HashMap<u128, Vec<usize>>,
}

/// The model of a table of keyed cells: every valid cell whose key is present,
/// with the indices stored under that key.
pub closed spec fn model_of(cells: Map<u128, Vec<usize>>) -> Map<CellCoord, Seq<usize>> {
    Map::new(
        |c: CellCoord| valid_cell(c) && cells.contains_key(key_of(c) as u128),
        |c: CellCoord| cells[key_of(c) as u128]@,
    )
}

proof fn lemma_model_empty(cells: Map<u128, Vec<usize>>)
    requires
        cells == Map::<u128, Vec<usize>>::empty(),
    ensures
        model_of(cells) == Map::<CellCoord, Seq<usize>>::empty(),
        model_of(cells).dom().finite(),
        model_of(cells).dom().len() == cells.len(),
{
    assert(model_of(cells) =~= Map::<CellCoord, Seq<usize>>::empty());
}

proof fn lemma_model_store(
    old_cells: Map<u128, Vec<usize>>,
    new_cells: Map<u128, Vec<usize>>,
    c: CellCoord,
    v: Vec<usize>,
)
    requires
        valid_cell(c),
        new_cells == old_cells.insert(key_of(c) as u128, v),
        old_cells.dom().finite(),
        model_of(old_cells).dom().finite(),
        model_of(old_cells).dom().len() == old_cells.len(),
    ensures
        model_of(new_cells) == model_of(old_cells).insert(c, v@),
        model_of(new_cells).dom().finite(),
        model_of(new_cells).dom().len() == new_cells.len(),
{
    lemma_key_bounds(c);
    assert forall|d: CellCoord| valid_cell(d) && key_of(d) as u128 == key_of(c) as u128 implies d
        == c by {
        lemma_key_bounds(d);
        lemma_key_injective(d, c);
    }
    assert(model_of(new_cells) =~= model_of(old_cells).insert(c, v@));
    if old_cells.contains_key(key_of(c) as u128) {
        assert(model_of(old_cells).dom().contains(c));
        assert(old_cells.dom().insert(key_of(c) as u128) =~= old_cells.dom());
        assert(model_of(old_cells).dom().insert(c) =~= model_of(old_cells).dom());
    } else {
        assert(!model_of(old_cells).dom().contains(c));
        assert(new_cells.dom() =~= old_cells.dom().insert(key_of(c) as u128));
    }
}

impl View for SpatialHash {
    type V = Map<CellCoord, Seq<usize>>;

    closed spec fn view(&self) -> Map<CellCoord, Seq<usize>> {
        model_of(self.cells@)
    }
}

impl SpatialHash {
    #[verifier::type_invariant]
    closed spec fn wf(self) -> bool {
        &&& self@.dom().finite()
        &&& self@.dom().len() == self.cells@.len()
        &&& forall|c: CellCoord| #[trigger] self@.dom().contains(c) ==> self@[c].len() > 0
    }

    pub fn new() -> (hash: Self)
        ensures
            hash@ == Map::<CellCoord, Seq<usize>>::empty(),
    {
        let cells: HashMap<u128, Vec<usize>> = HashMap::new();
        proof {
            lemma_model_empty(cells@);
        }
        SpatialHash { cells }
    }

    pub fn clear(&mut self)
        ensures
            final(self)@ == Map::<CellCoord, Seq<usize>>::empty(),
    {
        let cells: HashMap<u128, Vec<usize>> = HashMap::new();
        proof {
            lemma_model_empty(cells@);
        }
        self.cells = cells;
    }

    pub fn insert(&mut self, index: usize, cell: [i32; 3])
        ensures
            final(self)@ == old(self)@.insert(
                cell_of(cell),
                contents(old(self)@, cell_of(cell)).push(index),
            ),
    {
        proof {
            use_type_invariant(&*self);
        }
        let ghost c = cell_of(cell);
        let key = cell_key(cell);
        proof {
            lemma_key_bounds(c);
        }
        let mut cells: HashMap<u128, Vec<usize>> = HashMap::new();
        proof {
            lemma_model_empty(cells@);
        }
        std::mem::swap(&mut cells, &mut self.cells);
        let ghost old_cells = cells@;
        assert(old_cells.dom().finite());
        let mut entry = match cells.remove(&key) {
            Some(v) => v,
            None => Vec::new(),
        };
        entry.push(index);
        cells.insert(key, entry);
        assert(cells@ =~= old_cells.insert(key, entry));
        proof {
            lemma_model_store(old_cells, cells@, c, entry);
        }
        self.cells = cells;
    }

    /// Empties the grid, then inserts every `(index, cell)` entry in order.
    pub fn rebuild(&mut self, entries: &[(usize, [i32; 3])])
        ensures
            final(self)@ == inserted_all(entries@),
    {
        self.clear();
        let mut i: usize = 0;
        while i < entries.len()
            invariant
                i <= entries.len(),
                self@ == inserted_all(entries@.take(i as int)),
            decreases entries.len() - i,
        {
            let (index, cell) = entries[i];
            assert(entries@.take(i + 1).drop_last() =~= entries@.take(i as int));
            self.insert(index, cell);
            i = i + 1;
        }
        assert(entries@.take(entries.len() as int) =~= entries@);
    }

    pub fn hash_cell(cell: [i32; 3]) -> (hash: u64)
        ensures
            hash == cell_hash(cell),
    {
        let x = #[verifier::truncate] (cell[0] as i64 as u64);
        let y = #[verifier::truncate] (cell[1] as i64 as u64);
        let z = #[verifier::truncate] (cell[2] as i64 as u64);
        x.wrapping_mul(73_856_093) ^ y.wrapping_mul(19_349_663) ^ z.wrapping_mul(83_492_791)
    }

    /// Appends the indices stored in `cell` to `out`.
    fn append_cell(&self, cell: [i32; 3], out: &mut Vec<usize>)
        ensures
            final(out)@ == old(out)@ + contents(self@, cell_of(cell)),
    {
        let key = cell_key(cell);
        proof {
            lemma_key_bounds(cell_of(cell));
        }
        match self.cells.get(&key) {
            Some(indices) => {
                assert(contents(self@, cell_of(cell)) == indices@);
                let ghost start = out@;
                let mut k: usize = 0;
                while k < indices.len()
                    invariant
                        k <= indices.len(),
                        out@ == start + indices@.take(k as int),
                    decreases indices.len() - k,
                {
                    out.push(indices[k]);
                    k = k + 1;
                    assert(out@ =~= start + indices@.take(k as int));
                }
                assert(indices@.take(indices.len() as int) =~= indices@);
            },
            None => {
                assert(contents(self@, cell_of(cell)) == Seq::<usize>::empty());
                assert(out@ + Seq::<usize>::empty() =~= out@);
            },
        }
    }

    /// The indices stored within `cell_radius` cells of `origin` along every
    /// axis, walked cell by cell in `(x, y, z)` order, of which at most
    /// `max_results` (the first ones) are returned.
    pub fn nearby_indices_limited(&self, origin: [i32; 3], cell_radius: i32, max_results: usize) -> (found:
        Vec<usize>)
        requires
            query_fits(origin, cell_radius),
        ensures
            found@ == first_at_most(
                neighbourhood(self@, cell_of(origin), cell_radius as int),
                max_results,
            ),
            neighbourhood(self@, cell_of(origin), cell_radius as int).len() <= usize::MAX,
    {
        let ghost m = self@;
        let mut out: Vec<usize> = Vec::new();
        let r = cell_radius as i64;
        let x_lo = origin[0] as i64 - r;
        let x_hi = origin[0] as i64 + r + 1;
        let y_lo = origin[1] as i64 - r;
        let y_hi = origin[1] as i64 + r + 1;
        let z_lo = origin[2] as i64 - r;
        let z_hi = origin[2] as i64 + r + 1;
        if r >= 0 {
            assert(origin[0] - cell_radius >= i32::MIN && origin[0] + cell_radius <= i32::MAX);
            assert(origin[1] - cell_radius >= i32::MIN && origin[1] + cell_radius <= i32::MAX);
            assert(origin[2] - cell_radius >= i32::MIN && origin[2] + cell_radius <= i32::MAX);
            let mut x = x_lo;
            while x < x_hi
                invariant
                    x_lo <= x <= x_hi,
                    i32::MIN <= x_lo,
                    x_hi - 1 <= i32::MAX,
                    i32::MIN <= y_lo,
                    y_hi - 1 <= i32::MAX,
                    i32::MIN <= z_lo,
                    z_hi - 1 <= i32::MAX,
                    y_lo < y_hi,
                    z_lo < z_hi,
                    m == self@,
                    out@ == gather_x(m, x_lo as int, x as int, y_lo as int, y_hi as int, z_lo as int, z_hi as int),
                decreases x_hi - x,
            {
                let ghost before_x = out@;
                let mut y = y_lo;
                while y < y_hi
                    invariant
                        y_lo <= y <= y_hi,
                        x_lo <= x < x_hi,
                        i32::MIN <= x_lo,
                        x_hi - 1 <= i32::MAX,
                        i32::MIN <= y_lo,
                        y_hi - 1 <= i32::MAX,
                        i32::MIN <= z_lo,
                        z_hi - 1 <= i32::MAX,
                        z_lo < z_hi,
                        m == self@,
                        out@ == before_x + gather_y(m, x as int, y_lo as int, y as int, z_lo as int, z_hi as int),
                    decreases y_hi - y,
                {
                    let ghost before_y = out@;
                    let mut z = z_lo;
                    while z < z_hi
                        invariant
                            z_lo <= z <= z_hi,
                            x_lo <= x < x_hi,
                            y_lo <= y < y_hi,
                            i32::MIN <= x_lo,
                            x_hi - 1 <= i32::MAX,
                            i32::MIN <= y_lo,
                            y_hi - 1 <= i32::MAX,
                            i32::MIN <= z_lo,
                            z_hi - 1 <= i32::MAX,
                            m == self@,
                            out@ == before_y + gather_z(m, x as int, y as int, z_lo as int, z as int),
                        decreases z_hi - z,
                    {
                        self.append_cell([x as i32, y as i32, z as i32], &mut out);
                        z = z + 1;
                        assert(out@ =~= before_y + gather_z(m, x as int, y as int, z_lo as int, z as int));
                    }
                    y = y + 1;
                    assert(out@ =~= before_x + gather_y(m, x as int, y_lo as int, y as int, z_lo as int, z_hi as int));
                }
                x = x + 1;
                assert(out@ =~= gather_x(m, x_lo as int, x as int, y_lo as int, y_hi as int, z_lo as int, z_hi as int));
            }
        }
        assert(out@ == neighbourhood(m, cell_of(origin), cell_radius as int));
        if out.len() > max_results {
            out.truncate(max_results);
        }
        out
    }

    /// The indices stored in `origin` and its 26 neighbouring cells.
    pub fn nearby_indices(&self, origin: [i32; 3]) -> (found: Vec<usize>)
        requires
            query_fits(origin, 1),
        ensures
            found@ == neighbourhood(self@, cell_of(origin), 1),
    {
        self.nearby_indices_limited(origin, 1, usize::MAX)
    }

    pub fn cell_count(&self) -> (count: usize)
        ensures
            count == self@.dom().len(),
    {
        proof {
            use_type_invariant(self);
        }
        self.cells.len()
    }
}

impl Clone for SpatialHash {
    fn clone(&self) -> (copy: Self)
        ensures
            copy@ == self@,
    {
        proof {
            use_type_invariant(self);
        }
        SpatialHash { cells: self.cells.clone() }
    }
}

} // verus!
