//! The level's pathfinding matrix: the walkability grid built from the
//! tile anchors, together with the calibration that converts between
//! continuous world positions and grid cells.
//!
//! The grid is wrapped in a one-cell border (cells are shifted by +1), so
//! a level can surround its walkable area with absent border cells.

use vstd::prelude::*;

use crate::grid::adjacent;
use crate::grid::grid_add_vertex;
use crate::grid::grid_astar;
use crate::grid::grid_cells;
use crate::grid::grid_clone;
use crate::grid::grid_diagonal;
use crate::grid::grid_dims;
use crate::grid::grid_neighbours;
use crate::grid::grid_new;
use crate::grid::grid_remove_vertex;
use crate::grid::grid_vertices;
use crate::grid::is_walk;
use crate::grid::neighbour_set;
use crate::units::round_cell;
use crate::units::round_to_cell;
use crate::units::lemma_round_cell_near;
use crate::units::lemma_round_cell_exact;
use crate::units::pos_ok;
use crate::units::dist_arg_ok;
use crate::units::POS_LIMIT_MILLI;

verus! {

use pathfinding::grid::Grid;

/// The grid plus the calibration observed at level load: the least cell
/// indices over all tile anchors and the tiles' common sub-cell offset.
pub struct PathfindingMatrix {
    pub grid: Grid,
    pub width: usize,
    pub height: usize,
    pub min_x: i64,
    pub min_z: i64,
    pub dx: i64,
    pub dz: i64,
}

/// The cell that a tile anchor's re-based, border-shifted coordinates
/// name: its rounded cell indices, less the observed minima, plus one.
pub open spec fn shifted_cell(cx: int, cz: int, min_x: int, min_z: int) -> (usize, usize) {
    ((cx - min_x + 1) as usize, (cz - min_z + 1) as usize)
}

/// Whether `c` is the cell of one of the first `n` tile anchors, under
/// the given minima.
pub open spec fn covers_upto(
    min_x: int,
    min_z: int,
    tiles: Seq<(i64, i64)>,
    n: int,
    c: (usize, usize),
) -> bool {
    exists|i: int|
        0 <= i < n && c == shifted_cell(
            round_cell((#[trigger] tiles[i]).0 as int),
            round_cell(tiles[i].1 as int),
            min_x,
            min_z,
        )
}

/// Whether `c` is the cell of one of the tile anchors, under the given
/// minima.
pub open spec fn covers(min_x: int, min_z: int, tiles: Seq<(i64, i64)>, c: (usize, usize)) -> bool {
    covers_upto(min_x, min_z, tiles, tiles.len() as int, c)
}

impl PathfindingMatrix {
    /// Well-formedness: the grid has diagonal mode off, its dimensions are
    /// the recorded ones, every vertex lies inside them, and the
    /// calibration fields are within the ranges construction can produce.
    pub open spec fn wf(self) -> bool {
        &&& !grid_diagonal(self.grid)
        &&& grid_dims(self.grid) == (self.width, self.height)
        &&& self.width as int <= 4_000_000_000
        &&& self.height as int <= 4_000_000_000
        &&& -2_000_000_000 <= self.min_x <= 2_000_000_000
        &&& -2_000_000_000 <= self.min_z <= 2_000_000_000
        &&& -500 <= self.dx <= 500
        &&& -500 <= self.dz <= 500
        &&& forall|c: (usize, usize)| #[trigger]
            grid_cells(self.grid).contains(c) ==> c.0 < self.width && c.1 < self.height
    }

    /// The walkable cells.
    pub open spec fn cells(self) -> Set<(usize, usize)> {
        grid_cells(self.grid)
    }

    /// The cell a continuous position falls in: its coordinates are
    /// de-skewed by the common tile offset, rounded to the nearest cell,
    /// re-based against the least observed cell, and shifted by the +1
    /// border margin. Negative results are outside the calibrated grid.
    pub open spec fn spec_grid_coord(self, t: (i64, i64, i64)) -> Option<(usize, usize)> {
        let gx = round_cell(t.0 - self.dx) - self.min_x + 1;
        let gz = round_cell(t.2 - self.dz) - self.min_z + 1;
        if gx >= 0 && gz >= 0 {
            Some((gx as usize, gz as usize))
        } else {
            None
        }
    }

    /// The continuous position at the center of a cell, at the caller's
    /// vertical coordinate.
    pub open spec fn spec_translation(self, c: (usize, usize), y: i64) -> (i64, i64, i64) {
        (
            ((self.min_x - 1 + c.0) * 1000 + self.dx) as i64,
            y,
            ((self.min_z - 1 + c.1) * 1000 + self.dz) as i64,
        )
    }

    /// Build the matrix from the tile anchors of a level, observed once at
    /// level load: each anchor is rounded to its nearest cell, the grid is
    /// re-based at the least observed cell and wrapped in a one-cell
    /// border, and the anchors' common sub-cell offset is remembered (the
    /// last anchor's offset, as every tile is assumed to share it). An
    /// empty level degrades to an empty two-by-two grid.
    #[verifier::rlimit(100)]
    #[verifier::spinoff_prover]
    pub fn from_coordinates(tiles: &Vec<(i64, i64)>) -> (m: PathfindingMatrix)
        requires
            forall|i: int|
                0 <= i < tiles@.len() ==> -POS_LIMIT_MILLI <= (#[trigger] tiles@[i]).0
                    <= POS_LIMIT_MILLI && -POS_LIMIT_MILLI <= tiles@[i].1 <= POS_LIMIT_MILLI,
        ensures
            m.wf(),
            forall|c: (usize, usize)| #[trigger]
                m.cells().contains(c) <==> covers(m.min_x as int, m.min_z as int, tiles@, c),
            tiles@.len() == 0 ==> m.min_x == 0 && m.min_z == 0 && m.dx == 0 && m.dz == 0
                && m.width == 2 && m.height == 2,
            tiles@.len() > 0 ==> {
                &&& m.dx == tiles@.last().0 - 1000 * round_cell(tiles@.last().0 as int)
                &&& m.dz == tiles@.last().1 - 1000 * round_cell(tiles@.last().1 as int)
                &&& forall|i: int|
                    0 <= i < tiles@.len() ==> m.min_x <= round_cell((#[trigger] tiles@[i]).0 as int)
                        && m.min_z <= round_cell(tiles@[i].1 as int)
                &&& exists|i: int|
                    0 <= i < tiles@.len() && m.min_x == round_cell((#[trigger] tiles@[i]).0 as int)
                &&& exists|i: int|
                    0 <= i < tiles@.len() && m.min_z == round_cell((#[trigger] tiles@[i]).1 as int)
            },
    {
        if tiles.len() == 0 {
            let g = grid_new(2, 2);
            return PathfindingMatrix {
                grid: g,
                width: 2,
                height: 2,
                min_x: 0,
                min_z: 0,
                dx: 0,
                dz: 0,
            };
        }
        let t0 = tiles[0];
        let c0x = round_to_cell(t0.0);
        let c0z = round_to_cell(t0.1);
        proof {
            lemma_round_cell_near(t0.0 as int);
            lemma_round_cell_near(t0.1 as int);
        }
        let mut min_x: i64 = c0x;
        let mut max_x: i64 = c0x;
        let mut min_z: i64 = c0z;
        let mut max_z: i64 = c0z;
        let mut dx: i64 = t0.0 - 1000 * c0x;
        let mut dz: i64 = t0.1 - 1000 * c0z;
        let mut i: usize = 1;
        while i < tiles.len()
            invariant
                1 <= i <= tiles@.len(),
                forall|j: int|
                    0 <= j < tiles@.len() ==> -POS_LIMIT_MILLI <= (#[trigger] tiles@[j]).0
                        <= POS_LIMIT_MILLI && -POS_LIMIT_MILLI <= tiles@[j].1 <= POS_LIMIT_MILLI,
                -1_000_000_001 <= min_x <= max_x <= 1_000_000_001,
                -1_000_000_001 <= min_z <= max_z <= 1_000_000_001,
                forall|j: int|
                    0 <= j < i ==> min_x <= round_cell((#[trigger] tiles@[j]).0 as int) && round_cell(
                        tiles@[j].0 as int,
                    ) <= max_x && min_z <= round_cell(tiles@[j].1 as int) && round_cell(
                        tiles@[j].1 as int,
                    ) <= max_z,
                exists|j: int|
                    0 <= j < i && min_x == round_cell((#[trigger] tiles@[j]).0 as int),
                exists|j: int|
                    0 <= j < i && max_x == round_cell((#[trigger] tiles@[j]).0 as int),
                exists|j: int|
                    0 <= j < i && min_z == round_cell((#[trigger] tiles@[j]).1 as int),
                exists|j: int|
                    0 <= j < i && max_z == round_cell((#[trigger] tiles@[j]).1 as int),
                dx == tiles@[i - 1].0 - 1000 * round_cell(tiles@[i - 1].0 as int),
                dz == tiles@[i - 1].1 - 1000 * round_cell(tiles@[i - 1].1 as int),
                -500 <= dx <= 500,
                -500 <= dz <= 500,
            decreases tiles@.len() - i,
        {
            let t = tiles[i];
            let cx = round_to_cell(t.0);
            let cz = round_to_cell(t.1);
            proof {
                lemma_round_cell_near(t.0 as int);
                lemma_round_cell_near(t.1 as int);
            }
            dx = t.0 - 1000 * cx;
            dz = t.1 - 1000 * cz;
            if cx < min_x {
                min_x = cx;
            }
            if cx > max_x {
                max_x = cx;
            }
            if cz < min_z {
                min_z = cz;
            }
            if cz > max_z {
                max_z = cz;
            }
            i = i + 1;
        }
        let w: i64 = max_x - min_x + 3;
        let h: i64 = max_z - min_z + 3;
        let mut g = grid_new(w as usize, h as usize);
        let mut k: usize = 0;
        while k < tiles.len()
            invariant
                0 <= k <= tiles@.len(),
                forall|j: int|
                    0 <= j < tiles@.len() ==> -POS_LIMIT_MILLI <= (#[trigger] tiles@[j]).0
                        <= POS_LIMIT_MILLI && -POS_LIMIT_MILLI <= tiles@[j].1 <= POS_LIMIT_MILLI,
                -1_000_000_001 <= min_x <= max_x <= 1_000_000_001,
                -1_000_000_001 <= min_z <= max_z <= 1_000_000_001,
                forall|j: int|
                    0 <= j < tiles@.len() ==> min_x <= round_cell((#[trigger] tiles@[j]).0 as int)
                        && round_cell(tiles@[j].0 as int) <= max_x && min_z <= round_cell(
                        tiles@[j].1 as int,
                    ) && round_cell(tiles@[j].1 as int) <= max_z,
                w == max_x - min_x + 3,
                h == max_z - min_z + 3,
                grid_dims(g) == (w as usize, h as usize),
                !grid_diagonal(g),
                forall|c: (usize, usize)| #[trigger]
                    grid_cells(g).contains(c) <==> covers_upto(
                        min_x as int,
                        min_z as int,
                        tiles@,
                        k as int,
                        c,
                    ),
            decreases tiles@.len() - k,
        {
            let t = tiles[k];
            let cx = round_to_cell(t.0);
            let cz = round_to_cell(t.1);
            let vx: usize = (cx - min_x + 1) as usize;
            let vz: usize = (cz - min_z + 1) as usize;
            let ghost pre = grid_cells(g);
            grid_add_vertex(&mut g, (vx, vz));
            proof {
                assert(vx < w as usize && vz < h as usize);
                assert((vx, vz) == shifted_cell(
                    round_cell(tiles@[k as int].0 as int),
                    round_cell(tiles@[k as int].1 as int),
                    min_x as int,
                    min_z as int,
                ));
                assert forall|c: (usize, usize)| #[trigger]
                    grid_cells(g).contains(c) <==> covers_upto(
                        min_x as int,
                        min_z as int,
                        tiles@,
                        k + 1,
                        c,
                    ) by {
                    if grid_cells(g).contains(c) {
                        if c == (vx, vz) {
                            assert(covers_upto(min_x as int, min_z as int, tiles@, k + 1, c));
                        } else {
                            assert(pre.contains(c));
                            let l = choose|l: int|
                                0 <= l < k && c == shifted_cell(
                                    round_cell((#[trigger] tiles@[l]).0 as int),
                                    round_cell(tiles@[l].1 as int),
                                    min_x as int,
                                    min_z as int,
                                );
                            assert(covers_upto(min_x as int, min_z as int, tiles@, k + 1, c));
                        }
                    }
                    if covers_upto(min_x as int, min_z as int, tiles@, k + 1, c) {
                        let l = choose|l: int|
                            0 <= l < k + 1 && c == shifted_cell(
                                round_cell((#[trigger] tiles@[l]).0 as int),
                                round_cell(tiles@[l].1 as int),
                                min_x as int,
                                min_z as int,
                            );
                        if l == k {
                            assert(c == (vx, vz));
                        } else {
                            assert(covers_upto(min_x as int, min_z as int, tiles@, k as int, c));
                            assert(pre.contains(c));
                        }
                    }
                }
            }
            k = k + 1;
        }
        let m = PathfindingMatrix {
            grid: g,
            width: w as usize,
            height: h as usize,
            min_x,
            min_z,
            dx,
            dz,
        };
        proof {
            assert forall|c: (usize, usize)| #[trigger]
                m.cells().contains(c) implies c.0 < m.width && c.1 < m.height by {
                let l = choose|l: int|
                    0 <= l < tiles@.len() && c == shifted_cell(
                        round_cell((#[trigger] tiles@[l]).0 as int),
                        round_cell(tiles@[l].1 as int),
                        min_x as int,
                        min_z as int,
                    );
                assert(round_cell(tiles@[l].0 as int) - min_x + 1 < w && round_cell(
                    tiles@[l].1 as int,
                ) - min_z + 1 < h);
            }
            assert(tiles@.last() == tiles@[tiles@.len() - 1]);
        }
        m
    }


    /// Map a continuous position (milli-units) to its grid cell, `None`
    /// when the position lies outside the calibrated grid.
    pub fn grid_coord(&self, t: (i64, i64, i64)) -> (r: Option<(usize, usize)>)
        requires
            self.wf(),
            pos_ok(t),
        ensures
            r == self.spec_grid_coord(t),
            r is Some ==> r.unwrap().0 as int <= 3_100_000_000 && r.unwrap().1 as int
                <= 3_100_000_000,
    {
        proof {
            lemma_round_cell_near(t.0 - self.dx);
            lemma_round_cell_near(t.2 - self.dz);
        }
        let rx: i64 = round_to_cell(t.0 - self.dx);
        let rz: i64 = round_to_cell(t.2 - self.dz);
        let gx: i64 = rx - self.min_x + 1;
        let gz: i64 = rz - self.min_z + 1;
        if gx >= 0 && gz >= 0 {
            Some((gx as usize, gz as usize))
        } else {
            None
        }
    }

    /// The continuous position (milli-units) at the center of a cell,
    /// with the caller's vertical coordinate.
    pub fn translation(&self, coord: (usize, usize), y: i64) -> (r: (i64, i64, i64))
        requires
            self.wf(),
            coord.0 as int <= 4_000_000_000,
            coord.1 as int <= 4_000_000_000,
            -POS_LIMIT_MILLI <= y <= POS_LIMIT_MILLI,
        ensures
            r == self.spec_translation(coord, y),
            dist_arg_ok(r),
    {
        let x: i64 = (self.min_x - 1 + coord.0 as i64) * 1000 + self.dx;
        let z: i64 = (self.min_z - 1 + coord.1 as i64) * 1000 + self.dz;
        (x, y, z)
    }

    /// A copy of this matrix with the given cells removed from the grid;
    /// the receiver is untouched.
    pub fn without(&self, avoided: &Vec<(usize, usize)>) -> (m: PathfindingMatrix)
        requires
            self.wf(),
        ensures
            m.wf(),
            m.cells() == self.cells().difference(avoided@.to_set()),
            m.width == self.width && m.height == self.height,
            m.min_x == self.min_x && m.min_z == self.min_z,
            m.dx == self.dx && m.dz == self.dz,
    {
        let mut g = grid_clone(&self.grid);
        proof {
            assert(grid_cells(g) =~= grid_cells(self.grid).difference(
                avoided@.take(0).to_set(),
            ));
        }
        let mut i: usize = 0;
        while i < avoided.len()
            invariant
                0 <= i <= avoided@.len(),
                !grid_diagonal(g),
                grid_dims(g) == grid_dims(self.grid),
                grid_cells(g) == grid_cells(self.grid).difference(avoided@.take(i as int).to_set()),
            decreases avoided@.len() - i,
        {
            let v = avoided[i];
            grid_remove_vertex(&mut g, v);
            proof {
                lemma_take_succ_to_set(avoided@, i as int);
                assert(grid_cells(g) =~= grid_cells(self.grid).difference(
                    avoided@.take(i + 1).to_set(),
                ));
            }
            i = i + 1;
        }
        proof {
            assert(avoided@.take(avoided@.len() as int) =~= avoided@);
        }
        PathfindingMatrix {
            grid: g,
            width: self.width,
            height: self.height,
            min_x: self.min_x,
            min_z: self.min_z,
            dx: self.dx,
            dz: self.dz,
        }
    }

    /// The 4-adjacent walkable neighbours of a cell (none, if the cell
    /// itself is not walkable).
    pub fn neighbours(&self, v: (usize, usize)) -> (r: Vec<(usize, usize)>)
        requires
            self.wf(),
        ensures
            r@.no_duplicates(),
            r@.to_set() == neighbour_set(self.cells(), v),
            forall|i: int| 0 <= i < r@.len() ==> self.cells().contains(#[trigger] r@[i]),
    {
        let r = grid_neighbours(&self.grid, v);
        proof {
            assert forall|i: int| 0 <= i < r@.len() implies self.cells().contains(
                #[trigger] r@[i],
            ) by {
                assert(r@.to_set().contains(r@[i]));
            }
        }
        r
    }

    /// Every walkable cell, each exactly once, in no promised order.
    pub fn cells_vec(&self) -> (r: Vec<(usize, usize)>)
        requires
            self.wf(),
        ensures
            r@.no_duplicates(),
            r@.to_set() == self.cells(),
    {
        grid_vertices(&self.grid)
    }

    /// A* from `start` to `goal` over this matrix's grid: `Some` exactly
    /// when some walk joins them, and then a duplicate-free walk.
    pub fn find_path(&self, start: (usize, usize), goal: (usize, usize)) -> (r: Option<
        Vec<(usize, usize)>,
    >)
        requires
            self.wf(),
        ensures
            match r {
                Some(p) => is_walk(self.cells(), p@, start, goal) && p@.no_duplicates(),
                None => !(exists|p: Seq<(usize, usize)>| is_walk(self.cells(), p, start, goal)),
            },
    {
        grid_astar(&self.grid, start, goal)
    }
}

/// One more element of a sequence prefix adds one element to the set it
/// spans.
pub(crate) proof fn lemma_take_succ_to_set(s: Seq<(usize, usize)>, i: int)
    requires
        0 <= i < s.len(),
    ensures
        s.take(i + 1).to_set() == s.take(i).to_set().insert(s[i]),
{
    assert forall|c: (usize, usize)| s.take(i + 1).to_set().contains(c) implies s.take(
        i,
    ).to_set().insert(s[i]).contains(c) by {
        let k = choose|k: int| 0 <= k < s.take(i + 1).len() && (#[trigger] s.take(i + 1)[k]) == c;
        if k < i {
            assert(s.take(i)[k] == c);
            assert(s.take(i).contains(c));
        }
    }
    assert forall|c: (usize, usize)| s.take(i).to_set().insert(s[i]).contains(c) implies s.take(
        i + 1,
    ).to_set().contains(c) by {
        if c == s[i] {
            assert(s.take(i + 1)[i] == c);
            assert(s.take(i + 1).contains(c));
        } else {
            assert(s.take(i).contains(c));
            let k = choose|k: int| 0 <= k < s.take(i).len() && (#[trigger] s.take(i)[k]) == c;
            assert(s.take(i + 1)[k] == c);
            assert(s.take(i + 1).contains(c));
        }
    }
    assert(s.take(i + 1).to_set() =~= s.take(i).to_set().insert(s[i]));
}

/// Round trip of the coordinate mapping: a position that shares the
/// calibration offset (as every tile anchor used to build the matrix
/// does) and falls inside the calibrated grid maps back to itself
/// exactly.
pub proof fn lemma_grid_coord_round_trip(m: PathfindingMatrix, t: (i64, i64, i64))
    requires
        m.wf(),
        pos_ok(t),
        (t.0 - m.dx) % 1000 == 0,
        (t.2 - m.dz) % 1000 == 0,
        m.spec_grid_coord(t) is Some,
    ensures
        m.spec_translation(m.spec_grid_coord(t).unwrap(), t.1) == t,
{
    let kx = (t.0 - m.dx) / 1000;
    let kz = (t.2 - m.dz) / 1000;
    assert(t.0 - m.dx == 1000 * kx && t.2 - m.dz == 1000 * kz) by {
        vstd::arithmetic::div_mod::lemma_fundamental_div_mod(t.0 - m.dx, 1000);
        vstd::arithmetic::div_mod::lemma_fundamental_div_mod(t.2 - m.dz, 1000);
    }
    lemma_round_cell_exact(kx);
    lemma_round_cell_exact(kz);
    lemma_round_cell_near(t.0 - m.dx);
    lemma_round_cell_near(t.2 - m.dz);
}

/// Rounding invariant of the coordinate mapping: whatever position maps
/// into the grid, the reverse mapping returns the position snapped to the
/// nearest cell center, never more than half a unit (500 milli-units)
/// away on either axis.
pub proof fn lemma_grid_coord_snaps(m: PathfindingMatrix, t: (i64, i64, i64))
    requires
        m.wf(),
        pos_ok(t),
        m.spec_grid_coord(t) is Some,
    ensures
        ({
            let back = m.spec_translation(m.spec_grid_coord(t).unwrap(), t.1);
            &&& -500 <= back.0 - t.0 <= 500
            &&& -500 <= back.2 - t.2 <= 500
            &&& back.1 == t.1
            &&& (back.0 - m.dx) % 1000 == 0
            &&& (back.2 - m.dz) % 1000 == 0
        }),
{
    lemma_round_cell_near(t.0 - m.dx);
    lemma_round_cell_near(t.2 - m.dz);
    let kx = round_cell(t.0 - m.dx);
    let kz = round_cell(t.2 - m.dz);
    assert((1000 * kx) % 1000 == 0 && (1000 * kz) % 1000 == 0) by {
        vstd::arithmetic::div_mod::lemma_mod_multiples_basic(kx, 1000);
        vstd::arithmetic::div_mod::lemma_mod_multiples_basic(kz, 1000);
    }
}

/// A walk that ends somewhere other than where it starts must step onto
/// the goal from an adjacent walkable cell.
pub proof fn lemma_walk_needs_neighbour(
    cells: Set<(usize, usize)>,
    p: Seq<(usize, usize)>,
    start: (usize, usize),
    goal: (usize, usize),
)
    requires
        is_walk(cells, p, start, goal),
        start != goal,
    ensures
        exists|c: (usize, usize)|
            #[trigger] cells.contains(c) && adjacent(c, goal) && cells.contains(goal),
{
    assert(p.len() >= 2);
    let i = p.len() - 1;
    assert(adjacent(p[i - 1], p[i]) && cells.contains(p[i - 1]) && cells.contains(p[i]));
}

/// Pathfinder unreachability: when the cells around a goal have been
/// removed — no remaining cell is adjacent to it — no walk reaches it
/// from anywhere else, so `find_path` returns `None` by its contract.
pub proof fn lemma_goal_cut_off(cells: Set<(usize, usize)>, start: (usize, usize), goal: (usize, usize))
    requires
        start != goal,
        forall|c: (usize, usize)| #[trigger] cells.contains(c) ==> !adjacent(c, goal),
    ensures
        !(exists|p: Seq<(usize, usize)>| is_walk(cells, p, start, goal)),
{
    if exists|p: Seq<(usize, usize)>| is_walk(cells, p, start, goal) {
        let p = choose|p: Seq<(usize, usize)>| is_walk(cells, p, start, goal);
        lemma_walk_needs_neighbour(cells, p, start, goal);
    }
}

/// Pathfinder unreachability through `without`: removing every walkable
/// cell around a goal leaves no walk from anywhere else to it, so
/// `find_path` on the reduced matrix returns `None` by its contract.
pub proof fn lemma_without_cuts_goal(
    m: PathfindingMatrix,
    reduced: PathfindingMatrix,
    avoided: Seq<(usize, usize)>,
    start: (usize, usize),
    goal: (usize, usize),
)
    requires
        start != goal,
        reduced.cells() == m.cells().difference(avoided.to_set()),
        forall|c: (usize, usize)|
            #[trigger] m.cells().contains(c) && adjacent(c, goal) ==> avoided.contains(c),
    ensures
        !(exists|p: Seq<(usize, usize)>| is_walk(reduced.cells(), p, start, goal)),
{
    assert forall|c: (usize, usize)| #[trigger]
        reduced.cells().contains(c) implies !adjacent(c, goal) by {
        if adjacent(c, goal) {
            assert(m.cells().contains(c));
            assert(avoided.to_set().contains(c));
        }
    }
    lemma_goal_cut_off(reduced.cells(), start, goal);
}

} // verus!
