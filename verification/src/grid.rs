//! The walkability graph: the rectangular grid of the `pathfinding` crate,
//! held behind a trusted interface, and the A* search over it.
//!
//! The grid's contents are modelled by the names [`grid_cells`] (the set of
//! vertices), [`grid_dims`] (the width and height it was created with) and
//! [`grid_diagonal`] (whether diagonal edges are enabled; this library
//! never enables them). Every wrapper states over those names what the
//! crate's source shows.

use vstd::prelude::*;

verus! {

use pathfinding::grid::Grid;

/// Relies on pathfinding::grid::Grid: the crate's rectangular grid in
/// which vertices can be added or removed; declared so that it can stand
/// in signatures and fields.
#[verifier::external_type_specification]
#[verifier::external_body]
pub struct ExGrid(Grid);

/// The set of vertices a grid holds.
pub uninterp spec fn grid_cells(g: Grid) -> Set<(usize, usize)>;

/// The width and height a grid was created with.
pub uninterp spec fn grid_dims(g: Grid) -> (usize, usize);

/// Whether diagonal mode is enabled on a grid.
pub uninterp spec fn grid_diagonal(g: Grid) -> bool;

/// The neighbours of `v`: the cells adjacent to it, when `v` itself is a
/// vertex; nothing otherwise.
pub open spec fn neighbour_set(cells: Set<(usize, usize)>, v: (usize, usize)) -> Set<
    (usize, usize),
> {
    Set::new(|c: (usize, usize)| cells.contains(v) && cells.contains(c) && adjacent(v, c))
}

/// Two cells share a horizontal or vertical edge.
pub open spec fn adjacent(a: (usize, usize), b: (usize, usize)) -> bool {
    ||| (a.0 == b.0 && (a.1 + 1 == b.1 || b.1 + 1 == a.1))
    ||| (a.1 == b.1 && (a.0 + 1 == b.0 || b.0 + 1 == a.0))
}

/// `p` walks the vertex set `cells` from `start` to `goal`: consecutive
/// cells are 4-adjacent and, on every edge, both endpoints are vertices.
/// A one-cell walk (`start == goal`) needs no vertex at all, as the search
/// accepts its start before looking at the grid.
pub open spec fn is_walk(
    cells: Set<(usize, usize)>,
    p: Seq<(usize, usize)>,
    start: (usize, usize),
    goal: (usize, usize),
) -> bool {
    &&& p.len() >= 1
    &&& p[0] == start
    &&& p[p.len() - 1] == goal
    &&& forall|i: int|
        1 <= i < p.len() ==> adjacent(p[i - 1], #[trigger] p[i]) && cells.contains(p[i - 1])
            && cells.contains(p[i])
}

/// Relies on pathfinding::grid::Grid::new: an empty grid of the given
/// dimensions, with diagonal mode disabled.
#[verifier::external_body]
pub(crate) fn grid_new(width: usize, height: usize) -> (g: Grid)
    ensures
        grid_cells(g) == Set::<(usize, usize)>::empty(),
        grid_dims(g) == (width, height),
        !grid_diagonal(g),
{
    Grid::new(width, height)
}

/// Relies on pathfinding::grid::Grid::add_vertex: adds the vertex if it
/// lies inside the grid's dimensions, and reports whether it was new.
#[verifier::external_body]
pub(crate) fn grid_add_vertex(g: &mut Grid, v: (usize, usize)) -> (added: bool)
    ensures
        grid_dims(*final(g)) == grid_dims(*old(g)),
        grid_diagonal(*final(g)) == grid_diagonal(*old(g)),
        v.0 < grid_dims(*old(g)).0 && v.1 < grid_dims(*old(g)).1 ==> grid_cells(*final(g))
            == grid_cells(*old(g)).insert(v) && added == !grid_cells(*old(g)).contains(v),
        !(v.0 < grid_dims(*old(g)).0 && v.1 < grid_dims(*old(g)).1) ==> grid_cells(*final(g))
            == grid_cells(*old(g)) && !added,
{
    g.add_vertex(v)
}

/// Relies on pathfinding::grid::Grid::remove_vertex: removes the vertex,
/// and reports whether it was present.
#[verifier::external_body]
pub(crate) fn grid_remove_vertex(g: &mut Grid, v: (usize, usize)) -> (removed: bool)
    ensures
        grid_dims(*final(g)) == grid_dims(*old(g)),
        grid_diagonal(*final(g)) == grid_diagonal(*old(g)),
        grid_cells(*final(g)) == grid_cells(*old(g)).remove(v),
        removed == grid_cells(*old(g)).contains(v),
{
    g.remove_vertex(v)
}

/// Relies on pathfinding::grid::Grid's derived Clone: an identical grid.
#[verifier::external_body]
pub(crate) fn grid_clone(g: &Grid) -> (c: Grid)
    ensures
        grid_cells(c) == grid_cells(*g),
        grid_dims(c) == grid_dims(*g),
        grid_diagonal(c) == grid_diagonal(*g),
{
    g.clone()
}

/// Relies on pathfinding::grid::Grid::neighbours: for an existing vertex,
/// the adjacent existing vertices (4-adjacent with diagonal mode off); for
/// an absent vertex, nothing.
#[verifier::external_body]
pub(crate) fn grid_neighbours(g: &Grid, v: (usize, usize)) -> (r: Vec<(usize, usize)>)
    requires
        !grid_diagonal(*g),
    ensures
        r@.no_duplicates(),
        r@.to_set() == neighbour_set(grid_cells(*g), v),
{
    g.neighbours(v)
}

/// Relies on pathfinding::grid::Grid::iter: every vertex exactly once, in
/// an order the crate does not promise.
#[verifier::external_body]
pub(crate) fn grid_vertices(g: &Grid) -> (r: Vec<(usize, usize)>)
    ensures
        r@.no_duplicates(),
        r@.to_set() == grid_cells(*g),
{
    g.iter().collect()
}

/// The A* heuristic the search is given: the Manhattan distance between
/// the cells — the grid's own distance notion with diagonal mode off —
/// scaled down by three. The scaling deliberately trades textbook
/// admissibility for straighter paths; capped only at the far end of
/// `usize`, which no real grid reaches.
pub(crate) fn search_heuristic(p: (usize, usize), goal: (usize, usize)) -> (h: usize)
    ensures
        h == if spec_manhattan(p, goal) / 3 <= usize::MAX {
            spec_manhattan(p, goal) / 3
        } else {
            usize::MAX as int
        },
{
    let dx: u128 = (if p.0 >= goal.0 {
        p.0 - goal.0
    } else {
        goal.0 - p.0
    }) as u128;
    let dz: u128 = (if p.1 >= goal.1 {
        p.1 - goal.1
    } else {
        goal.1 - p.1
    }) as u128;
    let h: u128 = (dx + dz) / 3;
    if h > usize::MAX as u128 {
        usize::MAX
    } else {
        h as usize
    }
}

/// Manhattan distance between two cells.
pub open spec fn spec_manhattan(a: (usize, usize), b: (usize, usize)) -> int {
    (if a.0 >= b.0 {
        a.0 - b.0
    } else {
        b.0 - a.0
    }) + (if a.1 >= b.1 {
        a.1 - b.1
    } else {
        b.1 - a.1
    })
}

/// Relies on pathfinding::prelude::astar, searching over
/// Grid::neighbours with unit edge costs: it returns `Some` exactly when
/// some walk of the grid joins `start` to `goal`, and what it returns is
/// such a walk, without repeated cells. Which of several equally cheap
/// walks comes back is not promised.
#[verifier::external_body]
pub(crate) fn grid_astar(g: &Grid, start: (usize, usize), goal: (usize, usize)) -> (r: Option<
    Vec<(usize, usize)>,
>)
    requires
        !grid_diagonal(*g),
    ensures
        match r {
            Some(path) => is_walk(grid_cells(*g), path@, start, goal) && path@.no_duplicates(),
            None => !(exists|p: Seq<(usize, usize)>| is_walk(grid_cells(*g), p, start, goal)),
        },
{
    pathfinding::prelude::astar(
        &start,
        |p| g.neighbours(*p).into_iter().map(|n| (n, 1usize)).collect::<Vec<_>>(),
        |p| search_heuristic(*p, goal),
        |p| *p == goal,
    ).map(|(path, _cost)| path)
}

} // verus!
