//! The per-tick behavior policy: for an agent with no active work this
//! tick, decide among fleeing, seeking food, resting and roaming, and
//! emit the motion command for the physics collaborator.

use vstd::prelude::*;

use crate::grid::adjacent;
use crate::grid::is_walk;
use crate::grid::neighbour_set;
use crate::matrix::PathfindingMatrix;
use crate::rat::Rat;
use crate::rng::random_below;
use crate::units::dist_sq;
use crate::units::pos_ok;
use crate::units::rounded_units;
use crate::units::spec_dist_sq;

verus! {

/// The tunable simulation constants the policy reads.
pub struct Settings {
    /// Within this distance of its goal's position (milli-units) an agent
    /// counts as arrived.
    pub min_distance_milli: i64,
    /// How long a starving agent rests (milliseconds); hungrier agents
    /// rest less.
    pub max_rest_millis: u64,
}

impl Settings {
    /// The ranges the rest of the policy's arithmetic needs.
    pub open spec fn valid(self) -> bool {
        &&& 0 <= self.min_distance_milli <= 1_000_000
        &&& self.max_rest_millis <= 1_000_000_000
    }
}

impl Default for Settings {
    /// A fifth of a unit of arrival slack; at most one second of rest.
    fn default() -> (s: Self)
        ensures
            s.min_distance_milli == 200,
            s.max_rest_millis == 1000,
            s.valid(),
    {
        Settings { min_distance_milli: 200, max_rest_millis: 1000 }
    }
}

/// The agent's movement target: a grid cell it is walking toward.
#[derive(Debug, Copy, Clone, PartialEq, Eq)]
pub struct Goal(pub (usize, usize));

/// The agent is fleeing the hazard discovered at `coord`; the state ends
/// when the countdown reaches zero.
#[derive(Debug, Copy, Clone, PartialEq, Eq)]
pub struct Panic {
    pub coord: (usize, usize),
    pub remaining_millis: u64,
}

/// The agent is resting until the countdown reaches zero.
#[derive(Debug, Copy, Clone, PartialEq, Eq, Structural)]
pub struct Rest {
    pub remaining_millis: u64,
}

/// The cells an agent remembers as dangerous: appended on every hazard
/// discovery, never pruned during a run.
#[derive(Debug, Clone)]
pub struct RememberedObstacles(pub Vec<(usize, usize)>);

/// Everything the policy owns about one agent, besides its drive state.
#[derive(Debug, Clone)]
pub struct AgentState {
    pub goal: Option<Goal>,
    pub panic: Option<Panic>,
    pub rest: Option<Rest>,
    pub memory: RememberedObstacles,
}

impl AgentState {
    /// A fresh agent: no goal, no panic, resting half a second, an empty
    /// memory — the state an agent is spawned with.
    pub fn new() -> (a: AgentState)
        ensures
            a.goal is None,
            a.panic is None,
            a.rest == (Some(Rest { remaining_millis: 500 })),
            a.memory.0@ == Seq::<(usize, usize)>::empty(),
    {
        AgentState {
            goal: None,
            panic: None,
            rest: Some(Rest { remaining_millis: 500 }),
            memory: RememberedObstacles(Vec::new()),
        }
    }
}

/// A food stimulus: its continuous position and whether it is mouldy
/// (to be avoided by an agent that can smell).
#[derive(Debug, Copy, Clone, PartialEq, Eq)]
pub struct Cheese {
    pub position: (i64, i64, i64),
    pub mouldy: bool,
}

/// What the policy tells the motion driver this tick.
#[derive(Debug, Copy, Clone, PartialEq, Eq)]
pub enum MotionCommand {
    /// Drive toward this continuous position.
    Steer((i64, i64, i64)),
    /// Set the velocity to zero.
    Stop,
    /// Leave the current velocity command alone.
    Coast,
}

/// Count a resting agent's timer down; rest ends when it runs out.
pub fn rest_tick(agent: &mut AgentState, delta_millis: u64)
    ensures
        final(agent).goal == old(agent).goal,
        final(agent).panic == old(agent).panic,
        final(agent).memory.0@ == old(agent).memory.0@,
        final(agent).rest == (match old(agent).rest {
            Some(r) => if r.remaining_millis > delta_millis {
                Some(Rest { remaining_millis: (r.remaining_millis - delta_millis) as u64 })
            } else {
                None
            },
            None => None,
        }),
{
    match agent.rest {
        Some(r) => {
            if r.remaining_millis > delta_millis {
                agent.rest = Some(Rest { remaining_millis: r.remaining_millis - delta_millis });
            } else {
                agent.rest = None;
            }
        },
        None => {},
    }
}

/// A panic countdown advanced by the elapsed time.
pub open spec fn ticked_panic(p: Option<Panic>, delta_millis: u64) -> Option<Panic> {
    match p {
        Some(p) => Some(
            Panic {
                coord: p.coord,
                remaining_millis: if p.remaining_millis > delta_millis {
                    (p.remaining_millis - delta_millis) as u64
                } else {
                    0
                },
            },
        ),
        None => None,
    }
}

/// The cell an agent at `t` is taken to stand on: its mapped cell, or the
/// grid origin when the position lies outside the calibrated grid.
pub open spec fn spec_agent_cell(m: PathfindingMatrix, t: (i64, i64, i64)) -> (usize, usize) {
    match m.spec_grid_coord(t) {
        Some(c) => c,
        None => (0, 0),
    }
}

/// The cells of mouldy cheese, as far as an agent with the given smell
/// acuity avoids them: an agent that cannot smell avoids none.
pub open spec fn mouldy_cells(rat: Rat, cheese: Seq<Cheese>, m: PathfindingMatrix) -> Set<
    (usize, usize),
> {
    Set::new(
        |c: (usize, usize)|
            rat.smell > 0 && exists|i: int|
                0 <= i < cheese.len() && (#[trigger] cheese[i]).mouldy && m.spec_grid_coord(
                    cheese[i].position,
                ) == Some(c),
    )
}

/// Everything the agent treats as blocked this tick: remembered hazard
/// cells, plus mouldy cheese cells if it can smell.
pub open spec fn avoided_set(
    rat: Rat,
    cheese: Seq<Cheese>,
    memory: Seq<(usize, usize)>,
    m: PathfindingMatrix,
) -> Set<(usize, usize)> {
    memory.to_set().union(mouldy_cells(rat, cheese, m))
}

/// One more pushed element adds exactly itself to the set a sequence
/// spans.
proof fn lemma_push_to_set(s: Seq<(usize, usize)>, v: (usize, usize))
    ensures
        s.push(v).to_set() == s.to_set().insert(v),
{
    assert forall|c: (usize, usize)| s.push(v).to_set().contains(c) implies s.to_set().insert(
        v,
    ).contains(c) by {
        let k = choose|k: int| 0 <= k < s.push(v).len() && (#[trigger] s.push(v)[k]) == c;
        if k < s.len() {
            assert(s[k] == c);
            assert(s.contains(c));
        }
    }
    assert forall|c: (usize, usize)| s.to_set().insert(v).contains(c) implies s.push(
        v,
    ).to_set().contains(c) by {
        if c == v {
            assert(s.push(v)[s.len() as int] == c);
            assert(s.push(v).contains(c));
        } else {
            let k = choose|k: int| 0 <= k < s.len() && (#[trigger] s[k]) == c;
            assert(s.push(v)[k] == c);
            assert(s.push(v).contains(c));
        }
    }
    assert(s.push(v).to_set() =~= s.to_set().insert(v));
}

/// The cells of mouldy cheese among the first `n` stimuli, for an agent
/// with the given smell acuity.
spec fn mouldy_cells_upto(rat: Rat, cheese: Seq<Cheese>, m: PathfindingMatrix, n: int) -> Set<
    (usize, usize),
> {
    Set::new(
        |c: (usize, usize)|
            rat.smell > 0 && exists|i: int|
                0 <= i < n && (#[trigger] cheese[i]).mouldy && m.spec_grid_coord(cheese[i].position)
                    == Some(c),
    )
}

/// Gather the cells the agent avoids this tick: currently avoided mouldy
/// cheese (when it can smell), then its remembered hazard cells.
fn collect_avoided(
    rat: &Rat,
    cheese: &Vec<Cheese>,
    memory: &RememberedObstacles,
    matrix: &PathfindingMatrix,
) -> (av: Vec<(usize, usize)>)
    requires
        matrix.wf(),
        forall|i: int| 0 <= i < cheese@.len() ==> pos_ok((#[trigger] cheese@[i]).position),
    ensures
        av@.to_set() == avoided_set(*rat, cheese@, memory.0@, *matrix),
{
    let mut av: Vec<(usize, usize)> = Vec::new();
    proof {
        assert(av@.to_set() =~= mouldy_cells_upto(*rat, cheese@, *matrix, 0));
    }
    let mut i: usize = 0;
    while i < cheese.len()
        invariant
            0 <= i <= cheese@.len(),
            matrix.wf(),
            forall|j: int| 0 <= j < cheese@.len() ==> pos_ok((#[trigger] cheese@[j]).position),
            av@.to_set() == mouldy_cells_upto(*rat, cheese@, *matrix, i as int),
        decreases cheese@.len() - i,
    {
        let c = cheese[i];
        let ghost pre = av@;
        if rat.smell > 0 && c.mouldy {
            match matrix.grid_coord(c.position) {
                Some(cell) => {
                    av.push(cell);
                    proof {
                        lemma_push_to_set(pre, cell);
                    }
                },
                None => {},
            }
        }
        proof {
            assert forall|cc: (usize, usize)| av@.to_set().contains(cc) <==> mouldy_cells_upto(
                *rat,
                cheese@,
                *matrix,
                i + 1,
            ).contains(cc) by {
                if mouldy_cells_upto(*rat, cheese@, *matrix, i + 1).contains(cc) {
                    let j = choose|j: int|
                        0 <= j < i + 1 && (#[trigger] cheese@[j]).mouldy && matrix.spec_grid_coord(
                            cheese@[j].position,
                        ) == Some(cc);
                    if j < i {
                        assert(mouldy_cells_upto(*rat, cheese@, *matrix, i as int).contains(cc));
                    }
                }
            }
            assert(av@.to_set() =~= mouldy_cells_upto(*rat, cheese@, *matrix, i + 1));
        }
        i = i + 1;
    }
    proof {
        assert(mouldy_cells_upto(*rat, cheese@, *matrix, cheese@.len() as int) =~= mouldy_cells(
            *rat,
            cheese@,
            *matrix,
        ));
    }
    let mut k: usize = 0;
    while k < memory.0.len()
        invariant
            0 <= k <= memory.0@.len(),
            av@.to_set() == memory.0@.take(k as int).to_set().union(
                mouldy_cells(*rat, cheese@, *matrix),
            ),
        decreases memory.0@.len() - k,
    {
        let ghost pre = av@;
        av.push(memory.0[k]);
        proof {
            lemma_push_to_set(pre, memory.0@[k as int]);
            crate::matrix::lemma_take_succ_to_set(memory.0@, k as int);
            assert(av@.to_set() =~= memory.0@.take(k + 1).to_set().union(
                mouldy_cells(*rat, cheese@, *matrix),
            ));
        }
        k = k + 1;
    }
    proof {
        assert(memory.0@.take(memory.0@.len() as int) =~= memory.0@);
    }
    av
}

/// Some walk of `cells` joins `a` to `b`.
pub open spec fn has_walk(cells: Set<(usize, usize)>, a: (usize, usize), b: (usize, usize)) -> bool {
    exists|p: Seq<(usize, usize)>| is_walk(cells, p, a, b)
}

/// How far the agent can smell, in milli-units: five world units per
/// point of smell acuity.
pub open spec fn spec_smell_limit(rat: Rat) -> int {
    5000 * rat.smell
}

/// A cheese the agent can actually go for: it lies strictly within smell
/// range, its position maps into the grid, and a walk of the
/// avoidance-reduced grid joins the agent's cell to its cell.
pub open spec fn cheese_attainable(
    rat: Rat,
    position: (i64, i64, i64),
    c: Cheese,
    wcells: Set<(usize, usize)>,
    m: PathfindingMatrix,
    rat_coord: (usize, usize),
) -> bool {
    &&& spec_dist_sq(position, c.position) < spec_smell_limit(rat) * spec_smell_limit(rat)
    &&& m.spec_grid_coord(c.position) is Some
    &&& has_walk(wcells, rat_coord, m.spec_grid_coord(c.position).unwrap())
}

/// Food seeking: path to every smellable cheese through the
/// avoidance-reduced grid, keep the path to the one whose rounded
/// distance is least (ties to the earliest stimulus), and step one cell
/// along it — the path's second cell, or its only cell.
fn seek_food(
    rat: &Rat,
    position: (i64, i64, i64),
    rat_coord: (usize, usize),
    cheese: &Vec<Cheese>,
    matrix: &PathfindingMatrix,
    wmatrix: &PathfindingMatrix,
) -> (r: Option<(usize, usize)>)
    requires
        matrix.wf(),
        wmatrix.wf(),
        pos_ok(position),
        forall|i: int| 0 <= i < cheese@.len() ==> pos_ok((#[trigger] cheese@[i]).position),
        0 <= rat.smell <= 2,
    ensures
        r is Some <==> exists|i: int|
            0 <= i < cheese@.len() && cheese_attainable(
                *rat,
                position,
                #[trigger] cheese@[i],
                wmatrix.cells(),
                *matrix,
                rat_coord,
            ),
        r matches Some(d) ==> new_goal_ok(wmatrix.cells(), rat_coord, d),
{
    let smell_limit: i64 = 5000 * (rat.smell as i64);
    proof {
        assert(0 <= smell_limit * smell_limit <= 100_000_000) by (nonlinear_arith)
            requires
                0 <= smell_limit <= 10000,
        ;
    }
    let limit2: i128 = (smell_limit * smell_limit) as i128;
    let mut best: Option<Vec<(usize, usize)>> = None;
    let mut best_prio: i64 = 0;
    let mut i: usize = 0;
    while i < cheese.len()
        invariant
            0 <= i <= cheese@.len(),
            matrix.wf(),
            wmatrix.wf(),
            pos_ok(position),
            forall|j: int| 0 <= j < cheese@.len() ==> pos_ok((#[trigger] cheese@[j]).position),
            0 <= rat.smell <= 2,
            smell_limit == 5000 * rat.smell,
            limit2 == spec_smell_limit(*rat) * spec_smell_limit(*rat),
            best matches Some(p) ==> p@.len() >= 1 && p@[0] == rat_coord && (p@.len() >= 2
                ==> wmatrix.cells().contains(p@[1]) && adjacent(rat_coord, p@[1])),
            best is Some ==> exists|j: int|
                0 <= j < i && cheese_attainable(
                    *rat,
                    position,
                    #[trigger] cheese@[j],
                    wmatrix.cells(),
                    *matrix,
                    rat_coord,
                ),
            best is None ==> forall|j: int|
                0 <= j < i ==> !cheese_attainable(
                    *rat,
                    position,
                    #[trigger] cheese@[j],
                    wmatrix.cells(),
                    *matrix,
                    rat_coord,
                ),
        decreases cheese@.len() - i,
    {
        let c = cheese[i];
        match matrix.grid_coord(c.position) {
            Some(gc) => {
                let d2 = dist_sq(position, c.position);
                match wmatrix.find_path(rat_coord, gc) {
                    Some(path) => {
                        if d2 < limit2 {
                            proof {
                                assert(cheese_attainable(
                                    *rat,
                                    position,
                                    cheese@[i as int],
                                    wmatrix.cells(),
                                    *matrix,
                                    rat_coord,
                                )) by {
                                    assert(is_walk(wmatrix.cells(), path@, rat_coord, gc));
                                }
                            }
                            let prio = rounded_units(d2);
                            if best.is_none() || prio < best_prio {
                                best = Some(path);
                                best_prio = prio;
                            }
                        } else {
                            proof {
                                assert(!cheese_attainable(
                                    *rat,
                                    position,
                                    cheese@[i as int],
                                    wmatrix.cells(),
                                    *matrix,
                                    rat_coord,
                                ));
                            }
                        }
                    },
                    None => {
                        proof {
                            assert(!cheese_attainable(
                                *rat,
                                position,
                                cheese@[i as int],
                                wmatrix.cells(),
                                *matrix,
                                rat_coord,
                            ));
                        }
                    },
                }
            },
            None => {
                proof {
                    assert(!cheese_attainable(
                        *rat,
                        position,
                        cheese@[i as int],
                        wmatrix.cells(),
                        *matrix,
                        rat_coord,
                    ));
                }
            },
        }
        i = i + 1;
    }
    match best {
        Some(p) => {
            if p.len() >= 2 {
                Some(p[1])
            } else {
                Some(p[0])
            }
        },
        None => None,
    }
}

/// Order candidate escape paths by falling cost, by insertion: the same
/// elements, farthest first.
fn sort_by_cost_desc(paths: Vec<(Vec<(usize, usize)>, usize)>) -> (r: Vec<
    (Vec<(usize, usize)>, usize),
>)
    ensures
        r@.len() == paths@.len(),
        forall|e: (Vec<(usize, usize)>, usize)| #[trigger] r@.contains(e) <==> paths@.contains(e),
        forall|a: int, b: int| 0 <= a < b < r@.len() ==> (#[trigger] r@[a]).1 >= (#[trigger] r@[b]).1,
{
    let mut src = paths;
    let mut out: Vec<(Vec<(usize, usize)>, usize)> = Vec::new();
    let ghost all = src@;
    while src.len() > 0
        invariant
            out@.len() + src@.len() == all.len(),
            forall|e: (Vec<(usize, usize)>, usize)| #[trigger]
                all.contains(e) <==> out@.contains(e) || src@.contains(e),
            forall|a: int, b: int| 0 <= a < b < out@.len() ==> (#[trigger] out@[a]).1 >= (
            #[trigger] out@[b]).1,
        decreases src@.len(),
    {
        let ghost src0 = src@;
        let e = src.pop().unwrap();
        let cost = e.1;
        let mut pos: usize = 0;
        while pos < out.len() && out[pos].1 >= cost
            invariant
                0 <= pos <= out@.len(),
                forall|q: int| 0 <= q < pos ==> (#[trigger] out@[q]).1 >= cost,
                forall|a: int, b: int| 0 <= a < b < out@.len() ==> (#[trigger] out@[a]).1 >= (
                #[trigger] out@[b]).1,
            decreases out@.len() - pos,
        {
            pos = pos + 1;
        }
        let ghost out0 = out@;
        proof {
            out0.insert_ensures(pos as int, e);
        }
        out.insert(pos, e);
        proof {
            assert forall|a: int, b: int| 0 <= a < b < out@.len() implies (#[trigger] out@[a]).1
                >= (#[trigger] out@[b]).1 by {
                if b < pos {
                } else if a == pos {
                    assert(out@[b] == out0[b - 1]);
                    assert(out0[b - 1].1 <= cost);
                } else if b == pos {
                    assert(out@[a] == out0[a]);
                } else if a < pos {
                    assert(out@[a] == out0[a] && out@[b] == out0[b - 1]);
                    if pos <= b - 1 {
                        assert(out0[b - 1].1 <= cost);
                        assert(out0[a].1 >= cost);
                    }
                } else {
                    assert(out@[a] == out0[a - 1] && out@[b] == out0[b - 1]);
                }
            }
            assert forall|x: (Vec<(usize, usize)>, usize)| #[trigger]
                all.contains(x) <==> out@.contains(x) || src@.contains(x) by {
                assert(src0 == src@.push(e));
                if all.contains(x) {
                    if out0.contains(x) {
                        let q = choose|q: int| 0 <= q < out0.len() && out0[q] == x;
                        if q < pos {
                            assert(out@[q] == x);
                        } else {
                            assert(out@[q + 1] == x);
                        }
                        assert(out@.contains(x));
                    } else if src0.contains(x) {
                        let q = choose|q: int| 0 <= q < src0.len() && src0[q] == x;
                        if q < src@.len() {
                            assert(src@[q] == x);
                        } else {
                            assert(x == e);
                            assert(out@[pos as int] == x);
                        }
                    }
                }
                if out@.contains(x) {
                    let q = choose|q: int| 0 <= q < out@.len() && out@[q] == x;
                    if q < pos {
                        assert(out0[q] == x);
                        assert(out0.contains(x));
                    } else if q == pos {
                        assert(x == e);
                        assert(src0[src@.len() as int] == x);
                        assert(src0.contains(x));
                    } else {
                        assert(out0[q - 1] == x);
                        assert(out0.contains(x));
                    }
                }
                if src@.contains(x) {
                    let q = choose|q: int| 0 <= q < src@.len() && src@[q] == x;
                    assert(src0[q] == x);
                    assert(src0.contains(x));
                }
            }
        }
    }
    out
}

/// An escape-path entry: a walk of the avoidance-reduced grid from the
/// panic origin to some cell of the full grid.
spec fn escape_entry_ok(
    e: (Vec<(usize, usize)>, usize),
    wcells: Set<(usize, usize)>,
    full: Set<(usize, usize)>,
    panic_coord: (usize, usize),
) -> bool {
    &&& e.0@.len() >= 1
    &&& is_walk(wcells, e.0@, panic_coord, e.0@.last())
    &&& full.contains(e.0@.last())
}

/// Flee: among the cells of the full grid, rank those reachable from the
/// panic origin through the avoidance-reduced grid by falling path cost;
/// of the ten farthest that the agent itself can also reach, pick a path
/// uniformly at random and step one cell along it. `None` when no cell
/// can be reached both ways.
fn flee(
    panic_coord: (usize, usize),
    rat_coord: (usize, usize),
    matrix: &PathfindingMatrix,
    wmatrix: &PathfindingMatrix,
) -> (r: Option<(usize, usize)>)
    requires
        matrix.wf(),
        wmatrix.wf(),
    ensures
        r is Some <==> exists|c: (usize, usize)|
            #[trigger] matrix.cells().contains(c) && has_walk(wmatrix.cells(), panic_coord, c)
                && has_walk(wmatrix.cells(), rat_coord, c),
        r matches Some(d) ==> new_goal_ok(wmatrix.cells(), rat_coord, d),
{
    let all = matrix.cells_vec();
    let mut escape: Vec<(Vec<(usize, usize)>, usize)> = Vec::new();
    let mut i: usize = 0;
    while i < all.len()
        invariant
            0 <= i <= all@.len(),
            matrix.wf(),
            wmatrix.wf(),
            all@.no_duplicates(),
            all@.to_set() == matrix.cells(),
            forall|j: int|
                0 <= j < escape@.len() ==> escape_entry_ok(
                    #[trigger] escape@[j],
                    wmatrix.cells(),
                    matrix.cells(),
                    panic_coord,
                ),
            forall|c: (usize, usize)|
                all@.take(i as int).contains(c) && #[trigger] has_walk(
                    wmatrix.cells(),
                    panic_coord,
                    c,
                ) ==> exists|j: int| 0 <= j < escape@.len() && (#[trigger] escape@[j]).0@.last()
                    == c,
        decreases all@.len() - i,
    {
        let goal_cell = all[i];
        let ghost esc0 = escape@;
        match wmatrix.find_path(panic_coord, goal_cell) {
            Some(p) => {
                let cost = p.len() - 1;
                proof {
                    assert(all@.to_set().contains(all@[i as int]));
                }
                escape.push((p, cost));
            },
            None => {},
        }
        proof {
            assert forall|c: (usize, usize)|
                all@.take(i + 1).contains(c) && #[trigger] has_walk(
                    wmatrix.cells(),
                    panic_coord,
                    c,
                ) implies exists|j: int|
                0 <= j < escape@.len() && (#[trigger] escape@[j]).0@.last() == c by {
                let q = choose|q: int| 0 <= q < i + 1 && (#[trigger] all@.take(i + 1)[q]) == c;
                if q < i {
                    assert(all@.take(i as int)[q] == c);
                    assert(all@.take(i as int).contains(c));
                    let j = choose|j: int|
                        0 <= j < esc0.len() && (#[trigger] esc0[j]).0@.last() == c;
                    assert(escape@[j] == esc0[j]);
                } else {
                    assert(c == all@[i as int]);
                    assert(escape@.len() > esc0.len());
                    assert((escape@[escape@.len() - 1]).0@.last() == c);
                }
            }
        }
        i = i + 1;
    }
    proof {
        assert(all@.take(all@.len() as int) =~= all@);
    }
    let ghost esc_pre = escape@;
    let escape = sort_by_cost_desc(escape);
    proof {
        assert forall|j: int| 0 <= j < escape@.len() implies escape_entry_ok(
            #[trigger] escape@[j],
            wmatrix.cells(),
            matrix.cells(),
            panic_coord,
        ) by {
            assert(escape@.contains(escape@[j]));
            let e = escape@[j];
            let j0 = choose|j0: int| 0 <= j0 < esc_pre.len() && esc_pre[j0] == e;
            assert(escape_entry_ok(esc_pre[j0], wmatrix.cells(), matrix.cells(), panic_coord));
        }
        assert forall|c: (usize, usize)|
            all@.contains(c) && #[trigger] has_walk(
                wmatrix.cells(),
                panic_coord,
                c,
            ) implies exists|j: int| 0 <= j < escape@.len() && (#[trigger] escape@[j]).0@.last()
            == c by {
            let j0 = choose|j0: int|
                0 <= j0 < esc_pre.len() && (#[trigger] esc_pre[j0]).0@.last() == c;
            let e = esc_pre[j0];
            assert(esc_pre.contains(e));
            assert(escape@.contains(e));
            let j = choose|j: int| 0 <= j < escape@.len() && escape@[j] == e;
            assert(escape@[j].0@.last() == c);
        }
    }
    let mut safe: Vec<Vec<(usize, usize)>> = Vec::new();
    let mut k: usize = 0;
    while k < escape.len() && safe.len() < 10
        invariant
            0 <= k <= escape@.len(),
            wmatrix.wf(),
            safe@.len() <= 10,
            forall|j: int|
                0 <= j < escape@.len() ==> escape_entry_ok(
                    #[trigger] escape@[j],
                    wmatrix.cells(),
                    matrix.cells(),
                    panic_coord,
                ),
            forall|j: int|
                0 <= j < safe@.len() ==> (#[trigger] safe@[j])@.len() >= 1 && safe@[j]@[0]
                    == rat_coord && (safe@[j]@.len() >= 2 ==> wmatrix.cells().contains(
                    safe@[j]@[1],
                ) && adjacent(rat_coord, safe@[j]@[1])),
            safe@.len() > 0 ==> exists|c: (usize, usize)|
                #[trigger] matrix.cells().contains(c) && has_walk(
                    wmatrix.cells(),
                    panic_coord,
                    c,
                ) && has_walk(wmatrix.cells(), rat_coord, c),
            safe@.len() == 0 ==> forall|j: int|
                0 <= j < k ==> !has_walk(
                    wmatrix.cells(),
                    rat_coord,
                    (#[trigger] escape@[j]).0@.last(),
                ),
        decreases escape@.len() - k,
    {
        let entry = &escape[k];
        let e_last = entry.0[entry.0.len() - 1];
        let ghost safe0 = safe@;
        match wmatrix.find_path(rat_coord, e_last) {
            Some(q) => {
                proof {
                    let ghost c = escape@[k as int].0@.last();
                    assert(is_walk(
                        wmatrix.cells(),
                        escape@[k as int].0@,
                        panic_coord,
                        c,
                    ));
                    assert(has_walk(wmatrix.cells(), panic_coord, c));
                    assert(is_walk(wmatrix.cells(), q@, rat_coord, c));
                    assert(has_walk(wmatrix.cells(), rat_coord, c));
                }
                safe.push(q);
            },
            None => {},
        }
        k = k + 1;
    }
    if safe.len() > 0 {
        let idx = random_below(safe.len());
        let q = &safe[idx];
        if q.len() >= 2 {
            Some(q[1])
        } else {
            Some(q[0])
        }
    } else {
        proof {
            if exists|c: (usize, usize)|
                #[trigger] matrix.cells().contains(c) && has_walk(
                    wmatrix.cells(),
                    panic_coord,
                    c,
                ) && has_walk(wmatrix.cells(), rat_coord, c) {
                let c = choose|c: (usize, usize)|
                    #[trigger] matrix.cells().contains(c) && has_walk(
                        wmatrix.cells(),
                        panic_coord,
                        c,
                    ) && has_walk(wmatrix.cells(), rat_coord, c);
                assert(all@.to_set().contains(c));
                assert(all@.contains(c));
                let j = choose|j: int|
                    0 <= j < escape@.len() && (#[trigger] escape@[j]).0@.last() == c;
                assert(!has_walk(wmatrix.cells(), rat_coord, escape@[j].0@.last()));
            }
        }
        None
    }
}

/// Roam: a uniformly random walkable neighbour of the agent's cell in the
/// avoidance-reduced grid, or none when every side is blocked.
fn roam(rat_coord: (usize, usize), wmatrix: &PathfindingMatrix) -> (r: Option<(usize, usize)>)
    requires
        wmatrix.wf(),
    ensures
        r is Some <==> exists|c: (usize, usize)|
            neighbour_set(wmatrix.cells(), rat_coord).contains(c),
        r matches Some(d) ==> neighbour_set(wmatrix.cells(), rat_coord).contains(d)
            && new_goal_ok(wmatrix.cells(), rat_coord, d),
{
    let ns = wmatrix.neighbours(rat_coord);
    if ns.len() > 0 {
        let idx = random_below(ns.len());
        let d = ns[idx];
        proof {
            assert(ns@.contains(d));
            assert(neighbour_set(wmatrix.cells(), rat_coord).contains(d));
        }
        Some(d)
    } else {
        proof {
            if exists|c: (usize, usize)| neighbour_set(wmatrix.cells(), rat_coord).contains(c) {
                let c = choose|c: (usize, usize)|
                    neighbour_set(wmatrix.cells(), rat_coord).contains(c);
                assert(ns@.to_set().contains(c));
                assert(ns@.contains(c));
            }
        }
        None
    }
}

/// Whether some scare-trigger stands on cell `c`.
pub open spec fn scare_cell(
    m: PathfindingMatrix,
    scare_cats: Seq<(i64, i64, i64)>,
    c: (usize, usize),
) -> bool {
    exists|i: int|
        0 <= i < scare_cats.len() && m.spec_grid_coord(#[trigger] scare_cats[i]) == Some(c)
}

/// Whether a scare-trigger stands on a walkable cell next to `rc`.
pub open spec fn hazard_adjacent(
    m: PathfindingMatrix,
    scare_cats: Seq<(i64, i64, i64)>,
    rc: (usize, usize),
) -> bool {
    exists|h: (usize, usize)|
        #[trigger] neighbour_set(m.cells(), rc).contains(h) && scare_cell(m, scare_cats, h)
}

/// Whether `v` holds the cell `c`.
fn contains_cell(v: &Vec<(usize, usize)>, c: (usize, usize)) -> (r: bool)
    ensures
        r == v@.contains(c),
{
    let mut i: usize = 0;
    while i < v.len()
        invariant
            0 <= i <= v@.len(),
            forall|j: int| 0 <= j < i ==> #[trigger] v@[j] != c,
        decreases v@.len() - i,
    {
        let e = v[i];
        if e.0 == c.0 && e.1 == c.1 {
            proof {
                assert(v@[i as int] == c);
            }
            return true;
        }
        i = i + 1;
    }
    false
}

/// A walkable neighbour of the agent's cell on which a scare-trigger
/// stands, if there is one.
fn find_hazard_neighbour(
    rat_coord: (usize, usize),
    scare_cats: &Vec<(i64, i64, i64)>,
    matrix: &PathfindingMatrix,
) -> (r: Option<(usize, usize)>)
    requires
        matrix.wf(),
        forall|i: int| 0 <= i < scare_cats@.len() ==> pos_ok(#[trigger] scare_cats@[i]),
    ensures
        r matches Some(h) ==> neighbour_set(matrix.cells(), rat_coord).contains(h) && scare_cell(
            *matrix,
            scare_cats@,
            h,
        ),
        r is None ==> !hazard_adjacent(*matrix, scare_cats@, rat_coord),
{
    let mut scary: Vec<(usize, usize)> = Vec::new();
    let mut i: usize = 0;
    while i < scare_cats.len()
        invariant
            0 <= i <= scare_cats@.len(),
            matrix.wf(),
            forall|j: int| 0 <= j < scare_cats@.len() ==> pos_ok(#[trigger] scare_cats@[j]),
            forall|c: (usize, usize)| #[trigger]
                scary@.contains(c) <==> exists|j: int|
                    0 <= j < i && matrix.spec_grid_coord(#[trigger] scare_cats@[j]) == Some(c),
        decreases scare_cats@.len() - i,
    {
        let ghost pre = scary@;
        match matrix.grid_coord(scare_cats[i]) {
            Some(c) => {
                scary.push(c);
            },
            None => {},
        }
        proof {
            assert forall|c: (usize, usize)| #[trigger]
                scary@.contains(c) <==> exists|j: int|
                    0 <= j < i + 1 && matrix.spec_grid_coord(#[trigger] scare_cats@[j]) == Some(
                        c,
                    ) by {
                if scary@.contains(c) {
                    let q = choose|q: int| 0 <= q < scary@.len() && (#[trigger] scary@[q]) == c;
                    if q < pre.len() {
                        assert(pre[q] == c);
                        assert(pre.contains(c));
                    } else {
                        assert(matrix.spec_grid_coord(scare_cats@[i as int]) == Some(c));
                    }
                }
                if exists|j: int|
                    0 <= j < i + 1 && matrix.spec_grid_coord(#[trigger] scare_cats@[j]) == Some(
                        c,
                    ) {
                    let j = choose|j: int|
                        0 <= j < i + 1 && matrix.spec_grid_coord(#[trigger] scare_cats@[j])
                            == Some(c);
                    if j < i {
                        assert(pre.contains(c));
                        let q = choose|q: int| 0 <= q < pre.len() && (#[trigger] pre[q]) == c;
                        assert(scary@[q] == c);
                    } else {
                        assert(scary@[scary@.len() - 1] == c);
                    }
                }
            }
        }
        i = i + 1;
    }
    let ns = matrix.neighbours(rat_coord);
    let mut a: usize = 0;
    while a < ns.len()
        invariant
            0 <= a <= ns@.len(),
            ns@.to_set() == neighbour_set(matrix.cells(), rat_coord),
            forall|c: (usize, usize)| #[trigger]
                scary@.contains(c) <==> scare_cell(*matrix, scare_cats@, c),
            forall|j: int| 0 <= j < a ==> !scary@.contains(#[trigger] ns@[j]),
        decreases ns@.len() - a,
    {
        let n = ns[a];
        if contains_cell(&scary, n) {
            proof {
                assert(ns@.contains(n));
                assert(ns@.to_set().contains(n));
            }
            return Some(n);
        }
        a = a + 1;
    }
    proof {
        if hazard_adjacent(*matrix, scare_cats@, rat_coord) {
            let h = choose|h: (usize, usize)|
                #[trigger] neighbour_set(matrix.cells(), rat_coord).contains(h) && scare_cell(
                    *matrix,
                    scare_cats@,
                    h,
                );
            assert(ns@.to_set().contains(h));
            assert(ns@.contains(h));
            let q = choose|q: int| 0 <= q < ns@.len() && (#[trigger] ns@[q]) == h;
            assert(!scary@.contains(ns@[q]));
        }
    }
    None
}

/// How long an agent rests when it has nothing better to do: the full
/// rest span when starving, three tenths of it when merely hungry, not
/// at all when sated.
pub open spec fn spec_rest_duration(appetite: int, s: Settings) -> int {
    if appetite == 0 {
        s.max_rest_millis as int
    } else if appetite == 1 {
        (s.max_rest_millis as int) * 3 / 10
    } else {
        0
    }
}

fn rest_duration(appetite: i32, settings: &Settings) -> (d: u64)
    requires
        settings.valid(),
    ensures
        d == spec_rest_duration(appetite as int, *settings),
{
    if appetite == 0 {
        settings.max_rest_millis
    } else if appetite == 1 {
        settings.max_rest_millis * 3 / 10
    } else {
        0
    }
}

/// The walkable cells left once the agent's avoidance set is removed.
pub open spec fn spec_wcells(
    rat: Rat,
    cheese: Seq<Cheese>,
    memory: Seq<(usize, usize)>,
    m: PathfindingMatrix,
) -> Set<(usize, usize)> {
    m.cells().difference(avoided_set(rat, cheese, memory, m))
}

/// An acceptable fresh goal, one step at a time: a cell of the
/// avoidance-reduced grid adjacent to the agent's own cell — the second
/// cell of some walk out of it, or a roam neighbour — or the agent's own
/// cell itself (a one-cell walk's only step).
pub open spec fn new_goal_ok(
    wcells: Set<(usize, usize)>,
    rat_coord: (usize, usize),
    d: (usize, usize),
) -> bool {
    (wcells.contains(d) && adjacent(rat_coord, d)) || d == rat_coord
}

/// The agent has come within the arrival threshold of the cell `g`'s
/// continuous position.
pub open spec fn spec_arrived(
    m: PathfindingMatrix,
    g: (usize, usize),
    position: (i64, i64, i64),
    s: Settings,
) -> bool {
    spec_dist_sq(m.spec_translation(g, position.1), position) <= s.min_distance_milli
        * s.min_distance_milli
}

/// Re-decide after arrival, with the goal already cleared: continue a
/// live panic by fleeing; else, if fearful and next to a scare-trigger,
/// remember the cell and enter panic; else rest. The caller has already
/// advanced the panic countdown.
fn arrival_redecide(
    rat: &Rat,
    agent: &mut AgentState,
    rat_coord: (usize, usize),
    scare_cats: &Vec<(i64, i64, i64)>,
    matrix: &PathfindingMatrix,
    wmatrix: &PathfindingMatrix,
    settings: &Settings,
)
    requires
        matrix.wf(),
        wmatrix.wf(),
        settings.valid(),
        rat.valid(),
        forall|i: int| 0 <= i < scare_cats@.len() ==> pos_ok(#[trigger] scare_cats@[i]),
        old(agent).goal is None,
        old(agent).rest is None,
    ensures
        final(agent).memory.0@ == old(agent).memory.0@ || (exists|h: (usize, usize)|
            #[trigger] neighbour_set(matrix.cells(), rat_coord).contains(h) && scare_cell(
                *matrix,
                scare_cats@,
                h,
            ) && rat.fear > 0 && final(agent).memory.0@ == old(agent).memory.0@.push(h)
                && final(agent).panic == Some(
                Panic { coord: h, remaining_millis: (1000 * rat.fear * rat.fear) as u64 },
            )),
        match final(agent).goal {
            Some(d) => new_goal_ok(wmatrix.cells(), rat_coord, d.0),
            None => true,
        },
        match final(agent).rest {
            Some(r) => r.remaining_millis == spec_rest_duration(rat.appetite as int, *settings),
            None => true,
        },
        (old(agent).panic is None || old(agent).panic.unwrap().remaining_millis == 0) && (rat.fear
            == 0 || !hazard_adjacent(*matrix, scare_cats@, rat_coord)) ==> final(agent).goal is None
            && final(agent).panic is None && final(agent).rest == (Some(
            Rest { remaining_millis: spec_rest_duration(rat.appetite as int, *settings) as u64 },
        )) && final(agent).memory.0@ == old(agent).memory.0@,
        (old(agent).panic matches Some(p) && p.remaining_millis > 0) ==> (final(agent).goal is Some
            <==> exists|c: (usize, usize)|
            #[trigger] matrix.cells().contains(c) && has_walk(
                wmatrix.cells(),
                old(agent).panic.unwrap().coord,
                c,
            ) && has_walk(wmatrix.cells(), rat_coord, c)),
        final(agent).goal is Some ==> final(agent).rest is None && final(agent).panic == old(
            agent,
        ).panic && final(agent).memory.0@ == old(agent).memory.0@,
{
    match agent.panic {
        Some(p) => {
            if p.remaining_millis == 0 {
                agent.panic = None;
            } else {
                match flee(p.coord, rat_coord, matrix, wmatrix) {
                    Some(d) => {
                        agent.goal = Some(Goal(d));
                        return ;
                    },
                    None => {},
                }
            }
        },
        None => {},
    }
    if rat.fear > 0 {
        match find_hazard_neighbour(rat_coord, scare_cats, matrix) {
            Some(h) => {
                agent.memory.0.push(h);
                let f: u64 = rat.fear as u64;
                proof {
                    assert(f * f <= 4 && 1000 * (f * f) == 1000 * rat.fear * rat.fear)
                        by (nonlinear_arith)
                        requires
                            f == rat.fear && 0 <= rat.fear <= 2,
                    ;
                }
                let t: u64 = 1000 * (f * f);
                agent.panic = Some(Panic { coord: h, remaining_millis: t });
                proof {
                    assert(neighbour_set(matrix.cells(), rat_coord).contains(h));
                }
                return ;
            },
            None => {},
        }
    }
    agent.rest = Some(Rest { remaining_millis: rest_duration(rat.appetite, settings) });
}

/// Decide for an agent with no goal: seek food when hungry, else roam.
/// The caller has already advanced the panic countdown.
fn idle_decide(
    rat: &Rat,
    agent: &mut AgentState,
    position: (i64, i64, i64),
    rat_coord: (usize, usize),
    cheese: &Vec<Cheese>,
    matrix: &PathfindingMatrix,
    wmatrix: &PathfindingMatrix,
)
    requires
        matrix.wf(),
        wmatrix.wf(),
        rat.valid(),
        pos_ok(position),
        forall|i: int| 0 <= i < cheese@.len() ==> pos_ok((#[trigger] cheese@[i]).position),
        old(agent).goal is None,
        old(agent).rest is None,
    ensures
        final(agent).rest is None,
        final(agent).memory.0@ == old(agent).memory.0@,
        final(agent).panic == old(agent).panic,
        match final(agent).goal {
            Some(d) => new_goal_ok(wmatrix.cells(), rat_coord, d.0),
            None => true,
        },
        rat.appetite > 0 && (exists|i: int|
            0 <= i < cheese@.len() && cheese_attainable(
                *rat,
                position,
                #[trigger] cheese@[i],
                wmatrix.cells(),
                *matrix,
                rat_coord,
            )) ==> final(agent).goal is Some,
        final(agent).goal is None <==> !(rat.appetite > 0 && (exists|i: int|
            0 <= i < cheese@.len() && cheese_attainable(
                *rat,
                position,
                #[trigger] cheese@[i],
                wmatrix.cells(),
                *matrix,
                rat_coord,
            ))) && !(exists|c: (usize, usize)|
            neighbour_set(wmatrix.cells(), rat_coord).contains(c)),
{
    if rat.appetite > 0 {
        match seek_food(rat, position, rat_coord, cheese, matrix, wmatrix) {
            Some(d) => {
                agent.goal = Some(Goal(d));
                return ;
            },
            None => {},
        }
    }
    match roam(rat_coord, wmatrix) {
        Some(d) => {
            agent.goal = Some(Goal(d));
            return ;
        },
        None => {},
    }
}

/// One policy evaluation for one agent, mirroring a single simulation
/// tick. A resting agent is skipped. Otherwise its panic countdown is
/// advanced; then, if it has a goal it has not reached, it keeps steering
/// toward it. On arrival the goal is cleared and the agent re-decides:
/// panic continuation (flee), hazard detection (enter panic and remember
/// the cell), or rest. An agent with no goal seeks food if hungry, else
/// roams to a random unblocked neighbour; if nothing applies it stays
/// idle and is retried next tick.
#[verifier::rlimit(100)]
#[verifier::spinoff_prover]
pub fn set_goal_tick(
    rat: &Rat,
    agent: &mut AgentState,
    position: (i64, i64, i64),
    cheese: &Vec<Cheese>,
    scare_cats: &Vec<(i64, i64, i64)>,
    matrix: &PathfindingMatrix,
    settings: &Settings,
    delta_millis: u64,
) -> (cmd: MotionCommand)
    requires
        matrix.wf(),
        settings.valid(),
        rat.valid(),
        pos_ok(position),
        forall|i: int| 0 <= i < cheese@.len() ==> pos_ok((#[trigger] cheese@[i]).position),
        forall|i: int| 0 <= i < scare_cats@.len() ==> pos_ok(#[trigger] scare_cats@[i]),
        old(agent).goal matches Some(g) ==> g.0.0 as int <= 4_000_000_000 && g.0.1 as int
            <= 4_000_000_000,
    ensures
// A resting agent is left untouched.

        old(agent).rest is Some ==> *final(agent) == *old(agent) && cmd == MotionCommand::Coast,
        // The memory only ever grows, by hazard cells: walkable neighbours
        // of the agent's cell on which a scare-trigger stands; discovering
        // one starts a panic timed by the square of the agent's fear.
        old(agent).rest is None ==> final(agent).memory.0@ == old(agent).memory.0@ || (exists|
            h: (usize, usize),
        |
            #[trigger] neighbour_set(matrix.cells(), spec_agent_cell(*matrix, position)).contains(
                h,
            ) && scare_cell(*matrix, scare_cats@, h) && rat.fear > 0 && final(agent).memory.0@
                == old(agent).memory.0@.push(h) && final(agent).panic == Some(
                Panic { coord: h, remaining_millis: (1000 * rat.fear * rat.fear) as u64 },
            )),
        // Short of arrival, the agent steers for its goal and nothing else
        // changes (the panic countdown runs).
        old(agent).rest is None && (old(agent).goal matches Some(g) && !spec_arrived(
            *matrix,
            g.0,
            position,
            *settings,
        )) ==> cmd == (MotionCommand::Steer(
            matrix.spec_translation(old(agent).goal.unwrap().0, position.1),
        )) && final(agent).goal == old(agent).goal && final(agent).rest is None
            && final(agent).memory.0@ == old(agent).memory.0@ && final(agent).panic == ticked_panic(
            old(agent).panic,
            delta_millis,
        ),
        // At or below the arrival threshold the agent halts and its goal
        // is cleared; whatever fresh goal re-deciding may set is a cell of
        // the avoidance-reduced grid or the agent's own cell.
        old(agent).rest is None && (old(agent).goal matches Some(g) && spec_arrived(
            *matrix,
            g.0,
            position,
            *settings,
        )) ==> cmd == MotionCommand::Stop && match final(agent).goal {
            Some(d) => new_goal_ok(
                spec_wcells(*rat, cheese@, old(agent).memory.0@, *matrix),
                spec_agent_cell(*matrix, position),
                d.0,
            ),
            None => true,
        },
        // Any rest entered runs for the appetite-determined span.
        old(agent).rest is None ==> match final(agent).rest {
            Some(r) => r.remaining_millis == spec_rest_duration(rat.appetite as int, *settings),
            None => true,
        },
        // Arrival with no live panic and no adjacent hazard ends in rest.
        old(agent).rest is None && (old(agent).goal matches Some(g) && spec_arrived(
            *matrix,
            g.0,
            position,
            *settings,
        )) && (old(agent).panic is None || ticked_panic(old(agent).panic, delta_millis).unwrap()
            .remaining_millis == 0) && (rat.fear == 0 || !hazard_adjacent(
            *matrix,
            scare_cats@,
            spec_agent_cell(*matrix, position),
        )) ==> final(agent).goal is None && final(agent).panic is None && final(agent).rest == (
        Some(Rest { remaining_millis: spec_rest_duration(rat.appetite as int, *settings) as u64 }))
            && final(agent).memory.0@ == old(agent).memory.0@,
        // Arrival while panicking: a flight goal is found exactly when
        // some cell of the full grid can be walked to both from the panic
        // origin and from the agent, through the avoidance-reduced grid.
        old(agent).rest is None && (old(agent).goal matches Some(g) && spec_arrived(
            *matrix,
            g.0,
            position,
            *settings,
        )) && (old(agent).panic matches Some(p) && ticked_panic(
            old(agent).panic,
            delta_millis,
        ).unwrap().remaining_millis > 0) ==> (final(agent).goal is Some <==> exists|
            c: (usize, usize),
        |
            #[trigger] matrix.cells().contains(c) && has_walk(
                spec_wcells(*rat, cheese@, old(agent).memory.0@, *matrix),
                old(agent).panic.unwrap().coord,
                c,
            ) && has_walk(
                spec_wcells(*rat, cheese@, old(agent).memory.0@, *matrix),
                spec_agent_cell(*matrix, position),
                c,
            )) && (final(agent).goal is Some ==> final(agent).rest is None && final(agent).panic
            == ticked_panic(old(agent).panic, delta_millis) && final(agent).memory.0@ == old(
            agent,
        ).memory.0@),
        // With no goal this tick: food seeking succeeds exactly when some
        // cheese is attainable; otherwise the agent roams to an unblocked
        // neighbour when one exists; its rest stays off and its memory
        // stays put.
        old(agent).rest is None && old(agent).goal is None ==> cmd == MotionCommand::Coast
            && final(agent).rest is None && final(agent).memory.0@ == old(agent).memory.0@
            && final(agent).panic == ticked_panic(old(agent).panic, delta_millis) && (match final(agent).goal {
            Some(d) => new_goal_ok(
                spec_wcells(*rat, cheese@, old(agent).memory.0@, *matrix),
                spec_agent_cell(*matrix, position),
                d.0,
            ),
            None => true,
        }) && (rat.appetite > 0 && (exists|i: int|
            0 <= i < cheese@.len() && cheese_attainable(
                *rat,
                position,
                #[trigger] cheese@[i],
                spec_wcells(*rat, cheese@, old(agent).memory.0@, *matrix),
                *matrix,
                spec_agent_cell(*matrix, position),
            )) ==> final(agent).goal is Some) && (final(agent).goal is None <==> !(rat.appetite > 0
            && (exists|i: int|
            0 <= i < cheese@.len() && cheese_attainable(
                *rat,
                position,
                #[trigger] cheese@[i],
                spec_wcells(*rat, cheese@, old(agent).memory.0@, *matrix),
                *matrix,
                spec_agent_cell(*matrix, position),
            ))) && !(exists|c: (usize, usize)|
            neighbour_set(
                spec_wcells(*rat, cheese@, old(agent).memory.0@, *matrix),
                spec_agent_cell(*matrix, position),
            ).contains(c))),
{
    if agent.rest.is_some() {
        return MotionCommand::Coast;
    }
    match agent.panic {
        Some(p) => {
            let rem: u64 = if p.remaining_millis > delta_millis {
                p.remaining_millis - delta_millis
            } else {
                0
            };
            agent.panic = Some(Panic { coord: p.coord, remaining_millis: rem });
        },
        None => {},
    }
    proof {
        assert(agent.panic == ticked_panic(old(agent).panic, delta_millis));
    }
    let rat_coord: (usize, usize) = match matrix.grid_coord(position) {
        Some(c) => c,
        None => (0, 0),
    };
    proof {
        assert(rat_coord == spec_agent_cell(*matrix, position));
    }
    let avoided = collect_avoided(rat, cheese, &agent.memory, matrix);
    let wmatrix = matrix.without(&avoided);
    proof {
        assert(wmatrix.cells() =~= spec_wcells(*rat, cheese@, agent.memory.0@, *matrix));
    }
    let had_goal = agent.goal;
    match had_goal {
        Some(g) => {
            let goal_t = matrix.translation(g.0, position.1);
            let d2 = dist_sq(goal_t, position);
            let min_d = settings.min_distance_milli;
            proof {
                assert(0 <= min_d * min_d <= 1_000_000_000_000) by (nonlinear_arith)
                    requires
                        0 <= min_d <= 1_000_000,
                ;
            }
            let min2: i128 = (min_d * min_d) as i128;
            if d2 > min2 {
                return MotionCommand::Steer(goal_t);
            }
            agent.goal = None;
            arrival_redecide(rat, agent, rat_coord, scare_cats, matrix, &wmatrix, settings);
            MotionCommand::Stop
        },
        None => {
            idle_decide(rat, agent, position, rat_coord, cheese, matrix, &wmatrix);
            MotionCommand::Coast
        },
    }
}

/// Avoidance persistence, for goals: once a cell is in an agent's memory,
/// no goal the policy accepts for that agent is that cell — a fresh goal
/// is either a cell of the avoidance-reduced grid, which excludes every
/// remembered cell, or the agent's own cell, which is not remembered.
pub proof fn lemma_memory_never_chosen(
    rat: Rat,
    cheese: Seq<Cheese>,
    memory: Seq<(usize, usize)>,
    m: PathfindingMatrix,
    rat_coord: (usize, usize),
    d: (usize, usize),
    c: (usize, usize),
)
    requires
        memory.contains(c),
        !memory.contains(rat_coord),
        new_goal_ok(spec_wcells(rat, cheese, memory, m), rat_coord, d),
    ensures
        d != c,
{
    if d != rat_coord {
        assert(spec_wcells(rat, cheese, memory, m).contains(d));
        assert(!avoided_set(rat, cheese, memory, m).contains(d));
        assert(memory.to_set().contains(c));
    }
}

/// Avoidance persistence, for paths: every step of a walk through the
/// avoidance-reduced grid stays off every remembered cell.
pub proof fn lemma_walk_avoids_memory(
    rat: Rat,
    cheese: Seq<Cheese>,
    memory: Seq<(usize, usize)>,
    m: PathfindingMatrix,
    p: Seq<(usize, usize)>,
    a: (usize, usize),
    b: (usize, usize),
    c: (usize, usize),
    i: int,
)
    requires
        is_walk(spec_wcells(rat, cheese, memory, m), p, a, b),
        memory.contains(c),
        1 <= i < p.len(),
    ensures
        p[i] != c,
{
    assert(spec_wcells(rat, cheese, memory, m).contains(p[i]));
    assert(memory.to_set().contains(c));
}

} // verus!
