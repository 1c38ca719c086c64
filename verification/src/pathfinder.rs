use vstd::prelude::*;
use crate::model::{direction_to, heading, Coord, Direction, EngineError};

verus! {

/// A path over the grid, from the head to a food cell, with its cost in
/// steps.
#[derive(Clone, Debug)]
pub struct Route {
    pub nodes: Vec<Coord>,
    pub cost: u64,
}

impl View for Route {
    type V = (Seq<Coord>, u64);

    open spec fn view(&self) -> (Seq<Coord>, u64) {
        (self.nodes@, self.cost)
    }
}

/// The views of a list of routes.
pub open spec fn views(routes: Seq<Route>) -> Seq<(Seq<Coord>, u64)> {
    Seq::new(routes.len(), |i: int| routes[i]@)
}

/// The distance between two numbers.
pub open spec fn span(a: int, b: int) -> int {
    if a >= b {
        a - b
    } else {
        b - a
    }
}

/// The Manhattan distance between two cells.
pub open spec fn manhattan(a: Coord, b: Coord) -> int {
    span(a.x as int, b.x as int) + span(a.y as int, b.y as int)
}

/// The cell one step from `p` in direction `d`, where its coordinates can be
/// represented.
pub open spec fn neighbour(p: Coord, d: Direction) -> Option<Coord> {
    let x = p.x + d.dx();
    let y = p.y + d.dy();
    if i32::MIN <= x <= i32::MAX && i32::MIN <= y <= i32::MAX {
        Some(Coord { x: x as i32, y: y as i32 })
    } else {
        None
    }
}

/// The neighbour of `p` in direction `d` as a list of at most one move of
/// cost 1.
pub open spec fn moves_toward(p: Coord, d: Direction) -> Seq<(Coord, u64)> {
    match neighbour(p, d) {
        Some(c) => seq![(c, 1u64)],
        None => Seq::empty(),
    }
}

/// The moves that the search may make from `p`: right, left, up, down, each
/// of cost 1.
pub open spec fn neighbours(p: Coord) -> Seq<(Coord, u64)> {
    moves_toward(p, Direction::Right) + moves_toward(p, Direction::Left) + moves_toward(
        p,
        Direction::Up,
    ) + moves_toward(p, Direction::Down)
}

/// Whether `nodes` leads from `start` to `goal` by steps between cells that
/// lie next to each other.
pub open spec fn is_walk(nodes: Seq<Coord>, start: Coord, goal: Coord) -> bool {
    &&& nodes.len() >= 1
    &&& nodes[0] == start
    &&& nodes[nodes.len() - 1] == goal
    &&& forall|i: int| 0 <= i < nodes.len() - 1 ==> manhattan(#[trigger] nodes[i], nodes[i + 1]) == 1
}

/// Whether no walk from `start` to `goal` has fewer nodes than `nodes`.
pub open spec fn is_shortest(nodes: Seq<Coord>, start: Coord, goal: Coord) -> bool {
    forall|other: Seq<Coord>| #[trigger] is_walk(other, start, goal) ==> nodes.len() <= other.len()
}

/// The Manhattan distance to `goal` that is left after one step from `from`
/// in direction `d`.
pub open spec fn steps_left(from: Coord, d: Direction, goal: Coord) -> int {
    span(from.x + d.dx(), goal.x as int) + span(from.y + d.dy(), goal.y as int)
}

/// The cell next to `p` on the way to `goal` that goes along the x axis
/// first.
pub open spec fn toward(p: Coord, goal: Coord) -> Coord {
    if p.x < goal.x {
        Coord { x: (p.x + 1) as i32, y: p.y }
    } else if p.x > goal.x {
        Coord { x: (p.x - 1) as i32, y: p.y }
    } else if p.y < goal.y {
        Coord { x: p.x, y: (p.y + 1) as i32 }
    } else if p.y > goal.y {
        Coord { x: p.x, y: (p.y - 1) as i32 }
    } else {
        p
    }
}

/// The walk from `p` to `goal` that goes along the x axis first.
pub open spec fn straight_walk(p: Coord, goal: Coord) -> Seq<Coord>
    decreases manhattan(p, goal),
{
    if p == goal {
        seq![p]
    } else {
        seq![p] + straight_walk(toward(p, goal), goal)
    }
}

/// The straight walk is a walk, of as many steps as the Manhattan distance.
pub proof fn lemma_straight_walk(p: Coord, goal: Coord)
    ensures
        is_walk(straight_walk(p, goal), p, goal),
        straight_walk(p, goal).len() == manhattan(p, goal) + 1,
    decreases manhattan(p, goal),
{
    if p != goal {
        let next = toward(p, goal);
        lemma_straight_walk(next, goal);
        let rest = straight_walk(next, goal);
        let walk = straight_walk(p, goal);
        assert(walk == seq![p] + rest);
        assert(walk[0] == p);
        assert(walk[walk.len() - 1] == rest[rest.len() - 1]);
        assert forall|i: int| 0 <= i < walk.len() - 1 implies manhattan(
            #[trigger] walk[i],
            walk[i + 1],
        ) == 1 by {
            if i == 0 {
                assert(walk[1] == rest[0]);
            } else {
                assert(walk[i] == rest[i - 1]);
                assert(walk[i + 1] == rest[i]);
            }
        }
    }
}

/// What follows the first node of a walk of several nodes is a walk from
/// its second node.
pub proof fn lemma_rest_of_walk(nodes: Seq<Coord>, start: Coord, goal: Coord)
    requires
        is_walk(nodes, start, goal),
        nodes.len() >= 2,
    ensures
        is_walk(nodes.subrange(1, nodes.len() as int), nodes[1], goal),
        manhattan(start, nodes[1]) == 1,
{
    let rest = nodes.subrange(1, nodes.len() as int);
    assert forall|i: int| 0 <= i < rest.len() - 1 implies manhattan(#[trigger] rest[i], rest[i + 1])
        == 1 by {
        assert(rest[i] == nodes[i + 1]);
        assert(rest[i + 1] == nodes[i + 2]);
        assert(manhattan(nodes[i + 1], nodes[i + 2]) == 1);
    }
    assert(manhattan(nodes[0], nodes[1]) == 1);
}

/// The Manhattan distance is admissible: no walk has fewer steps than the
/// Manhattan distance between its ends.
pub proof fn lemma_walk_is_long_enough(nodes: Seq<Coord>, start: Coord, goal: Coord)
    requires
        is_walk(nodes, start, goal),
    ensures
        nodes.len() - 1 >= manhattan(start, goal),
    decreases nodes.len(),
{
    if nodes.len() >= 2 {
        lemma_rest_of_walk(nodes, start, goal);
        lemma_walk_is_long_enough(nodes.subrange(1, nodes.len() as int), nodes[1], goal);
    }
}

/// A shortest walk has as many steps as the Manhattan distance between its
/// ends.
pub proof fn lemma_shortest_walk_length(nodes: Seq<Coord>, start: Coord, goal: Coord)
    requires
        is_walk(nodes, start, goal),
        is_shortest(nodes, start, goal),
    ensures
        nodes.len() - 1 == manhattan(start, goal),
{
    lemma_walk_is_long_enough(nodes, start, goal);
    lemma_straight_walk(start, goal);
    assert(is_walk(straight_walk(start, goal), start, goal));
}

/// A shortest walk between two different cells sets out in a direction
/// that brings its goal one step nearer; one between a cell and itself has
/// no first step.
pub proof fn lemma_first_step_approaches(nodes: Seq<Coord>, start: Coord, goal: Coord)
    requires
        is_walk(nodes, start, goal),
        is_shortest(nodes, start, goal),
    ensures
        start == goal ==> setting_out(nodes) == Err::<Option<Direction>, EngineError>(
            EngineError::PathfindingInternalError,
        ),
        start != goal ==> (setting_out(nodes) matches Ok(Some(d)) && steps_left(start, d, goal)
            == manhattan(start, goal) - 1),
{
    lemma_shortest_walk_length(nodes, start, goal);
    if start != goal {
        lemma_rest_of_walk(nodes, start, goal);
        lemma_walk_is_long_enough(nodes.subrange(1, nodes.len() as int), nodes[1], goal);
    }
}

/// The heuristic of the search: the Manhattan distance.
pub fn distance(a: &Coord, b: &Coord) -> (d: u64)
    ensures
        d == manhattan(*a, *b),
{
    let dx: i64 = a.x as i64 - b.x as i64;
    let dy: i64 = a.y as i64 - b.y as i64;
    let ax: i64 = if dx >= 0 { dx } else { -dx };
    let ay: i64 = if dy >= 0 { dy } else { -dy };
    (ax + ay) as u64
}

/// The goal test of the search.
pub fn same_cell(a: &Coord, b: &Coord) -> (r: bool)
    ensures
        r == (*a == *b),
{
    a.x == b.x && a.y == b.y
}

/// The cell one step from `p` in direction `d`.
pub fn step(p: &Coord, d: Direction) -> (r: Option<Coord>)
    ensures
        r == neighbour(*p, d),
{
    match d {
        Direction::Right => if p.x < i32::MAX {
            Some(Coord { x: p.x + 1, y: p.y })
        } else {
            None
        },
        Direction::Left => if p.x > i32::MIN {
            Some(Coord { x: p.x - 1, y: p.y })
        } else {
            None
        },
        Direction::Up => if p.y < i32::MAX {
            Some(Coord { x: p.x, y: p.y + 1 })
        } else {
            None
        },
        Direction::Down => if p.y > i32::MIN {
            Some(Coord { x: p.x, y: p.y - 1 })
        } else {
            None
        },
    }
}

fn push_move(moves: &mut Vec<(Coord, u64)>, p: &Coord, d: Direction)
    ensures
        final(moves)@ == old(moves)@ + moves_toward(*p, d),
{
    match step(p, d) {
        Some(c) => {
            moves.push((c, 1));
            assert(moves@ =~= old(moves)@ + moves_toward(*p, d));
        },
        None => {
            assert(moves@ =~= old(moves)@ + moves_toward(*p, d));
        },
    }
}

/// The successors of a cell in the search: its neighbours, each one step
/// away.
pub fn successors(p: &Coord) -> (moves: Vec<(Coord, u64)>)
    ensures
        moves@ == neighbours(*p),
{
    let mut moves: Vec<(Coord, u64)> = Vec::new();
    push_move(&mut moves, p, Direction::Right);
    push_move(&mut moves, p, Direction::Left);
    push_move(&mut moves, p, Direction::Up);
    push_move(&mut moves, p, Direction::Down);
    assert(moves@ =~= neighbours(*p));
    moves
}

/// What the A* search of `pathfinding` returns for a start and a goal on
/// the open grid, with `successors` as its moves, `distance` to the goal as
/// its heuristic and `same_cell` with the goal as its goal test: the path
/// and its cost, or `None`.
pub uninterp spec fn astar_outcome(start: Coord, goal: Coord) -> Option<(Seq<Coord>, u64)>;

/// Runs `pathfinding::prelude::astar` from `start` to `goal`. Not proved:
/// that the result depends on the two cells alone; that a path that it
/// returns begins at `start`, ends at `goal` and steps from each node to
/// one of its successors; that the cost is the number of those steps; and
/// that the path is a shortest one, which the search promises where the
/// heuristic never exceeds the true cost (`lemma_walk_is_long_enough`).
/// Whether a path is found is left open. The search keeps every cell that
/// it has seen, so its time and memory grow with the distance.
#[verifier::external_body]
fn search(start: &Coord, goal: &Coord) -> (r: Option<Route>)
    ensures
        match r {
            Some(route) => {
                &&& astar_outcome(*start, *goal) == Some(route@)
                &&& is_walk(route.nodes@, *start, *goal)
                &&& is_shortest(route.nodes@, *start, *goal)
                &&& route.cost == route.nodes@.len() - 1
            },
            None => astar_outcome(*start, *goal) is None,
        },
{
    let found = pathfinding::prelude::astar(
        start,
        |p| successors(p),
        |p| distance(p, goal),
        |p| same_cell(p, goal),
    );
    found.map(|(nodes, cost)| Route { nodes, cost })
}

/// Whether the search finds a path from `head` to every food cell.
pub open spec fn all_found(head: Coord, food: Seq<Coord>) -> bool {
    forall|i: int| 0 <= i < food.len() ==> (#[trigger] astar_outcome(head, food[i])) is Some
}

/// The paths that the search finds from `head` to each food cell, in the
/// order of the food.
pub open spec fn outcomes(head: Coord, food: Seq<Coord>) -> Seq<(Seq<Coord>, u64)> {
    Seq::new(food.len(), |i: int| astar_outcome(head, food[i]).unwrap())
}

/// Searches a path from `head` to each food cell. The first search that
/// finds none ends the work with an error.
pub fn find_routes(head: &Coord, food: &Vec<Coord>) -> (r: Result<Vec<Route>, EngineError>)
    ensures
        r is Ok == all_found(*head, food@),
        r matches Ok(routes) ==> {
            &&& views(routes@) == outcomes(*head, food@)
            &&& routes@.len() == food@.len()
            &&& forall|i: int|
                0 <= i < routes@.len() ==> {
                    &&& is_walk((#[trigger] routes@[i]).nodes@, *head, food@[i])
                    &&& is_shortest(routes@[i].nodes@, *head, food@[i])
                    &&& routes@[i].cost == manhattan(*head, food@[i])
                }
        },
        r matches Err(e) ==> e == EngineError::PathfindingInternalError,
{
    let mut routes: Vec<Route> = Vec::new();
    let mut i: usize = 0;
    while i < food.len()
        invariant
            i <= food.len(),
            routes@.len() == i,
            forall|j: int|
                0 <= j < i ==> (#[trigger] astar_outcome(*head, food@[j])) == Some(routes@[j]@),
            forall|j: int|
                0 <= j < i ==> {
                    &&& is_walk((#[trigger] routes@[j]).nodes@, *head, food@[j])
                    &&& is_shortest(routes@[j].nodes@, *head, food@[j])
                    &&& routes@[j].cost == manhattan(*head, food@[j])
                },
        decreases food.len() - i,
    {
        match search(head, &food[i]) {
            Some(route) => {
                proof {
                    lemma_shortest_walk_length(route.nodes@, *head, food@[i as int]);
                }
                routes.push(route);
            },
            None => {
                assert(astar_outcome(*head, food@[i as int]) is None);
                return Err(EngineError::PathfindingInternalError);
            },
        }
        i = i + 1;
    }
    assert(views(routes@) =~= outcomes(*head, food@));
    Ok(routes)
}

/// Whether `k` is the place of the first least cost in the list.
pub open spec fn is_first_least(found: Seq<(Seq<Coord>, u64)>, k: int) -> bool {
    &&& 0 <= k < found.len()
    &&& forall|j: int| 0 <= j < found.len() ==> found[k].1 <= (#[trigger] found[j]).1
    &&& forall|j: int| 0 <= j < k ==> (#[trigger] found[j]).1 > found[k].1
}

/// The place of the first least cost in a list that is not empty.
pub open spec fn first_least(found: Seq<(Seq<Coord>, u64)>) -> int {
    choose|k: int| is_first_least(found, k)
}

/// Only one place is that of the first least cost.
pub proof fn lemma_first_least_is_single(found: Seq<(Seq<Coord>, u64)>, k: int)
    requires
        is_first_least(found, k),
    ensures
        first_least(found) == k,
{
    let c = first_least(found);
    assert(is_first_least(found, c));
    if c < k {
        assert(found[c].1 > found[k].1);
    } else if k < c {
        assert(found[k].1 > found[c].1);
    }
}

/// The food that is nearest by the length of its path: the first route of
/// least cost, or none where there is no route.
pub fn nearest(routes: &Vec<Route>) -> (r: Option<usize>)
    ensures
        routes@.len() == 0 ==> r is None,
        routes@.len() > 0 ==> r is Some && r.unwrap() == first_least(views(routes@)),
        r matches Some(k) ==> is_first_least(views(routes@), k as int) && forall|j: int|
            0 <= j < routes@.len() ==> routes@[k as int].cost <= (#[trigger] routes@[j]).cost,
{
    if routes.len() == 0 {
        return None;
    }
    let ghost found = views(routes@);
    let mut best: usize = 0;
    let mut i: usize = 1;
    while i < routes.len()
        invariant
            1 <= i <= routes.len(),
            best < i,
            found == views(routes@),
            forall|j: int| 0 <= j < i ==> found[best as int].1 <= (#[trigger] found[j]).1,
            forall|j: int| 0 <= j < best ==> (#[trigger] found[j]).1 > found[best as int].1,
        decreases routes.len() - i,
    {
        assert(found[i as int].1 == routes@[i as int].cost);
        assert(found[best as int].1 == routes@[best as int].cost);
        if routes[i].cost < routes[best].cost {
            best = i;
        }
        i = i + 1;
    }
    proof {
        assert(is_first_least(found, best as int));
        lemma_first_least_is_single(found, best as int);
        assert forall|j: int| 0 <= j < routes@.len() implies routes@[best as int].cost <= (
        #[trigger] routes@[j]).cost by {
            assert(found[j].1 == routes@[j].cost);
            assert(found[best as int].1 == routes@[best as int].cost);
        }
    }
    Some(best)
}

/// The direction in which a path sets out: that of the step from its first
/// node to its second. A path without a second node has no first step, which
/// is an error; a second node that is not one step from the first gives no
/// direction.
pub open spec fn setting_out(nodes: Seq<Coord>) -> Result<Option<Direction>, EngineError> {
    if nodes.len() < 2 {
        Err(EngineError::PathfindingInternalError)
    } else {
        Ok(heading(nodes[0], nodes[1]))
    }
}

pub fn first_step(route: &Route) -> (r: Result<Option<Direction>, EngineError>)
    ensures
        r == setting_out(route.nodes@),
{
    if route.nodes.len() < 2 {
        Err(EngineError::PathfindingInternalError)
    } else {
        Ok(direction_to(&route.nodes[0], &route.nodes[1]))
    }
}

/// The recommendation that a list of found paths gives: none where the list
/// is empty, else the first step of the first path of least cost.
pub open spec fn recommendation_from(found: Seq<(Seq<Coord>, u64)>) -> Result<
    Option<Direction>,
    EngineError,
> {
    if found.len() == 0 {
        Ok(None)
    } else {
        setting_out(found[first_least(found)].0)
    }
}

/// Whether `k` is the place of the first food of least Manhattan distance
/// from `head`.
pub open spec fn is_nearest_food(head: Coord, food: Seq<Coord>, k: int) -> bool {
    &&& 0 <= k < food.len()
    &&& forall|j: int|
        0 <= j < food.len() ==> manhattan(head, food[k]) <= manhattan(head, #[trigger] food[j])
    &&& forall|j: int| 0 <= j < k ==> manhattan(head, #[trigger] food[j]) > manhattan(head, food[k])
}

/// The recommendation for a head and the food on the board.
pub open spec fn recommendation(head: Coord, food: Seq<Coord>) -> Result<
    Option<Direction>,
    EngineError,
> {
    if all_found(head, food) {
        recommendation_from(outcomes(head, food))
    } else {
        Err(EngineError::PathfindingInternalError)
    }
}

/// Picks the recommended direction from the paths found, one for each food
/// cell.
pub fn recommend_from(routes: &Vec<Route>) -> (r: Result<Option<Direction>, EngineError>)
    ensures
        r == recommendation_from(views(routes@)),
        routes@.len() > 0 ==> is_first_least(views(routes@), first_least(views(routes@))),
{
    match nearest(routes) {
        None => Ok(None),
        Some(k) => {
            assert(views(routes@)[k as int].0 == routes@[k as int].nodes@);
            first_step(&routes[k])
        },
    }
}

/// The food pathfinder: the direction of the first step on the shortest
/// path from `head` to the nearest food, or no recommendation where there is
/// no food. Where every search finds its path, the nearest food is the first
/// of least Manhattan distance, and the recommended step brings it one step
/// nearer; a nearest food under the head itself is an error.
pub fn recommend(head: &Coord, food: &Vec<Coord>) -> (r: Result<Option<Direction>, EngineError>)
    ensures
        r == recommendation(*head, food@),
        food@.len() == 0 ==> r == Ok::<Option<Direction>, EngineError>(None),
        !all_found(*head, food@) ==> r == Err::<Option<Direction>, EngineError>(
            EngineError::PathfindingInternalError,
        ),
        forall|k: int|
            all_found(*head, food@) && #[trigger] is_nearest_food(*head, food@, k) ==> {
                if food@[k] == *head {
                    r == Err::<Option<Direction>, EngineError>(
                        EngineError::PathfindingInternalError,
                    )
                } else {
                    r matches Ok(Some(d)) && steps_left(*head, d, food@[k]) == manhattan(
                        *head,
                        food@[k],
                    ) - 1
                }
            },
{
    match find_routes(head, food) {
        Err(e) => Err(e),
        Ok(routes) => {
            let r = recommend_from(&routes);
            proof {
                let found = views(routes@);
                if routes@.len() > 0 {
                    let best = first_least(found);
                    assert(found[best].0 == routes@[best].nodes@);
                    lemma_first_step_approaches(routes@[best].nodes@, *head, food@[best]);
                    assert forall|k: int| #[trigger]
                        is_nearest_food(*head, food@, k) implies k == best by {
                        assert(found[k].1 == manhattan(*head, food@[k]));
                        assert(found[best].1 == manhattan(*head, food@[best]));
                    }
                }
            }
            r
        },
    }
}

/// Every list that is not empty has a first least cost among its first `n`
/// items.
pub proof fn lemma_least_exists(found: Seq<(Seq<Coord>, u64)>, n: int)
    requires
        1 <= n <= found.len(),
    ensures
        exists|k: int| is_first_least(found.take(n), k),
    decreases n,
{
    let part = found.take(n);
    if n == 1 {
        assert(is_first_least(part, 0));
    } else {
        lemma_least_exists(found, n - 1);
        let before = found.take(n - 1);
        let k = choose|k: int| is_first_least(before, k);
        assert forall|j: int| 0 <= j < n - 1 implies before[j] == part[j] by {}
        if part[n - 1].1 < part[k].1 {
            assert forall|j: int| 0 <= j < n implies part[n - 1].1 <= (#[trigger] part[j]).1 by {
                if j < n - 1 {
                    assert(before[k].1 <= before[j].1);
                }
            }
            assert forall|j: int| 0 <= j < n - 1 implies (#[trigger] part[j]).1 > part[n - 1].1 by {
                assert(before[k].1 <= before[j].1);
            }
            assert(is_first_least(part, n - 1));
        } else {
            assert forall|j: int| 0 <= j < n implies part[k].1 <= (#[trigger] part[j]).1 by {
                if j < n - 1 {
                    assert(before[k].1 <= before[j].1);
                }
            }
            assert forall|j: int| 0 <= j < k implies (#[trigger] part[j]).1 > part[k].1 by {
                assert(before[j].1 > before[k].1);
            }
            assert(is_first_least(part, k));
        }
    }
}

/// Optimality: the path of the food that `nearest` picks is no longer than
/// the path of any other food.
pub proof fn law_nearest_is_least(found: Seq<(Seq<Coord>, u64)>, other: int)
    requires
        found.len() > 0,
        0 <= other < found.len(),
    ensures
        is_first_least(found, first_least(found)),
        found[first_least(found)].1 <= found[other].1,
{
    lemma_least_exists(found, found.len() as int);
    assert(found.take(found.len() as int) =~= found);
}

/// Determinism: two recommendations made from one head and one list of food
/// are the same.
pub proof fn law_recommendation_repeats(
    head: Coord,
    food: Seq<Coord>,
    first: Result<Option<Direction>, EngineError>,
    second: Result<Option<Direction>, EngineError>,
)
    requires
        first == recommendation(head, food),
        second == recommendation(head, food),
    ensures
        first == second,
{
}

} // verus!
