use vstd::prelude::*;
use crate::model::{direction_to, leads, Battlesnake, Board, Coord, Direction, SafetyMap};

verus! {

/// Whether one of the first `n` segments of `body` lies on the cell `(x, y)`.
pub open spec fn occupied_within(body: Seq<Coord>, n: int, x: int, y: int) -> bool {
    exists|i: int| 0 <= i < n && i < body.len() && (#[trigger] body[i]).x == x && body[i].y == y
}

/// Whether some segment of `body` lies on the cell `(x, y)`.
pub open spec fn occupies(body: Seq<Coord>, x: int, y: int) -> bool {
    occupied_within(body, body.len() as int, x, y)
}

/// Whether a segment of `body` lies on the cell one step from `head` in
/// direction `d`.
pub open spec fn blocked_by(body: Seq<Coord>, head: Coord, d: Direction) -> bool {
    occupies(body, head.x + d.dx(), head.y + d.dy())
}

/// Whether a segment of one of the first `n` snakes blocks direction `d`.
pub open spec fn blocked_within(snakes: Seq<Battlesnake>, n: int, head: Coord, d: Direction) -> bool {
    exists|k: int| 0 <= k < n && k < snakes.len() && blocked_by((#[trigger] snakes[k]).body@, head, d)
}

/// Whether a segment of any snake blocks direction `d`.
pub open spec fn blocked_by_any(snakes: Seq<Battlesnake>, head: Coord, d: Direction) -> bool {
    blocked_within(snakes, snakes.len() as int, head, d)
}

/// The no-reverse rule: the neck is compared with the head on the x axis
/// first, and on the y axis only where the two share a column. At most one
/// direction is excluded, and none where head and neck coincide.
pub open spec fn reverses(head: Coord, neck: Coord, d: Direction) -> bool {
    match d {
        Direction::Left => neck.x < head.x,
        Direction::Right => neck.x > head.x,
        Direction::Down => neck.x == head.x && neck.y < head.y,
        Direction::Up => neck.x == head.x && neck.y > head.y,
    }
}

/// The wall rule: the head stands on the last cell before the edge that
/// direction `d` leads to.
pub open spec fn at_wall(head: Coord, width: int, height: int, d: Direction) -> bool {
    match d {
        Direction::Left => head.x == 0,
        Direction::Right => head.x == width - 1,
        Direction::Down => head.y == 0,
        Direction::Up => head.y == height - 1,
    }
}

/// Whether direction `d` is legal for `you` on `board`: none of the four
/// rules excludes it.
pub open spec fn is_legal(you: Battlesnake, board: Board, d: Direction) -> bool {
    &&& !reverses(you.head(), you.neck(), d)
    &&& !at_wall(you.head(), board.width as int, board.height as int, d)
    &&& !blocked_by(you.body@, you.head(), d)
    &&& !blocked_by_any(board.snakes@, you.head(), d)
}

/// The safety map of a turn.
pub open spec fn safety_of(you: Battlesnake, board: Board) -> SafetyMap {
    SafetyMap {
        up: is_legal(you, board, Direction::Up),
        down: is_legal(you, board, Direction::Down),
        left: is_legal(you, board, Direction::Left),
        right: is_legal(you, board, Direction::Right),
    }
}

/// Marks illegal every direction in which a segment of `body` lies next to
/// `head`.
pub fn mark_body(head: &Coord, body: &Vec<Coord>, map: &mut SafetyMap)
    ensures
        forall|d: Direction|
            final(map).allows(d) == (old(map).allows(d) && !blocked_by(body@, *head, d)),
{
    let ghost before = *map;
    let mut i: usize = 0;
    while i < body.len()
        invariant
            i <= body.len(),
            forall|d: Direction|
                #[trigger] map.allows(d) == (before.allows(d) && !occupied_within(
                    body@,
                    i as int,
                    head.x + d.dx(),
                    head.y + d.dy(),
                )),
        decreases body.len() - i,
    {
        let ghost mid = *map;
        match direction_to(head, &body[i]) {
            Some(d) => {
                map.forbid(d);
            },
            None => {},
        }
        proof {
            let cell = body@[i as int];
            assert forall|d: Direction|
                #[trigger] map.allows(d) == (before.allows(d) && !occupied_within(
                    body@,
                    i + 1,
                    head.x + d.dx(),
                    head.y + d.dy(),
                )) by {
                let x = head.x + d.dx();
                let y = head.y + d.dy();
                assert(mid.allows(d) == (before.allows(d) && !occupied_within(
                    body@,
                    i as int,
                    x,
                    y,
                )));
                if cell.x == x && cell.y == y {
                    assert(occupied_within(body@, i + 1, x, y));
                } else {
                    assert(occupied_within(body@, i + 1, x, y) == occupied_within(
                        body@,
                        i as int,
                        x,
                        y,
                    ));
                }
            }
        }
        i = i + 1;
    }
}

/// Checks one snake for segments next to the head of `you`, and marks the
/// directions that lead onto them illegal.
pub fn check_snake(you: &Battlesnake, opp: &Battlesnake, map: &mut SafetyMap)
    requires
        you.body@.len() >= 1,
    ensures
        forall|d: Direction|
            final(map).allows(d) == (old(map).allows(d) && !blocked_by(opp.body@, you.head(), d)),
{
    let head = you.body[0];
    mark_body(&head, &opp.body, map);
}

/// The direction that the no-reverse rule excludes, if any.
pub open spec fn reversal(head: Coord, neck: Coord) -> Option<Direction> {
    if neck.x < head.x {
        Some(Direction::Left)
    } else if neck.x > head.x {
        Some(Direction::Right)
    } else if neck.y < head.y {
        Some(Direction::Down)
    } else if neck.y > head.y {
        Some(Direction::Up)
    } else {
        None
    }
}

/// The direction that the no-reverse rule excludes, if any.
pub fn reverse_of(head: &Coord, neck: &Coord) -> (r: Option<Direction>)
    ensures
        r == reversal(*head, *neck),
        forall|d: Direction| reverses(*head, *neck, d) == (r == Some(d)),
{
    if neck.x < head.x {
        Some(Direction::Left)
    } else if neck.x > head.x {
        Some(Direction::Right)
    } else if neck.y < head.y {
        Some(Direction::Down)
    } else if neck.y > head.y {
        Some(Direction::Up)
    } else {
        None
    }
}

/// Marks illegal the directions in which the head stands at the board's
/// edge.
pub fn mark_walls(head: &Coord, width: i32, height: i32, map: &mut SafetyMap)
    ensures
        forall|d: Direction|
            final(map).allows(d) == (old(map).allows(d) && !at_wall(
                *head,
                width as int,
                height as int,
                d,
            )),
{
    let hx: i64 = head.x as i64;
    let hy: i64 = head.y as i64;
    if hx == 0 {
        map.forbid(Direction::Left);
    }
    if hx == width as i64 - 1 {
        map.forbid(Direction::Right);
    }
    if hy == 0 {
        map.forbid(Direction::Down);
    }
    if hy == height as i64 - 1 {
        map.forbid(Direction::Up);
    }
}

/// The safety filter: which of the four directions do not kill the snake
/// at once. A direction is legal where it does not turn the head back onto
/// the neck, does not leave the board, and leads onto no segment of any
/// snake.
pub fn safety_filter(you: &Battlesnake, board: &Board) -> (map: SafetyMap)
    requires
        you.is_alive(),
    ensures
        map == safety_of(*you, *board),
        forall|d: Direction| map.allows(d) == is_legal(*you, *board, d),
{
    let head = you.body[0];
    let neck = you.body[1];
    let mut map = SafetyMap::all_safe();
    match reverse_of(&head, &neck) {
        Some(d) => {
            map.forbid(d);
        },
        None => {},
    }
    mark_walls(&head, board.width, board.height, &mut map);
    mark_body(&head, &you.body, &mut map);
    let ghost base = map;
    let mut k: usize = 0;
    while k < board.snakes.len()
        invariant
            k <= board.snakes.len(),
            you.body@.len() >= 2,
            head == you.head(),
            forall|d: Direction|
                #[trigger] map.allows(d) == (base.allows(d) && !blocked_within(
                    board.snakes@,
                    k as int,
                    head,
                    d,
                )),
        decreases board.snakes.len() - k,
    {
        let ghost mid = map;
        check_snake(you, &board.snakes[k], &mut map);
        proof {
            let snake = board.snakes@[k as int];
            assert forall|d: Direction|
                #[trigger] map.allows(d) == (base.allows(d) && !blocked_within(
                    board.snakes@,
                    k + 1,
                    head,
                    d,
                )) by {
                assert(mid.allows(d) == (base.allows(d) && !blocked_within(
                    board.snakes@,
                    k as int,
                    head,
                    d,
                )));
                if blocked_by(snake.body@, head, d) {
                    assert(blocked_within(board.snakes@, k + 1, head, d));
                } else {
                    assert(blocked_within(board.snakes@, k + 1, head, d) == blocked_within(
                        board.snakes@,
                        k as int,
                        head,
                        d,
                    ));
                }
            }
        }
        k = k + 1;
    }
    proof {
        assert forall|d: Direction| map.allows(d) == is_legal(*you, *board, d) by {}
        assert(map.up == map.allows(Direction::Up));
        assert(map.down == map.allows(Direction::Down));
        assert(map.left == map.allows(Direction::Left));
        assert(map.right == map.allows(Direction::Right));
    }
    map
}

/// The no-reverse rule excludes at most one direction, and none where head
/// and neck coincide.
pub proof fn law_reverse_is_single(head: Coord, neck: Coord, d: Direction, e: Direction)
    ensures
        reverses(head, neck, d) && reverses(head, neck, e) ==> d == e,
        head == neck ==> !reverses(head, neck, d),
{
}

/// No-reverse: where the neck lies one step from the head in direction `d`,
/// the safety map does not allow `d`.
pub proof fn law_no_reverse(you: Battlesnake, board: Board, d: Direction)
    requires
        you.is_alive(),
        leads(you.head(), you.neck(), d),
    ensures
        reverses(you.head(), you.neck(), d),
        !safety_of(you, board).allows(d),
{
}

/// Boundary: where the head stands on the board, a direction that leads off
/// the board is not allowed.
pub proof fn law_boundary(you: Battlesnake, board: Board, d: Direction)
    requires
        you.is_alive(),
        board.holds(you.head().x as int, you.head().y as int),
        !board.holds(you.head().x + d.dx(), you.head().y + d.dy()),
    ensures
        !safety_of(you, board).allows(d),
{
}

/// Occupancy, own body: a direction that leads onto a segment of the snake
/// itself is not allowed.
pub proof fn law_own_segment_unsafe(you: Battlesnake, board: Board, d: Direction, segment: int)
    requires
        you.is_alive(),
        0 <= segment < you.body@.len(),
        leads(you.head(), you.body@[segment], d),
    ensures
        !safety_of(you, board).allows(d),
{
    assert(occupied_within(
        you.body@,
        you.body@.len() as int,
        you.head().x + d.dx(),
        you.head().y + d.dy(),
    ));
}

/// Occupancy, any snake of the board: a direction that leads onto a segment
/// of any snake, its head included, is not allowed.
pub proof fn law_occupied_cell_unsafe(
    you: Battlesnake,
    board: Board,
    d: Direction,
    snake: int,
    segment: int,
)
    requires
        you.is_alive(),
        0 <= snake < board.snakes@.len(),
        0 <= segment < board.snakes@[snake].body@.len(),
        leads(you.head(), board.snakes@[snake].body@[segment], d),
    ensures
        !safety_of(you, board).allows(d),
{
    let body = board.snakes@[snake].body@;
    assert(occupied_within(
        body,
        body.len() as int,
        you.head().x + d.dx(),
        you.head().y + d.dy(),
    ));
    assert(blocked_by(body, you.head(), d));
    assert(blocked_within(board.snakes@, board.snakes@.len() as int, you.head(), d));
}

/// Idempotence: two safety maps made from one snapshot are the same map.
pub proof fn law_filter_repeats(you: Battlesnake, board: Board, first: SafetyMap, second: SafetyMap)
    requires
        you.is_alive(),
        first == safety_of(you, board),
        second == safety_of(you, board),
    ensures
        first == second,
        forall|d: Direction| first.allows(d) == second.allows(d),
{
}

} // verus!
