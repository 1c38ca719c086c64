use vstd::prelude::*;
use crate::model::{Battlesnake, Board, Direction, EngineError, SafetyMap};
use crate::pathfinder::{recommend, recommendation};
use crate::safety::{is_legal, safety_filter};

verus! {

/// The direction `d` as a list: of itself where it is allowed, else empty.
pub open spec fn listed(allowed: bool, d: Direction) -> Seq<Direction> {
    if allowed {
        seq![d]
    } else {
        Seq::empty()
    }
}

/// The directions that a safety map allows, in the order up, down, left,
/// right.
pub open spec fn safe_moves(map: SafetyMap) -> Seq<Direction> {
    listed(map.up, Direction::Up) + listed(map.down, Direction::Down) + listed(
        map.left,
        Direction::Left,
    ) + listed(map.right, Direction::Right)
}

/// A direction is among the safe moves where the map allows it, and only
/// there.
pub proof fn lemma_safe_moves_are_allowed(map: SafetyMap, d: Direction)
    ensures
        safe_moves(map).contains(d) == map.allows(d),
        (safe_moves(map).len() == 0) == (forall|e: Direction| !map.allows(e)),
{
    let up = listed(map.up, Direction::Up);
    let down = listed(map.down, Direction::Down);
    let left = listed(map.left, Direction::Left);
    let right = listed(map.right, Direction::Right);
    let all = safe_moves(map);
    if map.allows(d) {
        let at: int = match d {
            Direction::Up => 0,
            Direction::Down => up.len() as int,
            Direction::Left => (up.len() + down.len()) as int,
            Direction::Right => (up.len() + down.len() + left.len()) as int,
        };
        assert(all[at] == d);
        assert(all.len() > 0);
    } else {
        assert forall|i: int| 0 <= i < all.len() implies all[i] != d by {}
    }
    if all.len() == 0 {
        assert forall|e: Direction| !map.allows(e) by {
            match e {
                Direction::Up => assert(up.len() == 0),
                Direction::Down => assert(down.len() == 0),
                Direction::Left => assert(left.len() == 0),
                Direction::Right => assert(right.len() == 0),
            }
        }
    } else if map.up {
        assert(map.allows(Direction::Up));
    } else if map.down {
        assert(map.allows(Direction::Down));
    } else if map.left {
        assert(map.allows(Direction::Left));
    } else {
        assert(map.allows(Direction::Right));
    }
}

fn push_if(moves: &mut Vec<Direction>, allowed: bool, d: Direction)
    ensures
        final(moves)@ == old(moves)@ + listed(allowed, d),
{
    if allowed {
        moves.push(d);
    }
    assert(moves@ =~= old(moves)@ + listed(allowed, d));
}

/// The directions that the map allows.
pub fn safe_directions(map: &SafetyMap) -> (moves: Vec<Direction>)
    ensures
        moves@ == safe_moves(*map),
        forall|d: Direction| moves@.contains(d) == map.allows(d),
{
    let mut moves: Vec<Direction> = Vec::new();
    push_if(&mut moves, map.up, Direction::Up);
    push_if(&mut moves, map.down, Direction::Down);
    push_if(&mut moves, map.left, Direction::Left);
    push_if(&mut moves, map.right, Direction::Right);
    assert(moves@ =~= safe_moves(*map));
    proof {
        assert forall|d: Direction| moves@.contains(d) == map.allows(d) by {
            lemma_safe_moves_are_allowed(*map, d);
        }
    }
    moves
}

/// Picks one of the moves with `rand::seq::SliceRandom::choose` and the
/// thread's random generator. Not proved: that nothing is picked from an
/// empty list, and that what is picked from another is one of its items.
/// Which item it is depends on chance.
#[verifier::external_body]
fn choose_among(moves: &Vec<Direction>) -> (r: Option<Direction>)
    ensures
        moves@.len() == 0 ==> r is None,
        moves@.len() > 0 ==> r is Some && moves@.contains(r.unwrap()),
{
    rand::seq::SliceRandom::choose(moves.as_slice(), &mut rand::thread_rng()).copied()
}

/// The move that the selector makes of a safety map, the pathfinder's
/// recommendation and the direction that chance picked: the recommendation
/// where it is allowed; else an error where nothing is allowed; else the
/// picked direction where it is allowed, and the first allowed direction
/// where it is not.
pub open spec fn selection(
    map: SafetyMap,
    recommended: Option<Direction>,
    picked: Option<Direction>,
) -> Result<Direction, EngineError> {
    if recommended is Some && map.allows(recommended.unwrap()) {
        Ok(recommended.unwrap())
    } else if safe_moves(map).len() == 0 {
        Err(EngineError::NoSafeMove)
    } else if picked is Some && map.allows(picked.unwrap()) {
        Ok(picked.unwrap())
    } else {
        Ok(safe_moves(map)[0])
    }
}

/// The move selector.
pub fn select_move(map: &SafetyMap, recommended: Option<Direction>, picked: Option<Direction>) -> (r:
    Result<Direction, EngineError>)
    ensures
        r == selection(*map, recommended, picked),
        r matches Ok(d) ==> map.allows(d),
        r matches Err(e) ==> e == EngineError::NoSafeMove,
        r is Err == (forall|d: Direction| !map.allows(d)),
{
    proof {
        assert forall|d: Direction| safe_moves(*map).contains(d) == map.allows(d) by {
            lemma_safe_moves_are_allowed(*map, d);
        }
        lemma_safe_moves_are_allowed(*map, Direction::Up);
    }
    match recommended {
        Some(d) => {
            if map.is_safe(d) {
                return Ok(d);
            }
        },
        None => {},
    }
    let moves = safe_directions(map);
    if moves.len() == 0 {
        return Err(EngineError::NoSafeMove);
    }
    assert(moves@.contains(moves@[0]));
    match picked {
        Some(d) => {
            if map.is_safe(d) {
                return Ok(d);
            }
        },
        None => {},
    }
    Ok(moves[0])
}

/// What a turn's decision may be: the error of the pathfinder where it has
/// one; else the recommended direction where it is legal; else an error
/// where no direction is legal, and some legal direction where one is.
pub open spec fn is_decision(you: Battlesnake, board: Board, r: Result<Direction, EngineError>) -> bool {
    match recommendation(you.head(), board.food@) {
        Err(e) => r == Err::<Direction, EngineError>(e),
        Ok(recommended) => {
            if recommended is Some && is_legal(you, board, recommended.unwrap()) {
                r == Ok::<Direction, EngineError>(recommended.unwrap())
            } else if forall|d: Direction| !is_legal(you, board, d) {
                r == Err::<Direction, EngineError>(EngineError::NoSafeMove)
            } else {
                r is Ok && is_legal(you, board, r.unwrap())
            }
        },
    }
}

/// Decides the move of one turn: filters the directions, asks the
/// pathfinder, and lets the selector choose, with a direction picked by
/// chance among the legal ones to fall back on.
pub fn decide_move(you: &Battlesnake, board: &Board) -> (r: Result<Direction, EngineError>)
    requires
        you.is_alive(),
    ensures
        is_decision(*you, *board, r),
        r matches Ok(d) ==> is_legal(*you, *board, d),
{
    let map = safety_filter(you, board);
    let head = you.body[0];
    let recommended = match recommend(&head, &board.food) {
        Ok(found) => found,
        Err(e) => {
            return Err(e);
        },
    };
    let moves = safe_directions(&map);
    let picked = choose_among(&moves);
    select_move(&map, recommended, picked)
}

} // verus!
