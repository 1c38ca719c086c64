use vstd::prelude::*;
use crate::model::{Battlesnake, Board, Direction, EngineError, Game};
use crate::safety::is_legal;
use crate::selector::{decide_move, is_decision};

verus! {

/// How a snake presents itself to the game server.
#[derive(Clone, Copy, Debug)]
pub struct Appearance {
    pub apiversion: &'static str,
    pub author: &'static str,
    pub color: &'static str,
    pub head: &'static str,
    pub tail: &'static str,
}

/// Called when the server asks who the snake is: the version of the
/// protocol that it speaks, and its looks.
pub fn info() -> (a: Appearance)
    ensures
        a.apiversion@ == "1"@,
        a.author@ == ""@,
        a.color@ == "#ffd700"@,
        a.head@ == "all-seeing"@,
        a.tail@ == "cosmic-horror"@,
{
    Appearance {
        apiversion: "1",
        author: "",
        color: "#ffd700",
        head: "all-seeing",
        tail: "cosmic-horror",
    }
}

/// Called when a game begins. The engine keeps nothing between turns, so
/// there is nothing to set up.
pub fn start(_game: &Game, _turn: &i32, _board: &Board, _you: &Battlesnake) {
}

/// Called when a game is over. There is nothing to take down.
pub fn end(_game: &Game, _turn: &i32, _board: &Board, _you: &Battlesnake) {
}

/// Called on every turn: the move to make.
pub fn get_move(_game: &Game, _turn: &i32, board: &Board, you: &Battlesnake) -> (r: Result<
    Direction,
    EngineError,
>)
    requires
        you.is_alive(),
    ensures
        is_decision(*you, *board, r),
        r matches Ok(d) ==> is_legal(*you, *board, d),
{
    decide_move(you, board)
}

} // verus!
