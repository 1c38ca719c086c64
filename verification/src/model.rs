use vstd::prelude::*;

verus! {

/// A cell of the board, counted from the origin corner.
#[derive(Clone, Copy, Debug, PartialEq, Eq, Hash, Structural)]
pub struct Coord {
    pub x: i32,
    pub y: i32,
}

/// One of the four moves a snake can make in a turn.
#[derive(Clone, Copy, Debug, PartialEq, Eq, Hash, Structural)]
pub enum Direction {
    Up,
    Down,
    Left,
    Right,
}

impl Direction {
    /// Change of the x coordinate made by one step in this direction.
    pub open spec fn dx(self) -> int {
        match self {
            Direction::Left => -1,
            Direction::Right => 1,
            _ => 0,
        }
    }

    /// Change of the y coordinate made by one step in this direction.
    pub open spec fn dy(self) -> int {
        match self {
            Direction::Down => -1,
            Direction::Up => 1,
            _ => 0,
        }
    }

    /// The word by which the game protocol knows this direction.
    pub open spec fn word(self) -> Seq<char> {
        match self {
            Direction::Up => "up"@,
            Direction::Down => "down"@,
            Direction::Left => "left"@,
            Direction::Right => "right"@,
        }
    }

    /// The name of the direction in the game protocol.
    pub fn name(self) -> (s: &'static str)
        ensures
            s@ == self.word(),
    {
        match self {
            Direction::Up => "up",
            Direction::Down => "down",
            Direction::Left => "left",
            Direction::Right => "right",
        }
    }
}

/// Whether `to` lies one step from `from` in direction `d`.
pub open spec fn leads(from: Coord, to: Coord, d: Direction) -> bool {
    to.x == from.x + d.dx() && to.y == from.y + d.dy()
}

/// The direction of the single step that leads from `from` to `to`, if one
/// step does.
pub open spec fn heading(from: Coord, to: Coord) -> Option<Direction> {
    if leads(from, to, Direction::Left) {
        Some(Direction::Left)
    } else if leads(from, to, Direction::Right) {
        Some(Direction::Right)
    } else if leads(from, to, Direction::Down) {
        Some(Direction::Down)
    } else if leads(from, to, Direction::Up) {
        Some(Direction::Up)
    } else {
        None
    }
}

/// The direction in which `cell` lies one step from `head`, if it does.
pub fn direction_to(head: &Coord, cell: &Coord) -> (r: Option<Direction>)
    ensures
        r == heading(*head, *cell),
        forall|d: Direction| leads(*head, *cell, d) == (r == Some(d)),
{
    let hx: i64 = head.x as i64;
    let hy: i64 = head.y as i64;
    let cx: i64 = cell.x as i64;
    let cy: i64 = cell.y as i64;
    if cy == hy {
        if cx == hx - 1 {
            Some(Direction::Left)
        } else if cx == hx + 1 {
            Some(Direction::Right)
        } else {
            None
        }
    } else if cx == hx {
        if cy == hy - 1 {
            Some(Direction::Down)
        } else if cy == hy + 1 {
            Some(Direction::Up)
        } else {
            None
        }
    } else {
        None
    }
}

/// A snake, head first: `body[0]` is the head and `body[1]` the neck.
#[derive(Clone, Debug)]
pub struct Battlesnake {
    pub body: Vec<Coord>,
}

impl Battlesnake {
    /// A live snake has a head and a neck.
    pub open spec fn is_alive(self) -> bool {
        self.body@.len() >= 2
    }

    /// The first segment.
    pub open spec fn head(self) -> Coord
        recommends
            self.body@.len() >= 1,
    {
        self.body@[0]
    }

    /// The second segment.
    pub open spec fn neck(self) -> Coord
        recommends
            self.body@.len() >= 2,
    {
        self.body@[1]
    }
}

/// The snapshot of one turn: the board's size, the food on it and every
/// live snake, the agent's own among them.
#[derive(Clone, Debug)]
pub struct Board {
    pub width: i32,
    pub height: i32,
    pub food: Vec<Coord>,
    pub snakes: Vec<Battlesnake>,
}

impl Board {
    /// Whether a cell lies on the board.
    pub open spec fn holds(self, x: int, y: int) -> bool {
        0 <= x < self.width && 0 <= y < self.height
    }
}

/// What identifies a game to the server.
#[derive(Clone, Debug)]
pub struct Game {
    pub id: String,
    pub timeout: u32,
}

/// For each direction, whether moving there is legal this turn.
#[derive(Clone, Copy, Debug, PartialEq, Eq, Structural)]
pub struct SafetyMap {
    pub up: bool,
    pub down: bool,
    pub left: bool,
    pub right: bool,
}

impl SafetyMap {
    /// Whether the map marks direction `d` legal.
    pub open spec fn allows(self, d: Direction) -> bool {
        match d {
            Direction::Up => self.up,
            Direction::Down => self.down,
            Direction::Left => self.left,
            Direction::Right => self.right,
        }
    }

    /// The map in which every direction is still legal.
    pub fn all_safe() -> (m: SafetyMap)
        ensures
            forall|d: Direction| m.allows(d),
    {
        SafetyMap { up: true, down: true, left: true, right: true }
    }

    /// Whether direction `d` is legal.
    pub fn is_safe(&self, d: Direction) -> (b: bool)
        ensures
            b == self.allows(d),
    {
        match d {
            Direction::Up => self.up,
            Direction::Down => self.down,
            Direction::Left => self.left,
            Direction::Right => self.right,
        }
    }

    /// Marks one direction illegal and leaves the others as they were.
    pub fn forbid(&mut self, d: Direction)
        ensures
            !final(self).allows(d),
            forall|e: Direction| e != d ==> final(self).allows(e) == old(self).allows(e),
    {
        match d {
            Direction::Up => { self.up = false; },
            Direction::Down => { self.down = false; },
            Direction::Left => { self.left = false; },
            Direction::Right => { self.right = false; },
        }
    }
}

/// Why a turn ends without a move.
#[derive(Clone, Copy, Debug, PartialEq, Eq, Structural)]
pub enum EngineError {
    /// Every direction is illegal this turn.
    NoSafeMove,
    /// The search for a path to some food came back without one.
    PathfindingInternalError,
}

} // verus!
