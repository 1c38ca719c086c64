//! The turn-decision engine of a snake on a rectangular board: which of the
//! four directions are legal this turn, which one starts the shortest path
//! to the nearest food, and which one to take.

pub mod model;
pub mod pathfinder;
pub mod safety;
pub mod selector;
pub mod service;
