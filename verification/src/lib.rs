//! Splits a fixed number of players into rooms of bounded size.
//!
//! A plan is an ordered list of [`RoomDimension`] values, each standing for a
//! number of rooms of one capacity. Seven strategies build such a plan from a
//! minimum room size, a maximum room size and the number of players; an
//! eighth tries several of them in a fixed order. Every executable function
//! is verified against a mathematical description of its result.

pub mod guarantees;
pub mod mode;
pub mod model;
pub mod planner;
pub mod room;
pub mod seating;
pub mod shuffle;
pub mod strategies;

pub use mode::BalanceMode;
pub use planner::{automatic, plan_rooms, run_strategy, PlanError};
pub use room::RoomDimension;
pub use seating::assign_rooms;
pub use shuffle::{draw, shuffle};
pub use strategies::{
    fn_even_split, fn_full_balance, fn_full_rooms, fn_full_tail_balance, fn_lots_of_matches,
    fn_minimum_fill, fn_single_round,
};
