//! Randomised starting setup for a game of Scythe: which faction and which
//! player mat each player gets, under the rule that certain faction/mat
//! pairs never go to the same player.

pub mod bases;
pub mod catalog;
pub mod engine;
pub mod error;
pub mod picker;
pub mod randomizer;
pub mod rules;
pub mod seating;
pub mod setup;
