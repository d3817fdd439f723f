//! A fixed-size, hard-edged Game of Life engine whose behaviour is stated in
//! contracts and proved.

pub mod decimal;
pub mod generation;
pub mod grid;
pub mod history;
pub mod render;
pub mod seeding;
pub mod simulation;
pub mod validation;
