//! What holds of the checker and the evaluator on every tree.

pub mod arithmetic;
pub mod blocks;
pub mod typing;
pub mod variables;
