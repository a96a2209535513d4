//! Chemical reactions: the two sides of an equation, and how two reactions
//! combine into one.
pub mod algebra;
pub mod constants;
pub mod object;
