//! Chemical elements, species and reactions, with a verified algebra for
//! combining two reactions into one net reaction.
//!
//! * [`atoms`] holds the element record and the fixed element catalog.
//! * [`species`] models a molecule as a list of (element, count) entries whose
//!   identity is the composition it denotes, whatever the order of the entries.
//! * [`reactions`] models one side of a reaction as a list of
//!   (species, coefficient) factors, merges two sides, and cancels species that
//!   stand on both sides of a combined reaction.
//! * [`notation`] holds what the written forms of these have in common.
pub mod atoms;
pub mod notation;
pub mod reactions;
pub mod species;
