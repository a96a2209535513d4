//! Chemical species: molecules as lists of (element, count) entries.
pub mod constants;
pub mod object;
