//! Chemical elements and the catalog they are looked up in.
pub mod object;
pub mod service;
