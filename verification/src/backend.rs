//! The alias-based shortener: a link is stored under a given alias and
//! looked up by it.

pub mod handler;
pub mod repository;
