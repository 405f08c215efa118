//! A URL shortener: tracking tokens that bind a stored link to its creation
//! time, and the decisions that the HTTP handlers of the service make.

pub mod text;
pub mod object_id;
pub mod tokenizer;
pub mod store;
pub mod repository;
pub mod handler;
pub mod backend;
pub mod frontend;
