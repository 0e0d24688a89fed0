//! An in-memory to-do list: a store of task records with unique,
//! monotonically increasing identifiers, together with the text-level
//! parsing and rendering that a line-oriented front end needs.

pub mod date;
pub mod menu;
pub mod priority;
pub mod render;
pub mod store;
pub mod task;
pub mod text;
