//! A single-user task list: a task entity with derived presentation logic and
//! an in-memory task table with create, list, update, complete, delete and
//! lookup operations. Due dates are parsed and rendered through chrono; all
//! table and validation logic is verified.

pub mod commands;
pub mod dates;
pub mod errors;
pub mod models;
pub mod numfmt;
pub mod store;
