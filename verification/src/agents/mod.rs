//! Agents: named profiles with overrides, and the routes that pick one of
//! them for a request.
pub mod fields;
pub mod routes;
pub mod catalog;
pub mod laws;
pub mod runner;
pub mod skills;
