//! The rules of a small social planner: friends, single-day events, busy days
//! and wish places.
//!
//! Every request is a machine that asks a database one question at a time and
//! decides, from each answer, what to ask next or what to reply.

pub mod controllers;
pub mod entities;
pub mod laws;
pub mod machine;
pub mod model;
pub mod pattern;
pub mod refusal;
pub mod store;
pub mod text;
pub mod time;
