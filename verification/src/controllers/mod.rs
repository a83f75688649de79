//! The requests that a client can make, one machine each.

pub mod calendar_controller;
pub mod dates;
pub mod event_controller;
pub mod friends;
pub mod friendship_controller;
pub mod models;
pub mod users_controller;
pub mod wish_place_controller;
