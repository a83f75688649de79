//! Events: making them, answering invitations, finishing and listing them.

pub mod active;
pub mod availability;
pub mod cancel;
pub mod create;
pub mod finish;
pub mod list;
pub mod load;
pub mod respond;
pub mod rules;
pub mod show;
