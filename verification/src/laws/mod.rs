//! What whole requests do, from the first question to the reply.

pub mod accepting;
pub mod availability;
pub mod befriending;
pub mod calendars;
pub mod canceling;
pub mod comparing;
pub mod consistency;
pub mod creating;
pub mod declining;
pub mod ending;
pub mod facts;
pub mod finishing;
pub mod listing;
pub mod profiles;
pub mod promises;
pub mod reading;
pub mod sequences;
pub mod sparing;
pub mod sweeping;
pub mod undoing;
pub mod viewing;
pub mod wishing;
