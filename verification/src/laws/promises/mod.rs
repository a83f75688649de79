//! What clients can count on, said of the rows of the tables and the fields of
//! the replies.

pub mod active;
pub mod answers;
pub mod basics;
pub mod changes;
pub mod days;
pub mod events;
pub mod faults;
pub mod lists;
pub mod making;
pub mod people;
pub mod places;
