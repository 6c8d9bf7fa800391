//! A change-feed cursor protocol: a producer writes keyed integer records, a
//! consumer reads the changes made since its persisted cursor and advances the
//! cursor only after the batch has been applied downstream.

pub mod change;
pub mod cycle;
pub mod laws;
pub mod producer;
pub mod store;
