//! The managers that answer on the bus.

pub mod deck;
pub mod root;
pub mod user;
