//! A bounded broadcast channel. Every listening subscription reads through a
//! cursor of its own; a subscription that is parked holds nothing back and
//! costs a sender nothing.

pub mod bus;
pub mod laws;
mod ledger;
pub mod state;
