//! An append-only, per-recipient document registry whose records live at
//! addresses derived from seeds, with the rules that validate and create them.

pub mod address;
pub mod error;
pub mod bytes;
pub mod state;
pub mod instruction;
pub mod account;
pub mod processor;
