//! Owner sets of spaces and the proposals that change them.
//!
//! * [`types`]: the records, the errors and the events.
//! * [`owner_list`]: lists of owners without repetitions, and the list that a proposal
//!   results in.
//! * [`records`] and [`proposals`]: the store of owner sets and the store of proposals.
//! * [`state`]: what the two stores hold together, and what each operation does to it.
//! * [`laws`]: what holds of every state that the operations can reach.
//! * [`engine`]: the module that owns the stores and carries out the operations.

pub mod engine;
pub mod laws;
pub mod owner_list;
pub mod proposals;
pub mod records;
pub mod state;
pub mod types;
