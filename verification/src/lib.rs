//! Spaces and their joint ownership.
//!
//! A space can be controlled by a set of owner accounts. Any change to that set, or to the
//! number of confirmations it asks for, is proposed by one owner and takes effect once enough
//! of the current owners have confirmed it. At most one proposal is pending for a space at
//! a time, and a proposal that is not confirmed in time expires.
//!
//! * [`owners`] holds the owner sets and the proposals: the two stores, the state they
//!   make up, the operations on it, and what holds of every state they can reach.
//! * [`spaces`] holds the registry of spaces.
//! * [`utils`] holds what both share.

pub mod owners;
pub mod spaces;
pub mod utils;
