//! A four-option vote tally kept in a caller-owned storage region.
//!
//! One call of [`process_instruction`] checks who owns the region, loads the
//! tally stored in it (or starts a new one in an empty region), records at
//! most one vote, and writes the tally back in a fixed 33-byte layout. Every
//! refusal leaves the region as it was.

pub mod error;
pub mod instruction;
pub mod processor;
pub mod region;
pub mod state;
pub mod wire;

pub use crate::error::Failure;
pub use crate::instruction::VoteInstruction;
pub use crate::processor::process_instruction;
pub use crate::region::{Identity, StorageRegion};
pub use crate::state::VotingAccount;
