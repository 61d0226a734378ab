//! An authenticated counter: one record per owner, kept at an address derived
//! from the owner's key, initialized once and incremented only by its authority.
pub mod address;
pub mod counter;
pub mod key;
pub mod laws;
pub mod ledger;

pub use address::{COUNTER_SEED, PROGRAM_ID, derive_counter_address, program_id};
pub use counter::{Counter, CounterError, ErrorCode, Increment, Initialize};
pub use key::Key;
pub use ledger::{Ledger, increment, increment_with, initialize, initialize_with};
