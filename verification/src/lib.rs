//! Game characters and a market on which they change hands.
//!
//! A [`store::Store`] keeps two ledgers in stable memory, one of characters
//! and one of listings, and the counter that gives every record of either
//! its identifier. [`state`] says what each operation does to the ledgers,
//! [`laws`] what follows for every caller and every record, and [`codec`]
//! how a record is written down. A record that would be longer than its
//! ceiling is refused, so what memory holds stays readable.
//!
//! A store has the memory's regions to itself. On a canister every store
//! stands in the one stable memory, so a process there makes or opens one
//! store and no second.

pub mod codec;
pub mod laws;
pub mod model;
pub mod state;
pub mod storage;
pub mod store;
