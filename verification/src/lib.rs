//! A small transaction ledger: accounts keyed by client id, fed by an ordered
//! stream of deposits, withdrawals and dispute-protocol commands, producing
//! per-account balance snapshots.

pub mod account;
pub mod batch;
pub mod decode;
pub mod laws;
pub mod snapshot;
pub mod store;
pub mod tx;

use vstd::prelude::*;

verus! {

} // verus!
