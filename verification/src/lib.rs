//! Settlement of peer-to-peer exchanges of non-fungible tokens against payment
//! tokens, together with the collection contracts that issue the tokens.
//!
//! Every operation is a function from the persistent records and the values
//! that the ledger supplies (the clock, the outcome of an asset transfer) to
//! the next records and the transfers that the host has to perform.

pub mod collection_factory;
pub mod host;
pub mod marketplace_settlement;
