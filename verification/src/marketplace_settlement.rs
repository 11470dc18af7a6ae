//! The atomic settlement engine: escrowed swaps, royalty distribution, fees
//! and the transaction core that coordinates them.

pub mod atomic_swap;
pub mod error;
pub mod events;
pub mod fee_manager;
pub mod math_utils;
pub mod reentrancy_guard;
pub mod royalty_distributor;
pub mod settlement_core;
pub mod transaction_store;
pub mod transfer_plan;
pub mod types;
