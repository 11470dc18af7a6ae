//! Collections of non-fungible tokens and the factory that registers them.

pub mod collection;
pub mod error;
pub mod events;
pub mod factory;
pub mod types;
