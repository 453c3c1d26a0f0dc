//! A fixed-capacity whitelist registry: a map from participant identities to
//! allocation limits, stored in one statically sized byte record and mutated
//! only by authorized callers.

pub mod error;
pub mod le;
pub mod instruction;
pub mod whitelist_map;
pub mod state;
pub mod processor;

