//! Asset mirrors: catalog types, shard routing and source arbitration.

pub mod client;
pub mod client_laws;
pub mod error;
pub mod index;
pub mod name_map;
pub mod race;
pub mod race_laws;
pub mod registry;
pub mod registry_laws;
pub mod source;
