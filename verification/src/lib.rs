//! A deterministic run kernel: identities, the mutation funnel and the rules behind it,
//! provider stream normalization, the adapter-facing protocol, and the durability harness.
pub mod cancel;
pub mod effect;
pub mod error;
pub mod funnel;
pub mod graph;
pub mod harness;
pub mod ids;
pub mod json;
pub mod names;
pub mod protocol;
pub mod provider;
pub mod store;
pub mod table;
pub mod text;
