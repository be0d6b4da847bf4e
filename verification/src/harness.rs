//! The durability harness: a seeded workload, the commit decisions of its store, the auditor
//! that scores a recovered store, and the verdicts of its trials.
pub mod audit;
pub mod commit_laws;
pub mod gate;
pub mod graph;
pub mod laws;
pub mod load_laws;
pub mod manifest;
pub mod orchestrate;
pub mod plan;
pub mod schema;
pub mod sidecar;
pub mod store;
pub mod trial_laws;
pub mod watch;
pub mod worker;
pub mod workload;
