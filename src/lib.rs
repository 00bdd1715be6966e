//! Guild Wars 2 World-vs-World matchup snapshots: the snapshot model, the
//! persistence contract with its upsert protocol, the storage adapters' own
//! logic and the scheduled scrape cycle.

pub mod timestamp;
pub mod model;
pub mod order;
pub mod persistence;
pub mod laws;
pub mod filesystem;
pub mod keyvalue;
pub mod relational;
pub mod pipeline;
