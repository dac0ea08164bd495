//! Data management for a node of a structured peer-to-peer overlay: which peers hold
//! replicas of which data, how requests are answered and relayed, and how the replica
//! table is repaired after churn.
pub mod types;
pub mod name_map;
pub mod refresh;
pub mod cache;
pub mod model;
pub mod seqs;
pub mod node;
