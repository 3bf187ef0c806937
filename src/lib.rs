//! A section node's consistency core: names and prefixes of the XOR space,
//! section keys and their chain, the section tree, the wire format, the
//! anti-entropy engine, the command model and scheduler, and backpressure.
pub mod xor_space;
pub mod keys;
pub mod section_chain;
pub mod wire;
pub mod sap;
pub mod section_tree;
pub mod network_knowledge;
pub mod anti_entropy;
pub mod cmds;
pub mod scheduler;
pub mod back_pressure;
pub mod config;
pub mod storage_events;
pub mod client_builder;
