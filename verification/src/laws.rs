//! What the operations are for, stated of their inputs and results.

pub mod communication;
pub mod content;
pub mod network;
pub mod packets;
pub mod reassembly;
pub mod sessions;
pub mod store;
pub mod texts;
pub mod values;
