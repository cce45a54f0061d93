//! What the node keeps: the vault, its logs and journals, and its queues.
pub mod kademlia;
pub mod outbound;
pub mod vault;
