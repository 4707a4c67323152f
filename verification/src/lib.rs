//! Commitments to off-chain payloads and the permanent key-value store of a node.

pub mod db;
pub mod perma_storage;
pub mod poa;
pub mod rpc;
pub mod rpc_api;
pub mod transaction_data;
