//! Block streaming with chain-reorganisation handling, the control channel
//! that acknowledges processed blocks, and the subgraph definition writer.

pub mod block_stream;
pub mod builder;
pub mod controller;
pub mod definitions;
pub mod entity;
pub mod ethereum;
pub mod history;
pub mod laws;
pub mod manifest;
pub mod memory_store;
pub mod model;
pub mod reorg;
pub mod retry;
pub mod server;
pub mod text;
pub mod types;
