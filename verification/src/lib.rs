pub mod chain;
pub mod classes;
pub mod continuity;
pub mod felt;
pub mod poller;
pub mod rpc_block;
