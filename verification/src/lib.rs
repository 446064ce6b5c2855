//! The message-execution core of an actor virtual machine: a gas tracker,
//! an address resolver over a state tree, a block registry for the data
//! that crosses the sandbox boundary, and the call manager that ties them
//! together for one top-level message. Beside it stand the sector maps
//! of the miner actor: sectors by deadline and partition.

pub mod error;
pub mod gas;
pub mod address;
pub mod state_tree;
pub mod machine;
pub mod kernel;
pub mod manager;
pub mod laws;
pub mod sector_map;
