//! The decision logic of a sharded proof-of-work node: which shard it serves,
//! how its parameters settle its configuration, when it restarts on a
//! scale-out, the difficulty of the next block, and what its mining worker does.

pub mod decimal;
pub mod digest;
pub mod wide;
pub mod shard_info;
pub mod restarter;
pub mod difficulty;
pub mod worker;
pub mod custom_param;
pub mod switch_config;
pub mod sharding;
pub mod inherent;
