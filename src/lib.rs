//! Shard lifecycle logic for a sharded gateway forwarder: the encoding of
//! forwarded frames, the per-shard worker state machine, and the spawn queue
//! that launches and relaunches workers.

pub mod forward;
pub mod session;
pub mod spawn_queue;
pub mod token;
pub mod worker;
