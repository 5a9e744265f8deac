//! Coordination of a fleet of elevator cars: each car's request ledger and
//! state machine, the buffer that tracks hall calls until the coordinator
//! confirms them, the coordinator's bookkeeping, and the standby that takes
//! over when a primary falls silent.

pub mod call;
pub mod direction;
pub mod request;
pub mod ledger;
pub mod request_collection;
pub mod requests;
pub mod elevator_status;
pub mod elevator_behaviour;
pub mod request_buffer;
pub mod master_message;
pub mod elevator_message;
pub mod coordinator;
pub mod replication;
pub mod timer;
pub mod config;
pub mod scan_run;
