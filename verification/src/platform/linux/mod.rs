//! Linux-specific integrations: sched_ext scheduler detection, proc-connector events and
//! capabilities.

pub mod capabilities;
pub mod events;
pub mod scheduler;
pub mod wire;
