//! Relay core of a queue bridge: it pulls per-topic message streams from
//! remote coordinators into locally durable queues and reports each topic's
//! backlog ("lag") back, so the coordinators can balance traffic.
//!
//! [`registry`] holds the shared map from topic name to the local durable
//! write handle, the single point of mutation on the write path.
//! [`worker`] is the control logic of one subscribe worker: which call to
//! make next and how to react to its outcome, including backoff and retry.

pub mod registry;
pub mod worker;
