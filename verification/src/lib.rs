//! The reconciliation engine of a node agent, as a state machine: per-pod
//! serialized dispatch of watch events, bounded failure reporting, node
//! liveness, and fail-fast supervision.
//!
//! The engine does no I/O. [`Kubelet`] takes in what happened
//! ([`Input`]) and answers with what is to be done ([`Action`]); whoever
//! drives it performs the actions and reports back. Its parts can be used
//! on their own: [`queue::QueueDispatcher`], [`reporter::ErrorReporter`]
//! and [`node::NodeLifecycle`].
//!
//! Every type has a view, a plain mathematical value, and every function
//! says what it does to the views. What follows from that for whole runs
//! is proved in [`guarantees`] for the dispatcher with its channel, and in
//! [`runs`] for the agent.

pub mod guarantees;
pub mod kubelet;
pub mod node;
pub mod pipeline;
pub mod pod;
pub mod queue;
pub mod reporter;
pub mod runs;
pub mod sequence;
pub mod status;
pub mod watch;

pub use crate::kubelet::{Action, AgentState, Config, Input, Kubelet, StartError, Task};
