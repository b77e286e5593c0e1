//! A proxy that reads the RTT data of trace recorders through debug probes and
//! hands it to clients on the network.
//!
//! The library decides; it touches neither probes nor sockets. A [`manager::Manager`]
//! is told to do something and answers with an action. Its caller carries the
//! action out and hands back what came of it, until nothing is left to do. Below
//! the manager it is the same: a [`probe_state::ProbeState`] decides for one debug
//! probe, and an [`rtt_session::RttSession`] for one client's session on a core.
//!
//! What each of them does is stated over a model of it: `manager_model`,
//! `probe_model` and `session_model` say what every order and every answer leads
//! to. What follows from that over whole turns, shutdowns and requests stands in
//! the modules whose names end in `laws`.
use vstd::prelude::*;

pub mod admission_laws;
pub mod clock;
pub mod command;
pub mod connection_laws;
pub mod core_laws;
pub mod count_laws;
pub mod data_laws;
pub mod fault_laws;
pub mod manager;
pub mod manager_error;
pub mod manager_laws;
pub mod manager_model;
pub mod metrics;
pub mod plan_laws;
pub mod probe_id;
pub mod probe_laws;
pub mod probe_model;
pub mod probe_state;
pub mod progress_laws;
pub mod protocol;
pub mod rate_limiter;
pub mod request_laws;
pub mod rtt_session;
pub mod schedule_laws;
pub mod session_laws;
pub mod session_model;
pub mod session_types;
pub mod setup;
pub mod shared_state;
pub mod target;
pub mod text;
pub mod trc_command;
pub mod turn_laws;

verus! {

} // verus!
