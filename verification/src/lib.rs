//! Device communication and state reconciliation for a pair of serial
//! temperature-control modules.
//!
//! The crate holds the decisions of the system as verified functions over
//! plain values: the worker's state machine, the owner's session bookkeeping,
//! setpoint gating, telemetry parsing and the bounded message log. Threads,
//! channels and the serial link itself belong to the program around it.

pub mod text;
pub mod esp_comm;
pub mod worker;
pub mod worker_laws;
pub mod log;
pub mod telemetry;
pub mod session;
pub mod osc;
pub mod app;
pub mod session_laws;
