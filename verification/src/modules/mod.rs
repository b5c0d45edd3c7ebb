//! The parts of the bar: each keeps its own state.

pub mod airpods;
pub mod clock;
pub mod cpu_usage;
pub mod devices;
pub mod notification_control;
pub mod notification_laws;
pub mod notification_request_laws;
pub mod notification_store;
pub mod notifications;
pub mod system_controls;
pub mod workspaces;
