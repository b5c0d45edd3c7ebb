//! What the shell makes of the compositor: windows, workspaces, outputs and
//! installed applications.

pub mod client;
pub mod display;
pub mod events;
pub mod icons;
pub mod jump_list;
pub mod types;
pub mod worker;
