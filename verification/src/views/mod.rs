//! What the surfaces of the shell show: their rows, labels and switches, in
//! order.

pub mod bar_view;
pub mod center_view;
pub mod popover_view;
pub mod tray_view;
