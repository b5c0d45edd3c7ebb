//! The logic of a Hyprland desktop shell: everything the shell decides or
//! computes, apart from drawing and from talking to the system.

pub mod text;
pub mod text_laws;
pub mod theme;
pub mod tui_device_control_center;
pub mod wallpaper;
pub mod airpods_popover;
pub mod app;
pub mod bar;
pub mod bytes;
pub mod calendar;
pub mod clipboard;
pub mod clipboard_laws;
pub mod clipboard_panel;
pub mod config;
pub mod device_control_center;
pub mod display_settings;
pub mod hyprland;
pub mod memory_usage;
pub mod modules;
pub mod network_popover;
pub mod notification_popup;
pub mod notification_tray;
pub mod paths;
pub mod routes;
pub mod screenshot;
pub mod seqs;
pub mod views;
