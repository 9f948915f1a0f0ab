//! Screen state and the decisions each screen makes on input.

pub mod main_launcher;
pub mod settings_view;
pub mod version_mgmt;
pub mod comfy_settings;
pub mod launcher_settings;
pub mod launcher_logs;
pub mod tutorial;
