//! Reusable interaction state for the launcher's widgets.

pub mod button;
pub mod focus_grid;
pub mod input;
pub mod log_view;
pub mod menu;
pub mod popup;
pub mod table;
pub mod tabs;
