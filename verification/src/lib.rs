//! Verified core of a terminal launcher for ComfyUI: text layout, settings
//! schemas, command-line construction, git output parsing and the focus /
//! selection state machines behind every screen.

pub mod app;
pub mod clipboard;
pub mod comfy_info;
pub mod config;
pub mod env;
pub mod geom;
pub mod git;
pub mod gpu;
pub mod layout;
pub mod log_bus;
pub mod paths;
pub mod pip;
pub mod process;
pub mod python;
pub mod registry;
pub mod schema;
pub mod screens;
pub mod strs;
pub mod text;
pub mod widgets;
