//! Building blocks for recording a Metal frame trace of a shader preset.
pub mod backend;
pub mod bundle;
pub mod capture;
pub mod cli;
pub mod config;
pub mod core_path;
pub mod display;
pub mod fs;
pub mod hdr;
pub mod hosted;
pub mod image;
pub mod image_core;
pub mod image_file;
pub mod interrupt;
pub mod launch;
pub mod layout;
pub mod path;
pub mod preset;
pub mod retroarch;
pub mod state;
pub mod text;
pub mod vendor;
