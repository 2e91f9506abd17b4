//! Verified core of the AstroFetch terminal renderer: deterministic seeds and
//! hashes, display planning, layout composition, ANSI line building, shell
//! startup-block editing, and the decisions of the animated intro.

pub mod seed;
pub mod hash;
pub mod topology;
pub mod text;
pub mod terminal;
pub mod error;
pub mod setup_shell;
pub mod cli;
pub mod display_plan;
pub mod layout;
pub mod color;
pub mod ansi;
pub mod engine;
pub mod render;
pub mod starfield;
pub mod animation;
pub mod app;
