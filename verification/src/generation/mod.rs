//! Rendering of the output files from the embedded templates.

pub mod artifact;
pub mod controller;
pub mod handler;
pub mod plan;
pub mod renderer;
pub mod route;
