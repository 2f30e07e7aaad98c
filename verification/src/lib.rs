//! A task runner's core: task definitions read from Kylefiles, Makefiles and
//! justfiles, task references, namespace discovery and the execution engine.

pub mod cli;
pub mod config;
pub mod namespace;
pub mod runner;
pub mod settings;
pub mod text;
