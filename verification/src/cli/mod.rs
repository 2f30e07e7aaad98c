//! What the command line's subcommands compute.

pub mod init;
pub mod upgrade;
