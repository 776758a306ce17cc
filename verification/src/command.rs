//! Commands of the command line that read a mode, a name and arguments, and
//! the command that manages plugins.
pub mod cli;
pub mod plugin;
