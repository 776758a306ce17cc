//! The command line: the interactive mode, `parse`, `exec` and the tool
//! commands. Reading files and lines, printing and (de)serialising are left
//! to the program that uses the library; what is decided on the way is here.
pub mod interactive;
pub mod parse;
pub mod exec;
pub mod tool;

use vstd::prelude::*;
use crate::cli::exec::ExecCmd;
use crate::cli::interactive::InteractiveCmd;
use crate::cli::parse::ParseCmd;
use crate::cli::tool::{ListCmd, ToolCmd};
use crate::command::cli::CliCmd;
use crate::command::plugin::PluginCmd;

verus! {

/// The command line: one subcommand.
pub struct App {
    pub sub: AppSub,
}

/// The subcommands.
#[allow(non_camel_case_types)]
pub enum AppSub {
    parse(ParseCmd),
    exec(ExecCmd),
    tool(ToolCmd),
    list(ListCmd),
    plugin(PluginCmd),
    interactive(InteractiveCmd),
    cli(CliCmd),
}

} // verus!
