//! The output plugins: printing the system, and writing it as JSON.
use vstd::prelude::*;
use crate::plugin::{OutputPlugin, PluginError, PluginErrorV};

verus! {

/// Prints the system.
#[derive(Debug, Clone, Copy, PartialEq, Eq, Structural)]
pub struct DebugPlugin;

/// Writes the system as JSON, to the standard output or to a file.
#[derive(Debug, Clone, Copy, PartialEq, Eq, Structural)]
pub struct JSONPlugin;

impl OutputPlugin for DebugPlugin {
    fn get_name(&self) -> (r: String)
        ensures
            r@ == "debug"@,
    {
        "debug".to_owned()
    }
}

impl OutputPlugin for JSONPlugin {
    fn get_name(&self) -> (r: String)
        ensures
            r@ == "json"@,
    {
        "json".to_owned()
    }
}

impl DebugPlugin {
    pub fn new() -> (r: Box<DebugPlugin>)
        ensures
            *r == DebugPlugin,
    {
        Box::new(DebugPlugin)
    }
}

impl JSONPlugin {
    pub fn new() -> (r: Box<JSONPlugin>)
        ensures
            *r == JSONPlugin,
    {
        Box::new(JSONPlugin)
    }

    /// Where the JSON goes: the standard output when no argument is given,
    /// the file named by the one argument otherwise; more arguments are a
    /// mistake of use.
    pub fn destination(&self, args: &Vec<String>) -> (r: Result<Option<String>, PluginError>)
        ensures
            args@.len() == 0 ==> r matches Ok(None),
            args@.len() == 1 ==> (r matches Ok(Some(p)) && p@ == args@[0]@),
            args@.len() > 1 ==> (r matches Err(e) && e@ == PluginErrorV::Runtime("Usage: out json <filepath>"@)),
    {
        match args.len() {
            0 => Ok(None),
            1 => Ok(Some(args[0].clone())),
            _ => Err(PluginError::Runtime("Usage: out json <filepath>".to_owned())),
        }
    }
}

} // verus!
