//! `plugin`: what the command that manages plugins says.
use vstd::prelude::*;

verus! {

/// What to do with a plugin.
#[allow(non_camel_case_types)]
#[derive(Debug, Clone, Copy, PartialEq, Eq, Structural)]
pub enum PluginSub {
    add,
    remove,
    upgrade,
    info,
}

/// `plugin`: manages the plugins.
#[derive(Debug, Clone, Copy, PartialEq, Eq, Structural)]
pub struct PluginCmd {
    pub sub: PluginSub,
}

/// What the command says for each thing to do.
pub open spec fn plugin_message(sub: PluginSub) -> Seq<char> {
    match sub {
        PluginSub::add => "Plugin add"@,
        PluginSub::remove => "Plugin remove"@,
        PluginSub::upgrade => "Plugin upgrade"@,
        PluginSub::info => "Plugin info"@,
    }
}

impl PluginCmd {
    /// What the command says.
    pub fn message(&self) -> (r: String)
        ensures
            r@ == plugin_message(self.sub),
    {
        match self.sub {
            PluginSub::add => String::from_str("Plugin add"),
            PluginSub::remove => String::from_str("Plugin remove"),
            PluginSub::upgrade => String::from_str("Plugin upgrade"),
            PluginSub::info => String::from_str("Plugin info"),
        }
    }
}

} // verus!
