//! Plugins: where the programs of a system come from (`in`) and where the
//! checked system goes (`out`), chosen by name.
pub mod input;
pub mod output;

use vstd::prelude::*;
use crate::text::str_is;
use crate::plugin::input::{DebugPlugin as InDebug, FilesPlugin};
use crate::plugin::output::{DebugPlugin as OutDebug, JSONPlugin};

verus! {

/// What went wrong while running a plugin.
#[derive(Debug, PartialEq, Eq)]
pub enum PluginError {
    NotFound(String),
    Runtime(String),
    Unknown,
}

/// The model of a plugin error.
pub enum PluginErrorV {
    NotFound(Seq<char>),
    Runtime(Seq<char>),
    Unknown,
}

impl View for PluginError {
    type V = PluginErrorV;

    open spec fn view(&self) -> PluginErrorV {
        match self {
            PluginError::NotFound(s) => PluginErrorV::NotFound(s@),
            PluginError::Runtime(s) => PluginErrorV::Runtime(s@),
            PluginError::Unknown => PluginErrorV::Unknown,
        }
    }
}

/// What a plugin error says to the user.
pub open spec fn plugin_error_message(e: PluginErrorV) -> Seq<char> {
    match e {
        PluginErrorV::NotFound(n) => "Plugin \""@ + n + "\" not found"@,
        PluginErrorV::Runtime(m) => m,
        PluginErrorV::Unknown => "Occured unknown error at running plugin"@,
    }
}

impl PluginError {
    /// What the error says to the user.
    pub fn message(&self) -> (r: String)
        ensures
            r@ == plugin_error_message(self@),
    {
        match self {
            PluginError::NotFound(n) => {
                let mut s = String::from_str("Plugin \"");
                s.append(n.as_str());
                s.append("\" not found");
                s
            },
            PluginError::Runtime(m) => m.clone(),
            PluginError::Unknown => String::from_str("Occured unknown error at running plugin"),
        }
    }
}

/// A plugin that gives the programs of a system, each with its unit name.
pub trait InputPlugin {
    fn get_name(&self) -> String;
}

/// A plugin that takes a checked system somewhere.
pub trait OutputPlugin {
    fn get_name(&self) -> String;
}

/// The input plugins.
#[derive(Debug, Clone, Copy, PartialEq, Eq, Structural)]
pub enum InPlugin {
    Debug(InDebug),
    Files(FilesPlugin),
}

/// The output plugins.
#[derive(Debug, Clone, Copy, PartialEq, Eq, Structural)]
pub enum OutPlugin {
    Debug(OutDebug),
    Json(JSONPlugin),
}

pub open spec fn in_name(p: InPlugin) -> Seq<char> {
    match p {
        InPlugin::Debug(_) => "debug"@,
        InPlugin::Files(_) => "files"@,
    }
}

pub open spec fn out_name(p: OutPlugin) -> Seq<char> {
    match p {
        OutPlugin::Debug(_) => "debug"@,
        OutPlugin::Json(_) => "json"@,
    }
}

impl InPlugin {
    /// The name the plugin is chosen by.
    pub fn name(&self) -> (r: String)
        ensures
            r@ == in_name(*self),
    {
        match self {
            InPlugin::Debug(p) => p.get_name(),
            InPlugin::Files(p) => p.get_name(),
        }
    }
}

impl OutPlugin {
    /// The name the plugin is chosen by.
    pub fn name(&self) -> (r: String)
        ensures
            r@ == out_name(*self),
    {
        match self {
            OutPlugin::Debug(p) => p.get_name(),
            OutPlugin::Json(p) => p.get_name(),
        }
    }
}

/// The first input plugin from index `i` on named `name`.
pub open spec fn first_in(ps: Seq<InPlugin>, i: int, name: Seq<char>) -> Option<InPlugin>
    decreases ps.len() - i,
{
    if i < 0 || i >= ps.len() {
        None
    } else if in_name(ps[i]) == name {
        Some(ps[i])
    } else {
        first_in(ps, i + 1, name)
    }
}

/// The first output plugin from index `i` on named `name`.
pub open spec fn first_out(ps: Seq<OutPlugin>, i: int, name: Seq<char>) -> Option<OutPlugin>
    decreases ps.len() - i,
{
    if i < 0 || i >= ps.len() {
        None
    } else if out_name(ps[i]) == name {
        Some(ps[i])
    } else {
        first_out(ps, i + 1, name)
    }
}

/// The plugins that can be chosen.
pub struct PluginManager {
    in_plugins: Vec<InPlugin>,
    out_plugins: Vec<OutPlugin>,
}

impl View for PluginManager {
    type V = (Seq<InPlugin>, Seq<OutPlugin>);

    closed spec fn view(&self) -> (Seq<InPlugin>, Seq<OutPlugin>) {
        (self.in_plugins@, self.out_plugins@)
    }
}

impl PluginManager {
    /// The manager of the default plugins: `debug` and `files` to read,
    /// `debug` and `json` to write.
    pub fn new() -> (r: PluginManager)
        ensures
            r@.0 == seq![InPlugin::Debug(InDebug), InPlugin::Files(FilesPlugin)],
            r@.1 == seq![OutPlugin::Debug(OutDebug), OutPlugin::Json(JSONPlugin)],
    {
        let (in_plugins, out_plugins) = PluginManager::load_default_plugins();
        PluginManager { in_plugins, out_plugins }
    }

    fn load_default_plugins() -> (r: (Vec<InPlugin>, Vec<OutPlugin>))
        ensures
            r.0@ == seq![InPlugin::Debug(InDebug), InPlugin::Files(FilesPlugin)],
            r.1@ == seq![OutPlugin::Debug(OutDebug), OutPlugin::Json(JSONPlugin)],
    {
        let in_plugins = vec![InPlugin::Debug(InDebug), InPlugin::Files(FilesPlugin)];
        let out_plugins = vec![OutPlugin::Debug(OutDebug), OutPlugin::Json(JSONPlugin)];
        (in_plugins, out_plugins)
    }

    /// The input plugin named `name`.
    pub fn get_type_in(&self, name: &String) -> (r: Result<&InPlugin, PluginError>)
        ensures
            match first_in(self@.0, 0, name@) {
                Some(p) => r matches Ok(q) && *q == p,
                None => r matches Err(e) && e@ == PluginErrorV::NotFound(name@),
            },
    {
        let mut i: usize = 0;
        while i < self.in_plugins.len()
            invariant
                i <= self@.0.len(),
                self@.0 == self.in_plugins@,
                first_in(self@.0, 0, name@) == first_in(self@.0, i as int, name@),
            decreases self.in_plugins.len() - i,
        {
            let plugin = &self.in_plugins[i];
            if plugin.name() == *name {
                return Ok(plugin);
            }
            i = i + 1;
        }
        Err(PluginError::NotFound(name.clone()))
    }

    /// The output plugin named `name`.
    pub fn get_type_out(&self, name: &String) -> (r: Result<&OutPlugin, PluginError>)
        ensures
            match first_out(self@.1, 0, name@) {
                Some(p) => r matches Ok(q) && *q == p,
                None => r matches Err(e) && e@ == PluginErrorV::NotFound(name@),
            },
    {
        let mut i: usize = 0;
        while i < self.out_plugins.len()
            invariant
                i <= self@.1.len(),
                self@.1 == self.out_plugins@,
                first_out(self@.1, 0, name@) == first_out(self@.1, i as int, name@),
            decreases self.out_plugins.len() - i,
        {
            let plugin = &self.out_plugins[i];
            if plugin.name() == *name {
                return Ok(plugin);
            }
            i = i + 1;
        }
        Err(PluginError::NotFound(name.clone()))
    }
}

/// The input plugin found for a name is one of the plugins and has that
/// name; when none is found, no plugin from `i` on has it.
pub proof fn lemma_first_in_named(ps: Seq<InPlugin>, i: int, name: Seq<char>)
    requires
        0 <= i,
    ensures
        first_in(ps, i, name) matches Some(p) ==> ps.contains(p) && in_name(p) == name,
        first_in(ps, i, name) is None ==> forall|k: int| i <= k < ps.len() ==> in_name(#[trigger] ps[k]) != name,
    decreases ps.len() - i,
{
    if i < ps.len() {
        lemma_first_in_named(ps, i + 1, name);
    }
}

/// The output plugin found for a name is one of the plugins and has that
/// name; when none is found, no plugin from `i` on has it.
pub proof fn lemma_first_out_named(ps: Seq<OutPlugin>, i: int, name: Seq<char>)
    requires
        0 <= i,
    ensures
        first_out(ps, i, name) matches Some(p) ==> ps.contains(p) && out_name(p) == name,
        first_out(ps, i, name) is None ==> forall|k: int| i <= k < ps.len() ==> out_name(#[trigger] ps[k]) != name,
    decreases ps.len() - i,
{
    if i < ps.len() {
        lemma_first_out_named(ps, i + 1, name);
    }
}

} // verus!
