//! `tool` and `list`: what the commands that manage tools say.
use vstd::prelude::*;
use crate::text::string_views;

verus! {

/// `tool`: manages the tools.
#[derive(Debug, Clone, Copy, PartialEq, Eq, Structural)]
pub struct ToolCmd;

impl ToolCmd {
    /// What the command says.
    pub fn message(&self) -> (r: String)
        ensures
            r@ == "tool"@,
    {
        String::from_str("tool")
    }
}

/// `list`: lists the tools.
#[derive(Debug, Clone, Copy, PartialEq, Eq, Structural)]
pub struct ListCmd;

/// The tools, one line each: name, version and what it does.
pub open spec fn tool_list() -> Seq<Seq<char>> {
    seq![
        "* debug (v1.0.0) : Print a internal structure"@,
        "* json (v1.0.1) : Convert a internal structure into JSON"@,
        "* view (v0.1.0) : Graphically depict software design"@,
    ]
}

impl ListCmd {
    /// The lines the command shows.
    pub fn lines(&self) -> (r: Vec<String>)
        ensures
            string_views(r@) == tool_list(),
    {
        let r = vec![
            String::from_str("* debug (v1.0.0) : Print a internal structure"),
            String::from_str("* json (v1.0.1) : Convert a internal structure into JSON"),
            String::from_str("* view (v0.1.0) : Graphically depict software design"),
        ];
        assert(string_views(r@) =~= tool_list());
        r
    }
}

} // verus!
