//! `exec`: runs a tool on a saved system.
use vstd::prelude::*;
use crate::text::{str_is, string_views};

verus! {

/// The tools that can be run.
#[derive(Debug, Clone, Copy, PartialEq, Eq, Structural)]
pub enum Tool {
    Debug,
    Json,
}

/// Why a tool could not be run.
#[derive(Debug, PartialEq, Eq)]
pub enum ExecError {
    ToolNotFound(String),
}

/// What the error says to the user.
pub open spec fn exec_error_message(name: Seq<char>) -> Seq<char> {
    "Tool \""@ + name + "\" not found"@
}

impl ExecError {
    /// What the error says to the user.
    pub fn message(&self) -> (r: String)
        ensures
            match self {
                ExecError::ToolNotFound(n) => r@ == exec_error_message(n@),
            },
    {
        match self {
            ExecError::ToolNotFound(n) => {
                let mut s = String::from_str("Tool \"");
                s.append(n.as_str());
                s.append("\" not found");
                s
            },
        }
    }
}

/// The tool to run, its arguments, and the file the system is saved in.
pub struct ExecCmd {
    pub tool: String,
    pub args: Vec<String>,
    pub input: String,
}

impl ExecCmd {
    pub fn new(tool: String, args: Vec<String>, input: String) -> (r: ExecCmd)
        ensures
            r.tool@ == tool@,
            string_views(r.args@) == string_views(args@),
            r.input@ == input@,
    {
        ExecCmd { tool, args, input }
    }

    /// The tool named on the command line: `debug` or `json`.
    pub fn tool_to_run(&self) -> (r: Result<Tool, ExecError>)
        ensures
            self.tool@ == "debug"@ ==> r == Ok::<Tool, ExecError>(Tool::Debug),
            self.tool@ == "json"@ ==> r == Ok::<Tool, ExecError>(Tool::Json),
            self.tool@ != "debug"@ && self.tool@ != "json"@ ==> (r matches Err(ExecError::ToolNotFound(n)) && n@ == self.tool@),
    {
        proof {
            reveal_strlit("debug");
            reveal_strlit("json");
            assert("debug"@.len() != "json"@.len());
        }
        if str_is(self.tool.as_str(), "debug") {
            Ok(Tool::Debug)
        } else if str_is(self.tool.as_str(), "json") {
            Ok(Tool::Json)
        } else {
            Err(ExecError::ToolNotFound(self.tool.clone()))
        }
    }
}

} // verus!
