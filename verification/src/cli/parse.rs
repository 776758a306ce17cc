//! `parse`: checks the programs found for the patterns as one system, to be
//! saved in the output file.
use vstd::prelude::*;
use crate::lang::{check_programs, checked_all, program_views};
use crate::lang::error::PResult;
use crate::lang::check::resolve::rv;
use crate::lang::structure::SysDCSystem;
use crate::lang::token::max_text_len;
use crate::text::string_views;

verus! {

/// The patterns of the files to read, and the file to save the system in.
pub struct ParseCmd {
    pub input: Vec<String>,
    pub output: String,
}

impl ParseCmd {
    pub fn new(input: Vec<String>, output: String) -> (r: ParseCmd)
        ensures
            string_views(r.input@) == string_views(input@),
            r.output@ == output@,
    {
        ParseCmd { input, output }
    }

    /// Checks the files read for the patterns, each given with its file
    /// name, as one system.
    pub fn run(&self, files: &Vec<(String, String)>) -> (r: PResult<SysDCSystem>)
        requires
            forall|k: int| 0 <= k < files@.len() ==> (#[trigger] files@[k]).1@.len() <= max_text_len(),
        ensures
            rv(r) == checked_all(program_views(files@)),
    {
        check_programs(files)
    }
}

} // verus!
