//! The input plugins: a fixed program for trying things out, and the files
//! that match the patterns given.
use vstd::prelude::*;
use crate::plugin::{InputPlugin, PluginError, PluginErrorV};
use crate::lang::check::define::{split_name, head_of};

verus! {

/// Gives one fixed program, the unit `debug`.
#[derive(Debug, Clone, Copy, PartialEq, Eq, Structural)]
pub struct DebugPlugin;

/// Gives the programs of the files that match the patterns.
#[derive(Debug, Clone, Copy, PartialEq, Eq, Structural)]
pub struct FilesPlugin;

impl InputPlugin for DebugPlugin {
    fn get_name(&self) -> (r: String)
        ensures
            r@ == "debug"@,
    {
        "debug".to_owned()
    }
}

impl InputPlugin for FilesPlugin {
    fn get_name(&self) -> (r: String)
        ensures
            r@ == "files"@,
    {
        "files".to_owned()
    }
}

/// The program the debug plugin gives.
pub open spec fn debug_program() -> Seq<char> {
    "
            data Box {
                x: i32,
                y: i32,
                w: i32,
                h: i32
            }

            module BoxModule {
                new(x: i32, y: i32, w: i32, h: i32) -> Box {
                    @return box

                    @spawn box: Box {
                        use x, y, w, h;
                    }
                }

                move(box: Box, dx: i32, dy: i32) -> Box {
                    @return movedBox

                    @spawn movedBox: Box {
                        use box.x, box.y;
                        use dx, dy;
                    }
                }

                changeSize(box: Box, w: i32, h: i32) -> Box {
                    @return changedBox

                    @spawn changedBox: Box {
                        use box.w, box.h;
                        use w, h;
                    }
                }
            }
        "@
}

impl DebugPlugin {
    pub fn new() -> (r: Box<DebugPlugin>)
        ensures
            *r == DebugPlugin,
    {
        Box::new(DebugPlugin)
    }

    /// The unit `debug` and its program; the arguments are not used.
    pub fn run(&self, args: Vec<String>) -> (r: Result<Vec<(String, String)>, PluginError>)
        ensures
            r matches Ok(v) && v@.len() == 1 && v@[0].0@ == "debug"@ && v@[0].1@ == debug_program(),
    {
        let unit_name = "debug".to_owned();
        let program = "
            data Box {
                x: i32,
                y: i32,
                w: i32,
                h: i32
            }

            module BoxModule {
                new(x: i32, y: i32, w: i32, h: i32) -> Box {
                    @return box

                    @spawn box: Box {
                        use x, y, w, h;
                    }
                }

                move(box: Box, dx: i32, dy: i32) -> Box {
                    @return movedBox

                    @spawn movedBox: Box {
                        use box.x, box.y;
                        use dx, dy;
                    }
                }

                changeSize(box: Box, w: i32, h: i32) -> Box {
                    @return changedBox

                    @spawn changedBox: Box {
                        use box.w, box.h;
                        use w, h;
                    }
                }
            }
        ".to_owned();
        let mut v: Vec<(String, String)> = Vec::new();
        v.push((unit_name, program));
        Ok(v)
    }
}

impl FilesPlugin {
    pub fn new() -> (r: Box<FilesPlugin>)
        ensures
            *r == FilesPlugin,
    {
        Box::new(FilesPlugin)
    }

    /// The unit name of a file: its name up to the first `.`.
    pub fn unit_name(file_name: &String) -> (r: String)
        ensures
            r@ == head_of(file_name@),
    {
        let (head, _) = split_name(file_name);
        head
    }

    /// The programs of the files found for the patterns `args`, each named
    /// by its unit name; the patterns must not be empty.
    pub fn collect(&self, args: &Vec<String>, files: Vec<(String, String)>) -> (r: Result<Vec<(String, String)>, PluginError>)
        ensures
            args@.len() == 0 <==> r is Err,
            r matches Err(e) ==> e@ == PluginErrorV::Runtime("Argument list is empty"@),
            r matches Ok(v) ==> v@.len() == files@.len() && forall|k: int| 0 <= k < v@.len() ==> {
                &&& #[trigger] v@[k].0@ == head_of(files@[k].0@)
                &&& v@[k].1@ == files@[k].1@
            },
    {
        if args.len() == 0 {
            return Err(PluginError::Runtime("Argument list is empty".to_owned()));
        }
        let mut programs: Vec<(String, String)> = Vec::new();
        let mut i: usize = 0;
        while i < files.len()
            invariant
                i <= files@.len(),
                programs@.len() == i,
                forall|k: int| 0 <= k < i ==> {
                    &&& #[trigger] programs@[k].0@ == head_of(files@[k].0@)
                    &&& programs@[k].1@ == files@[k].1@
                },
            decreases files.len() - i,
        {
            let (file_name, program) = &files[i];
            programs.push((FilesPlugin::unit_name(file_name), program.clone()));
            i = i + 1;
        }
        Ok(programs)
    }
}

} // verus!
