//! The command line: splitting lines, choosing what to run, and the state of
//! the interactive mode.
use sysdc::cli::exec::{ExecCmd, ExecError, Tool};
use sysdc::cli::interactive::{CommandError, InteractiveCmd, InteractiveError, Request};
use sysdc::cli::parse::ParseCmd;
use sysdc::command::cli::CliCmd;
use sysdc::plugin::{OutPlugin, PluginError};

#[test]
fn test_parse_input() {
    assert!(InteractiveCmd::parse_input("".to_string()).is_err());

    match InteractiveCmd::parse_input("aaa".to_string()) {
        Ok((cmd, subcmd, args)) => {
            let empty_string_vec: Vec<String> = vec![];
            assert_eq!(cmd, "aaa");
            assert_eq!(subcmd, "");
            assert_eq!(args, empty_string_vec);
        }
        Err(e) => panic!("{}", e.message()),
    }

    match InteractiveCmd::parse_input("aaa bbb".to_string()) {
        Ok((cmd, subcmd, args)) => {
            let empty_string_vec: Vec<String> = vec![];
            assert_eq!(cmd, "aaa");
            assert_eq!(subcmd, "bbb");
            assert_eq!(args, empty_string_vec);
        }
        Err(e) => panic!("{}", e.message()),
    }

    match InteractiveCmd::parse_input("aaa bbb ccc".to_string()) {
        Ok((cmd, subcmd, args)) => {
            assert_eq!(cmd, "aaa");
            assert_eq!(subcmd, "bbb");
            assert_eq!(args, vec!["ccc".to_string()]);
        }
        Err(e) => panic!("{}", e.message()),
    }
}

#[test]
fn test_parse_cli_text() {
    assert!(CliCmd::parse_cli_text("".to_string()).is_none());
    assert!(CliCmd::parse_cli_text("aaa".to_string()).is_none());

    match CliCmd::parse_cli_text("aaa bbb".to_string()) {
        Some((mode, name, args)) => {
            let empty_string_vec: Vec<String> = vec![];
            assert_eq!(mode, "aaa");
            assert_eq!(name, "bbb");
            assert_eq!(args, empty_string_vec);
        }
        None => assert!(false),
    }

    match CliCmd::parse_cli_text("aaa bbb ccc".to_string()) {
        Some((mode, name, args)) => {
            assert_eq!(mode, "aaa");
            assert_eq!(name, "bbb");
            assert_eq!(args, vec!["ccc".to_string()]);
        }
        None => assert!(false),
    }
}

#[test]
fn cli_text_needs_a_name() {
    assert!(CliCmd::parse_cli_text("aaa ".to_string()).is_none());
    assert_eq!(
        CliCmd::parse_cli_text("in files a b".to_string()),
        Some(("in".to_string(), "files".to_string(), vec!["a".to_string(), "b".to_string()]))
    );
    CliCmd.run();
}

#[test]
fn input_keeps_empty_words() {
    assert_eq!(
        InteractiveCmd::parse_input("in  x".to_string()),
        Ok(("in".to_string(), "".to_string(), vec!["x".to_string()]))
    );
    assert_eq!(
        InteractiveCmd::parse_input(" ".to_string()),
        Ok(("".to_string(), "".to_string(), vec![]))
    );
}

#[test]
fn requests_of_lines() {
    assert_eq!(InteractiveCmd::request_of("exit".to_string()), Ok(Request::Exit));
    assert_eq!(
        InteractiveCmd::request_of("in files a.def b.def".to_string()),
        Ok(Request::In("files".to_string(), vec!["a.def".to_string(), "b.def".to_string()]))
    );
    assert_eq!(
        InteractiveCmd::request_of("out json".to_string()),
        Ok(Request::Out("json".to_string(), vec![]))
    );
    assert_eq!(InteractiveCmd::request_of("load sys".to_string()), Ok(Request::Load("sys".to_string())));
    assert_eq!(InteractiveCmd::request_of("save sys x".to_string()), Ok(Request::Save("sys".to_string())));
    assert_eq!(InteractiveCmd::request_of("".to_string()), Err(CommandError::Syntax));
    assert_eq!(
        InteractiveCmd::request_of("quit now".to_string()),
        Err(CommandError::NotFound("quit".to_string()))
    );
}

#[test]
fn command_error_messages() {
    assert_eq!(CommandError::NotFound("x".to_string()).message(), "Command \"x\" is not found");
    assert_eq!(CommandError::Syntax.message(), "Usage: in/out/load/save <name> <args>");
    assert_eq!(CommandError::SystemIsNotSetted.message(), "Must run \"in\" command before run command");
}

#[test]
fn interactive_state() {
    let mut cmd = InteractiveCmd::new();
    assert!(matches!(cmd.system_to_save(), Err(CommandError::SystemIsNotSetted)));
    assert!(matches!(
        cmd.select_out(&"json".to_string()),
        Err(InteractiveError::Command(CommandError::SystemIsNotSetted))
    ));
    assert!(matches!(
        cmd.select_out(&"svg".to_string()),
        Err(InteractiveError::Plugin(PluginError::NotFound(_)))
    ));

    let programs = vec![(
        "box".to_string(),
        "unit box; data Box { x: i32 } module BoxModule { func new(x: i32) -> Box { @return box @spawn box: Box { use x; } } }"
            .to_string(),
    )];
    assert!(cmd.load_programs(&programs).is_ok());
    let saved = cmd.system_to_save().unwrap();
    assert_eq!(saved.units.len(), 1);
    assert_eq!(saved.units[0].name.get_full_name(), ".0.box");
    match cmd.select_out(&"json".to_string()) {
        Ok((p, s)) => {
            assert!(matches!(p, OutPlugin::Json(_)));
            assert_eq!(s.units.len(), 1);
        }
        Err(e) => panic!("{:?}", e),
    }

    let bad = vec![("bad".to_string(), "unit bad; data {".to_string())];
    assert!(cmd.load_programs(&bad).is_err());
    assert_eq!(cmd.system_to_save().unwrap().units.len(), 1);
}

#[test]
fn parse_command_checks_all_files() {
    let cmd = ParseCmd::new(vec!["*.def".to_string()], "out.sysdc".to_string());
    let files = vec![
        ("a.def".to_string(), "unit a; data A { x: i32 }".to_string()),
        ("b.def".to_string(), "unit b; from a import A; data B { a: A }".to_string()),
    ];
    let system = cmd.run(&files).unwrap();
    assert_eq!(system.units.len(), 2);
    let broken = vec![("c.def".to_string(), "unit c; data B { a: C }".to_string())];
    assert!(cmd.run(&broken).is_err());
}

#[test]
fn exec_tools() {
    let cmd = |t: &str| ExecCmd::new(t.to_string(), vec![], "out.sysdc".to_string());
    assert_eq!(cmd("debug").tool_to_run(), Ok(Tool::Debug));
    assert_eq!(cmd("json").tool_to_run(), Ok(Tool::Json));
    assert_eq!(cmd("view").tool_to_run(), Err(ExecError::ToolNotFound("view".to_string())));
    assert_eq!(ExecError::ToolNotFound("view".to_string()).message(), "Tool \"view\" not found");
}

#[test]
fn tool_and_plugin_messages() {
    use_messages();
}

fn use_messages() {
    assert_eq!(sysdc::cli::tool::ToolCmd.message(), "tool");
    assert_eq!(
        sysdc::cli::tool::ListCmd.lines(),
        vec![
            "* debug (v1.0.0) : Print a internal structure".to_string(),
            "* json (v1.0.1) : Convert a internal structure into JSON".to_string(),
            "* view (v0.1.0) : Graphically depict software design".to_string(),
        ]
    );
    let cmd = |sub| sysdc::command::plugin::PluginCmd { sub };
    assert_eq!(cmd(sysdc::command::plugin::PluginSub::add).message(), "Plugin add");
    assert_eq!(cmd(sysdc::command::plugin::PluginSub::remove).message(), "Plugin remove");
    assert_eq!(cmd(sysdc::command::plugin::PluginSub::upgrade).message(), "Plugin upgrade");
    assert_eq!(cmd(sysdc::command::plugin::PluginSub::info).message(), "Plugin info");
}
