//! Choosing plugins by name, and what the plugins compute.
use sysdc::plugin::input::{DebugPlugin as InDebug, FilesPlugin};
use sysdc::plugin::output::JSONPlugin;
use sysdc::plugin::{InPlugin, OutPlugin, PluginError, PluginManager};

#[test]
fn test_in_debug() {
    let plugin_manager = PluginManager::new();
    let plugin = plugin_manager.get_type_in(&"debug".to_string());
    assert!(plugin.is_ok());
    match plugin.unwrap() {
        InPlugin::Debug(p) => {
            p.run(vec![]).unwrap();
        }
        InPlugin::Files(_) => panic!("the debug plugin was expected"),
    }
}

#[test]
#[should_panic]
fn test_in_debug_panic() {
    PluginManager::new().get_type_in(&"test".to_string()).unwrap();
}

#[test]
fn test_out_debug() {
    let plugin_manager = PluginManager::new();
    let plugin = plugin_manager.get_type_out(&"debug".to_string());
    assert!(plugin.is_ok());
    assert!(matches!(plugin.unwrap(), OutPlugin::Debug(_)));
}

#[test]
#[should_panic]
fn test_out_debug_panic() {
    PluginManager::new().get_type_out(&"test".to_string()).unwrap();
}

#[test]
fn plugins_are_found_by_name() {
    let manager = PluginManager::new();
    assert_eq!(manager.get_type_in(&"files".to_string()).unwrap().name(), "files");
    assert_eq!(manager.get_type_out(&"json".to_string()).unwrap().name(), "json");
    assert_eq!(manager.get_type_out(&"debug".to_string()).unwrap().name(), "debug");
    assert_eq!(
        manager.get_type_in(&"json".to_string()).err(),
        Some(PluginError::NotFound("json".to_string()))
    );
}

#[test]
fn debug_plugin_gives_the_debug_unit() {
    let programs = InDebug.run(vec!["ignored".to_string()]).unwrap();
    assert_eq!(programs.len(), 1);
    assert_eq!(programs[0].0, "debug");
    assert!(programs[0].1.contains("module BoxModule"));
}

#[test]
fn files_plugin_names_units_by_file_name() {
    let files = vec![
        ("box.def".to_string(), "data Box {}".to_string()),
        ("noext".to_string(), "module M {}".to_string()),
        ("a.b.c".to_string(), "".to_string()),
    ];
    let programs = FilesPlugin.collect(&vec!["*.def".to_string()], files).unwrap();
    assert_eq!(
        programs,
        vec![
            ("box".to_string(), "data Box {}".to_string()),
            ("noext".to_string(), "module M {}".to_string()),
            ("a".to_string(), "".to_string()),
        ]
    );
}

#[test]
fn files_plugin_needs_arguments() {
    let r = FilesPlugin.collect(&vec![], vec![("a.def".to_string(), "".to_string())]);
    assert_eq!(r, Err(PluginError::Runtime("Argument list is empty".to_string())));
}

#[test]
fn json_plugin_destination() {
    let p = JSONPlugin;
    assert_eq!(p.destination(&vec![]), Ok(None));
    assert_eq!(p.destination(&vec!["out.json".to_string()]), Ok(Some("out.json".to_string())));
    assert_eq!(
        p.destination(&vec!["a".to_string(), "b".to_string()]),
        Err(PluginError::Runtime("Usage: out json <filepath>".to_string()))
    );
}
