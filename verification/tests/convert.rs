//! Converting parsed structures into checked ones item by item.
use sysdc::lang::error::{PError, PErrorKind};
use sysdc::lang::name::Name;
use sysdc::lang::structure::unchecked::{SysDCData, SysDCModule, SysDCSpawnDetail};
use sysdc::lang::structure::SysDCSpawnDetail as CheckedDetail;
use sysdc::lang::types::{Type, TypeKind};

fn member(name: &str) -> (Name, Type) {
    (Name::new(&Name::new_root(), name.to_string()), Type::from("i32".to_string()))
}

#[test]
fn data_members_are_converted_in_order() {
    let data = SysDCData::new(Name::new_root(), vec![member("a"), member("b")]);
    let converted = data
        .convert(|(n, t): (Name, Type)| Ok((Name::new(&n, "x".to_string()), t)))
        .unwrap();
    let names: Vec<String> = converted.members.iter().map(|m| m.0.get_full_name()).collect();
    assert_eq!(names, vec![".0.a.x", ".0.b.x"]);
    assert_eq!(converted.name, Name::new_root());
}

#[test]
fn the_first_failure_stops_a_conversion() {
    let data = SysDCData::new(Name::new_root(), vec![member("a"), member("bad"), member("c")]);
    let r = data.convert(|(n, t): (Name, Type)| {
        if n.name == "bad" {
            Err(PError::from(PErrorKind::NotFound(n.name.clone())))
        } else {
            Ok((n, t))
        }
    });
    assert_eq!(r.unwrap_err().kind, PErrorKind::NotFound("bad".to_string()));

    let module = SysDCModule::new(Name::new_root(), vec![]);
    let converted = module
        .convert(|_f| -> Result<sysdc::lang::structure::SysDCFunction, PError> {
            Err(PError::from(PErrorKind::IllegalAccess))
        })
        .unwrap();
    assert!(converted.functions.is_empty());
}

#[test]
fn spawn_lines_are_converted_by_kind() {
    let (n, t) = member("v");
    let line = SysDCSpawnDetail::new_return(n, t);
    let solve = |(n, _t): (Name, Type)| -> Result<(Name, Type), PError> { Ok((n, Type::new(TypeKind::Int32, None))) };
    let converted = line
        .convert(solve, solve, |name, func, args| Ok((name, func, args)))
        .unwrap();
    match converted {
        CheckedDetail::Return(n, t) => {
            assert_eq!(n.get_full_name(), ".0.v");
            assert_eq!(t.kind, TypeKind::Int32);
        }
        _ => panic!("a return line was expected"),
    }
}
