//! Names and types.
use sysdc::lang::name::Name;
use sysdc::lang::types::TypeKind;
use sysdc::compiler::name::Name as CName;
use sysdc::compiler::Compiler;

#[test]
fn name_create_name() {
    let root = Name::new_root();
    let name = Name::new(&root, "aaa".to_string());
    assert_eq!(name.get_full_name(), ".0.aaa".to_string());

    let name = Name::new_root();
    assert_eq!(name.get_full_name(), ".0".to_string());

    let root = CName::new_root();
    let name = CName::from(&root, "aaa".to_string());
    assert_eq!(name.get_global_name(), ".0.aaa".to_string());

    let name = CName::new_root();
    assert_eq!(name.get_global_name(), ".0".to_string());
}

#[test]
fn compile() {
    let mut compiler = Compiler::new();
    let programs = [
        "unit test.A; data A {}",
        "unit test.B; data B {}",
        "unit test.C; data C {}",
        "unit test.D; data D {}",
        "unit test.E; data E {}",
    ];
    for program in programs {
        compiler.add_unit(program.to_string()).unwrap();
    }
    compiler.generate_system().unwrap();
}

/// Serializes a kind as MessagePack and reads it back.
fn check_serialize(kind: TypeKind) {
    let written = kind.serialized_name().unwrap();
    let serialized = rmp_serde::to_vec(&written).unwrap();
    let read: String = rmp_serde::from_slice(&serialized[..]).unwrap();
    assert_eq!(TypeKind::from_serialized(read), kind);
}

#[test]
fn primitive() {
    check_serialize(TypeKind::Int32);
    check_serialize(TypeKind::UInt32);
    check_serialize(TypeKind::Float32);
    check_serialize(TypeKind::Boolean);
    check_serialize(TypeKind::Char);
    check_serialize(TypeKind::Data);
}

#[test]
#[should_panic]
fn primitive_unsolved_1() {
    check_serialize(TypeKind::Unsolved("aaa".to_string()));
}

#[test]
#[should_panic]
fn primitive_unsolved_2() {
    check_serialize(TypeKind::UnsolvedNoHint);
}
